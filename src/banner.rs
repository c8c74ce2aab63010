//! Banner lines: a text centred in a run of fill characters, between
//! optional end markers, to a given width.
use vstd::prelude::*;
use vstd::string::*;

verus! {

/// `e` written `n` times.
pub open spec fn repeat_text(e: Seq<char>, n: nat) -> Seq<char>
    decreases n,
{
    if n == 0 {
        Seq::empty()
    } else {
        repeat_text(e, (n - 1) as nat) + e
    }
}

/// The length in bytes of a text.
pub open spec fn byte_len(s: &str) -> int {
    s.spec_bytes().len() as int
}

/// How many fill pieces stand on each side of the text.
pub open spec fn side_count(text: &str, left: &str, right: &str, size: int) -> int {
    (size - byte_len(left) - byte_len(right) - byte_len(text)) / 2
}

/// How many extra fill pieces make up the width when the room left is odd.
pub open spec fn extra_count(text: &str, left: &str, right: &str, size: int) -> int {
    size - byte_len(left) - byte_len(right) - (side_count(text, left, right, size) * 2 + byte_len(
        text,
    ))
}

/// The banner line: the left end, the side fill, the text, the side fill,
/// the extra fill and the right end.
pub open spec fn banner_text(e: &str, text: &str, left: &str, right: &str, size: int) -> Seq<
    char,
> {
    let side = repeat_text(e@, side_count(text, left, right, size) as nat);
    left@ + side + text@ + side + repeat_text(e@, extra_count(text, left, right, size) as nat)
        + right@
}

/// Appends `e` to `s` `n` times.
fn append_repeated(s: &mut String, e: &str, n: usize)
    ensures
        final(s)@ == old(s)@ + repeat_text(e@, n as nat),
{
    let mut i: usize = 0;
    proof {
        assert(s@ =~= old(s)@ + repeat_text(e@, 0));
    }
    while i < n
        invariant
            i <= n,
            s@ == old(s)@ + repeat_text(e@, i as nat),
        decreases n - i,
    {
        s.append(e);
        proof {
            assert(repeat_text(e@, (i + 1) as nat) == repeat_text(e@, i as nat) + e@);
            assert(s@ =~= old(s)@ + repeat_text(e@, (i + 1) as nat));
        }
        i = i + 1;
    }
}

/// A banner line of `size` bytes when every piece is one byte wide: `text`
/// centred in copies of `e`, between `left` and `right`. The ends and the
/// text must fit in `size`.
pub fn banner(e: &str, text: &str, left: &str, right: &str, size: usize) -> (r: String)
    requires
        byte_len(left) + byte_len(right) + byte_len(text) <= size,
    ensures
        r@ == banner_text(e, text, left, right, size as int),
{
    let end_len = left.len() + right.len();
    let len = text.len();
    let side = (size - end_len - len) / 2;
    let extra = size - end_len - (side * 2 + len);
    let mut s = String::from_str(left);
    append_repeated(&mut s, e, side);
    s.append(text);
    append_repeated(&mut s, e, side);
    append_repeated(&mut s, e, extra);
    s.append(right);
    proof {
        assert(s@ =~= banner_text(e, text, left, right, size as int));
    }
    s
}

} // verus!

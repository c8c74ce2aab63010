//! IPv4 addresses and IPv4 socket addresses, read from their usual text forms
//! (`"127.0.0.1"`, `"127.0.0.1:8080"`).
use vstd::prelude::*;
use vstd::string::*;
use crate::document::{lemma_split_without_dots, split_dots, split_path, views};

verus! {

/// An IPv4 address, as its four octets from left to right.
#[derive(Clone, Copy, Debug, PartialEq, Eq, Structural)]
pub struct Ipv4Addr {
    pub a: u8,
    pub b: u8,
    pub c: u8,
    pub d: u8,
}

/// An IPv4 address together with a port.
#[derive(Clone, Copy, Debug, PartialEq, Eq, Structural)]
pub struct SocketAddrV4 {
    pub ip: Ipv4Addr,
    pub port: u16,
}

pub open spec fn is_digit(c: char) -> bool {
    '0' <= c && c <= '9'
}

pub open spec fn all_digits(s: Seq<char>) -> bool {
    forall|i: int| 0 <= i < s.len() ==> is_digit(#[trigger] s[i])
}

/// The number that the decimal digits `s` spell.
pub open spec fn digits_value(s: Seq<char>) -> nat
    decreases s.len(),
{
    if s.len() == 0 {
        0
    } else {
        digits_value(s.drop_last()) * 10 + (s.last() as nat - '0' as nat) as nat
    }
}

/// An octet: one to three digits, no leading zero but in `"0"` itself, at most 255.
pub open spec fn octet_text(s: Seq<char>) -> Option<u8> {
    if 1 <= s.len() <= 3 && all_digits(s) && !(s.len() > 1 && s[0] == '0') && digits_value(s)
        <= 255 {
        Some(digits_value(s) as u8)
    } else {
        None
    }
}

/// A dotted quad: exactly four octets between dots.
pub open spec fn ipv4_text(s: Seq<char>) -> Option<Ipv4Addr> {
    let p = split_dots(s);
    if p.len() == 4 && octet_text(p[0]) is Some && octet_text(p[1]) is Some && octet_text(
        p[2],
    ) is Some && octet_text(p[3]) is Some {
        Some(
            Ipv4Addr {
                a: octet_text(p[0]).unwrap(),
                b: octet_text(p[1]).unwrap(),
                c: octet_text(p[2]).unwrap(),
                d: octet_text(p[3]).unwrap(),
            },
        )
    } else {
        None
    }
}

/// A port: one or more digits (leading zeros allowed), at most 65535.
pub open spec fn port_text(s: Seq<char>) -> Option<u16> {
    if s.len() >= 1 && all_digits(s) && digits_value(s) <= 65535 {
        Some(digits_value(s) as u16)
    } else {
        None
    }
}

/// `i` is the position of the first `':'` in `s`.
pub open spec fn first_colon(s: Seq<char>, i: int) -> bool {
    0 <= i < s.len() && s[i] == ':' && forall|j: int| 0 <= j < i ==> s[j] != ':'
}

/// An address, a colon and a port.
pub open spec fn socket_text(s: Seq<char>) -> Option<SocketAddrV4> {
    if exists|i: int| first_colon(s, i) {
        let i = choose|i: int| first_colon(s, i);
        match (ipv4_text(s.subrange(0, i)), port_text(s.subrange(i + 1, s.len() as int))) {
            (Some(ip), Some(port)) => Some(SocketAddrV4 { ip, port }),
            _ => None,
        }
    } else {
        None
    }
}

proof fn lemma_digits_value_monotone(s: Seq<char>, j: int)
    requires
        0 <= j <= s.len(),
        all_digits(s),
    ensures
        digits_value(s.subrange(0, j)) <= digits_value(s),
    decreases s.len() - j,
{
    if j < s.len() {
        let t = s.subrange(0, j + 1);
        assert(t.drop_last() == s.subrange(0, j));
        assert(is_digit(s[j]));
        lemma_digits_value_monotone(s, j + 1);
    } else {
        assert(s.subrange(0, j) == s);
    }
}

/// Reads a decimal number of at most `limit`, or `None` when `s` is empty,
/// holds a non-digit or spells a larger number.
fn decimal_at_most(s: &str, limit: u32) -> (r: Option<u32>)
    requires
        limit >= 9,
    ensures
        r matches Some(v) ==> s@.len() >= 1 && all_digits(s@) && v == digits_value(s@) && v
            <= limit,
        r is None ==> !(s@.len() >= 1 && all_digits(s@) && digits_value(s@) <= limit),
{
    let n = s.unicode_len();
    if n == 0 {
        return None;
    }
    let mut acc: u32 = 0;
    let mut i: usize = 0;
    proof {
        assert(s@.subrange(0, 0).len() == 0);
    }
    while i < n
        invariant
            n == s@.len(),
            i <= n,
            limit >= 9,
            acc <= limit,
            acc == digits_value(s@.subrange(0, i as int)),
            all_digits(s@.subrange(0, i as int)),
        decreases n - i,
    {
        let c = s.get_char(i);
        if !('0' <= c && c <= '9') {
            proof {
                assert(!is_digit(s@[i as int]));
            }
            return None;
        }
        let d = (c as u32) - ('0' as u32);
        proof {
            let t = s@.subrange(0, i as int + 1);
            assert(t.drop_last() == s@.subrange(0, i as int));
            assert(t.last() == c);
        }
        if acc > (limit - d) / 10 {
            proof {
                assert(acc * 10 + d > limit) by (nonlinear_arith)
                    requires
                        acc > (limit - d) / 10,
                        d <= 9,
                        limit >= 9,
                ;
                if all_digits(s@) {
                    lemma_digits_value_monotone(s@, i as int + 1);
                }
            }
            return None;
        }
        proof {
            assert(acc * 10 + d <= limit) by (nonlinear_arith)
                requires
                    acc <= (limit - d) / 10,
                    d <= 9,
                    limit >= 9,
            ;
            assert(all_digits(s@.subrange(0, i as int + 1))) by {
                assert forall|k: int| 0 <= k < i + 1 implies is_digit(
                    #[trigger] s@.subrange(0, i as int + 1)[k],
                ) by {
                    if k < i {
                        assert(s@.subrange(0, i as int + 1)[k] == s@.subrange(0, i as int)[k]);
                    }
                }
            }
        }
        acc = acc * 10 + d;
        i = i + 1;
    }
    proof {
        assert(s@.subrange(0, n as int) == s@);
    }
    Some(acc)
}

/// Reads one octet of a dotted quad.
fn octet(s: &str) -> (r: Option<u8>)
    ensures
        r == octet_text(s@),
{
    let n = s.unicode_len();
    if n < 1 || n > 3 {
        return None;
    }
    if n > 1 && s.get_char(0) == '0' {
        return None;
    }
    match decimal_at_most(s, 255) {
        Some(v) => Some(v as u8),
        None => None,
    }
}

/// Reads a port number.
fn port(s: &str) -> (r: Option<u16>)
    ensures
        r == port_text(s@),
{
    match decimal_at_most(s, 65535) {
        Some(v) => Some(v as u16),
        None => None,
    }
}

impl Ipv4Addr {
    /// Reads a dotted quad such as `"127.0.0.1"`.
    pub fn parse(s: &str) -> (r: Option<Ipv4Addr>)
        ensures
            r == ipv4_text(s@),
    {
        let parts = split_path(s);
        proof {
            assert(views(parts@).len() == parts@.len());
        }
        if parts.len() != 4 {
            return None;
        }
        proof {
            assert(views(parts@)[0] == parts@[0]@);
            assert(views(parts@)[1] == parts@[1]@);
            assert(views(parts@)[2] == parts@[2]@);
            assert(views(parts@)[3] == parts@[3]@);
        }
        let a = octet(parts[0].as_str());
        let b = octet(parts[1].as_str());
        let c = octet(parts[2].as_str());
        let d = octet(parts[3].as_str());
        match (a, b, c, d) {
            (Some(a), Some(b), Some(c), Some(d)) => Some(Ipv4Addr { a, b, c, d }),
            _ => None,
        }
    }
}

impl SocketAddrV4 {
    /// Reads an address and a port such as `"127.0.0.1:8080"`.
    pub fn parse(s: &str) -> (r: Option<SocketAddrV4>)
        ensures
            r == socket_text(s@),
    {
        let n = s.unicode_len();
        let mut i: usize = 0;
        while i < n
            invariant
                n == s@.len(),
                i <= n,
                forall|j: int| 0 <= j < i ==> s@[j] != ':',
            ensures
                i <= n,
                forall|j: int| 0 <= j < i ==> s@[j] != ':',
                i == n || s@[i as int] == ':',
            decreases n - i,
        {
            if s.get_char(i) == ':' {
                break;
            }
            i = i + 1;
        }
        if i == n {
            proof {
                assert forall|k: int| !first_colon(s@, k) by {
                    if 0 <= k < s@.len() {
                        assert(s@[k] != ':');
                    }
                }
            }
            return None;
        }
        proof {
            assert(first_colon(s@, i as int));
            assert forall|k: int| first_colon(s@, k) implies k == i by {
                if k < i {
                    assert(s@[k] != ':');
                } else if k > i {
                    assert(s@[i as int] != ':');
                }
            }
        }
        let left = s.substring_char(0, i);
        let right = s.substring_char(i + 1, n);
        match (Ipv4Addr::parse(left), port(right)) {
            (Some(ip), Some(port)) => Some(SocketAddrV4 { ip, port }),
            _ => None,
        }
    }
}

/// The decimal digits of `n`, most significant first, with no leading zero.
pub open spec fn decimal_nat(n: nat) -> Seq<char>
    decreases n,
{
    if n < 10 {
        seq![(n + '0' as nat) as char]
    } else {
        decimal_nat(n / 10).push(((n % 10) + '0' as nat) as char)
    }
}

/// The dotted-quad text of an address.
pub open spec fn ipv4_string(a: Ipv4Addr) -> Seq<char> {
    decimal_nat(a.a as nat) + "."@ + decimal_nat(a.b as nat) + "."@ + decimal_nat(a.c as nat) + "."@
        + decimal_nat(a.d as nat)
}

/// The `address:port` text of a socket address.
pub open spec fn socket_string(a: SocketAddrV4) -> Seq<char> {
    ipv4_string(a.ip) + ":"@ + decimal_nat(a.port as nat)
}

proof fn lemma_digit_char(d: nat)
    requires
        d < 10,
    ensures
        is_digit(((d + '0' as nat) as char)),
        (((d + '0' as nat) as char) as nat - '0' as nat) == d,
        d > 0 ==> ((d + '0' as nat) as char) != '0',
{
}

proof fn lemma_decimal_nat(n: nat)
    ensures
        all_digits(decimal_nat(n)),
        digits_value(decimal_nat(n)) == n,
        1 <= decimal_nat(n).len(),
        n < 10 ==> decimal_nat(n).len() == 1,
        n < 100 ==> decimal_nat(n).len() <= 2,
        n < 1000 ==> decimal_nat(n).len() <= 3,
        n >= 10 ==> decimal_nat(n)[0] != '0',
    decreases n,
{
    if n < 10 {
        lemma_digit_char(n);
        assert(decimal_nat(n).drop_last() =~= Seq::<char>::empty());
        assert(digits_value(Seq::<char>::empty()) == 0);
        assert(digits_value(decimal_nat(n)) == digits_value(decimal_nat(n).drop_last()) * 10 + (
        decimal_nat(n).last() as nat - '0' as nat) as nat);
    } else {
        let q = n / 10;
        let d = n % 10;
        lemma_decimal_nat(q);
        lemma_digit_char(d);
        let s = decimal_nat(n);
        let p = decimal_nat(q);
        assert(s == p.push(((d + '0' as nat) as char)));
        assert(s.drop_last() =~= p);
        assert(n == q * 10 + d);
        assert(s.last() == ((d + '0' as nat) as char));
        assert(digits_value(s) == digits_value(p) * 10 + (s.last() as nat - '0' as nat) as nat);
        assert forall|i: int| 0 <= i < s.len() implies is_digit(#[trigger] s[i]) by {
            if i < p.len() {
                assert(s[i] == p[i]);
            }
        }
        if q < 10 {
            lemma_digit_char(q);
        }
        assert(s[0] == p[0]);
    }
}

proof fn lemma_split_dots_nonempty(s: Seq<char>)
    ensures
        split_dots(s).len() >= 1,
    decreases s.len(),
{
    if s.len() > 0 {
        lemma_split_dots_nonempty(s.drop_last());
    }
}

/// A dot-free piece, a dot and a rest split into the piece and the rest's pieces.
proof fn lemma_split_after_dot(x: Seq<char>, y: Seq<char>)
    requires
        forall|i: int| 0 <= i < x.len() ==> x[i] != '.',
    ensures
        split_dots(x + seq!['.'] + y) == seq![x] + split_dots(y),
    decreases y.len(),
{
    let s = x + seq!['.'] + y;
    if y.len() == 0 {
        assert(s =~= x.push('.'));
        assert(s.drop_last() =~= x);
        lemma_split_without_dots(x);
        assert(split_dots(y) == seq![Seq::<char>::empty()]);
        assert(split_dots(s) =~= seq![x] + split_dots(y));
    } else {
        let y2 = y.drop_last();
        lemma_split_after_dot(x, y2);
        lemma_split_dots_nonempty(y2);
        assert(s.drop_last() =~= x + seq!['.'] + y2);
        assert(s.last() == y.last());
        let r = split_dots(y2);
        if y.last() == '.' {
            assert(split_dots(s) =~= seq![x] + split_dots(y));
        } else {
            assert((seq![x] + r).last() == r.last());
            assert(split_dots(s) =~= seq![x] + split_dots(y));
        }
    }
}

proof fn lemma_octet_round_trip(n: u8)
    ensures
        octet_text(decimal_nat(n as nat)) == Some(n),
        forall|i: int|
            0 <= i < decimal_nat(n as nat).len() ==> is_digit(#[trigger] decimal_nat(n as nat)[i]),
{
    lemma_decimal_nat(n as nat);
}

proof fn lemma_no_dots(s: Seq<char>)
    requires
        all_digits(s),
    ensures
        forall|i: int| 0 <= i < s.len() ==> s[i] != '.' && s[i] != ':',
{
    assert forall|i: int| 0 <= i < s.len() implies s[i] != '.' && s[i] != ':' by {
        assert(is_digit(s[i]));
    }
}

/// Reading the dotted-quad text of an address gives the address back.
pub proof fn lemma_ipv4_round_trip(a: Ipv4Addr)
    ensures
        ipv4_text(ipv4_string(a)) == Some(a),
{
    let da = decimal_nat(a.a as nat);
    let db = decimal_nat(a.b as nat);
    let dc = decimal_nat(a.c as nat);
    let dd = decimal_nat(a.d as nat);
    lemma_octet_round_trip(a.a);
    lemma_octet_round_trip(a.b);
    lemma_octet_round_trip(a.c);
    lemma_octet_round_trip(a.d);
    lemma_decimal_nat(a.a as nat);
    lemma_decimal_nat(a.b as nat);
    lemma_decimal_nat(a.c as nat);
    lemma_decimal_nat(a.d as nat);
    lemma_no_dots(da);
    lemma_no_dots(db);
    lemma_no_dots(dc);
    lemma_no_dots(dd);
    reveal_strlit(".");
    lemma_split_without_dots(dd);
    lemma_split_after_dot(dc, dd);
    lemma_split_after_dot(db, dc + seq!['.'] + dd);
    lemma_split_after_dot(da, db + seq!['.'] + dc + seq!['.'] + dd);
    assert(ipv4_string(a) =~= da + seq!['.'] + (db + seq!['.'] + dc + seq!['.'] + dd));
    assert(db + seq!['.'] + dc + seq!['.'] + dd =~= db + seq!['.'] + (dc + seq!['.'] + dd));
    let p = split_dots(ipv4_string(a));
    assert(p =~= seq![da, db, dc, dd]);
}

/// Reading the `address:port` text of a socket address gives it back.
pub proof fn lemma_socket_round_trip(a: SocketAddrV4)
    ensures
        socket_text(socket_string(a)) == Some(a),
{
    let ip = ipv4_string(a.ip);
    let dp = decimal_nat(a.port as nat);
    let s = socket_string(a);
    lemma_ipv4_round_trip(a.ip);
    lemma_decimal_nat(a.port as nat);
    lemma_decimal_nat(a.ip.a as nat);
    lemma_decimal_nat(a.ip.b as nat);
    lemma_decimal_nat(a.ip.c as nat);
    lemma_decimal_nat(a.ip.d as nat);
    lemma_no_dots(decimal_nat(a.ip.a as nat));
    lemma_no_dots(decimal_nat(a.ip.b as nat));
    lemma_no_dots(decimal_nat(a.ip.c as nat));
    lemma_no_dots(decimal_nat(a.ip.d as nat));
    reveal_strlit(".");
    reveal_strlit(":");
    let i = ip.len() as int;
    assert forall|j: int| 0 <= j < i implies s[j] != ':' by {
        assert(s[j] == ip[j]);
        let la = decimal_nat(a.ip.a as nat).len() as int;
        let lb = decimal_nat(a.ip.b as nat).len() as int;
        let lc = decimal_nat(a.ip.c as nat).len() as int;
        if j < la {
            assert(ip[j] == decimal_nat(a.ip.a as nat)[j]);
        } else if j == la {
        } else if j < la + 1 + lb {
            assert(ip[j] == decimal_nat(a.ip.b as nat)[j - la - 1]);
        } else if j == la + 1 + lb {
        } else if j < la + 1 + lb + 1 + lc {
            assert(ip[j] == decimal_nat(a.ip.c as nat)[j - la - 1 - lb - 1]);
        } else if j == la + 1 + lb + 1 + lc {
        } else {
            assert(ip[j] == decimal_nat(a.ip.d as nat)[j - la - 1 - lb - 1 - lc - 1]);
        }
    }
    assert(s[i] == ':');
    assert(first_colon(s, i));
    assert forall|k: int| first_colon(s, k) implies k == i by {
        if k > i {
            assert(s[i] != ':');
        }
    }
    assert(s.subrange(0, i) =~= ip);
    assert(s.subrange(i + 1, s.len() as int) =~= dp);
}

/// The one-character text of a decimal digit.
fn digit_text(d: u32) -> (r: &'static str)
    requires
        d < 10,
    ensures
        r@ == seq![((d as nat) + '0' as nat) as char],
{
    if d == 0 {
        proof {
            reveal_strlit("0");
        }
        return "0";
    }
    if d == 1 {
        proof {
            reveal_strlit("1");
        }
        return "1";
    }
    if d == 2 {
        proof {
            reveal_strlit("2");
        }
        return "2";
    }
    if d == 3 {
        proof {
            reveal_strlit("3");
        }
        return "3";
    }
    if d == 4 {
        proof {
            reveal_strlit("4");
        }
        return "4";
    }
    if d == 5 {
        proof {
            reveal_strlit("5");
        }
        return "5";
    }
    if d == 6 {
        proof {
            reveal_strlit("6");
        }
        return "6";
    }
    if d == 7 {
        proof {
            reveal_strlit("7");
        }
        return "7";
    }
    if d == 8 {
        proof {
            reveal_strlit("8");
        }
        return "8";
    }
    proof {
        reveal_strlit("9");
    }
    "9"
}

/// Appends `n` in decimal to `s`.
pub(crate) fn append_decimal(s: &mut String, n: u32)
    ensures
        final(s)@ == old(s)@ + decimal_nat(n as nat),
    decreases n,
{
    if n >= 10 {
        append_decimal(s, n / 10);
    }
    s.append(digit_text(n % 10));
    proof {
        if n >= 10 {
            assert(decimal_nat(n as nat) == decimal_nat((n / 10) as nat).push(
                (((n % 10) as nat) + '0' as nat) as char,
            ));
        }
        assert(s@ =~= old(s)@ + decimal_nat(n as nat));
    }
}

impl Ipv4Addr {
    /// The dotted-quad text of the address, such as `"127.0.0.1"`.
    pub fn to_text(&self) -> (r: String)
        ensures
            r@ == ipv4_string(*self),
    {
        let mut s = String::new();
        append_decimal(&mut s, self.a as u32);
        s.append(".");
        append_decimal(&mut s, self.b as u32);
        s.append(".");
        append_decimal(&mut s, self.c as u32);
        s.append(".");
        append_decimal(&mut s, self.d as u32);
        proof {
            assert(s@ =~= ipv4_string(*self));
        }
        s
    }
}

impl SocketAddrV4 {
    /// The `address:port` text, such as `"127.0.0.1:8080"`.
    pub fn to_text(&self) -> (r: String)
        ensures
            r@ == socket_string(*self),
    {
        let mut s = self.ip.to_text();
        s.append(":");
        append_decimal(&mut s, self.port as u32);
        proof {
            assert(s@ =~= socket_string(*self));
        }
        s
    }
}

} // verus!

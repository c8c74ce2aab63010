//! Host identity: what the system calls report, turned into owned text.
use vstd::prelude::*;
use vstd::string::*;
use crate::error::{framed, Error, Result};
use crate::net::{append_decimal, decimal_nat};

verus! {

/// The bytes of a C string buffer up to, not including, its first NUL.
pub open spec fn until_nul(b: Seq<u8>) -> Seq<u8> {
    if exists|i: int| 0 <= i < b.len() && b[i] == 0 {
        let i = choose|i: int| 0 <= i < b.len() && b[i] == 0 && forall|j: int| 0 <= j < i ==> b[j] != 0;
        b.subrange(0, i)
    } else {
        b
    }
}

/// What `String::from_utf8_lossy` makes of some bytes.
pub uninterp spec fn lossy_text(b: Seq<u8>) -> Seq<char>;

/// What `str::from_utf8` makes of some bytes, or `None` where they are no UTF-8.
pub uninterp spec fn utf8_text(b: Seq<u8>) -> Option<Seq<char>>;

/// `n` in decimal, with a leading `-` when negative.
pub open spec fn decimal_int(n: int) -> Seq<char> {
    if n < 0 {
        seq!['-'] + decimal_nat((-n) as nat)
    } else {
        decimal_nat(n as nat)
    }
}

/// Relies on `String::from_utf8_lossy`: each invalid sequence becomes U+FFFD.
#[verifier::external_body]
fn lossy(b: &Vec<u8>) -> (r: String)
    ensures
        r@ == lossy_text(b@),
{
    String::from_utf8_lossy(b.as_slice()).into_owned()
}

/// Relies on `str::from_utf8`: the text that the bytes encode, or the error.
#[verifier::external_body]
fn from_utf8(b: &Vec<u8>) -> (r: core::result::Result<String, core::str::Utf8Error>)
    ensures
        r matches Ok(s) ==> utf8_text(b@) == Some(s@),
        r is Err ==> utf8_text(b@) is None,
{
    std::str::from_utf8(b.as_slice()).map(|s| s.to_string())
}

/// `n` in decimal, with a leading `-` when negative.
fn decimal(n: i32) -> (r: String)
    ensures
        r@ == decimal_int(n as int),
{
    let mut s = String::new();
    if n < 0 {
        s.append("-");
        let m: u32 = (-(n as i64)) as u32;
        append_decimal(&mut s, m);
        proof {
            reveal_strlit("-");
            assert(s@ =~= decimal_int(n as int));
        }
    } else {
        append_decimal(&mut s, n as u32);
        proof {
            assert(s@ =~= decimal_int(n as int));
        }
    }
    s
}

/// The bytes of `b` before its first NUL.
fn cut_at_nul(b: &Vec<u8>) -> (r: Vec<u8>)
    ensures
        r@ == until_nul(b@),
{
    let mut out: Vec<u8> = Vec::new();
    let mut i: usize = 0;
    while i < b.len()
        invariant
            i <= b@.len(),
            out@ == b@.subrange(0, i as int),
            forall|j: int| 0 <= j < i ==> b@[j] != 0,
        decreases b@.len() - i,
    {
        if b[i] == 0 {
            proof {
                assert forall|k: int|
                    0 <= k < b@.len() && b@[k] == 0 && (forall|j: int| 0 <= j < k ==> b@[j] != 0)
                    implies k == i by {
                    if k > i {
                        assert(b@[i as int] == 0);
                    }
                }
            }
            return out;
        }
        out.push(b[i]);
        proof {
            assert(out@ =~= b@.subrange(0, i as int + 1));
        }
        i = i + 1;
    }
    proof {
        assert(out@ =~= b@);
    }
    out
}

/// The identity of the running system, as `uname` reports it.
#[derive(Debug)]
pub struct Uname {
    pub sys_name: String,
    pub node_name: String,
    pub release: String,
    pub version: String,
    pub machine: String,
}

/// What a `uname` call handed back: its status, the error number and its
/// description when it failed, and the five NUL-terminated fields.
#[derive(Debug)]
pub struct UnameReply {
    pub status: i32,
    pub errno: i32,
    pub errno_text: String,
    pub sys_name: Vec<u8>,
    pub node_name: Vec<u8>,
    pub release: Vec<u8>,
    pub version: Vec<u8>,
    pub machine: Vec<u8>,
}

/// The text of one field of a reply.
pub open spec fn field_text(b: Seq<u8>) -> Seq<char> {
    lossy_text(until_nul(b))
}

fn field(b: &Vec<u8>) -> (r: String)
    ensures
        r@ == field_text(b@),
{
    let cut = cut_at_nul(b);
    lossy(&cut)
}

/// The system identity from a `uname` reply: a failure for a negative
/// status, naming the error number and its description; otherwise each field
/// up to its NUL, invalid UTF-8 replaced.
pub fn uname(reply: &UnameReply) -> (r: Result<Uname>)
    ensures
        reply.status < 0 ==> (r matches Err(Error::UnameFailed(m)) && m@ == framed(
            "Error "@,
            decimal_int(reply.errno as int),
            " when calling uname: "@,
        ) + reply.errno_text@),
        reply.status >= 0 ==> (r matches Ok(u) && u.sys_name@ == field_text(reply.sys_name@)
            && u.node_name@ == field_text(reply.node_name@) && u.release@ == field_text(
            reply.release@,
        ) && u.version@ == field_text(reply.version@) && u.machine@ == field_text(
            reply.machine@,
        )),
{
    if reply.status < 0 {
        let mut m = String::from_str("Error ");
        let code = decimal(reply.errno);
        m.append(code.as_str());
        m.append(" when calling uname: ");
        m.append(reply.errno_text.as_str());
        return Err(Error::UnameFailed(m));
    }
    Ok(
        Uname {
            sys_name: field(&reply.sys_name),
            node_name: field(&reply.node_name),
            release: field(&reply.release),
            version: field(&reply.version),
            machine: field(&reply.machine),
        },
    )
}

/// The host name from a `gethostname` reply: a failure for a non-zero
/// status; otherwise the buffer up to its NUL, which must be UTF-8.
pub fn hostname(status: i32, buffer: &Vec<u8>) -> (r: Result<String>)
    ensures
        status != 0 ==> r matches Err(Error::IPFailed),
        status == 0 ==> match utf8_text(until_nul(buffer@)) {
            Some(s) => r matches Ok(h) && h@ == s,
            None => r matches Err(Error::Utf8Error(_)),
        },
{
    if status != 0 {
        return Err(Error::IPFailed);
    }
    let cut = cut_at_nul(buffer);
    match from_utf8(&cut) {
        Ok(s) => Ok(s),
        Err(e) => Err(Error::Utf8Error(e)),
    }
}

/// The resolver that is asked when none is named.
pub const DEFAULT_DNS: &'static str = "8.8.8.8:53";

/// The address to send the IP discovery datagram to: port 53 of `dns`, or
/// the default resolver when `dns` is empty.
pub fn resolver_address(dns: &str) -> (r: String)
    ensures
        dns@.len() == 0 ==> r@ == DEFAULT_DNS@,
        dns@.len() > 0 ==> r@ == dns@ + ":53"@,
{
    if dns.is_empty() {
        String::from_str(DEFAULT_DNS)
    } else {
        let mut a = String::from_str(dns);
        a.append(":53");
        a
    }
}

/// The identity reported on Windows, where no `uname` call exists.
pub fn windows_uname() -> (r: Uname)
    ensures
        r.sys_name@ == "Windows"@,
        r.node_name@ == ""@,
        r.release@ == ""@,
        r.version@ == "Microsoft Windows 10 Enterprise Insider Preview"@,
        r.machine@ == "x86_64"@,
{
    Uname {
        sys_name: String::from_str("Windows"),
        node_name: String::from_str(""),
        release: String::from_str(""),
        version: String::from_str("Microsoft Windows 10 Enterprise Insider Preview"),
        machine: String::from_str("x86_64"),
    }
}

} // verus!

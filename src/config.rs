//! Typed extraction of fields from a parsed document.
//!
//! Each extraction looks a dotted field path up in the document. An absent
//! field gives `Ok(false)` and leaves the output slot alone; an optional slot
//! is set to `None` instead (an optional string then reports `Ok(true)`). A
//! present field of the right shape overwrites the slot and gives
//! `Ok(true)`. A present field of the wrong shape gives the error kind that
//! belongs to the requested type, and the slot is left alone.
//!
//! Integers are narrowed to the requested width by truncation: a value out
//! of the width's range wraps around rather than failing.
use vstd::prelude::*;
use crate::document::{lemma_store_then_lookup, lookup, table_get, Document};
use crate::error::{Error, Result};
use crate::net::{
    ipv4_string, ipv4_text, lemma_ipv4_round_trip, lemma_socket_round_trip, socket_string,
    socket_text, Ipv4Addr, SocketAddrV4,
};
use crate::urls::{url_serialization, Url};

verus! {

/// A table whose values are all strings, in document order.
#[derive(Debug)]
pub struct StringMap {
    pub entries: Vec<(String, String)>,
}

impl StringMap {
    /// The value of the first entry whose key is `key`.
    pub fn get(&self, key: &str) -> (r: Option<&String>)
        ensures
            r matches Some(v) ==> exists|i: int|
                0 <= i < self.entries@.len() && self.entries@[i].0@ == key@ && self.entries@[i].1
                    == *v && forall|j: int| 0 <= j < i ==> self.entries@[j].0@ != key@,
            r is None ==> forall|i: int|
                0 <= i < self.entries@.len() ==> self.entries@[i].0@ != key@,
    {
        let wanted = String::from_str(key);
        let mut i: usize = 0;
        while i < self.entries.len()
            invariant
                i <= self.entries@.len(),
                wanted@ == key@,
                forall|j: int| 0 <= j < i ==> self.entries@[j].0@ != key@,
            decreases self.entries@.len() - i,
        {
            if self.entries[i].0.eq(&wanted) {
                return Some(&self.entries[i].1);
            }
            i = i + 1;
        }
        None
    }
}

pub open spec fn int_of(v: Document) -> i64 {
    match v {
        Document::Integer(i) => i,
        _ => 0,
    }
}

pub open spec fn all_integers(a: Seq<Document>) -> bool {
    forall|i: int| 0 <= i < a.len() ==> #[trigger] a[i] is Integer
}

pub open spec fn all_strings(t: Seq<(String, Document)>) -> bool {
    forall|i: int| 0 <= i < t.len() ==> #[trigger] t[i].1 is String
}

/// Entry `e` copies table entry `te`, whose value is a string.
pub open spec fn copies_entry(e: (String, String), te: (String, Document)) -> bool {
    e.0@ == te.0@ && (te.1 matches Document::String(s) && e.1@ == s@)
}

/// `m` holds the entries of table `t`, in order, each value as its string.
pub open spec fn holds_table(m: StringMap, t: Seq<(String, Document)>) -> bool {
    &&& m.entries@.len() == t.len()
    &&& forall|i: int| 0 <= i < t.len() ==> copies_entry(#[trigger] m.entries@[i], t[i])
}

pub open spec fn all_tables_of_strings(a: Seq<Document>) -> bool {
    forall|i: int|
        0 <= i < a.len() ==> (#[trigger] a[i] matches Document::Table(t) && all_strings(t@))
}

pub open spec fn all_socket_texts(a: Seq<Document>) -> bool {
    forall|i: int|
        0 <= i < a.len() ==> (#[trigger] a[i] matches Document::String(s) && socket_text(s@) is Some)
}

/// Copies a table whose values are all strings.
fn strings_of_table(t: &Vec<(String, Document)>) -> (r: Option<StringMap>)
    ensures
        r matches Some(m) ==> all_strings(t@) && holds_table(m, t@),
        r is None ==> !all_strings(t@),
{
    let mut entries: Vec<(String, String)> = Vec::new();
    let mut i: usize = 0;
    while i < t.len()
        invariant
            i <= t@.len(),
            entries@.len() == i,
            forall|j: int| 0 <= j < i ==> #[trigger] t@[j].1 is String,
            forall|j: int| 0 <= j < i ==> copies_entry(#[trigger] entries@[j], t@[j]),
        decreases t@.len() - i,
    {
        match &t[i].1 {
            Document::String(s) => {
                entries.push((t[i].0.clone(), s.clone()));
            },
            _ => {
                return None;
            },
        }
        i = i + 1;
    }
    Some(StringMap { entries })
}

/// Extraction of one field of a document into an output slot of type `T`.
pub trait ParseInto<T> {
    /// Reads the field at the dotted path `field` into `out`: `Ok(true)` when
    /// it was present and written, `Ok(false)` when it was absent.
    fn parse_into(&self, field: &'static str, out: &mut T) -> Result<bool>;
}

impl ParseInto<String> for Document {
    fn parse_into(&self, field: &'static str, out: &mut String) -> (r: Result<bool>)
        ensures
            match lookup(*self, field@) {
                None => r == Ok::<bool, Error>(false) && *final(out) == *old(out),
                Some(Document::String(s)) => r == Ok::<bool, Error>(true) && final(out)@ == s@,
                Some(_) => r == Err::<bool, Error>(Error::InvalidString(field)) && *final(out)
                    == *old(out),
            },
    {
        match self.lookup(field) {
            Some(Document::String(s)) => {
                *out = s.clone();
                Ok(true)
            },
            Some(_) => Err(Error::InvalidString(field)),
            None => Ok(false),
        }
    }
}

impl ParseInto<Option<String>> for Document {
    fn parse_into(&self, field: &'static str, out: &mut Option<String>) -> (r: Result<bool>)
        ensures
            match lookup(*self, field@) {
                None => r == Ok::<bool, Error>(true) && *final(out) is None,
                Some(Document::String(s)) => r == Ok::<bool, Error>(true) && (*final(out) matches Some(
                    o,
                ) && o@ == s@),
                Some(_) => r == Err::<bool, Error>(Error::InvalidString(field)) && *final(out)
                    == *old(out),
            },
    {
        match self.lookup(field) {
            Some(Document::String(s)) => {
                *out = Some(s.clone());
                Ok(true)
            },
            Some(_) => Err(Error::InvalidString(field)),
            None => {
                *out = None;
                Ok(true)
            },
        }
    }
}

impl ParseInto<usize> for Document {
    fn parse_into(&self, field: &'static str, out: &mut usize) -> (r: Result<bool>)
        ensures
            match lookup(*self, field@) {
                None => r == Ok::<bool, Error>(false) && *final(out) == *old(out),
                Some(Document::Integer(i)) => r == Ok::<bool, Error>(true) && *final(out) == i as usize,
                Some(_) => r == Err::<bool, Error>(Error::InvalidString(field)) && *final(out)
                    == *old(out),
            },
    {
        match self.lookup(field) {
            Some(Document::Integer(i)) => {
                *out = #[verifier::truncate] (*i as usize);
                Ok(true)
            },
            Some(_) => Err(Error::InvalidString(field)),
            None => Ok(false),
        }
    }
}

impl ParseInto<u16> for Document {
    fn parse_into(&self, field: &'static str, out: &mut u16) -> (r: Result<bool>)
        ensures
            match lookup(*self, field@) {
                None => r == Ok::<bool, Error>(false) && *final(out) == *old(out),
                Some(Document::Integer(i)) => r == Ok::<bool, Error>(true) && *final(out) == i as u16,
                Some(_) => r == Err::<bool, Error>(Error::InvalidString(field)) && *final(out)
                    == *old(out),
            },
    {
        match self.lookup(field) {
            Some(Document::Integer(i)) => {
                *out = #[verifier::truncate] (*i as u16);
                Ok(true)
            },
            Some(_) => Err(Error::InvalidString(field)),
            None => Ok(false),
        }
    }
}

impl ParseInto<u32> for Document {
    fn parse_into(&self, field: &'static str, out: &mut u32) -> (r: Result<bool>)
        ensures
            match lookup(*self, field@) {
                None => r == Ok::<bool, Error>(false) && *final(out) == *old(out),
                Some(Document::Integer(i)) => r == Ok::<bool, Error>(true) && *final(out) == i as u32,
                Some(_) => r == Err::<bool, Error>(Error::InvalidString(field)) && *final(out)
                    == *old(out),
            },
    {
        match self.lookup(field) {
            Some(Document::Integer(i)) => {
                *out = #[verifier::truncate] (*i as u32);
                Ok(true)
            },
            Some(_) => Err(Error::InvalidString(field)),
            None => Ok(false),
        }
    }
}

impl ParseInto<u64> for Document {
    fn parse_into(&self, field: &'static str, out: &mut u64) -> (r: Result<bool>)
        ensures
            match lookup(*self, field@) {
                None => r == Ok::<bool, Error>(false) && *final(out) == *old(out),
                Some(Document::Integer(i)) => r == Ok::<bool, Error>(true) && *final(out) == i as u64,
                Some(_) => r == Err::<bool, Error>(Error::InvalidString(field)) && *final(out)
                    == *old(out),
            },
    {
        match self.lookup(field) {
            Some(Document::Integer(i)) => {
                *out = #[verifier::truncate] (*i as u64);
                Ok(true)
            },
            Some(_) => Err(Error::InvalidString(field)),
            None => Ok(false),
        }
    }
}

impl ParseInto<Vec<u16>> for Document {
    fn parse_into(&self, field: &'static str, out: &mut Vec<u16>) -> (r: Result<bool>)
        ensures
            match lookup(*self, field@) {
                None => r == Ok::<bool, Error>(false) && *final(out) == *old(out),
                Some(Document::Array(a)) => if all_integers(a@) {
                    r == Ok::<bool, Error>(true) && final(out)@ == a@.map_values(
                        |v: Document| int_of(v) as u16,
                    )
                } else {
                    r == Err::<bool, Error>(Error::InvalidArray(field)) && *final(out) == *old(out)
                },
                Some(_) => r == Err::<bool, Error>(Error::InvalidArray(field)) && *final(out)
                    == *old(out),
            },
    {
        match self.lookup(field) {
            Some(Document::Array(a)) => {
                let mut buf: Vec<u16> = Vec::new();
                let mut k: usize = 0;
                while k < a.len()
                    invariant
                        k <= a@.len(),
                        lookup(*self, field@) == Some(Document::Array(*a)),
                        buf@ == a@.subrange(0, k as int).map_values(|v: Document| int_of(v) as u16),
                        forall|j: int| 0 <= j < k ==> #[trigger] a@[j] is Integer,
                    decreases a@.len() - k,
                {
                    match &a[k] {
                        Document::Integer(i) => {
                            buf.push(#[verifier::truncate] (*i as u16));
                        },
                        _ => {
                            proof {
                                assert(!(a@[k as int] is Integer));
                            }
                            return Err(Error::InvalidArray(field));
                        },
                    }
                    proof {
                        assert(buf@ =~= a@.subrange(0, k as int + 1).map_values(
                            |v: Document| int_of(v) as u16,
                        ));
                    }
                    k = k + 1;
                }
                proof {
                    assert(a@.subrange(0, k as int) =~= a@);
                }
                *out = buf;
                Ok(true)
            },
            Some(_) => Err(Error::InvalidArray(field)),
            None => Ok(false),
        }
    }
}

impl ParseInto<Vec<u32>> for Document {
    fn parse_into(&self, field: &'static str, out: &mut Vec<u32>) -> (r: Result<bool>)
        ensures
            match lookup(*self, field@) {
                None => r == Ok::<bool, Error>(false) && *final(out) == *old(out),
                Some(Document::Array(a)) => if all_integers(a@) {
                    r == Ok::<bool, Error>(true) && final(out)@ == a@.map_values(
                        |v: Document| int_of(v) as u32,
                    )
                } else {
                    r == Err::<bool, Error>(Error::InvalidArray(field)) && *final(out) == *old(out)
                },
                Some(_) => r == Err::<bool, Error>(Error::InvalidArray(field)) && *final(out)
                    == *old(out),
            },
    {
        match self.lookup(field) {
            Some(Document::Array(a)) => {
                let mut buf: Vec<u32> = Vec::new();
                let mut k: usize = 0;
                while k < a.len()
                    invariant
                        k <= a@.len(),
                        lookup(*self, field@) == Some(Document::Array(*a)),
                        buf@ == a@.subrange(0, k as int).map_values(|v: Document| int_of(v) as u32),
                        forall|j: int| 0 <= j < k ==> #[trigger] a@[j] is Integer,
                    decreases a@.len() - k,
                {
                    match &a[k] {
                        Document::Integer(i) => {
                            buf.push(#[verifier::truncate] (*i as u32));
                        },
                        _ => {
                            proof {
                                assert(!(a@[k as int] is Integer));
                            }
                            return Err(Error::InvalidArray(field));
                        },
                    }
                    proof {
                        assert(buf@ =~= a@.subrange(0, k as int + 1).map_values(
                            |v: Document| int_of(v) as u32,
                        ));
                    }
                    k = k + 1;
                }
                proof {
                    assert(a@.subrange(0, k as int) =~= a@);
                }
                *out = buf;
                Ok(true)
            },
            Some(_) => Err(Error::InvalidArray(field)),
            None => Ok(false),
        }
    }
}

impl ParseInto<Vec<u64>> for Document {
    fn parse_into(&self, field: &'static str, out: &mut Vec<u64>) -> (r: Result<bool>)
        ensures
            match lookup(*self, field@) {
                None => r == Ok::<bool, Error>(false) && *final(out) == *old(out),
                Some(Document::Array(a)) => if all_integers(a@) {
                    r == Ok::<bool, Error>(true) && final(out)@ == a@.map_values(
                        |v: Document| int_of(v) as u64,
                    )
                } else {
                    r == Err::<bool, Error>(Error::InvalidArray(field)) && *final(out) == *old(out)
                },
                Some(_) => r == Err::<bool, Error>(Error::InvalidArray(field)) && *final(out)
                    == *old(out),
            },
    {
        match self.lookup(field) {
            Some(Document::Array(a)) => {
                let mut buf: Vec<u64> = Vec::new();
                let mut k: usize = 0;
                while k < a.len()
                    invariant
                        k <= a@.len(),
                        lookup(*self, field@) == Some(Document::Array(*a)),
                        buf@ == a@.subrange(0, k as int).map_values(|v: Document| int_of(v) as u64),
                        forall|j: int| 0 <= j < k ==> #[trigger] a@[j] is Integer,
                    decreases a@.len() - k,
                {
                    match &a[k] {
                        Document::Integer(i) => {
                            buf.push(#[verifier::truncate] (*i as u64));
                        },
                        _ => {
                            proof {
                                assert(!(a@[k as int] is Integer));
                            }
                            return Err(Error::InvalidArray(field));
                        },
                    }
                    proof {
                        assert(buf@ =~= a@.subrange(0, k as int + 1).map_values(
                            |v: Document| int_of(v) as u64,
                        ));
                    }
                    k = k + 1;
                }
                proof {
                    assert(a@.subrange(0, k as int) =~= a@);
                }
                *out = buf;
                Ok(true)
            },
            Some(_) => Err(Error::InvalidArray(field)),
            None => Ok(false),
        }
    }
}

impl ParseInto<Ipv4Addr> for Document {
    fn parse_into(&self, field: &'static str, out: &mut Ipv4Addr) -> (r: Result<bool>)
        ensures
            match lookup(*self, field@) {
                None => r == Ok::<bool, Error>(false) && *final(out) == *old(out),
                Some(Document::String(s)) => match ipv4_text(s@) {
                    Some(a) => r == Ok::<bool, Error>(true) && *final(out) == a,
                    None => r == Err::<bool, Error>(Error::InvalidIpv4Addr(field)) && *final(out)
                        == *old(out),
                },
                Some(_) => r == Err::<bool, Error>(Error::InvalidIpv4Addr(field)) && *final(out)
                    == *old(out),
            },
    {
        match self.lookup(field) {
            Some(Document::String(s)) => match Ipv4Addr::parse(s.as_str()) {
                Some(a) => {
                    *out = a;
                    Ok(true)
                },
                None => Err(Error::InvalidIpv4Addr(field)),
            },
            Some(_) => Err(Error::InvalidIpv4Addr(field)),
            None => Ok(false),
        }
    }
}

impl ParseInto<SocketAddrV4> for Document {
    fn parse_into(&self, field: &'static str, out: &mut SocketAddrV4) -> (r: Result<bool>)
        ensures
            match lookup(*self, field@) {
                None => r == Ok::<bool, Error>(false) && *final(out) == *old(out),
                Some(Document::String(s)) => match socket_text(s@) {
                    Some(a) => r == Ok::<bool, Error>(true) && *final(out) == a,
                    None => r == Err::<bool, Error>(Error::InvalidSocketAddrV4(field)) && *final(out) == *old(out),
                },
                Some(_) => r == Err::<bool, Error>(Error::InvalidSocketAddrV4(field)) && *final(out) == *old(out),
            },
    {
        match self.lookup(field) {
            Some(Document::String(s)) => match SocketAddrV4::parse(s.as_str()) {
                Some(a) => {
                    *out = a;
                    Ok(true)
                },
                None => Err(Error::InvalidSocketAddrV4(field)),
            },
            Some(_) => Err(Error::InvalidSocketAddrV4(field)),
            None => Ok(false),
        }
    }
}

pub open spec fn socket_of(v: Document) -> SocketAddrV4 {
    match v {
        Document::String(s) => socket_text(s@).unwrap(),
        _ => SocketAddrV4 { ip: Ipv4Addr { a: 0, b: 0, c: 0, d: 0 }, port: 0 },
    }
}

impl ParseInto<Vec<SocketAddrV4>> for Document {
    fn parse_into(&self, field: &'static str, out: &mut Vec<SocketAddrV4>) -> (r: Result<bool>)
        ensures
            match lookup(*self, field@) {
                None => r == Ok::<bool, Error>(false) && *final(out) == *old(out),
                Some(Document::Array(a)) => if all_socket_texts(a@) {
                    r == Ok::<bool, Error>(true) && final(out)@ == a@.map_values(
                        |v: Document| socket_of(v),
                    )
                } else {
                    r == Err::<bool, Error>(Error::InvalidSocketAddrV4(field)) && *final(out)
                        == *old(out)
                },
                Some(_) => r == Err::<bool, Error>(Error::InvalidArray(field)) && *final(out)
                    == *old(out),
            },
    {
        match self.lookup(field) {
            Some(Document::Array(a)) => {
                let mut buf: Vec<SocketAddrV4> = Vec::new();
                let mut k: usize = 0;
                while k < a.len()
                    invariant
                        k <= a@.len(),
                        lookup(*self, field@) == Some(Document::Array(*a)),
                        buf@ == a@.subrange(0, k as int).map_values(|v: Document| socket_of(v)),
                        forall|j: int|
                            0 <= j < k ==> (#[trigger] a@[j] matches Document::String(s) && socket_text(
                                s@,
                            ) is Some),
                    decreases a@.len() - k,
                {
                    let parsed = match &a[k] {
                        Document::String(s) => SocketAddrV4::parse(s.as_str()),
                        _ => None,
                    };
                    match parsed {
                        Some(addr) => {
                            buf.push(addr);
                        },
                        None => {
                            proof {
                                assert(!(a@[k as int] matches Document::String(s) && socket_text(
                                    s@,
                                ) is Some));
                            }
                            return Err(Error::InvalidSocketAddrV4(field));
                        },
                    }
                    proof {
                        assert(buf@ =~= a@.subrange(0, k as int + 1).map_values(
                            |v: Document| socket_of(v),
                        ));
                    }
                    k = k + 1;
                }
                proof {
                    assert(a@.subrange(0, k as int) =~= a@);
                }
                *out = buf;
                Ok(true)
            },
            Some(_) => Err(Error::InvalidArray(field)),
            None => Ok(false),
        }
    }
}

impl ParseInto<Url> for Document {
    fn parse_into(&self, field: &'static str, out: &mut Url) -> (r: Result<bool>)
        ensures
            match lookup(*self, field@) {
                None => r == Ok::<bool, Error>(false) && *final(out) == *old(out),
                Some(Document::String(s)) => match url_serialization(s@) {
                    Some(u) => r == Ok::<bool, Error>(true) && final(out).view() == u,
                    None => r == Err::<bool, Error>(Error::InvalidUrl(field)) && *final(out)
                        == *old(out),
                },
                Some(_) => r == Err::<bool, Error>(Error::InvalidUrl(field)) && *final(out)
                    == *old(out),
            },
    {
        match self.lookup(field) {
            Some(Document::String(s)) => match Url::parse(s.as_str()) {
                Some(u) => {
                    *out = u;
                    Ok(true)
                },
                None => Err(Error::InvalidUrl(field)),
            },
            Some(_) => Err(Error::InvalidUrl(field)),
            None => Ok(false),
        }
    }
}

impl ParseInto<Option<Url>> for Document {
    fn parse_into(&self, field: &'static str, out: &mut Option<Url>) -> (r: Result<bool>)
        ensures
            match lookup(*self, field@) {
                None => r == Ok::<bool, Error>(false) && *final(out) is None,
                Some(Document::String(s)) => match url_serialization(s@) {
                    Some(u) => r == Ok::<bool, Error>(true) && (*final(out) matches Some(o)
                        && o.view() == u),
                    None => r == Err::<bool, Error>(Error::InvalidUrl(field)) && *final(out)
                        == *old(out),
                },
                Some(_) => r == Err::<bool, Error>(Error::InvalidUrl(field)) && *final(out)
                    == *old(out),
            },
    {
        match self.lookup(field) {
            Some(Document::String(s)) => match Url::parse(s.as_str()) {
                Some(u) => {
                    *out = Some(u);
                    Ok(true)
                },
                None => Err(Error::InvalidUrl(field)),
            },
            Some(_) => Err(Error::InvalidUrl(field)),
            None => {
                *out = None;
                Ok(false)
            },
        }
    }
}

impl ParseInto<StringMap> for Document {
    fn parse_into(&self, field: &'static str, out: &mut StringMap) -> (r: Result<bool>)
        ensures
            match lookup(*self, field@) {
                None => r == Ok::<bool, Error>(false) && *final(out) == *old(out),
                Some(Document::Table(t)) => if all_strings(t@) {
                    r == Ok::<bool, Error>(true) && holds_table(*final(out), t@)
                } else {
                    r == Err::<bool, Error>(Error::InvalidString(field)) && *final(out) == *old(out)
                },
                Some(_) => r == Err::<bool, Error>(Error::InvalidString(field)) && *final(out)
                    == *old(out),
            },
    {
        match self.lookup(field) {
            Some(Document::Table(t)) => match strings_of_table(t) {
                Some(m) => {
                    *out = m;
                    Ok(true)
                },
                None => Err(Error::InvalidString(field)),
            },
            Some(_) => Err(Error::InvalidString(field)),
            None => Ok(false),
        }
    }
}

impl ParseInto<Vec<StringMap>> for Document {
    fn parse_into(&self, field: &'static str, out: &mut Vec<StringMap>) -> (r: Result<bool>)
        ensures
            match lookup(*self, field@) {
                None => r == Ok::<bool, Error>(false) && *final(out) == *old(out),
                Some(Document::Array(a)) => if !(forall|i: int|
                    0 <= i < a@.len() ==> #[trigger] a@[i] is Table) {
                    r == Err::<bool, Error>(Error::InvalidArray(field)) && *final(out) == *old(out)
                } else if !all_tables_of_strings(a@) {
                    r == Err::<bool, Error>(Error::InvalidString(field)) && *final(out) == *old(out)
                } else {
                    &&& r == Ok::<bool, Error>(true)
                    &&& final(out)@.len() == a@.len()
                    &&& forall|i: int|
                        0 <= i < a@.len() ==> (#[trigger] a@[i] matches Document::Table(t)
                            && holds_table(final(out)@[i], t@))
                },
                Some(_) => r == Err::<bool, Error>(Error::InvalidArray(field)) && *final(out)
                    == *old(out),
            },
    {
        match self.lookup(field) {
            Some(Document::Array(a)) => {
                let mut k: usize = 0;
                while k < a.len()
                    invariant
                        k <= a@.len(),
                        lookup(*self, field@) == Some(Document::Array(*a)),
                        forall|j: int| 0 <= j < k ==> #[trigger] a@[j] is Table,
                    decreases a@.len() - k,
                {
                    match &a[k] {
                        Document::Table(_) => {},
                        _ => {
                            proof {
                                assert(!(a@[k as int] is Table));
                            }
                            return Err(Error::InvalidArray(field));
                        },
                    }
                    k = k + 1;
                }
                let mut buf: Vec<StringMap> = Vec::new();
                let mut k: usize = 0;
                while k < a.len()
                    invariant
                        k <= a@.len(),
                        lookup(*self, field@) == Some(Document::Array(*a)),
                        forall|j: int| 0 <= j < a@.len() ==> #[trigger] a@[j] is Table,
                        buf@.len() == k,
                        forall|j: int|
                            0 <= j < k ==> (#[trigger] a@[j] matches Document::Table(t) && all_strings(
                                t@,
                            ) && holds_table(buf@[j], t@)),
                    decreases a@.len() - k,
                {
                    match &a[k] {
                        Document::Table(t) => match strings_of_table(t) {
                            Some(m) => {
                                buf.push(m);
                            },
                            None => {
                                proof {
                                    assert(!(a@[k as int] matches Document::Table(t) && all_strings(
                                        t@,
                                    )));
                                }
                                return Err(Error::InvalidString(field));
                            },
                        },
                        _ => {
                            return Err(Error::InvalidArray(field));
                        },
                    }
                    k = k + 1;
                }
                *out = buf;
                Ok(true)
            },
            Some(_) => Err(Error::InvalidArray(field)),
            None => Ok(false),
        }
    }
}

/// A key without dots names one entry of the document's top table.
pub open spec fn plain_key(key: Seq<char>) -> bool {
    forall|i: int| 0 <= i < key.len() ==> key[i] != '.'
}

/// A string stored under a key is read back unchanged: a document whose
/// table maps `key` to the string `s` makes string extraction at `key` give
/// `s` (see the contract of `parse_into` for `String`).
pub proof fn lemma_string_round_trip(doc: Document, key: Seq<char>, s: String)
    requires
        plain_key(key),
        doc matches Document::Table(t) && table_get(t@, key) == Some(Document::String(s)),
    ensures
        lookup(doc, key) == Some(Document::String(s)),
{
    lemma_store_then_lookup(doc, key, Document::String(s));
}

/// An address written as its dotted-quad text under a key is read back as
/// the same address by address extraction at that key.
pub proof fn lemma_ipv4_field_round_trip(doc: Document, key: Seq<char>, a: Ipv4Addr, s: String)
    requires
        plain_key(key),
        s@ == ipv4_string(a),
        doc matches Document::Table(t) && table_get(t@, key) == Some(Document::String(s)),
    ensures
        lookup(doc, key) == Some(Document::String(s)),
        ipv4_text(s@) == Some(a),
{
    lemma_store_then_lookup(doc, key, Document::String(s));
    lemma_ipv4_round_trip(a);
}

/// A socket address written as its `address:port` text under a key is read
/// back as the same socket address by extraction at that key.
pub proof fn lemma_socket_field_round_trip(
    doc: Document,
    key: Seq<char>,
    a: SocketAddrV4,
    s: String,
)
    requires
        plain_key(key),
        s@ == socket_string(a),
        doc matches Document::Table(t) && table_get(t@, key) == Some(Document::String(s)),
    ensures
        lookup(doc, key) == Some(Document::String(s)),
        socket_text(s@) == Some(a),
{
    lemma_store_then_lookup(doc, key, Document::String(s));
    lemma_socket_round_trip(a);
}

/// Narrowing a non-negative integer to 16 bits keeps its value modulo
/// 65536.
pub proof fn lemma_u16_narrowing(i: i64)
    requires
        i >= 0,
    ensures
        (i as u16) as int == (i as int) % 65536,
{
    assert((i as u16) as u64 == (i as u64) % 65536) by (bit_vector)
        requires
            i >= 0,
    ;
}

/// A URL written as its text (what `Url::as_str` gives) under a key is read
/// back by URL extraction at that key as a URL with the same text.
pub proof fn lemma_url_field_round_trip(doc: Document, key: Seq<char>, s: String)
    requires
        plain_key(key),
        url_serialization(s@) == Some(s@),
        doc matches Document::Table(t) && table_get(t@, key) == Some(Document::String(s)),
    ensures
        lookup(doc, key) == Some(Document::String(s)),
        url_serialization(s@) == Some(s@),
{
    lemma_store_then_lookup(doc, key, Document::String(s));
}

} // verus!

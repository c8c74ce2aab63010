//! The generic document tree that configuration is read from, and lookup of
//! a value by its dotted field path.
use vstd::prelude::*;
use vstd::string::*;

verus! {

/// A parsed configuration document: tables of string keys, arrays and scalars.
/// A table keeps its entries in document order; lookup takes the first entry
/// with a matching key.
#[derive(Debug)]
pub enum Document {
    String(String),
    Integer(i64),
    Boolean(bool),
    /// A non-integer number, kept as its text.
    Decimal(String),
    /// A date and/or time, kept as its text.
    Datetime(String),
    Array(Vec<Document>),
    Table(Vec<(String, Document)>),
}

/// The pieces of `s` between its dots, from left to right: `"a.b"` gives
/// `["a", "b"]`, `""` gives `[""]` and `"a."` gives `["a", ""]`.
pub open spec fn split_dots(s: Seq<char>) -> Seq<Seq<char>>
    decreases s.len(),
{
    if s.len() == 0 {
        seq![Seq::<char>::empty()]
    } else {
        let rest = split_dots(s.drop_last());
        if s.last() == '.' {
            rest.push(Seq::<char>::empty())
        } else {
            rest.update(rest.len() - 1, rest.last().push(s.last()))
        }
    }
}

/// The value of the first entry whose key is `key`.
pub open spec fn table_get(entries: Seq<(String, Document)>, key: Seq<char>) -> Option<Document>
    decreases entries.len(),
{
    if entries.len() == 0 {
        None
    } else if entries[0].0@ == key {
        Some(entries[0].1)
    } else {
        table_get(entries.drop_first(), key)
    }
}

/// Follows `keys` through nested tables, starting at `v`.
pub open spec fn lookup_keys(v: Document, keys: Seq<Seq<char>>) -> Option<Document>
    decreases keys.len(),
{
    if keys.len() == 0 {
        Some(v)
    } else {
        match v {
            Document::Table(t) => match table_get(t@, keys[0]) {
                Some(c) => lookup_keys(c, keys.drop_first()),
                None => None,
            },
            _ => None,
        }
    }
}

/// The value that the dotted path `path` names inside `v`.
pub open spec fn lookup(v: Document, path: Seq<char>) -> Option<Document> {
    lookup_keys(v, split_dots(path))
}

/// The texts of a sequence of strings.
pub open spec fn views(v: Seq<String>) -> Seq<Seq<char>> {
    v.map_values(|s: String| s@)
}

/// Splits a field path at its dots.
pub fn split_path(path: &str) -> (r: Vec<String>)
    ensures
        views(r@) == split_dots(path@),
{
    let n = path.unicode_len();
    let mut parts: Vec<String> = Vec::new();
    let mut start: usize = 0;
    let mut i: usize = 0;
    proof {
        assert(views(parts@) =~= Seq::<Seq<char>>::empty());
        assert(path@.subrange(0, 0) =~= Seq::<char>::empty());
        assert(split_dots(Seq::<char>::empty()) == seq![Seq::<char>::empty()]);
        assert(views(parts@).push(path@.subrange(0, 0)) =~= split_dots(path@.subrange(0, 0)));
    }
    while i < n
        invariant
            n == path@.len(),
            start <= i <= n,
            views(parts@).push(path@.subrange(start as int, i as int)) == split_dots(
                path@.subrange(0, i as int),
            ),
        decreases n - i,
    {
        let c = path.get_char(i);
        proof {
            let pre = path@.subrange(0, i as int + 1);
            assert(pre.drop_last() == path@.subrange(0, i as int));
            assert(pre.last() == c);
            assert(path@.subrange(start as int, i as int + 1) == path@.subrange(
                start as int,
                i as int,
            ).push(c));
        }
        if c == '.' {
            let piece = path.substring_char(start, i);
            let ghost before = parts@;
            parts.push(String::from_str(piece));
            proof {
                assert(parts@.drop_last() == before);
                assert(views(parts@) =~= views(before).push(piece@));
                assert(views(parts@) == split_dots(path@.subrange(0, i as int)));
                assert(path@.subrange(i as int + 1, i as int + 1) =~= Seq::<char>::empty());
                assert(views(parts@).push(path@.subrange(i as int + 1, i as int + 1)) =~= split_dots(
                    path@.subrange(0, i as int + 1),
                ));
            }
            start = i + 1;
        } else {
            proof {
                let rest = split_dots(path@.subrange(0, i as int));
                assert(views(parts@).push(path@.subrange(start as int, i as int + 1)) =~= rest.update(
                    rest.len() - 1,
                    rest.last().push(c),
                ));
            }
        }
        i = i + 1;
    }
    let last = path.substring_char(start, n);
    let ghost before = parts@;
    parts.push(String::from_str(last));
    proof {
        assert(path@.subrange(0, n as int) == path@);
        assert(parts@.drop_last() == before);
        assert(views(parts@) =~= views(before).push(last@));
    }
    parts
}

/// The value of the first entry of `entries` whose key is `key`.
fn entry_value<'a>(entries: &'a Vec<(String, Document)>, key: &str) -> (r: Option<&'a Document>)
    ensures
        r matches Some(x) ==> table_get(entries@, key@) == Some(*x),
        r is None ==> table_get(entries@, key@) is None,
{
    let wanted = String::from_str(key);
    let mut i: usize = 0;
    proof {
        assert(entries@.skip(0) =~= entries@);
    }
    while i < entries.len()
        invariant
            i <= entries@.len(),
            wanted@ == key@,
            table_get(entries@, key@) == table_get(entries@.skip(i as int), key@),
        decreases entries@.len() - i,
    {
        let k = &entries[i].0;
        proof {
            assert(entries@.skip(i as int).drop_first() =~= entries@.skip(i as int + 1));
            assert(entries@.skip(i as int)[0] == entries@[i as int]);
            assert(entries@.skip(i as int).len() > 0);
        }
        if k.eq(&wanted) {
            return Some(&entries[i].1);
        }
        i = i + 1;
    }
    None
}

impl Document {
    /// The value that the dotted `path` names, following nested tables.
    pub fn lookup<'a>(&'a self, path: &str) -> (r: Option<&'a Document>)
        ensures
            r matches Some(x) ==> lookup(*self, path@) == Some(*x),
            r is None ==> lookup(*self, path@) is None,
    {
        let keys = split_path(path);
        let mut cur: &Document = self;
        let mut j: usize = 0;
        proof {
            assert(views(keys@).skip(0) =~= views(keys@));
        }
        while j < keys.len()
            invariant
                j <= keys@.len(),
                views(keys@) == split_dots(path@),
                lookup(*self, path@) == lookup_keys(*cur, views(keys@).skip(j as int)),
            decreases keys@.len() - j,
        {
            proof {
                assert(views(keys@).skip(j as int).drop_first() =~= views(keys@).skip(j as int + 1));
                assert(views(keys@).skip(j as int)[0] == keys@[j as int]@);
            }
            match cur {
                Document::Table(t) => match entry_value(t, keys[j].as_str()) {
                    Some(c) => {
                        cur = c;
                    },
                    None => {
                        return None;
                    },
                },
                _ => {
                    return None;
                },
            }
            j = j + 1;
        }
        proof {
            assert(views(keys@).skip(j as int) =~= Seq::<Seq<char>>::empty());
        }
        Some(cur)
    }
}

/// A path without dots is a single key.
pub proof fn lemma_split_without_dots(s: Seq<char>)
    requires
        forall|i: int| 0 <= i < s.len() ==> s[i] != '.',
    ensures
        split_dots(s) == seq![s],
    decreases s.len(),
{
    if s.len() > 0 {
        let p = s.drop_last();
        assert forall|i: int| 0 <= i < p.len() implies p[i] != '.' by {
            assert(p[i] == s[i]);
        }
        lemma_split_without_dots(p);
        assert(p.push(s.last()) =~= s);
        assert(split_dots(s) =~= seq![s]);
    } else {
        assert(s =~= Seq::<char>::empty());
    }
}

/// A value stored under a dot-free key of a table is what that key looks up:
/// writing a value into a document and reading it back gives the same value.
pub proof fn lemma_store_then_lookup(doc: Document, key: Seq<char>, v: Document)
    requires
        forall|i: int| 0 <= i < key.len() ==> key[i] != '.',
        doc matches Document::Table(t) && table_get(t@, key) == Some(v),
    ensures
        lookup(doc, key) == Some(v),
{
    lemma_split_without_dots(key);
    let keys = split_dots(key);
    assert(keys.drop_first() =~= Seq::<Seq<char>>::empty());
    assert(keys[0] == key);
    assert(lookup_keys(v, keys.drop_first()) == Some(v));
    assert(lookup_keys(doc, keys) == lookup_keys(v, keys.drop_first()));
}

} // verus!

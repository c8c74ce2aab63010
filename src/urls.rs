//! URLs, kept as the text that the URL parser normalises them to.
use vstd::prelude::*;

verus! {

/// What `url::Url::parse` makes of a text: its serialization, or `None` when
/// the text is no URL.
pub uninterp spec fn url_serialization(s: Seq<char>) -> Option<Seq<char>>;

/// Relies on `url::Url::parse` and `From<Url> for String`: whether a text is
/// accepted, and the serialization of what it parses to, depend on the text
/// alone; and a serialization parses to itself (the crate checks this of
/// every URL in `Url::check_invariants`).
#[verifier::external_body]
fn serialize_url(s: &str) -> (r: Option<String>)
    ensures
        r matches Some(t) ==> url_serialization(s@) == Some(t@),
        r matches Some(t) ==> url_serialization(t@) == Some(t@),
        r is None ==> url_serialization(s@) is None,
{
    url::Url::parse(s).ok().map(String::from)
}

/// An absolute URL, held as its normalised serialization.
#[derive(Debug)]
pub struct Url {
    serialization: String,
}

impl Url {
    /// A URL's text is its own serialization.
    #[verifier::type_invariant]
    spec fn serialized(&self) -> bool {
        url_serialization(self.serialization@) == Some(self.serialization@)
    }

    pub closed spec fn view(&self) -> Seq<char> {
        self.serialization@
    }

    /// Parses `s` as a URL.
    pub fn parse(s: &str) -> (r: Option<Url>)
        ensures
            r matches Some(u) ==> url_serialization(s@) == Some(u.view()),
            r is None ==> url_serialization(s@) is None,
    {
        match serialize_url(s) {
            Some(t) => Some(Url { serialization: t }),
            None => None,
        }
    }

    /// The URL's serialization.
    pub fn as_str(&self) -> (r: &str)
        ensures
            r@ == self.view(),
            url_serialization(r@) == Some(r@),
    {
        proof {
            use_type_invariant(self);
        }
        self.serialization.as_str()
    }
}

} // verus!

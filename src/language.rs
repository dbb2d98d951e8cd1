//! Languages of subtitle files, resolved from their English names.

use vstd::prelude::*;

use crate::error::MediaError;
use crate::paths::opt_view;
use crate::text::chars_of;

verus! {

/// The ISO 639-3 code, and the ISO 639-1 code where there is one, of the
/// language whose English name is `name`.
pub uninterp spec fn iso_codes_of_name(name: Seq<char>) -> Option<(Seq<char>, Option<Seq<char>>)>;

/// Relies on isolang's `Language::from_name` (an exact lookup among the
/// English names of the ISO 639-3 table) and on `to_639_3` and `to_639_1`
/// of the language found: the codes depend on the name alone.
#[verifier::external_body]
fn lookup_language(name: &str) -> (r: Option<(String, Option<String>)>)
    ensures
        match r {
            Some(p) => iso_codes_of_name(name@) == Some((p.0@, opt_view(p.1))),
            None => iso_codes_of_name(name@) is None,
        },
{
    isolang::Language::from_name(name).map(
        |l| (l.to_639_3().to_string(), l.to_639_1().map(|c| c.to_string())),
    )
}

/// A resolved language: its ISO 639-3 code, which identifies it, and its
/// ISO 639-1 code where it has one.
#[derive(Clone, Debug)]
pub struct Lang {
    pub code: String,
    pub short: Option<String>,
}

/// The ISO 639-3 code of the default language, English.
pub open spec fn default_code() -> Seq<char> {
    seq!['e', 'n', 'g']
}

impl Lang {
    /// The tag used in link names: the two-letter code where there is one,
    /// else the three-letter code.
    pub open spec fn tag(self) -> Seq<char> {
        match self.short {
            Some(s) => s@,
            None => self.code@,
        }
    }

    pub open spec fn is_default_spec(self) -> bool {
        self.code@ == default_code()
    }

    pub fn preferred_tag(&self) -> (r: String)
        ensures
            r@ == self.tag(),
    {
        match &self.short {
            Some(s) => s.clone(),
            None => self.code.clone(),
        }
    }

    /// Whether this is the default language, whose subtitles become the
    /// default track.
    pub fn is_default(&self) -> (r: bool)
        ensures
            r == self.is_default_spec(),
    {
        let cs = chars_of(self.code.as_str());
        let r = cs.len() == 3 && cs[0] == 'e' && cs[1] == 'n' && cs[2] == 'g';
        assert(r ==> cs@ =~= default_code());
        r
    }

    /// Whether `self` and `other` are the same language.
    pub fn same_language(&self, other: &Lang) -> (r: bool)
        ensures
            r == (self.code@ == other.code@),
    {
        self.code == other.code
    }
}

/// The language named `token`, or `UnknownLanguage(token)`.
pub fn resolve_language(token: &str) -> (r: Result<Lang, MediaError>)
    ensures
        match iso_codes_of_name(token@) {
            Some(c) => r matches Ok(l) && l.code@ == c.0 && opt_view(l.short) == c.1,
            None => r matches Err(MediaError::UnknownLanguage(t)) && t@ == token@,
        },
{
    match lookup_language(token) {
        Some((code, short)) => Ok(Lang { code, short }),
        None => Err(MediaError::UnknownLanguage(token.to_owned())),
    }
}

} // verus!

//! Regular expressions, matched by the `regex` crate.

use vstd::prelude::*;

verus! {

/// A compiled regular expression of the `regex` crate.
#[verifier::external_type_specification]
#[verifier::external_body]
pub struct ExRegex(regex::Regex);

/// The capture groups of the first match of the regular expression `pattern`
/// in `haystack`, as `regex::Regex::captures` reports them: group 0 is the
/// whole match, the others follow in the order of their opening parenthesis,
/// and a group that took no part in the match is `None`. The whole is `None`
/// where nothing matches, and where `pattern` is no regular expression that
/// `regex::Regex::new` accepts.
pub uninterp spec fn captures_of(pattern: Seq<char>, haystack: Seq<char>) -> Option<
    Seq<Option<Seq<char>>>,
>;

/// What `regex::Regex::replace` makes of `haystack` for the regular
/// expression `pattern` and the replacement text `replacement`, in which `$`
/// refers to capture groups: the text with the first match replaced, where
/// the call gave an owned text back; `None` where it gave `haystack` back as
/// it was, and where `pattern` is no regular expression that
/// `regex::Regex::new` accepts.
pub uninterp spec fn replaced_first(
    pattern: Seq<char>,
    haystack: Seq<char>,
    replacement: Seq<char>,
) -> Option<Seq<char>>;

/// The capture groups of a match.
pub type Groups = Vec<Option<String>>;

/// The mathematical model of the capture groups of a match.
pub open spec fn groups_view(groups: Seq<Option<String>>) -> Seq<Option<Seq<char>>> {
    groups.map_values(
        |g: Option<String>|
            match g {
                Some(s) => Some(s@),
                None => None,
            },
    )
}

/// The mathematical model of the result of a search.
pub open spec fn match_view(found: Option<Groups>) -> Option<Seq<Option<Seq<char>>>> {
    match found {
        Some(groups) => Some(groups_view(groups@)),
        None => None,
    }
}

/// A regular expression ready for matching.
pub struct Pattern {
    source: String,
    compiled: Option<regex::Regex>,
}

impl Pattern {
    /// The text of the regular expression.
    pub closed spec fn source(&self) -> Seq<char> {
        self.source@
    }

    /// Compiles `source` with `regex::Regex::new` and keeps what came back
    /// beside the text it was made from. Claims only that the text is kept.
    #[verifier::external_body]
    pub(crate) fn new(source: &str) -> (r: Pattern)
        ensures
            r.source() == source@,
    {
        Pattern { source: source.to_string(), compiled: regex::Regex::new(source).ok() }
    }

    /// Runs `regex::Regex::captures` on `haystack` and copies the text of each
    /// group out. Claims that the result is what [`captures_of`] names for the
    /// text of this expression and `haystack`.
    #[verifier::external_body]
    pub(crate) fn captures(&self, haystack: &str) -> (r: Option<Groups>)
        ensures
            match_view(r) == captures_of(self.source(), haystack@),
    {
        match &self.compiled {
            Some(re) => re.captures(haystack).map(
                |caps| caps.iter().map(|m| m.map(|m| m.as_str().to_string())).collect(),
            ),
            None => None,
        }
    }

    /// Runs `regex::Regex::replace` on `haystack` with `replacement` and tells
    /// the two variants of the result apart. Claims that the result is what
    /// [`replaced_first`] names for the text of this expression and the two
    /// arguments.
    #[verifier::external_body]
    pub(crate) fn replace_first(&self, haystack: &str, replacement: &str) -> (r: Option<String>)
        ensures
            match r {
                Some(text) => replaced_first(self.source(), haystack@, replacement@) == Some(
                    text@,
                ),
                None => replaced_first(self.source(), haystack@, replacement@) is None,
            },
    {
        match &self.compiled {
            Some(re) => match re.replace(haystack, replacement) {
                std::borrow::Cow::Borrowed(_) => None,
                std::borrow::Cow::Owned(text) => Some(text),
            },
            None => None,
        }
    }
}

} // verus!

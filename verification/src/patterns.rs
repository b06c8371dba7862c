//! Regular-expression predicates over header values and paths.
//!
//! A pattern is held as text. The `regex` crate compiles and searches it;
//! whether the crate compiles a text and whether it finds a match are named
//! by [`regex_compiles`] and [`regex_is_match`]. A pattern is searched
//! between anchors, so that it matches a whole text or nothing.

use vstd::prelude::*;
use vstd::utf8::*;
use vstd::string::*;

verus! {

broadcast use vstd::utf8::encode_utf8_decode_utf8;

/// Whether the `regex` crate compiles `pattern`.
pub uninterp spec fn regex_compiles(pattern: Seq<char>) -> bool;

/// Whether the `regex` crate finds a match of `pattern` in `haystack`.
pub uninterp spec fn regex_is_match(pattern: Seq<char>, haystack: Seq<char>) -> bool;

/// A pattern between the anchors of the start and the end of the text: what
/// is searched for a pattern.
pub open spec fn anchored(pattern: Seq<char>) -> Seq<char> {
    "\\A(?:"@ + pattern + ")\\z"@
}

/// `regex::Regex::new` on a text and, where the text compiles,
/// `regex::Regex::is_match` of the result on a haystack. Trusted: whether the
/// text compiles is named by [`regex_compiles`], and what the search answers
/// by [`regex_is_match`], both over the two texts handed in.
#[verifier::external_body]
fn search(pattern: &str, haystack: &str) -> (found: Option<bool>)
    ensures
        found is Some <==> regex_compiles(pattern@),
        found matches Some(hit) ==> hit == regex_is_match(pattern@, haystack@),
{
    match regex::Regex::new(pattern) {
        Ok(re) => Some(re.is_match(haystack)),
        Err(_) => None,
    }
}

/// `core::str::from_utf8`, with its error dropped. Trusted: the call succeeds
/// exactly on well-formed UTF-8 and the text it returns has the bytes given.
#[verifier::external_body]
fn utf8_text(bytes: &[u8]) -> (text: Option<&str>)
    ensures
        text is Some <==> valid_utf8(bytes@),
        text matches Some(s) ==> s.spec_bytes() == bytes@,
{
    core::str::from_utf8(bytes).ok()
}

/// The text is no regular expression.
#[derive(Clone, Copy, Debug, PartialEq, Eq, Structural)]
pub struct InvalidPattern;

/// A regular expression: its text, with the anchored text that is searched
/// for it.
#[derive(Debug)]
pub struct Pattern {
    source: String,
    anchored: String,
}

impl View for Pattern {
    type V = Seq<char>;

    /// The text of the pattern.
    closed spec fn view(&self) -> Seq<char> {
        self.source@
    }
}

impl Clone for Pattern {
    fn clone(&self) -> (copy: Self)
        ensures
            copy@ == self@,
    {
        proof {
            use_type_invariant(self);
        }
        Pattern { source: self.source.clone(), anchored: self.anchored.clone() }
    }
}

/// Whether `pattern` matches the whole of `value`, taken as text. Bytes that
/// are not UTF-8 match no pattern, and a match of a part is no match.
pub open spec fn full_match(pattern: Seq<char>, value: Seq<u8>) -> bool {
    valid_utf8(value) && regex_is_match(anchored(pattern), decode_utf8(value))
}

/// Whether a text can be made a pattern: the `regex` crate compiles it, alone
/// and between anchors.
pub open spec fn is_pattern(source: Seq<char>) -> bool {
    regex_compiles(source) && regex_compiles(anchored(source))
}

impl Pattern {
    /// What holds of every pattern: its text can be made a pattern, and the
    /// text that is searched is its text between anchors.
    #[verifier::type_invariant]
    closed spec fn well_formed(self) -> bool {
        is_pattern(self.source@) && self.anchored@ == anchored(self.source@)
    }

    /// Makes a pattern of a text, if the text is a regular expression.
    pub fn new(source: &str) -> (r: Result<Pattern, InvalidPattern>)
        ensures
            r is Ok <==> is_pattern(source@),
            r matches Ok(pattern) ==> pattern@ == source@,
    {
        if search(source, "").is_none() {
            return Err(InvalidPattern);
        }
        let text = String::from_str("\\A(?:").concat(source).concat(")\\z");
        assert(text@ == anchored(source@));
        if search(text.as_str(), "").is_none() {
            return Err(InvalidPattern);
        }
        let held = source.to_owned();
        assert(is_pattern(held@) && text@ == anchored(held@));
        Ok(Pattern { source: held, anchored: text })
    }

    /// The text of the pattern.
    pub fn as_str(&self) -> (s: &str)
        ensures
            s@ == self@,
            is_pattern(self@),
    {
        proof {
            use_type_invariant(self);
        }
        self.source.as_str()
    }

    /// Decides whether the pattern matches the whole of `value`.
    pub fn matches_fully(&self, value: &[u8]) -> (r: bool)
        ensures
            r == full_match(self@, value@),
    {
        proof {
            use_type_invariant(self);
        }
        match utf8_text(value) {
            None => false,
            Some(text) => {
                assert(text@ == decode_utf8(value@));
                match search(self.anchored.as_str(), text) {
                    Some(hit) => hit,
                    None => false,
                }
            },
        }
    }
}

} // verus!

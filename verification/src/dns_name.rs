//! DNS names as they stand in identities: reference identifiers, compared in
//! lower case.

use vstd::prelude::*;
use vstd::string::*;

verus! {

/// A byte that may stand in a label: a letter, a digit, a hyphen or an
/// underscore.
pub open spec fn is_label_byte(b: u8) -> bool {
    ||| 0x30 <= b <= 0x39
    ||| 0x41 <= b <= 0x5a
    ||| 0x61 <= b <= 0x7a
    ||| b == 0x2d
    ||| b == 0x5f
}

/// The length of the label that ends before index `i`: the bytes since the
/// last dot.
pub open spec fn label_len_at(s: Seq<u8>, i: int) -> nat
    decreases i,
{
    if i <= 0 || s[i - 1] == 0x2e {
        0
    } else {
        1 + label_len_at(s, i - 1)
    }
}

/// Whether the label that ends before index `i` holds digits only.
pub open spec fn digits_only_at(s: Seq<u8>, i: int) -> bool
    decreases i,
{
    if i <= 0 || s[i - 1] == 0x2e {
        true
    } else {
        0x30 <= s[i - 1] <= 0x39 && digits_only_at(s, i - 1)
    }
}

/// Where the last label of a name ends: before the trailing dot, if the name
/// has one.
pub open spec fn last_label_end(s: Seq<u8>) -> int {
    if s.len() > 0 && s.last() == 0x2e {
        s.len() - 1
    } else {
        s.len() as int
    }
}

/// Whether the bytes are a reference DNS identifier.
///
/// The name has between 1 and 253 bytes and is made of labels that dots
/// part; one dot may end it. A label has between 1 and 63 bytes, each a
/// letter, a digit, a hyphen or an underscore, and neither begins nor ends
/// with a hyphen. The last label is not made of digits alone.
pub open spec fn valid_reference_name(s: Seq<u8>) -> bool {
    &&& 0 < s.len() <= 253
    &&& forall|k: int| 0 <= k < s.len() ==> is_label_byte(#[trigger] s[k]) || s[k] == 0x2e
    &&& forall|k: int| 0 <= k < s.len() && #[trigger] s[k] == 0x2e ==> label_len_at(s, k) > 0
    &&& forall|k: int|
        0 <= k < s.len() && #[trigger] s[k] == 0x2d ==> label_len_at(s, k) > 0 && k + 1 < s.len()
            && s[k + 1] != 0x2e
    &&& forall|k: int| 0 < k <= s.len() ==> #[trigger] label_len_at(s, k) <= 63
    &&& !digits_only_at(s, last_label_end(s))
}

/// Decides whether the bytes are a reference DNS identifier.
pub fn is_valid_reference_name(s: &[u8]) -> (r: bool)
    ensures
        r == valid_reference_name(s@),
{
    if s.len() == 0 || s.len() > 253 {
        return false;
    }
    let mut i: usize = 0;
    let mut label_len: usize = 0;
    let mut numeric = true;
    let mut closed_numeric = true;
    while i < s.len()
        invariant
            i <= s.len(),
            0 < s.len() <= 253,
            label_len == label_len_at(s@, i as int),
            label_len <= 63,
            numeric == digits_only_at(s@, i as int),
            i > 0 ==> closed_numeric == digits_only_at(s@, i - 1),
            forall|k: int| 0 <= k < i ==> is_label_byte(#[trigger] s@[k]) || s@[k] == 0x2e,
            forall|k: int| 0 <= k < i && #[trigger] s@[k] == 0x2e ==> label_len_at(s@, k) > 0,
            forall|k: int|
                0 <= k < i && #[trigger] s@[k] == 0x2d ==> label_len_at(s@, k) > 0 && (k + 1 < i
                    ==> s@[k + 1] != 0x2e),
            forall|k: int| 0 < k <= i ==> #[trigger] label_len_at(s@, k) <= 63,
        decreases s.len() - i,
    {
        let b = s[i];
        closed_numeric = numeric;
        if b == 0x2e {
            if label_len == 0 {
                assert(s@[i as int] == 0x2e && label_len_at(s@, i as int) == 0);
                return false;
            }
            if s[i - 1] == 0x2d {
                assert(s@[i - 1] == 0x2d && s@[i - 1 + 1] == 0x2e);
                return false;
            }
            label_len = 0;
            numeric = true;
        } else if (0x30 <= b && b <= 0x39) || (0x41 <= b && b <= 0x5a) || (0x61 <= b && b <= 0x7a)
            || b == 0x2d || b == 0x5f {
            if b == 0x2d && label_len == 0 {
                assert(s@[i as int] == 0x2d && label_len_at(s@, i as int) == 0);
                return false;
            }
            label_len += 1;
            if label_len > 63 {
                assert(label_len_at(s@, i + 1) > 63);
                return false;
            }
            numeric = numeric && 0x30 <= b && b <= 0x39;
        } else {
            assert(!(is_label_byte(s@[i as int]) || s@[i as int] == 0x2e));
            return false;
        }
        i += 1;
    }
    if s[s.len() - 1] == 0x2d {
        assert(s@[s.len() - 1] == 0x2d);
        return false;
    }
    if s[s.len() - 1] == 0x2e {
        !closed_numeric
    } else {
        !numeric
    }
}

/// The ASCII lower-case form of a character; others are unchanged.
pub open spec fn lower_char(c: char) -> char {
    if 'A' <= c <= 'Z' {
        ((c as u8 + 32) as u8) as char
    } else {
        c
    }
}

/// A text with every ASCII upper-case letter in lower case.
pub open spec fn lowered(s: Seq<char>) -> Seq<char> {
    Seq::new(s.len(), |i: int| lower_char(s[i]))
}

/// A text without the dots that end it.
pub open spec fn without_dots(s: Seq<char>) -> Seq<char>
    decreases s.len(),
{
    if s.len() > 0 && s.last() == '.' {
        without_dots(s.drop_last())
    } else {
        s
    }
}

/// `str::to_ascii_lowercase`. Trusted: the copy has the ASCII letters `A` to
/// `Z` in lower case and every other character as it was.
#[verifier::external_body]
fn to_ascii_lowercase(s: &str) -> (r: String)
    ensures
        r@ == lowered(s@),
{
    s.to_ascii_lowercase()
}

/// `str::trim_end_matches` with the pattern `'.'`. Trusted: the slice is the
/// text without the dots that end it.
#[verifier::external_body]
fn trim_dots(s: &str) -> (r: &str)
    ensures
        r@ == without_dots(s@),
{
    s.trim_end_matches('.')
}

/// The text is no DNS name.
#[derive(Clone, Copy, Debug, PartialEq, Eq, Structural)]
pub struct InvalidName;

/// A DNS name, held in lower case.
#[derive(Clone, Debug, PartialEq, Eq, Hash)]
pub struct Name(String);

impl View for Name {
    type V = Seq<char>;

    closed spec fn view(&self) -> Seq<char> {
        self.0@
    }
}

impl Name {
    /// Parses a name: a reference DNS identifier, taken in lower case.
    pub fn from_str(s: &str) -> (r: Result<Name, InvalidName>)
        ensures
            r is Ok <==> valid_reference_name(s.spec_bytes()),
            r matches Ok(name) ==> name@ == lowered(s@),
    {
        if is_valid_reference_name(s.as_bytes()) {
            Ok(Name(to_ascii_lowercase(s)))
        } else {
            Err(InvalidName)
        }
    }

    /// The name as text.
    pub fn as_str(&self) -> (s: &str)
        ensures
            s@ == self@,
    {
        self.0.as_str()
    }

    /// The name without the dots that end it.
    pub fn without_trailing_dot(&self) -> (s: &str)
        ensures
            s@ == without_dots(self@),
    {
        trim_dots(self.0.as_str())
    }
}

} // verus!

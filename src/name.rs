//! Executable names as they stand in a process-table entry.
//!
//! An entry holds its executable name in a fixed buffer of UTF-16 code units,
//! padded at the end with NUL. The name is decoded (an invalid unit becomes
//! U+FFFD), its trailing NUL characters are dropped, and what remains is
//! compared with the wanted name character for character: the comparison is
//! exact and case sensitive.
use vstd::prelude::*;

verus! {

/// What `String::from_utf16_lossy` makes of a sequence of UTF-16 code units.
pub uninterp spec fn utf16_lossy_of(units: Seq<u16>) -> Seq<char>;

/// `s` without its trailing NUL characters.
pub open spec fn trim_nul(s: Seq<char>) -> Seq<char>
    decreases s.len(),
{
    if s.len() > 0 && s.last() == '\0' {
        trim_nul(s.drop_last())
    } else {
        s
    }
}

/// Whether a decoded entry name stands for the executable `wanted`.
pub open spec fn decoded_matches(decoded: Seq<char>, wanted: Seq<char>) -> bool {
    trim_nul(decoded) == wanted
}

/// The name that an entry's buffer of code units holds.
pub open spec fn entry_name(units: Seq<u16>) -> Seq<char> {
    trim_nul(utf16_lossy_of(units))
}

/// Relies on `String::from_utf16_lossy`: decodes UTF-16, putting U+FFFD for
/// each unit that does not decode.
#[verifier::external_body]
fn decode_utf16_lossy(units: &[u16]) -> (r: String)
    ensures
        r@ == utf16_lossy_of(units@),
{
    String::from_utf16_lossy(units)
}

/// `s` without its trailing NUL characters.
pub fn trim_terminators(s: &str) -> (r: &str)
    ensures
        r@ == trim_nul(s@),
{
    let n: usize = s.unicode_len();
    let mut k: usize = n;
    assert(s@.subrange(0, n as int) =~= s@);
    while k > 0 && s.get_char(k - 1) == '\0'
        invariant
            k <= n,
            n == s@.len(),
            trim_nul(s@) == trim_nul(s@.subrange(0, k as int)),
        decreases k,
    {
        assert(s@.subrange(0, k as int).drop_last() =~= s@.subrange(0, k - 1));
        k = k - 1;
    }
    s.substring_char(0, k)
}

/// Whether two strings hold the same characters.
fn same_chars(a: &str, b: &str) -> (r: bool)
    ensures
        r == (a@ == b@),
{
    let n: usize = a.unicode_len();
    if n != b.unicode_len() {
        return false;
    }
    let mut i: usize = 0;
    while i < n
        invariant
            i <= n,
            n == a@.len(),
            n == b@.len(),
            forall|j: int| 0 <= j < i ==> a@[j] == b@[j],
        decreases n - i,
    {
        if a.get_char(i) != b.get_char(i) {
            return false;
        }
        i = i + 1;
    }
    assert(a@ =~= b@);
    true
}

/// Whether the decoded entry name `decoded`, once its trailing NUL characters
/// are dropped, is exactly `wanted`.
pub fn matches_decoded(decoded: &str, wanted: &str) -> (r: bool)
    ensures
        r == decoded_matches(decoded@, wanted@),
{
    same_chars(trim_terminators(decoded), wanted)
}

/// Whether the buffer of code units `units` holds the executable name `wanted`.
pub fn entry_matches(units: &[u16], wanted: &str) -> (r: bool)
    ensures
        r == (entry_name(units@) == wanted@),
{
    let decoded = decode_utf16_lossy(units);
    matches_decoded(decoded.as_str(), wanted)
}

} // verus!

//! Processors for alphabetic text: case and diacritics.
use vstd::prelude::*;
use crate::chars::{chars_of, string_of};
use crate::normalize::{nfd, nfd_of};

verus! {

/// The settings of an on/off processor: off first.
pub const BASIC_TEXT_PROCESSOR_OPTIONS: [bool; 2] = [false, true];

/// What `str::to_lowercase` returns for `s`.
pub uninterp spec fn lowercase_of(s: Seq<char>) -> Seq<char>;

/// Relies on `str::to_lowercase`: the lowercase mapping of every character of `s`.
#[verifier::external_body]
fn to_lowercase(s: &str) -> (r: String)
    ensures
        r@ == lowercase_of(s@),
{
    s.to_lowercase()
}

/// `text` in lowercase when `setting` is on; unchanged otherwise.
pub open spec fn decapitalize_spec(text: Seq<char>, setting: bool) -> Seq<char> {
    if setting {
        lowercase_of(text)
    } else {
        text
    }
}

/// Lowercases `text` when `setting` is on.
pub fn decapitalize_helper(text: &str, setting: bool) -> (r: String)
    ensures
        r@ == decapitalize_spec(text@, setting),
{
    if setting {
        to_lowercase(text)
    } else {
        text.to_owned()
    }
}

/// `text` with a lowercase ASCII first letter made uppercase when `setting` is on; any
/// other text, or any text with the setting off, unchanged.
pub open spec fn capitalize_spec(text: Seq<char>, setting: bool) -> Seq<char> {
    if setting && text.len() > 0 && 'a' <= text[0] <= 'z' {
        text.update(0, ((text[0] as u32) - 32) as char)
    } else {
        text
    }
}

/// Uppercases the first letter of `text` when it is a lowercase ASCII letter and
/// `setting` is on.
pub fn capitalize_first_letter_helper(text: &str, setting: bool) -> (r: String)
    ensures
        r@ == capitalize_spec(text@, setting),
{
    let mut s = chars_of(text);
    if setting && s.len() > 0 && 'a' <= s[0] && s[0] <= 'z' {
        let upper: u8 = (s[0] as u8) - 32;
        let c = upper as char;
        assert(c == ((s@[0] as u32) - 32) as char);
        s.set(0, c);
    }
    string_of(s.as_slice())
}

/// Combining diacritical marks, U+0300 to U+036F.
pub open spec fn is_combining_diacritic(c: char) -> bool {
    0x300 <= c as u32 <= 0x36F
}

/// `s` without its combining diacritical marks.
pub open spec fn strip_diacritics(s: Seq<char>) -> Seq<char> {
    s.filter(|c: char| !is_combining_diacritic(c))
}

/// The canonical decomposition of `text` without its combining diacritical marks when
/// `setting` is on (ἄήé becomes αηe); `text` unchanged otherwise.
pub open spec fn remove_diacritics_spec(text: Seq<char>, setting: bool) -> Seq<char> {
    if setting {
        strip_diacritics(nfd_of(text))
    } else {
        text
    }
}

/// Decomposes `text` and drops its combining diacritical marks when `setting` is on.
pub fn remove_alphabetic_diacritics(text: &str, setting: bool) -> (r: String)
    ensures
        r@ == remove_diacritics_spec(text@, setting),
{
    if !setting {
        return text.to_owned();
    }
    let s = chars_of(nfd(text).as_str());
    let mut out: Vec<char> = Vec::new();
    proof {
        reveal(Seq::filter);
    }
    assert(strip_diacritics(s@.subrange(0, 0)) =~= out@);
    let mut i: usize = 0;
    while i < s.len()
        invariant
            i <= s@.len(),
            out@ == strip_diacritics(s@.subrange(0, i as int)),
        decreases s@.len() - i,
    {
        let c = s[i];
        assert(s@.subrange(0, i + 1).drop_last() =~= s@.subrange(0, i as int));
        proof {
            reveal(Seq::filter);
        }
        if !(0x300 <= c as u32 && c as u32 <= 0x36F) {
            out.push(c);
        }
        assert(out@ == strip_diacritics(s@.subrange(0, i + 1)));
        i = i + 1;
    }
    assert(s@.subrange(0, s@.len() as int) =~= s@);
    string_of(out.as_slice())
}

} // verus!

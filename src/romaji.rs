//! Runs of Latin letters converted to hiragana.
use vstd::prelude::*;
use crate::chars::{char_from_u32, char_of, chars_of, lemma_char_of_code, string_of};
use wana_kana::ConvertJapanese;

verus! {

/// What `wana_kana`'s `ConvertJapanese::to_hiragana` returns for `s`.
pub uninterp spec fn hiragana_of(s: Seq<char>) -> Seq<char>;

/// Relies on `wana_kana`'s `ConvertJapanese::to_hiragana` for `&str`: romaji read as
/// hiragana.
#[verifier::external_body]
fn romaji_to_hiragana(s: &str) -> (r: String)
    ensures
        r@ == hiragana_of(s@),
{
    s.to_hiragana()
}

/// The lowercase ASCII letter, or `-`, that the code point `u` stands for in romaji:
/// ASCII and fullwidth letters of either case, and ASCII and fullwidth hyphens.
pub open spec fn romaji_code(u: u32) -> Option<u32> {
    if 0x41 <= u <= 0x5A {
        Some((u + 0x20) as u32)
    } else if 0x61 <= u <= 0x7A {
        Some(u)
    } else if 0xFF21 <= u <= 0xFF3A {
        Some((u - 0xFF21 + 0x61) as u32)
    } else if 0xFF41 <= u <= 0xFF5A {
        Some((u - 0xFF41 + 0x61) as u32)
    } else if u == 0x2D || u == 0xFF0D {
        Some(0x2D)
    } else {
        None
    }
}

fn romaji_code_exec(u: u32) -> (r: Option<u32>)
    ensures
        r == romaji_code(u),
{
    if 0x41 <= u && u <= 0x5A {
        Some(u + 0x20)
    } else if 0x61 <= u && u <= 0x7A {
        Some(u)
    } else if 0xFF21 <= u && u <= 0xFF3A {
        Some(u - 0xFF21 + 0x61)
    } else if 0xFF41 <= u && u <= 0xFF5A {
        Some(u - 0xFF41 + 0x61)
    } else if u == 0x2D || u == 0xFF0D {
        Some(0x2D)
    } else {
        None
    }
}

/// A finished run of romaji, as hiragana.
pub open spec fn flush(part: Seq<char>) -> Seq<char> {
    if part.len() > 0 {
        hiragana_of(part)
    } else {
        Seq::empty()
    }
}

/// `s` converted with `part` as the romaji run read so far.
pub open spec fn alphabetic_to_kana_from(s: Seq<char>, part: Seq<char>) -> Seq<char>
    decreases s.len(),
{
    if s.len() == 0 {
        flush(part)
    } else {
        match romaji_code(s[0] as u32) {
            Some(u) => alphabetic_to_kana_from(s.drop_first(), part.push(char_of(u))),
            None => flush(part) + seq![s[0]] + alphabetic_to_kana_from(s.drop_first(), Seq::empty()),
        }
    }
}

/// `s` with each maximal run of Latin letters and hyphens, folded to lowercase ASCII,
/// read as romaji and replaced by hiragana; other characters are kept.
pub open spec fn alphabetic_to_kana(s: Seq<char>) -> Seq<char> {
    alphabetic_to_kana_from(s, Seq::empty())
}

fn flush_exec(part: &Vec<char>, out: &mut Vec<char>)
    ensures
        final(out)@ == old(out)@ + flush(part@),
{
    if part.len() > 0 {
        let k = chars_of(romaji_to_hiragana(string_of(part.as_slice()).as_str()).as_str());
        let mut j: usize = 0;
        while j < k.len()
            invariant
                j <= k@.len(),
                out@ == old(out)@ + k@.subrange(0, j as int),
            decreases k@.len() - j,
        {
            out.push(k[j]);
            assert(out@ =~= old(out)@ + k@.subrange(0, j + 1));
            j = j + 1;
        }
        assert(k@.subrange(0, k@.len() as int) =~= k@);
    } else {
        assert(out@ =~= old(out)@ + flush(part@));
    }
}

/// Converts each run of Latin letters and hyphens in `text` to hiragana, as
/// `alphabetic_to_kana` says.
pub fn convert_alphabetic_to_kana(text: &str) -> (r: String)
    ensures
        r@ == alphabetic_to_kana(text@),
{
    let s = chars_of(text);
    let n: usize = s.len();
    let mut out: Vec<char> = Vec::new();
    let mut part: Vec<char> = Vec::new();
    let mut i: usize = 0;
    assert(s@.subrange(0, n as int) =~= s@);
    assert(out@ + alphabetic_to_kana_from(s@.subrange(0, n as int), part@) =~= alphabetic_to_kana(s@));
    while i < n
        invariant
            i <= n == s@.len(),
            out@ + alphabetic_to_kana_from(s@.subrange(i as int, n as int), part@) == alphabetic_to_kana(s@),
        decreases n - i,
    {
        let ghost rest = s@.subrange(i as int, n as int);
        let ghost old_part = part@;
        let ghost old_out = out@;
        let c = s[i];
        assert(rest[0] == c);
        assert(rest.drop_first() =~= s@.subrange(i + 1, n as int));
        match romaji_code_exec(c as u32) {
            Some(u) => {
                let d = match char_from_u32(u) {
                    Some(d) => d,
                    None => c,
                };
                proof {
                    lemma_char_of_code(d);
                }
                part.push(d);
            },
            None => {
                flush_exec(&part, &mut out);
                out.push(c);
                part = Vec::new();
            },
        }
        assert(out@ + alphabetic_to_kana_from(s@.subrange(i + 1, n as int), part@)
            =~= old_out + alphabetic_to_kana_from(rest, old_part));
        i = i + 1;
    }
    flush_exec(&part, &mut out);
    assert(s@.subrange(n as int, n as int) =~= Seq::<char>::empty());
    string_of(out.as_slice())
}

} // verus!

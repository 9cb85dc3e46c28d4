//! Script conversions on Japanese text: kana and width variants, emphatic sequences.
use vstd::prelude::*;
use crate::chars::{char_from_u32, char_of, chars_of, is_char_code, lemma_char_of_code, splice, string_of};

verus! {

/// A one-for-one conversion of code points.
#[derive(Clone, Copy, Debug, PartialEq, Eq, Structural)]
pub enum CharMap {
    HiraganaToKatakana,
    KatakanaToHiragana,
    FullwidthToAscii,
    AsciiToFullwidth,
}

pub open spec fn is_hiragana_code(u: u32) -> bool {
    0x3041 <= u <= 0x3096
}

pub open spec fn is_katakana_code(u: u32) -> bool {
    0x30A1 <= u <= 0x30F6
}

/// ASCII digits and letters.
pub open spec fn is_ascii_alnum_code(u: u32) -> bool {
    (0x30 <= u <= 0x39) || (0x41 <= u <= 0x5A) || (0x61 <= u <= 0x7A)
}

/// Fullwidth digits and letters.
pub open spec fn is_fullwidth_alnum_code(u: u32) -> bool {
    (0xFF10 <= u <= 0xFF19) || (0xFF21 <= u <= 0xFF3A) || (0xFF41 <= u <= 0xFF5A)
}

/// The code point `m` turns `u` into.
pub open spec fn map_code(m: CharMap, u: u32) -> u32 {
    match m {
        CharMap::HiraganaToKatakana => if is_hiragana_code(u) { (u + 0x60) as u32 } else { u },
        CharMap::KatakanaToHiragana => if is_katakana_code(u) { (u - 0x60) as u32 } else { u },
        CharMap::FullwidthToAscii => if is_fullwidth_alnum_code(u) { (u - 0xFEE0) as u32 } else { u },
        CharMap::AsciiToFullwidth => if is_ascii_alnum_code(u) { (u + 0xFEE0) as u32 } else { u },
    }
}

/// The character `m` turns `c` into.
pub open spec fn map_char(m: CharMap, c: char) -> char {
    char_of(map_code(m, c as u32))
}

/// `s` with every character converted by `m`.
pub open spec fn map_text(m: CharMap, s: Seq<char>) -> Seq<char> {
    s.map_values(|c: char| map_char(m, c))
}

proof fn lemma_map_code_valid(m: CharMap, c: char)
    ensures
        is_char_code(map_code(m, c as u32)),
        char_of(map_code(m, c as u32)) as u32 == map_code(m, c as u32),
{
}

fn map_code_exec(m: CharMap, u: u32) -> (r: u32)
    ensures
        r == map_code(m, u),
{
    match m {
        CharMap::HiraganaToKatakana => if 0x3041 <= u && u <= 0x3096 { u + 0x60 } else { u },
        CharMap::KatakanaToHiragana => if 0x30A1 <= u && u <= 0x30F6 { u - 0x60 } else { u },
        CharMap::FullwidthToAscii => if (0xFF10 <= u && u <= 0xFF19) || (0xFF21 <= u && u <= 0xFF3A)
            || (0xFF41 <= u && u <= 0xFF5A) {
            u - 0xFEE0
        } else {
            u
        },
        CharMap::AsciiToFullwidth => if (0x30 <= u && u <= 0x39) || (0x41 <= u && u <= 0x5A) || (0x61
            <= u && u <= 0x7A) {
            u + 0xFEE0
        } else {
            u
        },
    }
}

/// Converts every character of `text` by `m`.
pub fn convert_text(text: &str, m: CharMap) -> (r: String)
    ensures
        r@ == map_text(m, text@),
{
    let s = chars_of(text);
    let mut out: Vec<char> = Vec::new();
    let mut i: usize = 0;
    while i < s.len()
        invariant
            i <= s@.len(),
            out@ == map_text(m, s@.subrange(0, i as int)),
        decreases s@.len() - i,
    {
        let c = s[i];
        let u = map_code_exec(m, c as u32);
        proof {
            lemma_map_code_valid(m, c);
        }
        let v = match char_from_u32(u) {
            Some(v) => v,
            None => c,
        };
        proof {
            lemma_char_of_code(v);
        }
        assert(v == map_char(m, c));
        out.push(v);
        assert(map_text(m, s@.subrange(0, i + 1)) =~= map_text(m, s@.subrange(0, i as int)).push(map_char(m, c)));
        i = i + 1;
    }
    assert(s@.subrange(0, s@.len() as int) =~= s@);
    string_of(out.as_slice())
}

/// Hiragana to the katakana of the same sound.
pub fn convert_hiragana_to_katakana(text: &str) -> (r: String)
    ensures
        r@ == map_text(CharMap::HiraganaToKatakana, text@),
{
    convert_text(text, CharMap::HiraganaToKatakana)
}

/// Katakana to the hiragana of the same sound; the prolonged sound mark is kept.
pub fn convert_katakana_to_hiragana(text: &str) -> (r: String)
    ensures
        r@ == map_text(CharMap::KatakanaToHiragana, text@),
{
    convert_text(text, CharMap::KatakanaToHiragana)
}

/// Fullwidth digits and Latin letters to their ASCII forms.
pub fn convert_fullwidth_alphanumeric_to_normal(text: &str) -> (r: String)
    ensures
        r@ == map_text(CharMap::FullwidthToAscii, text@),
{
    convert_text(text, CharMap::FullwidthToAscii)
}

/// ASCII digits and Latin letters to their fullwidth forms.
pub fn convert_alphanumeric_to_fullwidth(text: &str) -> (r: String)
    ensures
        r@ == map_text(CharMap::AsciiToFullwidth, text@),
{
    convert_text(text, CharMap::AsciiToFullwidth)
}

/// Whether `m` leaves every code point of `s` unchanged; the converse map, then, must too.
pub open spec fn untouched_by(m: CharMap, s: Seq<char>) -> bool {
    forall|i: int| 0 <= i < s.len() ==> map_code(m, #[trigger] s[i] as u32) == s[i] as u32
}

/// The map that undoes `m`.
pub open spec fn converse(m: CharMap) -> CharMap {
    match m {
        CharMap::HiraganaToKatakana => CharMap::KatakanaToHiragana,
        CharMap::KatakanaToHiragana => CharMap::HiraganaToKatakana,
        CharMap::FullwidthToAscii => CharMap::AsciiToFullwidth,
        CharMap::AsciiToFullwidth => CharMap::FullwidthToAscii,
    }
}

/// Converting by `m` and then by its converse gives back `s`, provided `s` holds no
/// character already in the converse's source range (no katakana before a hiragana
/// round trip, no ASCII letter or digit before a fullwidth one, and so on).
pub proof fn lemma_round_trip(m: CharMap, s: Seq<char>)
    requires
        untouched_by(converse(m), s),
    ensures
        map_text(converse(m), map_text(m, s)) == s,
{
    let t = map_text(converse(m), map_text(m, s));
    assert forall|i: int| 0 <= i < s.len() implies t[i] == s[i] by {
        let c = s[i];
        let u = c as u32;
        assert(map_code(converse(m), u) == u);
        lemma_map_code_valid(m, c);
        let v = map_code(m, u);
        assert(map_text(m, s)[i] == char_of(v));
        assert(map_code(converse(m), v) == u);
        lemma_char_of_code(c);
    }
    assert(t =~= s);
}

/// The small tsu of either script and the prolonged sound mark.
pub open spec fn is_emphatic(c: char) -> bool {
    c == '\u{3063}' || c == '\u{30C3}' || c == '\u{30FC}'
}

/// The end of the run of emphatic characters that starts at `i`.
pub open spec fn lead_from(s: Seq<char>, i: int) -> int
    decreases s.len() - i,
{
    if 0 <= i < s.len() && is_emphatic(s[i]) {
        lead_from(s, i + 1)
    } else {
        i
    }
}

/// The start of the run of emphatic characters that ends at `j`.
pub open spec fn trail_from(s: Seq<char>, j: int) -> int
    decreases j,
{
    if 0 < j <= s.len() && is_emphatic(s[j - 1]) {
        trail_from(s, j - 1)
    } else {
        j
    }
}

/// Whether the `j`th character of the middle part `m` survives collapsing: every
/// non-emphatic one does; an emphatic one only in the partial collapse, and only as the
/// first of a run of that same character.
pub open spec fn kept(m: Seq<char>, j: int, full: bool) -> bool {
    !is_emphatic(m[j]) || (!full && (j == 0 || m[j - 1] != m[j]))
}

/// The middle part `m` with its emphatic runs collapsed.
pub open spec fn collapse_middle(m: Seq<char>, full: bool) -> Seq<char>
    decreases m.len(),
{
    if m.len() == 0 {
        Seq::empty()
    } else {
        collapse_middle(m.drop_last(), full) + if kept(m, m.len() - 1, full) {
            seq![m.last()]
        } else {
            Seq::empty()
        }
    }
}

/// `s` with runs of emphatic characters collapsed: to one character each, or, with
/// `full`, removed. Emphatic characters at either end of `s` are kept as they are, and a
/// text made only of them is returned unchanged.
pub open spec fn collapse_emphatic_spec(s: Seq<char>, full: bool) -> Seq<char> {
    let l = lead_from(s, 0);
    if l >= s.len() {
        s
    } else {
        let r = trail_from(s, s.len() as int);
        s.subrange(0, l) + collapse_middle(s.subrange(l, r), full) + s.subrange(r, s.len() as int)
    }
}

fn is_emphatic_exec(c: char) -> (r: bool)
    ensures
        r == is_emphatic(c),
{
    c == '\u{3063}' || c == '\u{30C3}' || c == '\u{30FC}'
}

/// Collapses runs of small tsu and prolonged sound marks, as `collapse_emphatic_spec`
/// says.
pub fn collapse_emphatic_sequences(text: &str, full: bool) -> (r: String)
    ensures
        r@ == collapse_emphatic_spec(text@, full),
{
    let s = chars_of(text);
    let n: usize = s.len();
    let mut l: usize = 0;
    while l < n && is_emphatic_exec(s[l])
        invariant
            l <= n == s@.len(),
            lead_from(s@, l as int) == lead_from(s@, 0),
        decreases n - l,
    {
        l = l + 1;
    }
    if l >= n {
        return string_of(s.as_slice());
    }
    let mut r: usize = n;
    while r > 0 && is_emphatic_exec(s[r - 1])
        invariant
            l < r <= n == s@.len(),
            !is_emphatic(s@[l as int]),
            trail_from(s@, r as int) == trail_from(s@, n as int),
        decreases r,
    {
        r = r - 1;
    }
    let ghost m = s@.subrange(l as int, r as int);
    let mut out = splice(s.as_slice(), 0, l, &[]);
    let mut k: usize = l;
    while k < r
        invariant
            l <= k <= r <= n == s@.len(),
            m == s@.subrange(l as int, r as int),
            out@ == s@.subrange(0, l as int) + collapse_middle(m.subrange(0, k - l), full),
        decreases r - k,
    {
        let c = s[k];
        let keep = !is_emphatic_exec(c) || (!full && (k == l || s[k - 1] != c));
        let ghost p = m.subrange(0, k + 1 - l);
        assert(p.drop_last() =~= m.subrange(0, k - l));
        assert(keep == kept(p, p.len() - 1, full));
        if keep {
            out.push(c);
        }
        assert(out@ =~= s@.subrange(0, l as int) + collapse_middle(p, full));
        k = k + 1;
    }
    assert(m.subrange(0, r - l) =~= m);
    let all = splice(out.as_slice(), 0, out.len(), s.as_slice().split_at(r).1);
    assert(out@.subrange(0, out@.len() as int) =~= out@);
    string_of(all.as_slice())
}

/// The fullwidth katakana for each halfwidth one, U+FF66 to U+FF9D, in order.
pub open spec fn halfwidth_bases() -> Seq<char> {
    seq!['\u{30F2}', '\u{30A1}', '\u{30A3}', '\u{30A5}', '\u{30A7}', '\u{30A9}', '\u{30E3}', '\u{30E5}', '\u{30E7}', '\u{30C3}', '\u{30FC}', '\u{30A2}', '\u{30A4}', '\u{30A6}', '\u{30A8}', '\u{30AA}', '\u{30AB}', '\u{30AD}', '\u{30AF}', '\u{30B1}', '\u{30B3}', '\u{30B5}', '\u{30B7}', '\u{30B9}', '\u{30BB}', '\u{30BD}', '\u{30BF}', '\u{30C1}', '\u{30C4}', '\u{30C6}', '\u{30C8}', '\u{30CA}', '\u{30CB}', '\u{30CC}', '\u{30CD}', '\u{30CE}', '\u{30CF}', '\u{30D2}', '\u{30D5}', '\u{30D8}', '\u{30DB}', '\u{30DE}', '\u{30DF}', '\u{30E0}', '\u{30E1}', '\u{30E2}', '\u{30E4}', '\u{30E6}', '\u{30E8}', '\u{30E9}', '\u{30EA}', '\u{30EB}', '\u{30EC}', '\u{30ED}', '\u{30EF}', '\u{30F3}']
}

fn halfwidth_base_table() -> (r: Vec<char>)
    ensures
        r@ == halfwidth_bases(),
{
    let r = vec!['\u{30F2}', '\u{30A1}', '\u{30A3}', '\u{30A5}', '\u{30A7}', '\u{30A9}', '\u{30E3}', '\u{30E5}', '\u{30E7}', '\u{30C3}', '\u{30FC}', '\u{30A2}', '\u{30A4}', '\u{30A6}', '\u{30A8}', '\u{30AA}', '\u{30AB}', '\u{30AD}', '\u{30AF}', '\u{30B1}', '\u{30B3}', '\u{30B5}', '\u{30B7}', '\u{30B9}', '\u{30BB}', '\u{30BD}', '\u{30BF}', '\u{30C1}', '\u{30C4}', '\u{30C6}', '\u{30C8}', '\u{30CA}', '\u{30CB}', '\u{30CC}', '\u{30CD}', '\u{30CE}', '\u{30CF}', '\u{30D2}', '\u{30D5}', '\u{30D8}', '\u{30DB}', '\u{30DE}', '\u{30DF}', '\u{30E0}', '\u{30E1}', '\u{30E2}', '\u{30E4}', '\u{30E6}', '\u{30E8}', '\u{30E9}', '\u{30EA}', '\u{30EB}', '\u{30EC}', '\u{30ED}', '\u{30EF}', '\u{30F3}'];
    assert(r@ =~= halfwidth_bases());
    r
}

pub open spec fn is_halfwidth_katakana(c: char) -> bool {
    0xFF66 <= c as u32 <= 0xFF9D
}

/// The voiced form of the fullwidth katakana `b`, where a dakuten applies to it.
pub open spec fn voiced_code(b: u32) -> Option<u32> {
    if (0x30AB <= b <= 0x30C1 && (b - 0x30AB) % 2 == 0) || b == 0x30C4 || b == 0x30C6 || b == 0x30C8
        || b == 0x30CF || b == 0x30D2 || b == 0x30D5 || b == 0x30D8 || b == 0x30DB {
        Some((b + 1) as u32)
    } else if b == 0x30A6 {
        Some(0x30F4)
    } else if b == 0x30EF {
        Some(0x30F7)
    } else if b == 0x30F2 {
        Some(0x30FA)
    } else {
        None
    }
}

/// The semi-voiced form of the fullwidth katakana `b`, where a handakuten applies to it.
pub open spec fn semi_voiced_code(b: u32) -> Option<u32> {
    if b == 0x30CF || b == 0x30D2 || b == 0x30D5 || b == 0x30D8 || b == 0x30DB {
        Some((b + 2) as u32)
    } else {
        None
    }
}

/// `s` with halfwidth katakana made fullwidth; a halfwidth (han)dakuten right after one
/// that takes it is merged into it, any other is kept.
pub open spec fn halfwidth_to_fullwidth(s: Seq<char>) -> Seq<char>
    decreases s.len(),
{
    if s.len() == 0 {
        Seq::empty()
    } else if !is_halfwidth_katakana(s[0]) {
        seq![s[0]] + halfwidth_to_fullwidth(s.drop_first())
    } else {
        let b = halfwidth_bases()[(s[0] as u32) - 0xFF66] as u32;
        if s.len() > 1 && s[1] == '\u{FF9E}' && voiced_code(b) is Some {
            seq![char_of(voiced_code(b)->0)] + halfwidth_to_fullwidth(s.subrange(2, s.len() as int))
        } else if s.len() > 1 && s[1] == '\u{FF9F}' && semi_voiced_code(b) is Some {
            seq![char_of(semi_voiced_code(b)->0)] + halfwidth_to_fullwidth(s.subrange(2, s.len() as int))
        } else {
            seq![char_of(b)] + halfwidth_to_fullwidth(s.drop_first())
        }
    }
}

fn voiced_code_exec(b: u32) -> (r: Option<u32>)
    ensures
        r == voiced_code(b),
{
    if (0x30AB <= b && b <= 0x30C1 && (b - 0x30AB) % 2 == 0) || b == 0x30C4 || b == 0x30C6 || b
        == 0x30C8 || b == 0x30CF || b == 0x30D2 || b == 0x30D5 || b == 0x30D8 || b == 0x30DB {
        Some(b + 1)
    } else if b == 0x30A6 {
        Some(0x30F4)
    } else if b == 0x30EF {
        Some(0x30F7)
    } else if b == 0x30F2 {
        Some(0x30FA)
    } else {
        None
    }
}

fn semi_voiced_code_exec(b: u32) -> (r: Option<u32>)
    ensures
        r == semi_voiced_code(b),
{
    if b == 0x30CF || b == 0x30D2 || b == 0x30D5 || b == 0x30D8 || b == 0x30DB {
        Some(b + 2)
    } else {
        None
    }
}

/// Halfwidth katakana to fullwidth, merging halfwidth (han)dakuten (ﾖﾐﾁｬﾝ becomes
/// ヨミチャン).
pub fn convert_halfwidth_kana_to_fullwidth(text: &str) -> (r: String)
    ensures
        r@ == halfwidth_to_fullwidth(text@),
{
    let s = chars_of(text);
    let table = halfwidth_base_table();
    let n: usize = s.len();
    let mut out: Vec<char> = Vec::new();
    let mut i: usize = 0;
    assert(s@.subrange(0, n as int) =~= s@);
    while i < n
        invariant
            i <= n == s@.len(),
            table@ == halfwidth_bases(),
            out@ + halfwidth_to_fullwidth(s@.subrange(i as int, n as int)) == halfwidth_to_fullwidth(s@),
        decreases n - i,
    {
        let ghost rest = s@.subrange(i as int, n as int);
        let c = s[i];
        assert(rest[0] == c);
        assert(rest.drop_first() =~= s@.subrange(i + 1, n as int));
        if !(0xFF66 <= c as u32 && c as u32 <= 0xFF9D) {
            out.push(c);
            assert(out@ + halfwidth_to_fullwidth(s@.subrange(i + 1, n as int)) =~= halfwidth_to_fullwidth(s@));
            i = i + 1;
        } else {
            let b = table[(c as u32 - 0xFF66) as usize] as u32;
            let dakuten = i + 1 < n && s[i + 1] == '\u{FF9E}';
            let handakuten = i + 1 < n && s[i + 1] == '\u{FF9F}';
            let v = voiced_code_exec(b);
            let sv = semi_voiced_code_exec(b);
            let code: u32;
            let step: usize;
            if dakuten && v.is_some() {
                code = v.unwrap();
                step = 2;
            } else if handakuten && sv.is_some() {
                code = sv.unwrap();
                step = 2;
            } else {
                code = b;
                step = 1;
            }
            proof {
                if i + 1 < n {
                    assert(rest[1] == s@[i + 1]);
                    assert(rest.subrange(2, rest.len() as int) =~= s@.subrange(i + 2, n as int));
                }
                assert(is_char_code(code));
            }
            let d = match char_from_u32(code) {
                Some(d) => d,
                None => c,
            };
            proof {
                lemma_char_of_code(d);
            }
            out.push(d);
            assert(out@ + halfwidth_to_fullwidth(s@.subrange(i + step, n as int)) =~= halfwidth_to_fullwidth(s@));
            i = i + step;
        }
    }
    assert(s@.subrange(n as int, n as int) =~= Seq::<char>::empty());
    assert(out@ =~= halfwidth_to_fullwidth(s@));
    string_of(out.as_slice())
}

} // verus!

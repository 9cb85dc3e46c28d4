//! Unicode-level normalisation: combining (han)dakuten, CJK compatibility characters,
//! canonical decomposition and kanji variants.
use vstd::prelude::*;
use unicode_normalization::UnicodeNormalization;
use crate::chars::{char_from_u32, char_of, chars_of, lemma_char_of_code, string_of};

verus! {

/// What `unicode_normalization`'s `nfd` yields for `s`, collected.
pub uninterp spec fn nfd_of(s: Seq<char>) -> Seq<char>;

/// What `unicode_normalization`'s `nfkc` yields for `s`, collected.
pub uninterp spec fn nfkc_of(s: Seq<char>) -> Seq<char>;

/// What `kanji_processor::convert_variants` returns for `s`.
pub uninterp spec fn kanji_parents_of(s: Seq<char>) -> Seq<char>;

/// Relies on `UnicodeNormalization::nfd` of unicode-normalization: the canonical
/// decomposition of `s`.
#[verifier::external_body]
pub(crate) fn nfd(s: &str) -> (r: String)
    ensures
        r@ == nfd_of(s@),
{
    s.nfd().collect()
}

/// Relies on `UnicodeNormalization::nfkc` of unicode-normalization: the compatibility
/// composition of `s` (NFKC).
#[verifier::external_body]
fn nfkc(s: &str) -> (r: String)
    ensures
        r@ == nfkc_of(s@),
{
    s.nfkc().collect()
}

/// Relies on `kanji_processor::convert_variants`: each variant kanji replaced by its
/// standard form, one character for one.
#[verifier::external_body]
pub(crate) fn convert_variants(s: &str) -> (r: String)
    ensures
        r@ == kanji_parents_of(s@),
        r@.len() == s@.len(),
{
    kanji_processor::convert_variants(s)
}

/// Unvoiced hiragana that take a handakuten: は ひ ふ へ ほ.
pub open spec fn ha_row_hiragana(u: u32) -> bool {
    u == 0x306F || u == 0x3072 || u == 0x3075 || u == 0x3078 || u == 0x307B
}

/// Unvoiced hiragana that have a voiced form one code point up: か to ち, つ て と, and
/// は ひ ふ へ ほ.
pub open spec fn unvoiced_hiragana(u: u32) -> bool {
    (0x304B <= u <= 0x3061 && (u - 0x304B) % 2 == 0) || u == 0x3064 || u == 0x3066 || u == 0x3068
        || ha_row_hiragana(u)
}

/// Kana, hiragana or katakana, that a combining dakuten (U+3099) turns into their voiced
/// form, one code point up. Kana that are already voiced are not among them.
pub open spec fn dakuten_allowed(u: u32) -> bool {
    unvoiced_hiragana(u) || (0x30AB <= u <= 0x30DB && unvoiced_hiragana((u - 0x60) as u32))
}

/// Kana that a combining handakuten (U+309A) turns into their semi-voiced form, two
/// code points up: は ひ ふ へ ほ and ハ ヒ フ ヘ ホ.
pub open spec fn handakuten_allowed(u: u32) -> bool {
    ha_row_hiragana(u) || (0x30CF <= u <= 0x30DB && ha_row_hiragana((u - 0x60) as u32))
}

fn ha_row_hiragana_exec(u: u32) -> (r: bool)
    ensures
        r == ha_row_hiragana(u),
{
    u == 0x306F || u == 0x3072 || u == 0x3075 || u == 0x3078 || u == 0x307B
}

fn unvoiced_hiragana_exec(u: u32) -> (r: bool)
    ensures
        r == unvoiced_hiragana(u),
{
    (0x304B <= u && u <= 0x3061 && (u - 0x304B) % 2 == 0) || u == 0x3064 || u == 0x3066 || u
        == 0x3068 || ha_row_hiragana_exec(u)
}

fn dakuten_allowed_exec(u: u32) -> (r: bool)
    ensures
        r == dakuten_allowed(u),
{
    unvoiced_hiragana_exec(u) || (0x30AB <= u && u <= 0x30DB && unvoiced_hiragana_exec(u - 0x60))
}

fn handakuten_allowed_exec(u: u32) -> (r: bool)
    ensures
        r == handakuten_allowed(u),
{
    ha_row_hiragana_exec(u) || (0x30CF <= u && u <= 0x30DB && ha_row_hiragana_exec(u - 0x60))
}

/// `s` with each kana followed by a combining (han)dakuten that applies to it replaced
/// by the precomposed kana, pairs taken from the end of the text.
pub open spec fn combine_marks(s: Seq<char>) -> Seq<char>
    decreases s.len(),
{
    if s.len() <= 1 {
        s
    } else {
        let last = s.last();
        let prev = s[s.len() - 2] as u32;
        if last == '\u{3099}' && dakuten_allowed(prev) {
            combine_marks(s.subrange(0, s.len() - 2)).push(char_of((prev + 1) as u32))
        } else if last == '\u{309A}' && handakuten_allowed(prev) {
            combine_marks(s.subrange(0, s.len() - 2)).push(char_of((prev + 2) as u32))
        } else {
            combine_marks(s.drop_last()).push(last)
        }
    }
}

/// Replaces combining dakuten and handakuten after kana by the precomposed kana.
pub fn normalize_combining_characters(text: &str) -> (r: String)
    ensures
        r@ == combine_marks(text@),
{
    let s = chars_of(text);
    let mut out: Vec<char> = Vec::new();
    let mut i: usize = s.len();
    assert(s@.subrange(0, i as int) =~= s@);
    assert(combine_marks(s@) =~= combine_marks(s@.subrange(0, i as int)) + out@);
    while i > 1
        invariant
            i <= s@.len(),
            combine_marks(s@) == combine_marks(s@.subrange(0, i as int)) + out@,
        decreases i,
    {
        let ghost p = s@.subrange(0, i as int);
        let last = s[i - 1];
        let prev = s[i - 2] as u32;
        let dakuten = last == '\u{3099}' && dakuten_allowed_exec(prev);
        let handakuten = last == '\u{309A}' && handakuten_allowed_exec(prev);
        assert(p.last() == last && p[p.len() - 2] as u32 == prev);
        if dakuten || handakuten {
            let code: u32 = if dakuten { prev + 1 } else { prev + 2 };
            let c = match char_from_u32(code) {
                Some(c) => c,
                None => last,
            };
            proof {
                lemma_char_of_code(c);
            }
            assert(p.subrange(0, p.len() - 2) =~= s@.subrange(0, i - 2));
            assert(combine_marks(p) == combine_marks(s@.subrange(0, i - 2)).push(c));
            out.insert(0, c);
            assert(combine_marks(s@) =~= combine_marks(s@.subrange(0, i - 2)) + out@);
            i = i - 2;
        } else {
            assert(p.drop_last() =~= s@.subrange(0, i - 1));
            out.insert(0, last);
            assert(combine_marks(s@) =~= combine_marks(s@.subrange(0, i - 1)) + out@);
            i = i - 1;
        }
    }
    let mut all: Vec<char> = Vec::new();
    if i == 1 {
        all.push(s[0]);
    }
    assert(combine_marks(s@.subrange(0, i as int)) =~= all@);
    all.append(&mut out);
    string_of(all.as_slice())
}

pub open spec fn is_cjk_compatibility(c: char) -> bool {
    0x3300 <= c as u32 <= 0x33FF
}

/// `s` with each CJK compatibility character (U+3300 to U+33FF) replaced by its
/// compatibility normalisation (NFKC).
pub open spec fn cjk_normalized(s: Seq<char>) -> Seq<char>
    decreases s.len(),
{
    if s.len() == 0 {
        Seq::empty()
    } else {
        cjk_normalized(s.drop_last()) + if is_cjk_compatibility(s.last()) {
            nfkc_of(seq![s.last()])
        } else {
            seq![s.last()]
        }
    }
}

/// Replaces each CJK compatibility character by its compatibility normalisation (NFKC)
/// (㌀ becomes アパート); other characters are kept.
pub fn normalize_cjk_compatibility_characters(text: &str) -> (r: String)
    ensures
        r@ == cjk_normalized(text@),
{
    let s = chars_of(text);
    let mut out: Vec<char> = Vec::new();
    let mut i: usize = 0;
    while i < s.len()
        invariant
            i <= s@.len(),
            out@ == cjk_normalized(s@.subrange(0, i as int)),
        decreases s@.len() - i,
    {
        let c = s[i];
        let ghost before = out@;
        assert(s@.subrange(0, i + 1).drop_last() =~= s@.subrange(0, i as int));
        if 0x3300 <= c as u32 && c as u32 <= 0x33FF {
            let one = [c];
            let single = string_of(&one);
            assert(single@ =~= seq![c]);
            let d = chars_of(nfkc(single.as_str()).as_str());
            let mut j: usize = 0;
            while j < d.len()
                invariant
                    j <= d@.len(),
                    out@ == before + d@.subrange(0, j as int),
                decreases d@.len() - j,
            {
                out.push(d[j]);
                assert(out@ =~= before + d@.subrange(0, j + 1));
                j = j + 1;
            }
            assert(d@.subrange(0, d@.len() as int) =~= d@);
        } else {
            out.push(c);
        }
        assert(out@ =~= cjk_normalized(s@.subrange(0, i + 1)));
        i = i + 1;
    }
    assert(s@.subrange(0, s@.len() as int) =~= s@);
    string_of(out.as_slice())
}

/// No kana in `s` is followed by a combining (han)dakuten that applies to it.
pub open spec fn settled(s: Seq<char>) -> bool {
    forall|i: int|
        1 <= i < s.len() ==> !(#[trigger] s[i] == '\u{3099}' && dakuten_allowed(s[i - 1] as u32))
            && !(s[i] == '\u{309A}' && handakuten_allowed(s[i - 1] as u32))
}

/// Neither mark applies to the character `c`.
pub open spec fn takes_no_mark(c: char) -> bool {
    !dakuten_allowed(c as u32) && !handakuten_allowed(c as u32)
}

proof fn lemma_settled_unchanged(s: Seq<char>)
    requires
        settled(s),
    ensures
        combine_marks(s) == s,
    decreases s.len(),
{
    if s.len() > 1 {
        assert(s.drop_last()[s.len() - 2] == s[s.len() - 2]);
        assert(settled(s.drop_last())) by {
            assert forall|i: int| 1 <= i < s.drop_last().len() implies !(#[trigger] s.drop_last()[i]
                == '\u{3099}' && dakuten_allowed(s.drop_last()[i - 1] as u32)) && !(s.drop_last()[i]
                == '\u{309A}' && handakuten_allowed(s.drop_last()[i - 1] as u32)) by {
                assert(s[i] == s.drop_last()[i]);
            }
        }
        lemma_settled_unchanged(s.drop_last());
        assert(s.drop_last().push(s.last()) =~= s);
    }
}

proof fn lemma_combined_takes_no_mark(u: u32, k: u32)
    requires
        (k == 1 && dakuten_allowed(u)) || (k == 2 && handakuten_allowed(u)),
    ensures
        takes_no_mark(char_of((u + k) as u32)),
        char_of((u + k) as u32) != '\u{3099}',
        char_of((u + k) as u32) != '\u{309A}',
{
    assert(char_of((u + k) as u32) as u32 == u + k);
}

proof fn lemma_combine_marks_shape(s: Seq<char>)
    ensures
        settled(combine_marks(s)),
        s.len() > 0 ==> combine_marks(s).len() > 0 && (combine_marks(s).last() == s.last()
            || takes_no_mark(combine_marks(s).last())),
        s.len() > 0 && combine_marks(s).last() != s.last() ==> combine_marks(s).last() != '\u{3099}'
            && combine_marks(s).last() != '\u{309A}',
    decreases s.len(),
{
    if s.len() <= 1 {
    } else {
        let last = s.last();
        let prev = s[s.len() - 2] as u32;
        let (q, x) = if last == '\u{3099}' && dakuten_allowed(prev) {
            lemma_combined_takes_no_mark(prev, 1);
            (s.subrange(0, s.len() - 2), char_of((prev + 1) as u32))
        } else if last == '\u{309A}' && handakuten_allowed(prev) {
            lemma_combined_takes_no_mark(prev, 2);
            (s.subrange(0, s.len() - 2), char_of((prev + 2) as u32))
        } else {
            (s.drop_last(), last)
        };
        lemma_combine_marks_shape(q);
        let c = combine_marks(q);
        let r = combine_marks(s);
        assert(r == c.push(x));
        assert forall|i: int| 1 <= i < r.len() implies !(#[trigger] r[i] == '\u{3099}' && dakuten_allowed(
            r[i - 1] as u32)) && !(r[i] == '\u{309A}' && handakuten_allowed(r[i - 1] as u32)) by {
            if i < r.len() - 1 {
                assert(r[i] == c[i] && r[i - 1] == c[i - 1]);
            } else if x == last && (x == '\u{3099}' || x == '\u{309A}') {
                assert(q == s.drop_last());
                assert(q.last() == s[s.len() - 2]);
                assert(r[i - 1] == c.last());
            }
        }
    }
}

/// Normalising combining marks twice gives the same text as normalising once.
pub proof fn lemma_combine_marks_idempotent(s: Seq<char>)
    ensures
        combine_marks(combine_marks(s)) == combine_marks(s),
{
    lemma_combine_marks_shape(s);
    lemma_settled_unchanged(combine_marks(s));
}

} // verus!

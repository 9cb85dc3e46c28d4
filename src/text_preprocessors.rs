//! Processors for Japanese script: widths, kana, emphasis, combining marks, kanji.
use vstd::prelude::*;
use crate::japanese::{
    collapse_emphatic_sequences, collapse_emphatic_spec, convert_alphanumeric_to_fullwidth,
    convert_fullwidth_alphanumeric_to_normal, convert_halfwidth_kana_to_fullwidth,
    convert_hiragana_to_katakana, convert_katakana_to_hiragana, halfwidth_to_fullwidth, map_text,
    CharMap,
};
use crate::normalize::{
    cjk_normalized, combine_marks, convert_variants, kanji_parents_of,
    normalize_cjk_compatibility_characters, normalize_combining_characters,
};
use crate::romaji::{alphabetic_to_kana, convert_alphabetic_to_kana};

verus! {

/// The three settings of a processor that converts in both directions.
#[derive(Clone, Copy, Debug, PartialEq, Eq, Structural)]
pub enum BidirectionalPreProcessorOptions {
    Off,
    Direct,
    Inverse,
}

/// `converted` when `on`; `text` otherwise.
pub open spec fn when_on(on: bool, converted: Seq<char>, text: Seq<char>) -> Seq<char> {
    if on {
        converted
    } else {
        text
    }
}

/// `text` with `direct` applied for `Direct`, `inverse` for `Inverse`, unchanged for
/// `Off`.
pub open spec fn by_direction(
    setting: BidirectionalPreProcessorOptions,
    direct: CharMap,
    inverse: CharMap,
    text: Seq<char>,
) -> Seq<char> {
    match setting {
        BidirectionalPreProcessorOptions::Off => text,
        BidirectionalPreProcessorOptions::Direct => map_text(direct, text),
        BidirectionalPreProcessorOptions::Inverse => map_text(inverse, text),
    }
}

/// Halfwidth katakana made fullwidth when `setting` is on.
pub fn convert_half_width_characters_helper(text: &str, setting: bool) -> (r: String)
    ensures
        r@ == when_on(setting, halfwidth_to_fullwidth(text@), text@),
{
    if setting {
        return convert_halfwidth_kana_to_fullwidth(text);
    }
    text.to_owned()
}

/// Romaji read as hiragana when `setting` is on.
pub fn alphabetic_to_hiragana_helper(text: &str, setting: bool) -> (r: String)
    ensures
        r@ == when_on(setting, alphabetic_to_kana(text@), text@),
{
    if setting {
        return convert_alphabetic_to_kana(text);
    }
    text.to_owned()
}

/// Fullwidth letters and digits to ASCII (`Direct`), or back (`Inverse`).
pub fn process_alphanumeric_width_variants(text: &str, setting: BidirectionalPreProcessorOptions) -> (r: String)
    ensures
        r@ == by_direction(setting, CharMap::FullwidthToAscii, CharMap::AsciiToFullwidth, text@),
{
    match setting {
        BidirectionalPreProcessorOptions::Off => text.to_owned(),
        BidirectionalPreProcessorOptions::Direct => convert_fullwidth_alphanumeric_to_normal(text),
        BidirectionalPreProcessorOptions::Inverse => convert_alphanumeric_to_fullwidth(text),
    }
}

/// Hiragana to katakana (`Direct`), or back (`Inverse`).
pub fn process_hiragana_to_katakana(text: &str, setting: BidirectionalPreProcessorOptions) -> (r: String)
    ensures
        r@ == by_direction(setting, CharMap::HiraganaToKatakana, CharMap::KatakanaToHiragana, text@),
{
    match setting {
        BidirectionalPreProcessorOptions::Off => text.to_owned(),
        BidirectionalPreProcessorOptions::Direct => convert_hiragana_to_katakana(text),
        BidirectionalPreProcessorOptions::Inverse => convert_katakana_to_hiragana(text),
    }
}

/// Emphatic runs collapsed when the first setting is on: to one character, or, with
/// the second also on, removed. Full collapse without collapse is not a setting.
pub fn collapse_emphatic_sequences_helper(text: &str, setting: [bool; 2]) -> (r: String)
    requires
        setting@[0] || !setting@[1],
    ensures
        r@ == when_on(setting@[0], collapse_emphatic_spec(text@, setting@[1]), text@),
{
    let collapse_emphatic = setting[0];
    let collapse_emphatic_full = setting[1];
    if collapse_emphatic {
        collapse_emphatic_sequences(text, collapse_emphatic_full)
    } else {
        text.to_owned()
    }
}

/// Combining (han)dakuten merged into the kana before them when `setting` is on.
pub fn normalize_combining_characters_helper(text: &str, setting: bool) -> (r: String)
    ensures
        r@ == when_on(setting, combine_marks(text@), text@),
{
    if setting {
        return normalize_combining_characters(text);
    }
    text.to_owned()
}

/// CJK compatibility characters normalised when `setting` is on.
pub fn normalize_cjk_compatibility_characters_helper(text: &str, setting: bool) -> (r: String)
    ensures
        r@ == when_on(setting, cjk_normalized(text@), text@),
{
    if setting {
        return normalize_cjk_compatibility_characters(text);
    }
    text.to_owned()
}

/// Variant kanji replaced by their standard forms when `setting` is on.
pub fn standardize_kanji_helper(text: &str, setting: bool) -> (r: String)
    ensures
        r@ == when_on(setting, kanji_parents_of(text@), text@),
{
    if setting {
        return convert_variants(text);
    }
    text.to_owned()
}

} // verus!

//! The text-processor framework: named, independently configurable transforms with a
//! finite, ordered set of settings each.
use vstd::prelude::*;
use crate::japanese::{collapse_emphatic_spec, converse, halfwidth_to_fullwidth, lemma_round_trip, untouched_by, CharMap};
use crate::normalize::{cjk_normalized, combine_marks, kanji_parents_of};
use crate::romaji::alphabetic_to_kana;
use crate::text_preprocessors::{
    alphabetic_to_hiragana_helper, by_direction, collapse_emphatic_sequences_helper,
    convert_half_width_characters_helper, normalize_cjk_compatibility_characters_helper,
    normalize_combining_characters_helper, process_alphanumeric_width_variants,
    process_hiragana_to_katakana, standardize_kanji_helper, when_on,
    BidirectionalPreProcessorOptions,
};
use crate::text_processors::{
    capitalize_first_letter_helper, capitalize_spec, decapitalize_helper, decapitalize_spec,
    remove_alphabetic_diacritics, remove_diacritics_spec,
};

verus! {

/// The transforms the framework offers.
#[derive(Clone, Copy, Debug, PartialEq, Eq, Structural)]
pub enum ProcessorKind {
    ConvertHalfWidthCharacters,
    AlphabeticToHiragana,
    AlphanumericWidthVariants,
    ConvertHiraganaToKatakana,
    CollapseEmphaticSequences,
    NormalizeCombiningCharacters,
    NormalizeCjkCompatibilityCharacters,
    StandardizeKanji,
    Decapitalize,
    CapitalizeFirstLetter,
    RemoveAlphabeticDiacritics,
}

/// A setting of a processor.
#[derive(Clone, Copy, Debug, PartialEq, Eq, Structural)]
pub enum ProcessorOption {
    /// On or off.
    Flag(bool),
    /// Collapse, and collapse fully.
    Pair(bool, bool),
    Bidirectional(BidirectionalPreProcessorOptions),
}

/// A processor descriptor: which transform it runs.
#[derive(Clone, Copy, Debug, PartialEq, Eq, Structural)]
pub struct TextProcessor {
    pub kind: ProcessorKind,
}

/// The settings each kind of processor accepts, the identity setting first.
pub open spec fn options_of(kind: ProcessorKind) -> Seq<ProcessorOption> {
    match kind {
        ProcessorKind::AlphanumericWidthVariants | ProcessorKind::ConvertHiraganaToKatakana => seq![
            ProcessorOption::Bidirectional(BidirectionalPreProcessorOptions::Off),
            ProcessorOption::Bidirectional(BidirectionalPreProcessorOptions::Direct),
            ProcessorOption::Bidirectional(BidirectionalPreProcessorOptions::Inverse),
        ],
        ProcessorKind::CollapseEmphaticSequences => seq![
            ProcessorOption::Pair(false, false),
            ProcessorOption::Pair(true, false),
            ProcessorOption::Pair(true, true),
        ],
        _ => seq![ProcessorOption::Flag(false), ProcessorOption::Flag(true)],
    }
}

/// What a processor of `kind` makes of `text` under `option`.
pub open spec fn process_spec(kind: ProcessorKind, text: Seq<char>, option: ProcessorOption) -> Seq<char> {
    match (kind, option) {
        (ProcessorKind::ConvertHalfWidthCharacters, ProcessorOption::Flag(on)) =>
            when_on(on, halfwidth_to_fullwidth(text), text),
        (ProcessorKind::AlphabeticToHiragana, ProcessorOption::Flag(on)) =>
            when_on(on, alphabetic_to_kana(text), text),
        (ProcessorKind::AlphanumericWidthVariants, ProcessorOption::Bidirectional(d)) =>
            by_direction(d, CharMap::FullwidthToAscii, CharMap::AsciiToFullwidth, text),
        (ProcessorKind::ConvertHiraganaToKatakana, ProcessorOption::Bidirectional(d)) =>
            by_direction(d, CharMap::HiraganaToKatakana, CharMap::KatakanaToHiragana, text),
        (ProcessorKind::CollapseEmphaticSequences, ProcessorOption::Pair(on, full)) =>
            when_on(on, collapse_emphatic_spec(text, full), text),
        (ProcessorKind::NormalizeCombiningCharacters, ProcessorOption::Flag(on)) =>
            when_on(on, combine_marks(text), text),
        (ProcessorKind::NormalizeCjkCompatibilityCharacters, ProcessorOption::Flag(on)) =>
            when_on(on, cjk_normalized(text), text),
        (ProcessorKind::StandardizeKanji, ProcessorOption::Flag(on)) =>
            when_on(on, kanji_parents_of(text), text),
        (ProcessorKind::Decapitalize, ProcessorOption::Flag(on)) => decapitalize_spec(text, on),
        (ProcessorKind::CapitalizeFirstLetter, ProcessorOption::Flag(on)) => capitalize_spec(text, on),
        (ProcessorKind::RemoveAlphabeticDiacritics, ProcessorOption::Flag(on)) =>
            remove_diacritics_spec(text, on),
        _ => text,
    }
}

/// The display name of each kind of processor.
pub open spec fn name_of(kind: ProcessorKind) -> Seq<char> {
    match kind {
        ProcessorKind::ConvertHalfWidthCharacters => "Convert Half Width Characters to Full Width"@,
        ProcessorKind::AlphabeticToHiragana => "Convert Alphabetic Characters to Hiragana"@,
        ProcessorKind::AlphanumericWidthVariants => "Convert Between Alphabetic Width Variants"@,
        ProcessorKind::ConvertHiraganaToKatakana => "Convert Hiragana to Katakana"@,
        ProcessorKind::CollapseEmphaticSequences => "Collapse Emphatic Character Sequences"@,
        ProcessorKind::NormalizeCombiningCharacters => "Normalize Combining Characters"@,
        ProcessorKind::NormalizeCjkCompatibilityCharacters => "Normalize CJK Compatibility Characters"@,
        ProcessorKind::StandardizeKanji => "Convert kanji variants to their modern standard form"@,
        ProcessorKind::Decapitalize => "Decapitalize Text"@,
        ProcessorKind::CapitalizeFirstLetter => "Capitalize First Letter"@,
        ProcessorKind::RemoveAlphabeticDiacritics => "Remove Alphabetic Diacritics"@,
    }
}

/// The example each kind of processor shows.
pub open spec fn description_of(kind: ProcessorKind) -> Seq<char> {
    match kind {
        ProcessorKind::ConvertHalfWidthCharacters => "ﾖﾐﾁｬﾝ → ヨミチャン"@,
        ProcessorKind::AlphabeticToHiragana => "yomichan → よみちゃん"@,
        ProcessorKind::AlphanumericWidthVariants => "ｙｏｍｉｔａｎ → yomitan and vice versa"@,
        ProcessorKind::ConvertHiraganaToKatakana => "よみちゃん → ヨミチャン and vice versa"@,
        ProcessorKind::CollapseEmphaticSequences => "すっっごーーい → すっごーい / すごい"@,
        ProcessorKind::NormalizeCombiningCharacters => "ド → ド (U+30C8 U+3099 → U+30C9)"@,
        ProcessorKind::NormalizeCjkCompatibilityCharacters => "㌀ → アパート"@,
        ProcessorKind::StandardizeKanji => "萬 → 万"@,
        ProcessorKind::Decapitalize => "CAPITALIZED TEXT → capitalized text"@,
        ProcessorKind::CapitalizeFirstLetter => "lowercase text → Lowercase text"@,
        ProcessorKind::RemoveAlphabeticDiacritics => "ἄήé → αηe"@,
    }
}

impl TextProcessor {
    /// The processor that runs `kind`.
    pub fn new(kind: ProcessorKind) -> (r: TextProcessor)
        ensures
            r.kind == kind,
    {
        TextProcessor { kind }
    }

    /// The processor's display name.
    pub fn name(&self) -> (r: &'static str)
        ensures
            r@ == name_of(self.kind),
    {
        match self.kind {
            ProcessorKind::ConvertHalfWidthCharacters => "Convert Half Width Characters to Full Width",
            ProcessorKind::AlphabeticToHiragana => "Convert Alphabetic Characters to Hiragana",
            ProcessorKind::AlphanumericWidthVariants => "Convert Between Alphabetic Width Variants",
            ProcessorKind::ConvertHiraganaToKatakana => "Convert Hiragana to Katakana",
            ProcessorKind::CollapseEmphaticSequences => "Collapse Emphatic Character Sequences",
            ProcessorKind::NormalizeCombiningCharacters => "Normalize Combining Characters",
            ProcessorKind::NormalizeCjkCompatibilityCharacters => "Normalize CJK Compatibility Characters",
            ProcessorKind::StandardizeKanji => "Convert kanji variants to their modern standard form",
            ProcessorKind::Decapitalize => "Decapitalize Text",
            ProcessorKind::CapitalizeFirstLetter => "Capitalize First Letter",
            ProcessorKind::RemoveAlphabeticDiacritics => "Remove Alphabetic Diacritics",
        }
    }

    /// An example of what the processor does.
    pub fn description(&self) -> (r: &'static str)
        ensures
            r@ == description_of(self.kind),
    {
        match self.kind {
            ProcessorKind::ConvertHalfWidthCharacters => "ﾖﾐﾁｬﾝ → ヨミチャン",
            ProcessorKind::AlphabeticToHiragana => "yomichan → よみちゃん",
            ProcessorKind::AlphanumericWidthVariants => "ｙｏｍｉｔａｎ → yomitan and vice versa",
            ProcessorKind::ConvertHiraganaToKatakana => "よみちゃん → ヨミチャン and vice versa",
            ProcessorKind::CollapseEmphaticSequences => "すっっごーーい → すっごーい / すごい",
            ProcessorKind::NormalizeCombiningCharacters => "ド → ド (U+30C8 U+3099 → U+30C9)",
            ProcessorKind::NormalizeCjkCompatibilityCharacters => "㌀ → アパート",
            ProcessorKind::StandardizeKanji => "萬 → 万",
            ProcessorKind::Decapitalize => "CAPITALIZED TEXT → capitalized text",
            ProcessorKind::CapitalizeFirstLetter => "lowercase text → Lowercase text",
            ProcessorKind::RemoveAlphabeticDiacritics => "ἄήé → αηe",
        }
    }

    /// The settings the processor accepts, in order, the identity setting first.
    pub fn options(&self) -> (r: Vec<ProcessorOption>)
        ensures
            r@ == options_of(self.kind),
    {
        let r = match self.kind {
            ProcessorKind::AlphanumericWidthVariants | ProcessorKind::ConvertHiraganaToKatakana => vec![
                ProcessorOption::Bidirectional(BidirectionalPreProcessorOptions::Off),
                ProcessorOption::Bidirectional(BidirectionalPreProcessorOptions::Direct),
                ProcessorOption::Bidirectional(BidirectionalPreProcessorOptions::Inverse),
            ],
            ProcessorKind::CollapseEmphaticSequences => vec![
                ProcessorOption::Pair(false, false),
                ProcessorOption::Pair(true, false),
                ProcessorOption::Pair(true, true),
            ],
            _ => vec![ProcessorOption::Flag(false), ProcessorOption::Flag(true)],
        };
        assert(r@ =~= options_of(self.kind));
        r
    }

    /// Runs the processor on `text` with `option`, which must be one of its settings.
    pub fn process(&self, text: &str, option: ProcessorOption) -> (r: String)
        requires
            options_of(self.kind).contains(option),
        ensures
            r@ == process_spec(self.kind, text@, option),
    {
        match (self.kind, option) {
            (ProcessorKind::ConvertHalfWidthCharacters, ProcessorOption::Flag(on)) =>
                convert_half_width_characters_helper(text, on),
            (ProcessorKind::AlphabeticToHiragana, ProcessorOption::Flag(on)) =>
                alphabetic_to_hiragana_helper(text, on),
            (ProcessorKind::AlphanumericWidthVariants, ProcessorOption::Bidirectional(d)) =>
                process_alphanumeric_width_variants(text, d),
            (ProcessorKind::ConvertHiraganaToKatakana, ProcessorOption::Bidirectional(d)) =>
                process_hiragana_to_katakana(text, d),
            (ProcessorKind::CollapseEmphaticSequences, ProcessorOption::Pair(on, full)) => {
                let setting = [on, full];
                proof {
                    let k = choose|k: int| 0 <= k < options_of(self.kind).len() && options_of(self.kind)[k] == option;
                    assert(on || !full);
                    assert(setting@ =~= seq![on, full]);
                }
                collapse_emphatic_sequences_helper(text, setting)
            },
            (ProcessorKind::NormalizeCombiningCharacters, ProcessorOption::Flag(on)) =>
                normalize_combining_characters_helper(text, on),
            (ProcessorKind::NormalizeCjkCompatibilityCharacters, ProcessorOption::Flag(on)) =>
                normalize_cjk_compatibility_characters_helper(text, on),
            (ProcessorKind::StandardizeKanji, ProcessorOption::Flag(on)) =>
                standardize_kanji_helper(text, on),
            (ProcessorKind::Decapitalize, ProcessorOption::Flag(on)) => decapitalize_helper(text, on),
            (ProcessorKind::CapitalizeFirstLetter, ProcessorOption::Flag(on)) =>
                capitalize_first_letter_helper(text, on),
            (ProcessorKind::RemoveAlphabeticDiacritics, ProcessorOption::Flag(on)) =>
                remove_alphabetic_diacritics(text, on),
            _ => text.to_owned(),
        }
    }
}

/// Runs `processor` on `text` with `option`, which must be one of its settings.
pub fn apply_processor(processor: &TextProcessor, text: &str, option: ProcessorOption) -> (r: String)
    requires
        options_of(processor.kind).contains(option),
    ensures
        r@ == process_spec(processor.kind, text@, option),
{
    processor.process(text, option)
}

/// Every processor's first setting leaves every text, the empty one included, unchanged.
pub proof fn lemma_identity_setting(kind: ProcessorKind, text: Seq<char>)
    ensures
        options_of(kind).len() > 0,
        process_spec(kind, text, options_of(kind)[0]) == text,
{
}

/// The map a bidirectional processor applies for `Direct`.
pub open spec fn direct_map(kind: ProcessorKind) -> CharMap {
    if kind == ProcessorKind::AlphanumericWidthVariants {
        CharMap::FullwidthToAscii
    } else {
        CharMap::HiraganaToKatakana
    }
}

/// For the two bidirectional processors, `Inverse` undoes `Direct` on every text that
/// holds nothing already in `Inverse`'s source range (no ASCII letters or digits for the
/// width processor, no katakana for the kana one), and `Direct` undoes `Inverse` on every
/// text that holds nothing in `Direct`'s source range.
pub proof fn lemma_bidirectional_round_trip(kind: ProcessorKind, text: Seq<char>)
    requires
        kind == ProcessorKind::AlphanumericWidthVariants || kind == ProcessorKind::ConvertHiraganaToKatakana,
    ensures
        untouched_by(converse(direct_map(kind)), text) ==> process_spec(
            kind,
            process_spec(kind, text, ProcessorOption::Bidirectional(BidirectionalPreProcessorOptions::Direct)),
            ProcessorOption::Bidirectional(BidirectionalPreProcessorOptions::Inverse),
        ) == text,
        untouched_by(direct_map(kind), text) ==> process_spec(
            kind,
            process_spec(kind, text, ProcessorOption::Bidirectional(BidirectionalPreProcessorOptions::Inverse)),
            ProcessorOption::Bidirectional(BidirectionalPreProcessorOptions::Direct),
        ) == text,
{
    let m = direct_map(kind);
    if untouched_by(converse(m), text) {
        lemma_round_trip(m, text);
    }
    if untouched_by(m, text) {
        assert(converse(converse(m)) == m);
        lemma_round_trip(converse(m), text);
    }
}

} // verus!

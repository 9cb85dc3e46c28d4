use yomi_text::processor::{apply_processor, ProcessorKind, ProcessorOption, TextProcessor};
use yomi_text::text_preprocessors::{
    alphabetic_to_hiragana_helper, collapse_emphatic_sequences_helper,
    convert_half_width_characters_helper, normalize_cjk_compatibility_characters_helper,
    normalize_combining_characters_helper, process_alphanumeric_width_variants,
    process_hiragana_to_katakana, standardize_kanji_helper, BidirectionalPreProcessorOptions,
};
use yomi_text::text_processors::{
    capitalize_first_letter_helper, decapitalize_helper, remove_alphabetic_diacritics,
};

const ALL_KINDS: [ProcessorKind; 11] = [
    ProcessorKind::ConvertHalfWidthCharacters,
    ProcessorKind::AlphabeticToHiragana,
    ProcessorKind::AlphanumericWidthVariants,
    ProcessorKind::ConvertHiraganaToKatakana,
    ProcessorKind::CollapseEmphaticSequences,
    ProcessorKind::NormalizeCombiningCharacters,
    ProcessorKind::NormalizeCjkCompatibilityCharacters,
    ProcessorKind::StandardizeKanji,
    ProcessorKind::Decapitalize,
    ProcessorKind::CapitalizeFirstLetter,
    ProcessorKind::RemoveAlphabeticDiacritics,
];

#[test]
fn collapse_emphatic_partial() {
    assert_eq!(collapse_emphatic_sequences_helper("すっっごーーい", [true, false]), "すっごーい");
}

#[test]
fn collapse_emphatic_full() {
    assert_eq!(collapse_emphatic_sequences_helper("すっっごーーい", [true, true]), "すごい");
}

#[test]
fn collapse_emphatic_off() {
    assert_eq!(collapse_emphatic_sequences_helper("すっっごーーい", [false, false]), "すっっごーーい");
}

#[test]
fn collapse_emphatic_keeps_ends_and_all_emphatic_text() {
    assert_eq!(collapse_emphatic_sequences_helper("ーーすっっごーー", [true, true]), "ーーすごーー");
    assert_eq!(collapse_emphatic_sequences_helper("っっー", [true, true]), "っっー");
    assert_eq!(collapse_emphatic_sequences_helper("", [true, false]), "");
}

#[test]
fn decapitalize_on_and_off() {
    assert_eq!(decapitalize_helper("YOMITAN", true), "yomitan");
    assert_eq!(decapitalize_helper("YOMITAN", false), "YOMITAN");
}

#[test]
fn capitalize_first_letter() {
    assert_eq!(capitalize_first_letter_helper("lowercase text", true), "Lowercase text");
    assert_eq!(capitalize_first_letter_helper("lowercase text", false), "lowercase text");
    assert_eq!(capitalize_first_letter_helper("éclair", true), "éclair");
    assert_eq!(capitalize_first_letter_helper("", true), "");
}

#[test]
fn alphanumeric_width_direct_and_inverse() {
    assert_eq!(process_alphanumeric_width_variants("ｙｏｍｉｔａｎ", BidirectionalPreProcessorOptions::Direct), "yomitan");
    assert_eq!(process_alphanumeric_width_variants("yomitan", BidirectionalPreProcessorOptions::Inverse), "ｙｏｍｉｔａｎ");
    assert_eq!(process_alphanumeric_width_variants("ｙｏｍｉ", BidirectionalPreProcessorOptions::Off), "ｙｏｍｉ");
    assert_eq!(process_alphanumeric_width_variants("Ａ１ｚ!", BidirectionalPreProcessorOptions::Direct), "A1z!");
}

#[test]
fn alphanumeric_width_round_trip() {
    let text = "Yomitan 2024 よみ";
    let wide = process_alphanumeric_width_variants(text, BidirectionalPreProcessorOptions::Inverse);
    assert_eq!(wide, "Ｙｏｍｉｔａｎ ２０２４ よみ");
    assert_eq!(process_alphanumeric_width_variants(&wide, BidirectionalPreProcessorOptions::Direct), text);
}

#[test]
fn hiragana_katakana_round_trip() {
    assert_eq!(process_hiragana_to_katakana("よみちゃん", BidirectionalPreProcessorOptions::Direct), "ヨミチャン");
    assert_eq!(process_hiragana_to_katakana("ヨミチャン", BidirectionalPreProcessorOptions::Inverse), "よみちゃん");
    let k = process_hiragana_to_katakana("たべる食べる", BidirectionalPreProcessorOptions::Direct);
    assert_eq!(k, "タベル食ベル");
    assert_eq!(process_hiragana_to_katakana(&k, BidirectionalPreProcessorOptions::Inverse), "たべる食べる");
}

#[test]
fn half_width_kana() {
    assert_eq!(convert_half_width_characters_helper("ﾖﾐﾁｬﾝ", true), "ヨミチャン");
    assert_eq!(convert_half_width_characters_helper("ｶﾞｯﾂﾎﾟｰｽﾞ", true), "ガッツポーズ");
    assert_eq!(convert_half_width_characters_helper("ﾅﾞ", true), "ナﾞ");
    assert_eq!(convert_half_width_characters_helper("ﾖﾐﾁｬﾝ", false), "ﾖﾐﾁｬﾝ");
}

#[test]
fn combining_marks() {
    assert_eq!(normalize_combining_characters_helper("\u{30C8}\u{3099}", true), "\u{30C9}");
    assert_eq!(normalize_combining_characters_helper("\u{306F}\u{309A}\u{3099}", true), "\u{3071}\u{3099}");
    assert_eq!(normalize_combining_characters_helper("\u{3099}", true), "\u{3099}");
    assert_eq!(normalize_combining_characters_helper("\u{30C8}\u{3099}", false), "\u{30C8}\u{3099}");
}

#[test]
fn cjk_compatibility() {
    assert_eq!(normalize_cjk_compatibility_characters_helper("㌀", true), "アパート");
    assert_eq!(normalize_cjk_compatibility_characters_helper("a㌀b", true), "aアパートb");
    assert_eq!(normalize_cjk_compatibility_characters_helper("㌀", false), "㌀");
}

#[test]
fn standardize_kanji() {
    assert_eq!(standardize_kanji_helper("萬", true), "万");
    assert_eq!(standardize_kanji_helper("萬", false), "萬");
}

#[test]
fn remove_diacritics() {
    assert_eq!(remove_alphabetic_diacritics("ἄήé", true), "αηe");
    assert_eq!(remove_alphabetic_diacritics("ἄήé", false), "ἄήé");
}

#[test]
fn alphabetic_to_hiragana() {
    assert_eq!(alphabetic_to_hiragana_helper("yomichan", true), "よみちゃん");
    assert_eq!(alphabetic_to_hiragana_helper("ＹＯＭＩ 漢", true), "よみ 漢");
    assert_eq!(alphabetic_to_hiragana_helper("yomichan", false), "yomichan");
}

#[test]
fn identity_setting_of_every_processor() {
    for kind in ALL_KINDS {
        let p = TextProcessor::new(kind);
        let off = p.options()[0];
        for text in ["", "ＹＯＭＩちゃんーー ﾖﾐ ἄ 萬 ㌀ ト\u{3099}"] {
            assert_eq!(apply_processor(&p, text, off), text);
        }
    }
}

#[test]
fn option_domains() {
    let p = TextProcessor::new(ProcessorKind::CollapseEmphaticSequences);
    assert_eq!(
        p.options(),
        vec![ProcessorOption::Pair(false, false), ProcessorOption::Pair(true, false), ProcessorOption::Pair(true, true)]
    );
    let d = TextProcessor::new(ProcessorKind::AlphanumericWidthVariants);
    assert_eq!(d.options().len(), 3);
    assert_eq!(TextProcessor::new(ProcessorKind::Decapitalize).options(), vec![ProcessorOption::Flag(false), ProcessorOption::Flag(true)]);
    assert_eq!(TextProcessor::new(ProcessorKind::Decapitalize).name(), "Decapitalize Text");
}

#[test]
fn processors_through_the_framework() {
    let p = TextProcessor::new(ProcessorKind::CollapseEmphaticSequences);
    assert_eq!(p.process("すっっごーーい", ProcessorOption::Pair(true, true)), "すごい");
    let w = TextProcessor::new(ProcessorKind::AlphanumericWidthVariants);
    assert_eq!(
        w.process("ｙｏｍｉｔａｎ", ProcessorOption::Bidirectional(BidirectionalPreProcessorOptions::Direct)),
        "yomitan"
    );
    let d = TextProcessor::new(ProcessorKind::Decapitalize);
    assert_eq!(apply_processor(&d, "YOMITAN", ProcessorOption::Flag(true)), "yomitan");
}

#[test]
fn combining_marks_settle_in_one_pass() {
    let once = normalize_combining_characters_helper("\u{304B}\u{3099}\u{3099}", true);
    assert_eq!(once, "\u{304C}\u{3099}");
    assert_eq!(normalize_combining_characters_helper(&once, true), once);
    assert_eq!(normalize_combining_characters_helper("\u{304C}\u{3099}", true), "\u{304C}\u{3099}");
    assert_eq!(normalize_combining_characters_helper("\u{30D0}\u{309A}", true), "\u{30D0}\u{309A}");
    assert_eq!(normalize_combining_characters_helper("\u{30D8}\u{309A}", true), "\u{30DA}");
}

#[test]
fn names_and_descriptions() {
    let p = TextProcessor::new(ProcessorKind::NormalizeCjkCompatibilityCharacters);
    assert_eq!(p.name(), "Normalize CJK Compatibility Characters");
    assert_eq!(p.description(), "㌀ → アパート");
}

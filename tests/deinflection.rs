use yomi_text::conditions::{conditions_compatible, UNCONSTRAINED};
use yomi_text::deinflect::{DeinflectionResult, RuleTable, MAX_DEPTH};
use yomi_text::rules::{
    custom_inflection, deinflect_fn, inflection, suffix_inflection, CustomRewrite, Matcher, RuleError, RuleType,
};

const V1: u32 = 1;
const ADJ_I: u32 = 2;
const TA: u32 = 4;

fn terms(results: &[DeinflectionResult]) -> Vec<String> {
    results.iter().map(|r| r.term.clone()).collect()
}

#[test]
fn deinflect_fn_replaces_suffix() {
    assert_eq!(deinflect_fn("食べた", "た", "る"), "食べる");
    assert_eq!(deinflect_fn("食べる", "た", "る"), "食べる");
    assert_eq!(deinflect_fn("た", "た", ""), "");
}

#[test]
fn past_tense_deinflects_to_dictionary_form() {
    let table = RuleTable::new(vec![suffix_inflection("た", "る", V1, TA).unwrap()]);
    let results = table.deinflect("食べた", UNCONSTRAINED);
    assert_eq!(terms(&results), vec!["食べた".to_string(), "食べる".to_string()]);
    assert_eq!(results[1].reasons, vec![0]);
    assert_eq!(results[1].conditions, V1);
}

#[test]
fn word_itself_is_first_result() {
    let table = RuleTable::new(vec![suffix_inflection("た", "る", V1, TA).unwrap()]);
    for word in ["", "食べる", "食べた"] {
        let results = table.deinflect(word, UNCONSTRAINED);
        assert_eq!(results[0].term, word);
        assert!(results[0].reasons.is_empty());
        assert_eq!(results[0].conditions, UNCONSTRAINED);
    }
}

#[test]
fn every_suffix_rule_undoes_its_inflection() {
    let rules = [("た", "る"), ("かった", "い"), ("ます", "る"), ("ない", "る")];
    let table = RuleTable::new(rules.iter().map(|(a, b)| suffix_inflection(a, b, V1, TA).unwrap()).collect());
    for (i, (a, b)) in rules.iter().enumerate() {
        let word = format!("見{}", a);
        let results = table.deinflect(&word, UNCONSTRAINED);
        let expected = format!("見{}", b);
        assert!(results.iter().any(|r| r.term == expected && r.reasons == vec![i]));
    }
}

#[test]
fn rules_chain_in_table_order() {
    let table = RuleTable::new(vec![
        suffix_inflection("かった", "い", ADJ_I, TA).unwrap(),
        suffix_inflection("ない", "る", V1, ADJ_I).unwrap(),
    ]);
    let results = table.deinflect("食べなかった", UNCONSTRAINED);
    assert_eq!(terms(&results), vec!["食べなかった", "食べない", "食べる"]);
    assert_eq!(results[2].reasons, vec![0, 1]);
    assert_eq!(results[2].conditions, V1);
}

#[test]
fn incompatible_conditions_prune_the_chain() {
    let table = RuleTable::new(vec![
        suffix_inflection("かった", "い", ADJ_I, TA).unwrap(),
        suffix_inflection("い", "る", V1, TA).unwrap(),
    ]);
    let results = table.deinflect("食べなかった", UNCONSTRAINED);
    assert_eq!(terms(&results), vec!["食べなかった", "食べない"]);
    let constrained = table.deinflect("食べた", ADJ_I);
    assert_eq!(constrained.len(), 1);
}

#[test]
fn cyclic_rules_stop_at_the_depth_ceiling() {
    let table = RuleTable::new(vec![
        suffix_inflection("a", "b", UNCONSTRAINED, UNCONSTRAINED).unwrap(),
        suffix_inflection("b", "a", UNCONSTRAINED, UNCONSTRAINED).unwrap(),
    ]);
    let results = table.deinflect("a", UNCONSTRAINED);
    assert_eq!(results.len(), MAX_DEPTH + 1);
    assert!(results.iter().all(|r| r.reasons.len() <= MAX_DEPTH));
    assert_eq!(results[MAX_DEPTH].reasons.len(), MAX_DEPTH);
}

#[test]
fn duplicates_keep_their_provenance() {
    let table = RuleTable::new(vec![
        suffix_inflection("た", "る", V1, TA).unwrap(),
        suffix_inflection("べた", "べる", V1, TA).unwrap(),
    ]);
    let results = table.deinflect("食べた", UNCONSTRAINED);
    assert_eq!(terms(&results), vec!["食べた", "食べる", "食べる"]);
    assert_eq!(results[1].reasons, vec![0]);
    assert_eq!(results[2].reasons, vec![1]);
}

#[test]
fn prefix_and_whole_word_rules() {
    let table = RuleTable::new(vec![
        inflection("お", "", V1, V1, RuleType::Prefix).unwrap(),
        inflection("来た", "来る", V1, TA, RuleType::WholeWord).unwrap(),
    ]);
    assert_eq!(terms(&table.deinflect("お茶", UNCONSTRAINED)), vec!["お茶", "茶"]);
    assert_eq!(terms(&table.deinflect("来た", UNCONSTRAINED)), vec!["来た", "来る"]);
    assert_eq!(terms(&table.deinflect("出来た", UNCONSTRAINED)), vec!["出来た"]);
}

#[test]
fn unsupported_rule_type_is_refused() {
    assert!(matches!(inflection("た", "る", V1, TA, RuleType::Other), Err(RuleError::UnsupportedRuleType)));
}

#[test]
fn malformed_pattern_is_refused() {
    assert!(matches!(suffix_inflection("(た", "る", V1, TA), Err(RuleError::InvalidPattern)));
}

#[test]
fn pattern_rules_use_the_regex() {
    let rule = suffix_inflection("[たど]", "る", V1, TA).unwrap();
    assert!(matches!(rule.matcher, Matcher::Compiled(_)));
    let literal = suffix_inflection("た", "る", V1, TA).unwrap();
    assert!(matches!(literal.matcher, Matcher::Literal));
    let table = RuleTable::new(vec![rule]);
    let results = table.deinflect("読ど", UNCONSTRAINED);
    assert_eq!(results.len(), 2);
    assert_eq!(results[1].reasons, vec![0]);
    assert_eq!(table.deinflect("読む", UNCONSTRAINED).len(), 1);
}

#[test]
fn condition_compatibility() {
    assert!(conditions_compatible(UNCONSTRAINED, TA));
    assert!(conditions_compatible(V1 | TA, TA));
    assert!(!conditions_compatible(V1, TA));
}

#[test]
fn custom_type_is_refused_by_the_generic_builder() {
    assert!(matches!(
        inflection("ない", "", V1, TA, RuleType::Custom(CustomRewrite::GodanAToU)),
        Err(RuleError::UnsupportedRuleType)
    ));
}

#[test]
fn godan_stem_change() {
    let rule = custom_inflection("ない", "", V1, TA, CustomRewrite::GodanAToU).unwrap();
    let table = RuleTable::new(vec![rule]);
    assert_eq!(terms(&table.deinflect("書かない", UNCONSTRAINED)), vec!["書かない", "書く"]);
    assert_eq!(terms(&table.deinflect("待たない", UNCONSTRAINED)), vec!["待たない", "待つ"]);
    assert_eq!(terms(&table.deinflect("食べない", UNCONSTRAINED)), vec!["食べない"]);
    assert_eq!(terms(&table.deinflect("ない", UNCONSTRAINED)), vec!["ない"]);
    assert!(matches!(custom_inflection("な(い", "", V1, TA, CustomRewrite::GodanAToU), Err(RuleError::InvalidPattern)));
}

#[test]
fn compiling_patterns_give_rules() {
    let rule = suffix_inflection("(?:た|だ)", "る", V1, TA).unwrap();
    assert_eq!(rule.rule_type, RuleType::Suffix);
    assert_eq!(rule.conditions_in, V1);
    assert_eq!(rule.conditions_out, TA);
    assert!(matches!(inflection("[", "", V1, TA, RuleType::Prefix), Err(RuleError::InvalidPattern)));
}

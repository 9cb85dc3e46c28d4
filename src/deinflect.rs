//! The deinflection search: chains rules from a surface word back to candidate
//! dictionary forms, depth first, in the rule table's order.
use vstd::prelude::*;
use crate::chars::{chars_of, has_suffix, string_of};
use crate::conditions::{compatible_spec, conditions_compatible};
use crate::rules::{replace_suffix, Matcher, Rule, RuleType};

verus! {

/// The fixed ceiling on the number of rules chained in one derivation.
pub const MAX_DEPTH: usize = 10;

/// A candidate dictionary form, with the conditions it must meet and the rules
/// (indices into the table, outermost inflection first) that lead to it.
pub struct DeinflectionResult {
    pub term: String,
    pub conditions: u32,
    pub reasons: Vec<usize>,
}

/// The mathematical value of a `DeinflectionResult`.
#[verifier::ext_equal]
pub struct Derivation {
    pub term: Seq<char>,
    pub conditions: u32,
    pub reasons: Seq<usize>,
}

impl DeinflectionResult {
    pub open spec fn derivation(&self) -> Derivation {
        Derivation { term: self.term@, conditions: self.conditions, reasons: self.reasons@ }
    }
}

/// The derivations that a sequence of results stands for.
pub open spec fn derivations(v: Seq<DeinflectionResult>) -> Seq<Derivation> {
    v.map_values(|r: DeinflectionResult| r.derivation())
}

/// The word itself, with no rule applied.
pub open spec fn initial(word: Seq<char>, constraint: u32) -> Derivation {
    Derivation { term: word, conditions: constraint, reasons: Seq::empty() }
}

/// Whether `rule` can be undone on the candidate `d`.
pub open spec fn applies(rule: Rule, d: Derivation) -> bool {
    rule.matches(d.term) && compatible_spec(d.conditions, rule.conditions_out)
}

/// The candidate that undoing rule `i` on `d` gives.
pub open spec fn child(rule: Rule, i: int, d: Derivation) -> Derivation {
    Derivation {
        term: rule.rewrite(d.term),
        conditions: rule.conditions_in,
        reasons: d.reasons.push(i as usize),
    }
}

/// `d` followed by every candidate reachable from it in at most `fuel` more steps,
/// depth first, rules in table order.
pub open spec fn search(rules: Seq<Rule>, d: Derivation, fuel: nat) -> Seq<Derivation>
    decreases fuel, rules.len() + 1,
{
    seq![d] + search_from(rules, d, fuel, 0)
}

/// The candidates reached from `d` through rules `i` onwards, each followed by its own
/// descendants.
pub open spec fn search_from(rules: Seq<Rule>, d: Derivation, fuel: nat, i: nat) -> Seq<Derivation>
    decreases fuel, rules.len() - i,
{
    if fuel == 0 || i >= rules.len() {
        Seq::empty()
    } else {
        let here = if applies(rules[i as int], d) {
            search(rules, child(rules[i as int], i as int, d), (fuel - 1) as nat)
        } else {
            Seq::empty()
        };
        here + search_from(rules, d, fuel, i + 1)
    }
}

/// Every deinflection of `word` under `constraint` that `rules` explain.
pub open spec fn deinflect_spec(rules: Seq<Rule>, word: Seq<char>, constraint: u32) -> Seq<Derivation> {
    search(rules, initial(word, constraint), MAX_DEPTH as nat)
}

/// An ordered table of rules, built once and only read afterwards.
pub struct RuleTable {
    pub rules: Vec<Rule>,
}

proof fn lemma_push_derivation(v: Seq<DeinflectionResult>, x: DeinflectionResult)
    ensures
        derivations(v.push(x)) == derivations(v).push(x.derivation()),
{
    assert(derivations(v.push(x)) =~= derivations(v).push(x.derivation()));
}

fn copy_reasons(v: &Vec<usize>) -> (r: Vec<usize>)
    ensures
        r@ == v@,
{
    let mut r: Vec<usize> = Vec::new();
    let mut i: usize = 0;
    while i < v.len()
        invariant
            i <= v@.len(),
            r@ == v@.subrange(0, i as int),
        decreases v@.len() - i,
    {
        r.push(v[i]);
        assert(r@ =~= v@.subrange(0, i + 1));
        i = i + 1;
    }
    assert(r@ =~= v@);
    r
}

fn search_exec(
    rules: &Vec<Rule>,
    term: &Vec<char>,
    conditions: u32,
    reasons: &Vec<usize>,
    fuel: usize,
    out: &mut Vec<DeinflectionResult>,
)
    ensures
        derivations(final(out)@) == derivations(old(out)@) + search(
            rules@,
            Derivation { term: term@, conditions, reasons: reasons@ },
            fuel as nat,
        ),
    decreases fuel,
{
    let ghost d = Derivation { term: term@, conditions, reasons: reasons@ };
    let ghost base = derivations(old(out)@);
    let res = DeinflectionResult { term: string_of(term.as_slice()), conditions, reasons: copy_reasons(reasons) };
    proof {
        lemma_push_derivation(out@, res);
    }
    out.push(res);
    let mut i: usize = 0;
    assert(derivations(out@) + search_from(rules@, d, fuel as nat, 0) =~= base + search(rules@, d, fuel as nat));
    if fuel == 0 {
        assert(derivations(out@) =~= base + search(rules@, d, fuel as nat));
        return;
    }
    while i < rules.len()
        invariant
            i <= rules@.len(),
            fuel > 0,
            d == (Derivation { term: term@, conditions, reasons: reasons@ }),
            derivations(out@) + search_from(rules@, d, fuel as nat, i as nat) == base + search(rules@, d, fuel as nat),
        decreases rules@.len() - i,
    {
        let rule = &rules[i];
        let ghost before = derivations(out@);
        let ghost here = if applies(rules@[i as int], d) {
            search(rules@, child(rules@[i as int], i as int, d), (fuel - 1) as nat)
        } else {
            Seq::empty()
        };
        if conditions_compatible(conditions, rule.conditions_out) && rule.is_inflected(term.as_slice()) {
            let next_term = rule.deinflect_word(term.as_slice());
            let mut next_reasons = copy_reasons(reasons);
            next_reasons.push(i);
            search_exec(rules, &next_term, rule.conditions_in, &next_reasons, fuel - 1, out);
            assert(next_reasons@ =~= reasons@.push(i));
            assert(Derivation { term: next_term@, conditions: rule.conditions_in, reasons: next_reasons@ }
                =~= child(rules@[i as int], i as int, d));
        } else {
            assert(derivations(out@) =~= before + here);
        }
        assert(search_from(rules@, d, fuel as nat, i as nat) == here + search_from(rules@, d, fuel as nat, (i + 1) as nat));
        assert(derivations(out@) + search_from(rules@, d, fuel as nat, (i + 1) as nat)
            =~= before + search_from(rules@, d, fuel as nat, i as nat));
        i = i + 1;
    }
    assert(search_from(rules@, d, fuel as nat, i as nat) =~= Seq::<Derivation>::empty());
    assert(derivations(out@) =~= base + search(rules@, d, fuel as nat));
}

impl RuleTable {
    /// A table holding `rules`, in the order given.
    pub fn new(rules: Vec<Rule>) -> (r: RuleTable)
        ensures
            r.rules@ == rules@,
    {
        RuleTable { rules }
    }

    /// Every candidate dictionary form of `word` under `constraint`: the word itself
    /// first, then each rule chain of at most `MAX_DEPTH` rules, depth first, rules in
    /// table order. Equal candidates reached by different chains are all kept.
    pub fn deinflect(&self, word: &str, constraint: u32) -> (r: Vec<DeinflectionResult>)
        ensures
            derivations(r@) == deinflect_spec(self.rules@, word@, constraint),
    {
        let term = chars_of(word);
        let reasons: Vec<usize> = Vec::new();
        let mut out: Vec<DeinflectionResult> = Vec::new();
        search_exec(&self.rules, &term, constraint, &reasons, MAX_DEPTH, &mut out);
        assert(derivations(Seq::<DeinflectionResult>::empty()) =~= Seq::<Derivation>::empty());
        assert(Derivation { term: term@, conditions: constraint, reasons: reasons@ } == initial(word@, constraint));
        assert(derivations(out@) =~= deinflect_spec(self.rules@, word@, constraint));
        out
    }
}

/// The word itself, with no rule applied and the constraint it was given, is always the
/// first result.
pub proof fn lemma_word_itself_first(rules: Seq<Rule>, word: Seq<char>, constraint: u32)
    ensures
        deinflect_spec(rules, word, constraint).len() > 0,
        deinflect_spec(rules, word, constraint)[0] == initial(word, constraint),
        deinflect_spec(rules, word, constraint)[0].term == word,
        deinflect_spec(rules, word, constraint)[0].reasons.len() == 0,
{
}

proof fn lemma_search_depth(rules: Seq<Rule>, d: Derivation, fuel: nat)
    ensures
        forall|k: int| 0 <= k < search(rules, d, fuel).len()
            ==> #[trigger] search(rules, d, fuel)[k].reasons.len() <= d.reasons.len() + fuel,
    decreases fuel, rules.len() + 1,
{
    lemma_search_from_depth(rules, d, fuel, 0);
    let s = search(rules, d, fuel);
    let t = search_from(rules, d, fuel, 0);
    assert forall|k: int| 0 <= k < s.len() implies #[trigger] s[k].reasons.len() <= d.reasons.len() + fuel by {
        if k > 0 {
            assert(s[k] == t[k - 1]);
        }
    }
}

proof fn lemma_search_from_depth(rules: Seq<Rule>, d: Derivation, fuel: nat, i: nat)
    ensures
        forall|k: int| 0 <= k < search_from(rules, d, fuel, i).len()
            ==> #[trigger] search_from(rules, d, fuel, i)[k].reasons.len() <= d.reasons.len() + fuel,
    decreases fuel, rules.len() - i,
{
    if fuel == 0 || i >= rules.len() {
    } else {
        let c = child(rules[i as int], i as int, d);
        let here = if applies(rules[i as int], d) {
            search(rules, c, (fuel - 1) as nat)
        } else {
            Seq::empty()
        };
        lemma_search_from_depth(rules, d, fuel, i + 1);
        if applies(rules[i as int], d) {
            lemma_search_depth(rules, c, (fuel - 1) as nat);
        }
        let rest = search_from(rules, d, fuel, i + 1);
        let s = search_from(rules, d, fuel, i);
        assert(s == here + rest);
        assert forall|k: int| 0 <= k < s.len() implies #[trigger] s[k].reasons.len() <= d.reasons.len() + fuel by {
            if k < here.len() {
                assert(s[k] == here[k]);
            } else {
                assert(s[k] == rest[k - here.len()]);
            }
        }
    }
}

/// No result chains more than `MAX_DEPTH` rules, whatever the rules, even rules that
/// undo each other.
pub proof fn lemma_depth_bounded(rules: Seq<Rule>, word: Seq<char>, constraint: u32)
    ensures
        forall|k: int| 0 <= k < deinflect_spec(rules, word, constraint).len()
            ==> #[trigger] deinflect_spec(rules, word, constraint)[k].reasons.len() <= MAX_DEPTH,
{
    lemma_search_depth(rules, initial(word, constraint), MAX_DEPTH as nat);
}

proof fn lemma_child_reached(rules: Seq<Rule>, d: Derivation, fuel: nat, i: nat, j: nat)
    requires
        fuel > 0,
        j <= i < rules.len(),
        applies(rules[i as int], d),
    ensures
        search_from(rules, d, fuel, j).contains(child(rules[i as int], i as int, d)),
    decreases i - j,
{
    let here = if applies(rules[j as int], d) {
        search(rules, child(rules[j as int], j as int, d), (fuel - 1) as nat)
    } else {
        Seq::empty()
    };
    let rest = search_from(rules, d, fuel, j + 1);
    let s = search_from(rules, d, fuel, j);
    assert(s == here + rest);
    if j == i {
        assert(s[0] == child(rules[i as int], i as int, d));
    } else {
        lemma_child_reached(rules, d, fuel, i, j + 1);
        let k = choose|k: int| 0 <= k < rest.len() && rest[k] == child(rules[i as int], i as int, d);
        assert(s[here.len() + k] == rest[k]);
    }
}

/// A suffix rule that matches as plain text and allows the word's constraint
/// undoes its inflection: the word `stem + inflected` yields `stem + deinflected`,
/// with that rule alone as its chain.
pub proof fn lemma_suffix_rule_undone(rules: Seq<Rule>, i: int, stem: Seq<char>, constraint: u32)
    requires
        0 <= i < rules.len(),
        rules[i].rule_type == RuleType::Suffix,
        rules[i].matcher is Literal,
        compatible_spec(constraint, rules[i].conditions_out),
    ensures
        deinflect_spec(rules, stem + rules[i].inflected@, constraint).contains(
            Derivation {
                term: stem + rules[i].deinflected@,
                conditions: rules[i].conditions_in,
                reasons: seq![i as usize],
            },
        ),
{
    let rule = rules[i];
    let w = stem + rule.inflected@;
    let d = initial(w, constraint);
    assert(w.subrange(w.len() - rule.inflected@.len(), w.len() as int) =~= rule.inflected@);
    assert(w.subrange(0, w.len() - rule.inflected@.len()) =~= stem);
    assert(has_suffix(w, rule.inflected@));
    assert(rule.rewrite(w) == replace_suffix(w, rule.inflected@, rule.deinflected@));
    assert(applies(rule, d));
    lemma_child_reached(rules, d, MAX_DEPTH as nat, i as nat, 0);
    let c = child(rule, i, d);
    assert(c =~= (Derivation {
        term: stem + rule.deinflected@,
        conditions: rule.conditions_in,
        reasons: seq![i as usize],
    }));
    let s = deinflect_spec(rules, w, constraint);
    let t = search_from(rules, d, MAX_DEPTH as nat, 0);
    let k = choose|k: int| 0 <= k < t.len() && t[k] == c;
    assert(s[k + 1] == t[k]);
}

} // verus!

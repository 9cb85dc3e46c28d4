//! Deinflection rules: an anchored pattern, a replacement, and the condition sets that
//! chain rules together.
use vstd::prelude::*;
use regex::Regex;
use crate::chars::{chars_of, ends_with, has_prefix, has_suffix, same_chars, splice, starts_with, string_of};

verus! {

#[verifier::external_type_specification]
#[verifier::external_body]
pub struct ExRegex(regex::Regex);

/// What `Regex::is_match` answers for a regex compiled from `pattern`, on `text`.
pub uninterp spec fn regex_is_match_of(pattern: Seq<char>, text: Seq<char>) -> bool;

/// Whether `Regex::new` accepts `pattern`.
pub uninterp spec fn regex_compiles_of(pattern: Seq<char>) -> bool;

/// The characters that have a meaning in a regex, as `regex::escape` sees them.
pub open spec fn is_meta_character(c: char) -> bool {
    c == '\\' || c == '.' || c == '+' || c == '*' || c == '?' || c == '(' || c == ')' || c == '|'
        || c == '[' || c == ']' || c == '{' || c == '}' || c == '^' || c == '$' || c == '#' || c
        == '&' || c == '-' || c == '~'
}

/// What `regex::escape` returns: `s` with a backslash before each meta character.
pub open spec fn escape_spec(s: Seq<char>) -> Seq<char>
    decreases s.len(),
{
    if s.len() == 0 {
        Seq::empty()
    } else {
        escape_spec(s.drop_last()) + if is_meta_character(s.last()) {
            seq!['\\', s.last()]
        } else {
            seq![s.last()]
        }
    }
}

/// `s` holds no meta character, so a regex made of it matches it literally.
pub open spec fn is_literal(s: Seq<char>) -> bool {
    forall|i: int| 0 <= i < s.len() ==> !is_meta_character(#[trigger] s[i])
}

fn is_meta_character_exec(c: char) -> (r: bool)
    ensures
        r == is_meta_character(c),
{
    c == '\\' || c == '.' || c == '+' || c == '*' || c == '?' || c == '(' || c == ')' || c == '|'
        || c == '[' || c == ']' || c == '{' || c == '}' || c == '^' || c == '$' || c == '#' || c
        == '&' || c == '-' || c == '~'
}

/// Whether `s` holds no regex meta character.
pub fn literal_fragment(s: &[char]) -> (r: bool)
    ensures
        r == is_literal(s@),
{
    let mut i: usize = 0;
    while i < s.len()
        invariant
            i <= s@.len(),
            forall|k: int| 0 <= k < i ==> !is_meta_character(#[trigger] s@[k]),
        decreases s@.len() - i,
    {
        if is_meta_character_exec(s[i]) {
            return false;
        }
        i = i + 1;
    }
    true
}

/// Escaping changes exactly the fragments that hold a meta character.
pub proof fn lemma_escape_unchanged_iff_literal(s: Seq<char>)
    ensures
        (escape_spec(s) == s) <==> is_literal(s),
    decreases s.len(),
{
    if s.len() == 0 {
        assert(escape_spec(s) =~= s);
    } else {
        let p = s.drop_last();
        lemma_escape_unchanged_iff_literal(p);
        lemma_escape_len(p);
        if is_literal(s) {
            assert(is_literal(p)) by {
                assert forall|i: int| 0 <= i < p.len() implies !is_meta_character(#[trigger] p[i]) by {
                    assert(p[i] == s[i]);
                }
            }
            assert(p.push(s.last()) =~= s);
            assert(escape_spec(s) =~= escape_spec(p).push(s.last()));
        } else {
            if is_meta_character(s.last()) {
                assert(escape_spec(s).len() == escape_spec(p).len() + 2);
            } else {
                let k = choose|k: int| 0 <= k < s.len() && is_meta_character(#[trigger] s[k]);
                assert(k < p.len());
                assert(p[k] == s[k]);
                if escape_spec(s) == s {
                    assert(escape_spec(s) =~= escape_spec(p).push(s.last()));
                    assert(escape_spec(p) =~= s.drop_last());
                }
            }
        }
    }
}

proof fn lemma_escape_len(s: Seq<char>)
    ensures
        escape_spec(s).len() >= s.len(),
    decreases s.len(),
{
    if s.len() > 0 {
        lemma_escape_len(s.drop_last());
    }
}

/// A regular expression together with the source it was compiled from.
pub struct Pattern {
    source: String,
    regex: Regex,
}

impl Pattern {
    /// The source the pattern was compiled from.
    pub closed spec fn source(&self) -> Seq<char> {
        self.source@
    }

    /// Relies on `Regex::new`: compiles `source`, or fails on a malformed pattern. Whether
    /// it fails depends on `source` alone.
    #[verifier::external_body]
    fn compile(source: &str) -> (r: Option<Pattern>)
        ensures
            r is Some <==> regex_compiles_of(source@),
            r matches Some(p) ==> p.source() == source@,
    {
        match Regex::new(source) {
            Ok(regex) => Some(Pattern { source: source.to_string(), regex }),
            Err(_) => None,
        }
    }

    /// Relies on `Regex::is_match` of the regex compiled from `self.source()`.
    #[verifier::external_body]
    fn is_match(&self, text: &str) -> (r: bool)
        ensures
            r == regex_is_match_of(self.source(), text@),
    {
        self.regex.is_match(text)
    }
}

/// How a rule's pattern is anchored, and which generic rewrite applies.
#[derive(Clone, Copy, Debug, PartialEq, Eq, Structural)]
pub enum RuleType {
    Prefix,
    Suffix,
    WholeWord,
    Other,
    /// A suffix rule whose rewrite is one of the irregular strategies.
    Custom(CustomRewrite),
}

/// Rewrites that are not a single strip and append.
#[derive(Clone, Copy, Debug, PartialEq, Eq, Structural)]
pub enum CustomRewrite {
    /// Strip the suffix, then turn the stem's final あ-row kana into the う-row kana of
    /// the same consonant (書かない becomes 書く).
    GodanAToU,
}

/// How a rule tests a word: by plain text comparison, or by a compiled regex.
pub enum Matcher {
    Literal,
    Compiled(Pattern),
}

/// Why a rule could not be built.
#[derive(Clone, Copy, Debug, PartialEq, Eq, Structural)]
pub enum RuleError {
    /// The inflected pattern is not a valid regular expression.
    InvalidPattern,
    /// Generic rules exist only for prefixes, suffixes and whole words.
    UnsupportedRuleType,
}

/// One deinflection rule.
pub struct Rule {
    pub rule_type: RuleType,
    pub matcher: Matcher,
    /// The inflected prefix, suffix or word, as a pattern fragment.
    pub inflected: Vec<char>,
    /// What replaces the inflected part.
    pub deinflected: Vec<char>,
    /// Categories the deinflected form belongs to.
    pub conditions_in: u32,
    /// Categories the inflected form exhibits.
    pub conditions_out: u32,
}

/// The う-row kana of the godan あ-row kana `c`.
pub open spec fn a_row_to_u(c: char) -> Option<char> {
    match c {
        'か' => Some('く'),
        'が' => Some('ぐ'),
        'さ' => Some('す'),
        'ざ' => Some('ず'),
        'た' => Some('つ'),
        'だ' => Some('づ'),
        'な' => Some('ぬ'),
        'ば' => Some('ぶ'),
        'ま' => Some('む'),
        'ら' => Some('る'),
        'わ' => Some('う'),
        _ => None,
    }
}

fn a_row_to_u_exec(c: char) -> (r: Option<char>)
    ensures
        r == a_row_to_u(c),
{
    match c {
        'か' => Some('く'),
        'が' => Some('ぐ'),
        'さ' => Some('す'),
        'ざ' => Some('ず'),
        'た' => Some('つ'),
        'だ' => Some('づ'),
        'な' => Some('ぬ'),
        'ば' => Some('ぶ'),
        'ま' => Some('む'),
        'ら' => Some('る'),
        'わ' => Some('う'),
        _ => None,
    }
}

/// Whether the custom rewrite `k` applies to `w` with the suffix `a`.
pub open spec fn custom_applies(k: CustomRewrite, w: Seq<char>, a: Seq<char>) -> bool {
    match k {
        CustomRewrite::GodanAToU => has_suffix(w, a) && w.len() > a.len() && a_row_to_u(
            w[w.len() - a.len() - 1],
        ) is Some,
    }
}

/// What the custom rewrite `k` makes of `w`, replacing the suffix `a` by `b`; `w` itself
/// where it does not apply.
pub open spec fn custom_rewrite(k: CustomRewrite, w: Seq<char>, a: Seq<char>, b: Seq<char>) -> Seq<char> {
    if custom_applies(k, w, a) {
        let stem = w.subrange(0, w.len() - a.len());
        stem.update(stem.len() - 1, a_row_to_u(stem.last())->0) + b
    } else {
        w
    }
}

fn custom_applies_exec(k: CustomRewrite, w: &[char], a: &[char]) -> (r: bool)
    ensures
        r == custom_applies(k, w@, a@),
{
    match k {
        CustomRewrite::GodanAToU => ends_with(w, a) && w.len() > a.len() && a_row_to_u_exec(
            w[w.len() - a.len() - 1],
        ).is_some(),
    }
}

fn custom_rewrite_exec(k: CustomRewrite, w: &[char], a: &[char], b: &[char]) -> (r: Vec<char>)
    ensures
        r@ == custom_rewrite(k, w@, a@, b@),
{
    if custom_applies_exec(k, w, a) {
        let n: usize = w.len() - a.len();
        let mut stem = splice(w, 0, n, &[]);
        let u = a_row_to_u_exec(w[n - 1]);
        let c = match u {
            Some(c) => c,
            None => w[n - 1],
        };
        stem.set(n - 1, c);
        let r = splice(stem.as_slice(), 0, n, b);
        assert(stem@.subrange(0, n as int) =~= stem@);
        r
    } else {
        let r = splice(w, 0, w.len(), &[]);
        assert(r@ =~= w@);
        r
    }
}

/// Whether `t` is one of the generic rule types that `inflection` builds.
pub open spec fn is_generic(t: RuleType) -> bool {
    t == RuleType::Prefix || t == RuleType::Suffix || t == RuleType::WholeWord
}

/// The regex source for `inflected` anchored as `t` says.
pub open spec fn anchored(t: RuleType, inflected: Seq<char>) -> Seq<char> {
    match t {
        RuleType::Prefix => seq!['^'] + inflected,
        RuleType::Suffix => inflected + seq!['$'],
        _ => seq!['^'] + inflected + seq!['$'],
    }
}

/// Whether `w` holds the text `a` where a rule of type `t` looks for it.
pub open spec fn literal_match(t: RuleType, a: Seq<char>, w: Seq<char>) -> bool {
    match t {
        RuleType::Prefix => has_prefix(w, a),
        RuleType::Suffix => has_suffix(w, a),
        RuleType::WholeWord => w == a,
        RuleType::Other => false,
        RuleType::Custom(k) => custom_applies(k, w, a),
    }
}

/// `w` with the suffix `a` replaced by `b`; `w` itself where it does not end with `a`.
pub open spec fn replace_suffix(w: Seq<char>, a: Seq<char>, b: Seq<char>) -> Seq<char> {
    if has_suffix(w, a) {
        w.subrange(0, w.len() - a.len()) + b
    } else {
        w
    }
}

/// `w` with the prefix `a` replaced by `b`; `w` itself where it does not start with `a`.
pub open spec fn replace_prefix(w: Seq<char>, a: Seq<char>, b: Seq<char>) -> Seq<char> {
    if has_prefix(w, a) {
        b + w.subrange(a.len() as int, w.len() as int)
    } else {
        w
    }
}

/// Replaces the suffix `inflected_suffix` of `inflected_word` by `deinflected_suffix`;
/// a word without that suffix comes back unchanged.
pub fn deinflect_fn(inflected_word: &str, inflected_suffix: &str, deinflected_suffix: &str) -> (r: String)
    ensures
        r@ == replace_suffix(inflected_word@, inflected_suffix@, deinflected_suffix@),
{
    let w = chars_of(inflected_word);
    let a = chars_of(inflected_suffix);
    let b = chars_of(deinflected_suffix);
    let out = replace_suffix_chars(&w, &a, &b);
    string_of(&out)
}

fn replace_suffix_chars(w: &[char], a: &[char], b: &[char]) -> (r: Vec<char>)
    ensures
        r@ == replace_suffix(w@, a@, b@),
{
    if ends_with(w, a) {
        splice(w, 0, w.len() - a.len(), b)
    } else {
        let r = splice(w, 0, w.len(), &[]);
        assert(r@ =~= w@);
        r
    }
}

fn replace_prefix_chars(w: &[char], a: &[char], b: &[char]) -> (r: Vec<char>)
    ensures
        r@ == replace_prefix(w@, a@, b@),
{
    if starts_with(w, a) {
        let rest = splice(w, a.len(), w.len(), &[]);
        let r = splice(b, 0, b.len(), rest.as_slice());
        assert(b@.subrange(0, b@.len() as int) =~= b@);
        assert(rest@ =~= w@.subrange(a@.len() as int, w@.len() as int));
        r
    } else {
        let r = splice(w, 0, w.len(), &[]);
        assert(r@ =~= w@);
        r
    }
}

impl Rule {
    /// Whether the rule recognises `w` as one of its inflected forms.
    pub open spec fn matches(&self, w: Seq<char>) -> bool {
        match self.matcher {
            Matcher::Literal => literal_match(self.rule_type, self.inflected@, w),
            Matcher::Compiled(p) => regex_is_match_of(p.source(), w),
        }
    }

    /// The candidate base form the rule gives for `w`.
    pub open spec fn rewrite(&self, w: Seq<char>) -> Seq<char> {
        match self.rule_type {
            RuleType::Suffix => replace_suffix(w, self.inflected@, self.deinflected@),
            RuleType::Prefix => replace_prefix(w, self.inflected@, self.deinflected@),
            RuleType::WholeWord => self.deinflected@,
            RuleType::Other => w,
            RuleType::Custom(k) => custom_rewrite(k, w, self.inflected@, self.deinflected@),
        }
    }

    /// Whether the rule recognises `w` as one of its inflected forms.
    pub fn is_inflected(&self, w: &[char]) -> (r: bool)
        ensures
            r == self.matches(w@),
    {
        match &self.matcher {
            Matcher::Literal => match self.rule_type {
                RuleType::Prefix => starts_with(w, self.inflected.as_slice()),
                RuleType::Suffix => ends_with(w, self.inflected.as_slice()),
                RuleType::WholeWord => same_chars(w, self.inflected.as_slice()),
                RuleType::Other => false,
                RuleType::Custom(k) => custom_applies_exec(k, w, self.inflected.as_slice()),
            },
            Matcher::Compiled(p) => {
                let s = string_of(w);
                p.is_match(s.as_str())
            },
        }
    }

    /// The candidate base form the rule gives for `w`.
    pub fn deinflect_word(&self, w: &[char]) -> (r: Vec<char>)
        ensures
            r@ == self.rewrite(w@),
    {
        match self.rule_type {
            RuleType::Suffix => replace_suffix_chars(w, self.inflected.as_slice(), self.deinflected.as_slice()),
            RuleType::Prefix => replace_prefix_chars(w, self.inflected.as_slice(), self.deinflected.as_slice()),
            RuleType::WholeWord => {
                let r = splice(self.deinflected.as_slice(), 0, self.deinflected.len(), &[]);
                assert(r@ =~= self.deinflected@);
                r
            },
            RuleType::Other => {
                let r = splice(w, 0, w.len(), &[]);
                assert(r@ =~= w@);
                r
            },
            RuleType::Custom(k) => custom_rewrite_exec(k, w, self.inflected.as_slice(), self.deinflected.as_slice()),
        }
    }
}

/// The rule `inflection` builds, once its matcher has been chosen.
pub open spec fn built_as(r: &Rule, inflected: Seq<char>, deinflected: Seq<char>, cin: u32, cout: u32, t: RuleType) -> bool {
    &&& r.rule_type == t
    &&& r.inflected@ == inflected
    &&& r.deinflected@ == deinflected
    &&& r.conditions_in == cin
    &&& r.conditions_out == cout
    &&& (r.matcher is Literal <==> is_literal(inflected))
    &&& (r.matcher matches Matcher::Compiled(p) ==> p.source() == anchored(t, inflected))
}

fn anchored_source(t: RuleType, inflected: &[char]) -> (r: String)
    ensures
        r@ == anchored(t, inflected@),
{
    let head: Vec<char> = match t {
        RuleType::Suffix => Vec::new(),
        _ => vec!['^'],
    };
    let tail: Vec<char> = match t {
        RuleType::Prefix => Vec::new(),
        _ => vec!['$'],
    };
    let body = splice(inflected, 0, inflected.len(), tail.as_slice());
    let all = splice(head.as_slice(), 0, head.len(), body.as_slice());
    assert(inflected@.subrange(0, inflected@.len() as int) =~= inflected@);
    assert(head@.subrange(0, head@.len() as int) =~= head@);
    assert(all@ =~= anchored(t, inflected@));
    string_of(all.as_slice())
}

/// Builds a generic prefix, suffix or whole-word rule. A fragment without regex meta
/// characters (one that `regex::escape` leaves unchanged) is matched as plain text; any
/// other is compiled, anchored as the rule type says, and refused if it does not compile.
pub fn inflection(
    inflected: &str,
    deinflected: &str,
    conditions_in: u32,
    conditions_out: u32,
    rule_type: RuleType,
) -> (r: Result<Rule, RuleError>)
    ensures
        !is_generic(rule_type) ==> r == Err::<Rule, RuleError>(RuleError::UnsupportedRuleType),
        is_generic(rule_type) ==> (r == Err::<Rule, RuleError>(RuleError::InvalidPattern)
            <==> !is_literal(inflected@) && !regex_compiles_of(anchored(rule_type, inflected@))),
        is_generic(rule_type) && (is_literal(inflected@) || regex_compiles_of(
            anchored(rule_type, inflected@),
        )) ==> r is Ok,
        r matches Ok(rule) ==> built_as(&rule, inflected@, deinflected@, conditions_in, conditions_out, rule_type),
{
    match rule_type {
        RuleType::Prefix | RuleType::Suffix | RuleType::WholeWord => {},
        _ => {
            return Err(RuleError::UnsupportedRuleType);
        },
    }
    let a = chars_of(inflected);
    let b = chars_of(deinflected);
    let matcher = if literal_fragment(a.as_slice()) {
        Matcher::Literal
    } else {
        let source = anchored_source(rule_type, a.as_slice());
        match Pattern::compile(source.as_str()) {
            Some(p) => Matcher::Compiled(p),
            None => {
                return Err(RuleError::InvalidPattern);
            },
        }
    };
    Ok(Rule { rule_type, matcher, inflected: a, deinflected: b, conditions_in, conditions_out })
}

/// Builds a suffix rule: `inflected_suffix` at the end of a word is replaced by
/// `deinflected_suffix`.
pub fn suffix_inflection(
    inflected_suffix: &str,
    deinflected_suffix: &str,
    conditions_in: u32,
    conditions_out: u32,
) -> (r: Result<Rule, RuleError>)
    ensures
        r == Err::<Rule, RuleError>(RuleError::InvalidPattern) <==> !is_literal(inflected_suffix@)
            && !regex_compiles_of(anchored(RuleType::Suffix, inflected_suffix@)),
        r is Err ==> r == Err::<Rule, RuleError>(RuleError::InvalidPattern),
        is_literal(inflected_suffix@) || regex_compiles_of(anchored(RuleType::Suffix, inflected_suffix@))
            ==> r is Ok,
        r matches Ok(rule) ==> built_as(
            &rule,
            inflected_suffix@,
            deinflected_suffix@,
            conditions_in,
            conditions_out,
            RuleType::Suffix,
        ),
{
    inflection(inflected_suffix, deinflected_suffix, conditions_in, conditions_out, RuleType::Suffix)
}

/// Builds a suffix rule with the irregular rewrite `rewrite`. Its suffix is matched as
/// plain text, so a fragment with regex meta characters is refused.
pub fn custom_inflection(
    inflected_suffix: &str,
    deinflected_suffix: &str,
    conditions_in: u32,
    conditions_out: u32,
    rewrite: CustomRewrite,
) -> (r: Result<Rule, RuleError>)
    ensures
        is_literal(inflected_suffix@) <==> r is Ok,
        r is Err ==> r == Err::<Rule, RuleError>(RuleError::InvalidPattern),
        r matches Ok(rule) ==> rule.rule_type == RuleType::Custom(rewrite) && rule.matcher is Literal
            && rule.inflected@ == inflected_suffix@ && rule.deinflected@ == deinflected_suffix@
            && rule.conditions_in == conditions_in && rule.conditions_out == conditions_out,
{
    let a = chars_of(inflected_suffix);
    if !literal_fragment(a.as_slice()) {
        return Err(RuleError::InvalidPattern);
    }
    let b = chars_of(deinflected_suffix);
    Ok(
        Rule {
            rule_type: RuleType::Custom(rewrite),
            matcher: Matcher::Literal,
            inflected: a,
            deinflected: b,
            conditions_in,
            conditions_out,
        },
    )
}

} // verus!

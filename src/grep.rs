use crate::dump::{is_tree_walk, NodeRecord};
use crate::patch::{kept, patched, rewrite_source, Edit};
use ast_grep_config::{
    deserialize_rule, try_deserialize_matchers, Rule, RuleWithConstraint, SerializableMetaVarMatcher,
    SerializableRule,
};
use ast_grep_core::language::TSLanguage;
use ast_grep_core::meta_var::MetaVarMatchers;
use ast_grep_core::source::Source;
use ast_grep_core::{AstGrep, Pattern};
use std::collections::HashMap;
use vstd::prelude::*;
use vstd::string::StringSliceAdditionalSpecFns;
use vstd::utf8::{encode_utf8, valid_utf8};

verus! {

#[verifier::external_type_specification]
#[verifier::external_body]
pub struct ExTSLanguage(TSLanguage);

#[verifier::external_type_specification]
#[verifier::external_body]
pub struct ExSerializableRule(SerializableRule);

#[verifier::external_type_specification]
#[verifier::external_body]
pub struct ExSerializableMetaVarMatcher(SerializableMetaVarMatcher);

/// The handle on a rule that ast-grep compiled.
#[verifier::external_body]
struct RuleHandle {
    inner: Rule<TSLanguage>,
}

/// The handle on meta-variable constraints that ast-grep compiled.
#[verifier::external_body]
struct ConstraintsHandle {
    inner: MetaVarMatchers<TSLanguage>,
}

/// The handle on a fix template that ast-grep parsed.
#[verifier::external_body]
struct FixHandle {
    inner: Pattern<TSLanguage>,
}

/// The handle on a source text that ast-grep parsed.
#[verifier::external_body]
pub(crate) struct TreeHandle {
    inner: AstGrep<TSLanguage>,
}

/// A compiled rule with the description and language it was compiled from.
/// Only `compile` below builds one, right from the handle that the
/// description gave.
pub struct CompiledRule {
    handle: RuleHandle,
    rule: Ghost<SerializableRule>,
    lang: Ghost<TSLanguage>,
}

/// Compiled constraints with what they were compiled from (`None`: no
/// constraint). Only `constraints_for` builds one.
pub struct CompiledConstraints {
    handle: ConstraintsHandle,
    given: Ghost<Option<HashMap<String, SerializableMetaVarMatcher>>>,
    lang: Ghost<TSLanguage>,
}

/// A parsed fix template with its text and language. Only `fix_for`
/// builds one.
pub struct CompiledFix {
    handle: FixHandle,
    fix: Ghost<Seq<char>>,
    lang: Ghost<TSLanguage>,
}

/// A parsed source with its text and language. Only `parse` builds one.
pub struct ParsedSource {
    pub(crate) handle: TreeHandle,
    pub(crate) src: Ghost<Seq<char>>,
    pub(crate) lang: Ghost<TSLanguage>,
}

/// Whether the grammar parses `src` into a tree.
pub uninterp spec fn source_parses(lang: TSLanguage, src: Seq<char>) -> bool;

/// Whether a rule description compiles for the grammar.
pub uninterp spec fn rule_compiles(rule: SerializableRule, lang: TSLanguage) -> bool;

/// Whether every meta-variable constraint compiles for the grammar.
pub uninterp spec fn constraints_compile(
    constraints: HashMap<String, SerializableMetaVarMatcher>,
    lang: TSLanguage,
) -> bool;

/// Whether a fix template parses for the grammar.
pub uninterp spec fn fix_compiles(fix: Seq<char>, lang: TSLanguage) -> bool;

/// The spans of the matches that ast-grep finds, in pre-order.
pub uninterp spec fn found_spans(
    lang: TSLanguage,
    src: Seq<char>,
    rule: SerializableRule,
    constraints: Option<HashMap<String, SerializableMetaVarMatcher>>,
) -> Seq<MatchSpan>;

/// The edits that ast-grep proposes for the matches, in pre-order.
pub uninterp spec fn found_edits(
    lang: TSLanguage,
    src: Seq<char>,
    rule: SerializableRule,
    fix: Seq<char>,
    constraints: Option<HashMap<String, SerializableMetaVarMatcher>>,
) -> Seq<Edit>;

/// The pre-order walk of the tree that the grammar parses from `src`.
pub uninterp spec fn tree_records(lang: TSLanguage, src: Seq<char>) -> Seq<NodeRecord>;

/// The constraints of a request compile (no constraints always do).
pub open spec fn constraints_ok(
    constraints: Option<HashMap<String, SerializableMetaVarMatcher>>,
    lang: TSLanguage,
) -> bool {
    match constraints {
        Some(c) => constraints_compile(c, lang),
        None => true,
    }
}

/// Why a request failed.
#[derive(Clone, Copy, Debug, PartialEq, Eq, Structural)]
pub enum GrepError {
    /// No language was installed before the request.
    LanguageNotConfigured,
    /// The rule description does not compile for the language.
    RuleCompile,
    /// A meta-variable constraint is malformed.
    InvalidConstraint,
    /// A rewrite was asked for without a fix template.
    MissingFixTemplate,
    /// The fix template does not parse for the language.
    InvalidFixTemplate,
    /// The rewritten bytes are not UTF-8.
    InvalidText,
    /// The grammar gives no tree for the source.
    TreeUnavailable,
}

/// The span of one match: start and end as (row, column).
#[derive(Clone, Copy, Debug)]
pub struct MatchSpan {
    pub start: (usize, usize),
    pub end: (usize, usize),
}

/// The four numbers that report a span: start row, start column, end row,
/// end column.
pub open spec fn span_record(s: MatchSpan) -> Seq<usize> {
    seq![s.start.0, s.start.1, s.end.0, s.end.1]
}

impl MatchSpan {
    /// The span as its four-number record.
    pub fn to_record(&self) -> (r: Vec<usize>)
        ensures
            r@ == span_record(*self),
    {
        let mut r: Vec<usize> = Vec::new();
        r.push(self.start.0);
        r.push(self.start.1);
        r.push(self.end.0);
        r.push(self.end.1);
        assert(r@ =~= span_record(*self));
        r
    }
}

/// The records of `spans`, in the same order.
pub fn span_records(spans: &Vec<MatchSpan>) -> (r: Vec<Vec<usize>>)
    ensures
        r@.len() == spans@.len(),
        forall|i: int| 0 <= i < spans@.len() ==> #[trigger] r@[i]@ == span_record(spans@[i]),
{
    let mut r: Vec<Vec<usize>> = Vec::new();
    let mut i: usize = 0;
    while i < spans.len()
        invariant
            i <= spans@.len(),
            r@.len() == i,
            forall|k: int| 0 <= k < i ==> #[trigger] r@[k]@ == span_record(spans@[k]),
        decreases spans@.len() - i,
    {
        r.push(spans[i].to_record());
        i += 1;
    }
    r
}

/// The process-wide language: empty until a language is installed, and
/// every request reads it first.
pub struct LanguageSlot {
    pub current: Option<TSLanguage>,
}

impl LanguageSlot {
    /// A slot with no language installed.
    pub fn new() -> (r: LanguageSlot)
        ensures
            r.current.is_none(),
    {
        LanguageSlot { current: None }
    }

    /// Installs `lang`, replacing any earlier language.
    pub fn install(&mut self, lang: TSLanguage)
        ensures
            final(self).current == Some(lang),
    {
        self.current = Some(lang);
    }

    /// Whether a language is installed.
    pub fn is_configured(&self) -> (r: bool)
        ensures
            r == self.current.is_some(),
    {
        self.current.is_some()
    }

    /// A handle on the installed language, or `LanguageNotConfigured`.
    pub fn language(&self) -> (r: Result<TSLanguage, GrepError>)
        ensures
            self.current.is_none() <==> r == Err::<TSLanguage, GrepError>(
                GrepError::LanguageNotConfigured,
            ),
            self.current.is_some() <==> r.is_ok(),
            r matches Ok(l) ==> self.current == Some(l),
    {
        match &self.current {
            Some(lang) => Ok(clone_language(lang)),
            None => Err(GrepError::LanguageNotConfigured),
        }
    }
}

/// Relies on `Clone` for tree-sitter's `Language` (derived): a second
/// handle equal to the first.
#[verifier::external_body]
fn clone_language(lang: &TSLanguage) -> (r: TSLanguage)
    ensures
        r == *lang,
{
    lang.clone()
}

/// Relies on ast-grep's `AstGrep::customized`: parses `src` with the
/// grammar, or fails where tree-sitter gives no tree.
#[verifier::external_body]
fn parse_source(lang: &TSLanguage, src: &str) -> (r: Option<TreeHandle>)
    ensures
        r.is_some() == source_parses(*lang, src@),
{
    match AstGrep::customized(Source::Plain(src.to_string()), lang.clone()) {
        Ok(inner) => Some(TreeHandle { inner }),
        Err(_) => None,
    }
}

/// Relies on ast-grep-config's `deserialize_rule`: compiles a rule
/// description, or fails on one that is invalid for the grammar.
#[verifier::external_body]
fn compile_rule(rule: SerializableRule, lang: TSLanguage) -> (r: Option<RuleHandle>)
    ensures
        r.is_some() == rule_compiles(rule, lang),
{
    match deserialize_rule(rule, lang) {
        Ok(inner) => Some(RuleHandle { inner }),
        Err(_) => None,
    }
}

/// Relies on ast-grep-config's `try_deserialize_matchers`: compiles the
/// constraints, or fails on a malformed one.
#[verifier::external_body]
fn compile_constraints(
    constraints: HashMap<String, SerializableMetaVarMatcher>,
    lang: TSLanguage,
) -> (r: Option<ConstraintsHandle>)
    ensures
        r.is_some() == constraints_compile(constraints, lang),
{
    match try_deserialize_matchers(constraints, lang) {
        Ok(inner) => Some(ConstraintsHandle { inner }),
        Err(_) => None,
    }
}

/// Relies on `MetaVarMatchers::default`: no constraint on any capture.
#[verifier::external_body]
fn no_constraints() -> ConstraintsHandle {
    ConstraintsHandle { inner: MetaVarMatchers::default() }
}

/// Relies on ast-grep's `Pattern::try_new`: parses a fix template, or fails
/// on one that the grammar does not accept.
#[verifier::external_body]
fn compile_fix(fix: &str, lang: TSLanguage) -> (r: Option<FixHandle>)
    ensures
        r.is_some() == fix_compiles(fix@, lang),
{
    match Pattern::try_new(fix, lang) {
        Ok(inner) => Some(FixHandle { inner }),
        Err(_) => None,
    }
}

/// Relies on ast-grep's `Node::find_all`: the span of every match of the
/// rule in the parsed source, in pre-order of the matched nodes.
#[verifier::external_body]
fn match_spans(
    parsed: &ParsedSource,
    rule: CompiledRule,
    constraints: CompiledConstraints,
) -> (r: Vec<MatchSpan>)
    requires
        rule.lang@ == parsed.lang@,
        constraints.lang@ == parsed.lang@,
    ensures
        r@ == found_spans(parsed.lang@, parsed.src@, rule.rule@, constraints.given@),
{
    let config = RuleWithConstraint {
        rule: rule.handle.inner,
        matchers: constraints.handle.inner,
    };
    parsed.handle.inner.root().find_all(config).map(
        |n| MatchSpan { start: n.start_pos(), end: n.end_pos() },
    ).collect()
}

/// Relies on ast-grep's `Node::replace_all`: one edit for each match that
/// is not inside an earlier one, with the fix's text for that match.
#[verifier::external_body]
fn match_edits(
    parsed: &ParsedSource,
    rule: CompiledRule,
    constraints: CompiledConstraints,
    fix: CompiledFix,
) -> (r: Vec<Edit>)
    requires
        rule.lang@ == parsed.lang@,
        constraints.lang@ == parsed.lang@,
        fix.lang@ == parsed.lang@,
    ensures
        r@ == found_edits(parsed.lang@, parsed.src@, rule.rule@, fix.fix@, constraints.given@),
{
    let config = RuleWithConstraint {
        rule: rule.handle.inner,
        matchers: constraints.handle.inner,
    };
    parsed.handle.inner.root().replace_all(config, fix.handle.inner).into_iter().map(
        |e| Edit {
            position: e.position,
            deleted_length: e.deleted_length,
            inserted_text: e.inserted_text,
        },
    ).collect()
}

/// Relies on ast-grep's `Node::dfs` and `Node::children`: every node of the
/// parsed tree in pre-order (the node, then each child's subtree in turn),
/// with its kind, span, named flag and number of children; so the records
/// are the walk of one tree.
#[verifier::external_body]
pub(crate) fn node_records(parsed: &ParsedSource) -> (r: Vec<NodeRecord>)
    ensures
        r@ == tree_records(parsed.lang@, parsed.src@),
        is_tree_walk(r@),
{
    parsed.handle.inner.root().dfs().map(
        |n| NodeRecord {
            kind: n.kind().to_string(),
            start: n.start_pos(),
            end: n.end_pos(),
            is_named: n.is_named(),
            child_count: n.children().len(),
        },
    ).collect()
}

/// Relies on `String::from_utf8`: the text whose UTF-8 encoding is `bytes`,
/// when they are valid UTF-8.
#[verifier::external_body]
fn utf8_text(bytes: Vec<u8>) -> (r: Option<String>)
    ensures
        r.is_some() <==> valid_utf8(bytes@),
        r matches Some(s) ==> encode_utf8(s@) == bytes@,
{
    String::from_utf8(bytes).ok()
}

/// Parses `src` with `lang`.
pub(crate) fn parse(lang: &TSLanguage, src: &str) -> (r: Option<ParsedSource>)
    ensures
        r.is_some() == source_parses(*lang, src@),
        r matches Some(p) ==> p.lang@ == *lang && p.src@ == src@,
{
    match parse_source(lang, src) {
        Some(handle) => Some(ParsedSource { handle, src: Ghost(src@), lang: Ghost(*lang) }),
        None => None,
    }
}

/// Compiles a rule description for `lang`.
fn compile(rule: SerializableRule, lang: &TSLanguage) -> (r: Option<CompiledRule>)
    ensures
        r.is_some() == rule_compiles(rule, *lang),
        r matches Some(c) ==> c.rule@ == rule && c.lang@ == *lang,
{
    let ghost given = rule;
    match compile_rule(rule, clone_language(lang)) {
        Some(handle) => Some(CompiledRule { handle, rule: Ghost(given), lang: Ghost(*lang) }),
        None => None,
    }
}

/// Compiles the constraints that a request gives, or none when it gives
/// none.
fn constraints_for(
    constraints: Option<HashMap<String, SerializableMetaVarMatcher>>,
    lang: &TSLanguage,
) -> (r: Option<CompiledConstraints>)
    ensures
        r.is_some() == constraints_ok(constraints, *lang),
        r matches Some(c) ==> c.given@ == constraints && c.lang@ == *lang,
{
    let ghost given = constraints;
    match constraints {
        Some(c) => match compile_constraints(c, clone_language(lang)) {
            Some(handle) => Some(
                CompiledConstraints { handle, given: Ghost(given), lang: Ghost(*lang) },
            ),
            None => None,
        },
        None => Some(
            CompiledConstraints { handle: no_constraints(), given: Ghost(given), lang: Ghost(*lang) },
        ),
    }
}

/// Parses a fix template for `lang`.
fn fix_for(fix: &str, lang: &TSLanguage) -> (r: Option<CompiledFix>)
    ensures
        r.is_some() == fix_compiles(fix@, *lang),
        r matches Some(f) ==> f.fix@ == fix@ && f.lang@ == *lang,
{
    match compile_fix(fix, clone_language(lang)) {
        Some(handle) => Some(CompiledFix { handle, fix: Ghost(fix@), lang: Ghost(*lang) }),
        None => None,
    }
}

/// What a search request gives: configuration errors come first, in the
/// order language, rule, constraints; then a source the grammar cannot
/// parse; else the spans of the matches.
pub open spec fn find_result(
    current: Option<TSLanguage>,
    src: Seq<char>,
    rule: SerializableRule,
    constraints: Option<HashMap<String, SerializableMetaVarMatcher>>,
) -> Result<Seq<MatchSpan>, GrepError> {
    match current {
        None => Err(GrepError::LanguageNotConfigured),
        Some(l) => if !rule_compiles(rule, l) {
            Err(GrepError::RuleCompile)
        } else if !constraints_ok(constraints, l) {
            Err(GrepError::InvalidConstraint)
        } else if !source_parses(l, src) {
            Err(GrepError::TreeUnavailable)
        } else {
            Ok(found_spans(l, src, rule, constraints))
        },
    }
}

/// What a rewrite request gives: configuration errors come first, in the
/// order language, fix template, rule, constraints; then a source the
/// grammar cannot parse; else the source bytes with the kept edits applied,
/// when they are UTF-8.
pub open spec fn fix_result(
    current: Option<TSLanguage>,
    src: Seq<char>,
    rule: SerializableRule,
    fix: Option<String>,
    constraints: Option<HashMap<String, SerializableMetaVarMatcher>>,
) -> Result<Seq<u8>, GrepError> {
    match current {
        None => Err(GrepError::LanguageNotConfigured),
        Some(l) => match fix {
            None => Err(GrepError::MissingFixTemplate),
            Some(f) => if !fix_compiles(f@, l) {
                Err(GrepError::InvalidFixTemplate)
            } else if !rule_compiles(rule, l) {
                Err(GrepError::RuleCompile)
            } else if !constraints_ok(constraints, l) {
                Err(GrepError::InvalidConstraint)
            } else if !source_parses(l, src) {
                Err(GrepError::TreeUnavailable)
            } else {
                let bytes = encode_utf8(src);
                let out = patched(
                    bytes,
                    kept(found_edits(l, src, rule, f@, constraints), bytes.len() as int),
                );
                if valid_utf8(out) {
                    Ok(out)
                } else {
                    Err(GrepError::InvalidText)
                }
            },
        },
    }
}

/// Finds every match of `rule` (with its constraints) in `src` and reports
/// their spans in pre-order. Every error is detected before the source is
/// searched; an absence of matches is an empty result.
pub fn find_nodes(
    slot: &LanguageSlot,
    src: &str,
    rule: SerializableRule,
    constraints: Option<HashMap<String, SerializableMetaVarMatcher>>,
) -> (r: Result<Vec<MatchSpan>, GrepError>)
    ensures
        match r {
            Ok(spans) => find_result(slot.current, src@, rule, constraints) == Ok::<
                Seq<MatchSpan>,
                GrepError,
            >(spans@),
            Err(e) => find_result(slot.current, src@, rule, constraints) == Err::<
                Seq<MatchSpan>,
                GrepError,
            >(e),
        },
{
    let lang = match slot.language() {
        Ok(l) => l,
        Err(e) => return Err(e),
    };
    let compiled = match compile(rule, &lang) {
        Some(c) => c,
        None => return Err(GrepError::RuleCompile),
    };
    let matchers = match constraints_for(constraints, &lang) {
        Some(m) => m,
        None => return Err(GrepError::InvalidConstraint),
    };
    let parsed = match parse(&lang, src) {
        Some(p) => p,
        None => return Err(GrepError::TreeUnavailable),
    };
    Ok(match_spans(&parsed, compiled, matchers))
}

/// Rewrites every match of `rule` in `src` with `fix` and returns the new
/// text: the matcher proposes edits in pre-order, the overlap policy keeps
/// the outermost and earliest ones, and the kept edits are applied to the
/// original bytes. Every configuration error is detected before the source
/// is searched, and no partial text is ever returned.
pub fn fix_errors(
    slot: &LanguageSlot,
    src: &str,
    rule: SerializableRule,
    fix: Option<String>,
    constraints: Option<HashMap<String, SerializableMetaVarMatcher>>,
) -> (r: Result<String, GrepError>)
    ensures
        match r {
            Ok(text) => fix_result(slot.current, src@, rule, fix, constraints) == Ok::<
                Seq<u8>,
                GrepError,
            >(encode_utf8(text@)),
            Err(e) => fix_result(slot.current, src@, rule, fix, constraints) == Err::<
                Seq<u8>,
                GrepError,
            >(e),
        },
{
    let lang = match slot.language() {
        Ok(l) => l,
        Err(e) => return Err(e),
    };
    let template = match fix {
        Some(t) => t,
        None => return Err(GrepError::MissingFixTemplate),
    };
    let fixer = match fix_for(template.as_str(), &lang) {
        Some(f) => f,
        None => return Err(GrepError::InvalidFixTemplate),
    };
    let compiled = match compile(rule, &lang) {
        Some(c) => c,
        None => return Err(GrepError::RuleCompile),
    };
    let matchers = match constraints_for(constraints, &lang) {
        Some(m) => m,
        None => return Err(GrepError::InvalidConstraint),
    };
    let parsed = match parse(&lang, src) {
        Some(p) => p,
        None => return Err(GrepError::TreeUnavailable),
    };
    let cands = match_edits(&parsed, compiled, matchers, fixer);
    let bytes = rewrite_source(src, &cands);
    match utf8_text(bytes) {
        Some(text) => Ok(text),
        None => Err(GrepError::InvalidText),
    }
}

} // verus!

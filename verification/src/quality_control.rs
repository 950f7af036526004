//! Quality control: what the validations of a translation found, and the
//! suggestions made of it, most urgent first.

use vstd::prelude::*;
use crate::text::{chars_contain, contains_text, copy_text, to_chars};
use crate::text_map::TextMap;

verus! {

/// How grave a finding is.
#[derive(Debug, Clone, Copy, PartialEq, Eq, Structural)]
pub enum Severity {
    Critical,
    Major,
    Minor,
    Info,
}

/// How urgent a suggestion is.
#[derive(Debug, Clone, Copy, PartialEq, Eq, Structural)]
pub enum Priority {
    High,
    Medium,
    Low,
}

/// What a suggestion is about.
#[derive(Debug, Clone, Copy, PartialEq, Eq, Structural)]
pub enum SuggestionCategory {
    Technical,
    Grammar,
    Style,
    Context,
    General,
}

/// The validation of one technical term.
#[derive(Debug, Clone)]
pub struct TermValidation {
    pub term: String,
    pub translation: String,
    pub expected: String,
    pub is_valid: bool,
    pub context: String,
    pub domain: String,
}

/// A finding on grammar.
#[derive(Debug, Clone)]
pub struct GrammarValidation {
    pub text: String,
    pub error_type: String,
    pub suggestion: String,
    pub severity: Severity,
}

/// A finding on style.
#[derive(Debug, Clone)]
pub struct StyleValidation {
    pub text: String,
    pub issue: String,
    pub expected_style: String,
    pub suggestion: String,
    pub severity: Severity,
}

/// A finding on context.
#[derive(Debug, Clone)]
pub struct ContextValidation {
    pub text: String,
    pub context_type: String,
    pub issue: String,
    pub suggestion: String,
    pub severity: Severity,
}

/// All the findings on one translation.
#[derive(Debug, Clone)]
pub struct ValidationResults {
    pub technical_terms: Vec<TermValidation>,
    pub grammar: Vec<GrammarValidation>,
    pub style: Vec<StyleValidation>,
    pub context: Vec<ContextValidation>,
}

/// A suggested change.
#[derive(Debug, Clone)]
pub struct Suggestion {
    pub text: String,
    pub suggestion: String,
    pub reason: String,
    pub category: SuggestionCategory,
    pub priority: Priority,
}

/// A suggestion as a mathematical value.
pub struct SuggestionModel {
    pub text: Seq<char>,
    pub suggestion: Seq<char>,
    pub reason: Seq<char>,
    pub category: SuggestionCategory,
    pub priority: Priority,
}

impl View for Suggestion {
    type V = SuggestionModel;

    open spec fn view(&self) -> SuggestionModel {
        SuggestionModel {
            text: self.text@,
            suggestion: self.suggestion@,
            reason: self.reason@,
            category: self.category,
            priority: self.priority,
        }
    }
}

/// The suggestions that a sequence holds, each as a mathematical value.
pub open spec fn suggestion_views(s: Seq<Suggestion>) -> Seq<SuggestionModel> {
    Seq::new(s.len(), |i: int| s[i]@)
}

/// The urgency of a finding on grammar.
pub open spec fn grammar_priority(severity: Severity) -> Priority {
    match severity {
        Severity::Critical => Priority::High,
        Severity::Major => Priority::High,
        Severity::Minor => Priority::Medium,
        Severity::Info => Priority::Low,
    }
}

/// The urgency of a finding on style or context.
pub open spec fn remark_priority(severity: Severity) -> Priority {
    match severity {
        Severity::Critical => Priority::High,
        Severity::Major => Priority::Medium,
        Severity::Minor => Priority::Low,
        Severity::Info => Priority::Low,
    }
}

/// The suggestion made of an invalid term.
pub open spec fn term_suggestion(v: TermValidation) -> SuggestionModel {
    SuggestionModel {
        text: v.translation@,
        suggestion: v.expected@,
        reason: "מונח טכני לא תקין בתחום "@ + v.domain@,
        category: SuggestionCategory::Technical,
        priority: Priority::High,
    }
}

/// The suggestion made of a finding on grammar.
pub open spec fn grammar_suggestion(v: GrammarValidation) -> SuggestionModel {
    SuggestionModel {
        text: v.text@,
        suggestion: v.suggestion@,
        reason: v.error_type@,
        category: SuggestionCategory::Grammar,
        priority: grammar_priority(v.severity),
    }
}

/// The suggestion made of a finding on style.
pub open spec fn style_suggestion(v: StyleValidation) -> SuggestionModel {
    SuggestionModel {
        text: v.text@,
        suggestion: v.suggestion@,
        reason: v.issue@,
        category: SuggestionCategory::Style,
        priority: remark_priority(v.severity),
    }
}

/// The suggestion made of a finding on context.
pub open spec fn context_suggestion(v: ContextValidation) -> SuggestionModel {
    SuggestionModel {
        text: v.text@,
        suggestion: v.suggestion@,
        reason: v.issue@,
        category: SuggestionCategory::Context,
        priority: remark_priority(v.severity),
    }
}

/// The suggestions made of the invalid terms among `terms`, in order.
pub open spec fn term_suggestions(terms: Seq<TermValidation>) -> Seq<SuggestionModel>
    decreases terms.len(),
{
    if terms.len() == 0 {
        Seq::empty()
    } else if !terms.last().is_valid {
        term_suggestions(terms.drop_last()).push(term_suggestion(terms.last()))
    } else {
        term_suggestions(terms.drop_last())
    }
}

/// All suggestions in the order in which they are made: terms, grammar,
/// style, context.
pub open spec fn suggestions_as_made(
    terms: Seq<TermValidation>,
    grammar: Seq<GrammarValidation>,
    style: Seq<StyleValidation>,
    context: Seq<ContextValidation>,
) -> Seq<SuggestionModel> {
    term_suggestions(terms) + Seq::new(grammar.len(), |i: int| grammar_suggestion(grammar[i]))
        + Seq::new(style.len(), |i: int| style_suggestion(style[i])) + Seq::new(
        context.len(),
        |i: int| context_suggestion(context[i]),
    )
}

/// The suggestions of `all` with priority `p`, in their order.
pub open spec fn of_priority(all: Seq<SuggestionModel>, p: Priority) -> Seq<SuggestionModel>
    decreases all.len(),
{
    if all.len() == 0 {
        Seq::empty()
    } else if all.last().priority == p {
        of_priority(all.drop_last(), p).push(all.last())
    } else {
        of_priority(all.drop_last(), p)
    }
}

/// `all` with the most urgent first; suggestions of one priority keep
/// their order.
pub open spec fn most_urgent_first(all: Seq<SuggestionModel>) -> Seq<SuggestionModel> {
    of_priority(all, Priority::High) + of_priority(all, Priority::Medium) + of_priority(
        all,
        Priority::Low,
    )
}

/// Computes the urgency of a finding on grammar.
pub fn priority_of_grammar(severity: Severity) -> (p: Priority)
    ensures
        p == grammar_priority(severity),
{
    match severity {
        Severity::Critical => Priority::High,
        Severity::Major => Priority::High,
        Severity::Minor => Priority::Medium,
        Severity::Info => Priority::Low,
    }
}

/// Computes the urgency of a finding on style or context.
pub fn priority_of_remark(severity: Severity) -> (p: Priority)
    ensures
        p == remark_priority(severity),
{
    match severity {
        Severity::Critical => Priority::High,
        Severity::Major => Priority::Medium,
        Severity::Minor => Priority::Low,
        Severity::Info => Priority::Low,
    }
}

fn copy_suggestion(s: &Suggestion) -> (r: Suggestion)
    ensures
        r@ == s@,
{
    Suggestion {
        text: copy_text(s.text.as_str()),
        suggestion: copy_text(s.suggestion.as_str()),
        reason: copy_text(s.reason.as_str()),
        category: s.category,
        priority: s.priority,
    }
}

fn take_priority(all: &Vec<Suggestion>, p: Priority, out: &mut Vec<Suggestion>)
    ensures
        suggestion_views(final(out)@) == suggestion_views(old(out)@) + of_priority(
            suggestion_views(all@),
            p,
        ),
{
    let ghost start = suggestion_views(out@);
    let ghost views = suggestion_views(all@);
    let mut i: usize = 0;
    assert(views.take(0) =~= Seq::<SuggestionModel>::empty());
    assert(start + Seq::<SuggestionModel>::empty() =~= start);
    while i < all.len()
        invariant
            0 <= i <= all@.len(),
            views == suggestion_views(all@),
            suggestion_views(out@) == start + of_priority(views.take(i as int), p),
        decreases all@.len() - i,
    {
        assert(views.take(i + 1).drop_last() =~= views.take(i as int));
        assert(views.take(i + 1).last() == all@[i as int]@);
        if all[i].priority == p {
            let ghost prior = suggestion_views(out@);
            out.push(copy_suggestion(&all[i]));
            assert(suggestion_views(out@) =~= prior.push(all@[i as int]@));
            assert(start + of_priority(views.take(i as int), p).push(all@[i as int]@) =~= prior.push(
                all@[i as int]@,
            ));
        }
        i += 1;
    }
    assert(views.take(all@.len() as int) =~= views);
}

/// Makes the suggestions of the findings: one of each invalid term and of
/// each finding on grammar, style and context; the most urgent first.
pub fn generate_suggestions(
    term_validations: &[TermValidation],
    grammar_validations: &[GrammarValidation],
    style_validations: &[StyleValidation],
    context_validations: &[ContextValidation],
) -> (suggestions: Vec<Suggestion>)
    ensures
        suggestion_views(suggestions@) == most_urgent_first(
            suggestions_as_made(
                term_validations@,
                grammar_validations@,
                style_validations@,
                context_validations@,
            ),
        ),
{
    let mut made: Vec<Suggestion> = Vec::new();
    let mut i: usize = 0;
    assert(term_validations@.take(0) =~= Seq::<TermValidation>::empty());
    assert(suggestion_views(made@) =~= Seq::<SuggestionModel>::empty());
    while i < term_validations.len()
        invariant
            0 <= i <= term_validations@.len(),
            suggestion_views(made@) == term_suggestions(term_validations@.take(i as int)),
        decreases term_validations@.len() - i,
    {
        assert(term_validations@.take(i + 1).drop_last() =~= term_validations@.take(i as int));
        assert(term_validations@.take(i + 1).last() == term_validations@[i as int]);
        let v: &TermValidation = &term_validations[i];
        if !v.is_valid {
            let ghost prior = suggestion_views(made@);
            made.push(
                Suggestion {
                    text: copy_text(v.translation.as_str()),
                    suggestion: copy_text(v.expected.as_str()),
                    reason: String::from_str("מונח טכני לא תקין בתחום ").concat(v.domain.as_str()),
                    category: SuggestionCategory::Technical,
                    priority: Priority::High,
                },
            );
            assert(suggestion_views(made@) =~= prior.push(term_suggestion(*v)));
        }
        i += 1;
    }
    assert(term_validations@.take(term_validations@.len() as int) =~= term_validations@);
    let ghost from_terms = suggestion_views(made@);
    let ghost grammar = Seq::new(
        grammar_validations@.len(),
        |i: int| grammar_suggestion(grammar_validations@[i]),
    );
    let mut g: usize = 0;
    assert(from_terms + grammar.take(0) =~= from_terms);
    while g < grammar_validations.len()
        invariant
            0 <= g <= grammar_validations@.len(),
            grammar == Seq::new(
                grammar_validations@.len(),
                |i: int| grammar_suggestion(grammar_validations@[i]),
            ),
            suggestion_views(made@) == from_terms + grammar.take(g as int),
        decreases grammar_validations@.len() - g,
    {
        let v: &GrammarValidation = &grammar_validations[g];
        let ghost prior = suggestion_views(made@);
        made.push(
            Suggestion {
                text: copy_text(v.text.as_str()),
                suggestion: copy_text(v.suggestion.as_str()),
                reason: copy_text(v.error_type.as_str()),
                category: SuggestionCategory::Grammar,
                priority: priority_of_grammar(v.severity),
            },
        );
        proof {
            let shown = grammar_suggestion(*v);
            assert(grammar[g as int] == shown);
            assert(suggestion_views(made@) =~= prior.push(shown));
            assert(grammar.take(g + 1) =~= grammar.take(g as int).push(shown));
            assert(from_terms + grammar.take(g + 1) =~= (from_terms + grammar.take(g as int)).push(shown));
        }
        g += 1;
    }
    assert(grammar.take(grammar.len() as int) =~= grammar);
    let ghost with_grammar = suggestion_views(made@);
    let ghost style = Seq::new(
        style_validations@.len(),
        |i: int| style_suggestion(style_validations@[i]),
    );
    let mut s: usize = 0;
    assert(with_grammar + style.take(0) =~= with_grammar);
    while s < style_validations.len()
        invariant
            0 <= s <= style_validations@.len(),
            style == Seq::new(
                style_validations@.len(),
                |i: int| style_suggestion(style_validations@[i]),
            ),
            suggestion_views(made@) == with_grammar + style.take(s as int),
        decreases style_validations@.len() - s,
    {
        let v: &StyleValidation = &style_validations[s];
        let ghost prior = suggestion_views(made@);
        made.push(
            Suggestion {
                text: copy_text(v.text.as_str()),
                suggestion: copy_text(v.suggestion.as_str()),
                reason: copy_text(v.issue.as_str()),
                category: SuggestionCategory::Style,
                priority: priority_of_remark(v.severity),
            },
        );
        proof {
            let shown = style_suggestion(*v);
            assert(style[s as int] == shown);
            assert(suggestion_views(made@) =~= prior.push(shown));
            assert(style.take(s + 1) =~= style.take(s as int).push(shown));
            assert(with_grammar + style.take(s + 1) =~= (with_grammar + style.take(s as int)).push(shown));
        }
        s += 1;
    }
    assert(style.take(style.len() as int) =~= style);
    let ghost with_style = suggestion_views(made@);
    let ghost context = Seq::new(
        context_validations@.len(),
        |i: int| context_suggestion(context_validations@[i]),
    );
    let mut c: usize = 0;
    assert(with_style + context.take(0) =~= with_style);
    while c < context_validations.len()
        invariant
            0 <= c <= context_validations@.len(),
            context == Seq::new(
                context_validations@.len(),
                |i: int| context_suggestion(context_validations@[i]),
            ),
            suggestion_views(made@) == with_style + context.take(c as int),
        decreases context_validations@.len() - c,
    {
        let v: &ContextValidation = &context_validations[c];
        let ghost prior = suggestion_views(made@);
        made.push(
            Suggestion {
                text: copy_text(v.text.as_str()),
                suggestion: copy_text(v.suggestion.as_str()),
                reason: copy_text(v.issue.as_str()),
                category: SuggestionCategory::Context,
                priority: priority_of_remark(v.severity),
            },
        );
        proof {
            let shown = context_suggestion(*v);
            assert(context[c as int] == shown);
            assert(suggestion_views(made@) =~= prior.push(shown));
            assert(context.take(c + 1) =~= context.take(c as int).push(shown));
            assert(with_style + context.take(c + 1) =~= (with_style + context.take(c as int)).push(shown));
        }
        c += 1;
    }
    assert(context.take(context.len() as int) =~= context);
    let mut sorted: Vec<Suggestion> = Vec::new();
    assert(suggestion_views(sorted@) =~= Seq::<SuggestionModel>::empty());
    take_priority(&made, Priority::High, &mut sorted);
    take_priority(&made, Priority::Medium, &mut sorted);
    take_priority(&made, Priority::Low, &mut sorted);
    assert(suggestion_views(sorted@) =~= most_urgent_first(suggestion_views(made@)));
    sorted
}

impl ValidationResults {
    /// The suggestions made of these findings, the most urgent first.
    pub fn suggestions(&self) -> (suggestions: Vec<Suggestion>)
        ensures
            suggestion_views(suggestions@) == most_urgent_first(
                suggestions_as_made(
                    self.technical_terms@,
                    self.grammar@,
                    self.style@,
                    self.context@,
                ),
            ),
    {
        generate_suggestions(
            self.technical_terms.as_slice(),
            self.grammar.as_slice(),
            self.style.as_slice(),
            self.context.as_slice(),
        )
    }
}

/// The dictionary of technical terms: for each term its translation, its
/// domain and the context in which it is used.
pub struct TechnicalDictionary {
    translations: TextMap,
    domains: TextMap,
    contexts: TextMap,
}

impl TechnicalDictionary {
    /// The dictionary's invariant: that of its maps, and one domain and one
    /// context for each term.
    pub closed spec fn well_formed(&self) -> bool {
        &&& self.translations.well_formed()
        &&& self.domains.well_formed()
        &&& self.contexts.well_formed()
        &&& self.domains.keys() == self.translations.keys()
        &&& self.contexts.keys() == self.translations.keys()
    }

    /// The terms, in the order of entry.
    pub closed spec fn terms(&self) -> Seq<Seq<char>> {
        self.translations.keys()
    }

    /// The translations, each at the place of its term.
    pub closed spec fn translations(&self) -> Seq<Seq<char>> {
        self.translations.values()
    }

    /// The domains, each at the place of its term.
    pub closed spec fn domains(&self) -> Seq<Seq<char>> {
        self.domains.values()
    }

    /// The contexts, each at the place of its term.
    pub closed spec fn contexts(&self) -> Seq<Seq<char>> {
        self.contexts.values()
    }

    /// The dictionary holds `term`.
    pub open spec fn knows(&self, term: Seq<char>) -> bool {
        crate::text::position(self.terms(), term) < self.terms().len()
    }

    /// A dictionary without terms.
    pub fn new() -> (d: Self)
        ensures
            d.well_formed(),
            d.terms() == Seq::<Seq<char>>::empty(),
            d.translations() == Seq::<Seq<char>>::empty(),
            d.domains() == Seq::<Seq<char>>::empty(),
            d.contexts() == Seq::<Seq<char>>::empty(),
    {
        TechnicalDictionary {
            translations: TextMap::new(),
            domains: TextMap::new(),
            contexts: TextMap::new(),
        }
    }

    /// Enters a term with its translation, domain and context, in place of
    /// what was entered under the term.
    pub fn add_term(&mut self, term: &str, translation: &str, domain: &str, context: &str)
        requires
            old(self).well_formed(),
        ensures
            final(self).well_formed(),
            old(self).knows(term@) ==> {
                let at = crate::text::position(old(self).terms(), term@);
                &&& final(self).terms() == old(self).terms()
                &&& final(self).translations() == old(self).translations().update(at, translation@)
                &&& final(self).domains() == old(self).domains().update(at, domain@)
                &&& final(self).contexts() == old(self).contexts().update(at, context@)
            },
            !old(self).knows(term@) ==> {
                &&& final(self).terms() == old(self).terms().push(term@)
                &&& final(self).translations() == old(self).translations().push(translation@)
                &&& final(self).domains() == old(self).domains().push(domain@)
                &&& final(self).contexts() == old(self).contexts().push(context@)
            },
    {
        self.translations.insert(copy_text(term), copy_text(translation));
        self.domains.insert(copy_text(term), copy_text(domain));
        self.contexts.insert(copy_text(term), copy_text(context));
    }

    /// The number of terms.
    pub fn len(&self) -> (n: usize)
        requires
            self.well_formed(),
        ensures
            n == self.terms().len(),
    {
        self.translations.len()
    }
}

/// A rule of grammar.
#[derive(Debug, Clone)]
pub struct GrammarRule {
    pub pattern: String,
    pub error_type: String,
    pub suggestion: String,
    pub severity: Severity,
}

/// A rule of style.
#[derive(Debug, Clone)]
pub struct StyleRule {
    pub pattern: String,
    pub expected_style: String,
    pub suggestion: String,
    pub severity: Severity,
}

/// A rule on context.
#[derive(Debug, Clone)]
pub struct ContextRule {
    pub pattern: String,
    pub context_type: String,
    pub suggestion: String,
    pub severity: Severity,
}

impl GrammarRule {
    /// What the rule finds in `text`: rules are not applied yet, so
    /// nothing.
    pub fn check(&self, text: &str) -> (r: Option<GrammarValidation>)
        ensures
            r is None,
    {
        None
    }
}

impl StyleRule {
    /// What the rule finds in `text`: rules are not applied yet, so
    /// nothing.
    pub fn check(&self, text: &str) -> (r: Option<StyleValidation>)
        ensures
            r is None,
    {
        None
    }
}

impl ContextRule {
    /// What the rule finds in a translation: rules are not applied yet, so
    /// nothing.
    pub fn check(&self, source_text: &str, translated_text: &str) -> (r: Option<ContextValidation>)
        ensures
            r is None,
    {
        None
    }
}

/// The places, among the first `n`, of the terms that stand in the source,
/// in order.
pub open spec fn terms_in_source(terms: Seq<Seq<char>>, source: Seq<char>, n: int) -> Seq<int>
    decreases n,
{
    if n <= 0 {
        Seq::empty()
    } else if contains_text(source, terms[n - 1]) {
        terms_in_source(terms, source, n - 1).push(n - 1)
    } else {
        terms_in_source(terms, source, n - 1)
    }
}

/// `v` is the validation of the term at place `at` against the
/// translation: valid where the translation holds the expected rendering.
pub open spec fn validates_term(
    v: TermValidation,
    terms: Seq<Seq<char>>,
    expected: Seq<Seq<char>>,
    domains: Seq<Seq<char>>,
    contexts: Seq<Seq<char>>,
    at: int,
    translated: Seq<char>,
) -> bool {
    &&& v.term@ == terms[at]
    &&& v.translation@ == translated
    &&& v.expected@ == expected[at]
    &&& v.is_valid == contains_text(translated, expected[at])
    &&& v.context@ == contexts[at]
    &&& v.domain@ == domains[at]
}

/// The quality controller.
pub struct QualityController {
    technical_dictionary: TechnicalDictionary,
    grammar_rules: Vec<GrammarRule>,
    style_rules: Vec<StyleRule>,
    context_rules: Vec<ContextRule>,
}

impl QualityController {
    /// The controller's invariant: that of its dictionary.
    pub closed spec fn well_formed(&self) -> bool {
        self.technical_dictionary.well_formed()
    }

    /// The dictionary that the controller validates against.
    pub closed spec fn dictionary(&self) -> TechnicalDictionary {
        self.technical_dictionary
    }

    /// A controller over a dictionary, without rules.
    pub fn new(technical_dictionary: TechnicalDictionary) -> (c: Self)
        requires
            technical_dictionary.well_formed(),
        ensures
            c.well_formed(),
            c.dictionary() == technical_dictionary,
    {
        QualityController {
            technical_dictionary,
            grammar_rules: Vec::new(),
            style_rules: Vec::new(),
            context_rules: Vec::new(),
        }
    }

    /// Validates every term of the dictionary that stands in the source,
    /// in the order of the dictionary.
    pub fn validate_technical_terms(&self, source_text: &str, translated_text: &str) -> (out: Vec<
        TermValidation,
    >)
        requires
            self.well_formed(),
        ensures
            out@.len() == terms_in_source(
                self.dictionary().terms(),
                source_text@,
                self.dictionary().terms().len() as int,
            ).len(),
            forall|i: int|
                0 <= i < out@.len() ==> validates_term(
                    #[trigger] out@[i],
                    self.dictionary().terms(),
                    self.dictionary().translations(),
                    self.dictionary().domains(),
                    self.dictionary().contexts(),
                    terms_in_source(
                        self.dictionary().terms(),
                        source_text@,
                        self.dictionary().terms().len() as int,
                    )[i],
                    translated_text@,
                ),
    {
        let d = &self.technical_dictionary;
        let source: Vec<char> = to_chars(source_text);
        let translated: Vec<char> = to_chars(translated_text);
        let total: usize = d.translations.len();
        proof {
            d.domains.lemma_one_value_per_key();
            d.contexts.lemma_one_value_per_key();
        }
        let mut out: Vec<TermValidation> = Vec::new();
        let mut i: usize = 0;
        while i < total
            invariant
                0 <= i <= total,
                self.well_formed(),
                d == &self.technical_dictionary,
                total == d.terms().len(),
                total == d.translations().len(),
                total == d.domains().len(),
                total == d.contexts().len(),
                source@ == source_text@,
                translated@ == translated_text@,
                out@.len() == terms_in_source(d.terms(), source@, i as int).len(),
                forall|t: int|
                    0 <= t < out@.len() ==> validates_term(
                        #[trigger] out@[t],
                        d.terms(),
                        d.translations(),
                        d.domains(),
                        d.contexts(),
                        terms_in_source(d.terms(), source@, i as int)[t],
                        translated@,
                    ),
            decreases total - i,
        {
            let ghost before = out@;
            let ghost found = terms_in_source(d.terms(), source@, i as int);
            let ghost next = terms_in_source(d.terms(), source@, i + 1);
            let term: &String = d.translations.key_at(i);
            let term_chars: Vec<char> = to_chars(term.as_str());
            if chars_contain(source.as_slice(), term_chars.as_slice()) {
                let expected: &String = d.translations.value_at(i);
                let expected_chars: Vec<char> = to_chars(expected.as_str());
                let is_valid: bool = chars_contain(translated.as_slice(), expected_chars.as_slice());
                out.push(
                    TermValidation {
                        term: copy_text(term.as_str()),
                        translation: copy_text(translated_text),
                        expected: copy_text(expected.as_str()),
                        is_valid,
                        context: copy_text(d.contexts.value_at(i).as_str()),
                        domain: copy_text(d.domains.value_at(i).as_str()),
                    },
                );
                proof {
                    assert(next == found.push(i as int));
                    assert forall|t: int| 0 <= t < out@.len() implies validates_term(
                        #[trigger] out@[t],
                        d.terms(),
                        d.translations(),
                        d.domains(),
                        d.contexts(),
                        next[t],
                        translated@,
                    ) by {
                        if t < before.len() {
                            assert(out@[t] == before[t]);
                            assert(next[t] == found[t]);
                        }
                    }
                }
            } else {
                assert(next == found);
            }
            i += 1;
        }
        out
    }

    /// The findings of the rules of grammar on `text`.
    pub fn validate_grammar(&self, text: &str) -> (out: Vec<GrammarValidation>)
        ensures
            out@.len() == 0,
    {
        let mut out: Vec<GrammarValidation> = Vec::new();
        let mut i: usize = 0;
        while i < self.grammar_rules.len()
            invariant
                0 <= i <= self.grammar_rules@.len(),
                out@.len() == 0,
            decreases self.grammar_rules@.len() - i,
        {
            match self.grammar_rules[i].check(text) {
                Some(finding) => {
                    out.push(finding);
                },
                None => {},
            }
            i += 1;
        }
        out
    }

    /// The findings of the rules of style on `text`.
    pub fn validate_style(&self, text: &str) -> (out: Vec<StyleValidation>)
        ensures
            out@.len() == 0,
    {
        let mut out: Vec<StyleValidation> = Vec::new();
        let mut i: usize = 0;
        while i < self.style_rules.len()
            invariant
                0 <= i <= self.style_rules@.len(),
                out@.len() == 0,
            decreases self.style_rules@.len() - i,
        {
            match self.style_rules[i].check(text) {
                Some(finding) => {
                    out.push(finding);
                },
                None => {},
            }
            i += 1;
        }
        out
    }

    /// The findings of the rules on context on a translation.
    pub fn validate_context(&self, source_text: &str, translated_text: &str) -> (out: Vec<
        ContextValidation,
    >)
        ensures
            out@.len() == 0,
    {
        let mut out: Vec<ContextValidation> = Vec::new();
        let mut i: usize = 0;
        while i < self.context_rules.len()
            invariant
                0 <= i <= self.context_rules@.len(),
                out@.len() == 0,
            decreases self.context_rules@.len() - i,
        {
            match self.context_rules[i].check(source_text, translated_text) {
                Some(finding) => {
                    out.push(finding);
                },
                None => {},
            }
            i += 1;
        }
        out
    }

    /// All the findings on a translation.
    pub fn validate(&self, source_text: &str, translated_text: &str) -> (results: ValidationResults)
        requires
            self.well_formed(),
        ensures
            results.technical_terms@.len() == terms_in_source(
                self.dictionary().terms(),
                source_text@,
                self.dictionary().terms().len() as int,
            ).len(),
            forall|i: int|
                0 <= i < results.technical_terms@.len() ==> validates_term(
                    #[trigger] results.technical_terms@[i],
                    self.dictionary().terms(),
                    self.dictionary().translations(),
                    self.dictionary().domains(),
                    self.dictionary().contexts(),
                    terms_in_source(
                        self.dictionary().terms(),
                        source_text@,
                        self.dictionary().terms().len() as int,
                    )[i],
                    translated_text@,
                ),
            results.grammar@.len() == 0,
            results.style@.len() == 0,
            results.context@.len() == 0,
    {
        ValidationResults {
            technical_terms: self.validate_technical_terms(source_text, translated_text),
            grammar: self.validate_grammar(translated_text),
            style: self.validate_style(translated_text),
            context: self.validate_context(source_text, translated_text),
        }
    }
}

/// The number of validations that are valid.
pub open spec fn valid_terms(validations: Seq<TermValidation>) -> int
    decreases validations.len(),
{
    if validations.len() == 0 {
        0
    } else {
        valid_terms(validations.drop_last()) + if validations.last().is_valid {
            1int
        } else {
            0int
        }
    }
}

/// Counts the valid among the validations of terms.
pub fn count_valid_terms(validations: &[TermValidation]) -> (n: usize)
    ensures
        n == valid_terms(validations@),
{
    let mut n: usize = 0;
    let mut i: usize = 0;
    assert(validations@.take(0) =~= Seq::<TermValidation>::empty());
    while i < validations.len()
        invariant
            0 <= i <= validations@.len(),
            n == valid_terms(validations@.take(i as int)),
            n <= i,
        decreases validations@.len() - i,
    {
        assert(validations@.take(i + 1).drop_last() =~= validations@.take(i as int));
        assert(validations@.take(i + 1).last() == validations@[i as int]);
        if validations[i].is_valid {
            n += 1;
        }
        i += 1;
    }
    assert(validations@.take(validations@.len() as int) =~= validations@);
    n
}

} // verus!

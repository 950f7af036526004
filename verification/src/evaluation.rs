//! Error analysis of a translation: technical terms that were not
//! rendered as expected, the register of the text, and what went missing.

use vstd::prelude::*;
use crate::text::{
    chars_contain, contains_text, copy_text, lemma_position_found, lemma_position_range, position,
    same_text, to_chars,
};
use crate::text_map::{text_views, TextMap};

verus! {

/// What the analysis found wrong with a translation.
#[derive(Debug, Clone)]
pub struct ErrorAnalysis {
    pub technical_terms: Vec<TermError>,
    pub grammar_errors: Vec<GrammarError>,
    pub style_errors: Vec<StyleError>,
    pub context_errors: Vec<ContextError>,
}

/// A technical term whose expected translation is missing.
#[derive(Debug, Clone)]
pub struct TermError {
    pub source_term: String,
    pub translated_term: String,
    pub expected_term: String,
    pub context: String,
    pub domain: String,
}

/// A grammatical error.
#[derive(Debug, Clone)]
pub struct GrammarError {
    pub error_type: GrammarErrorType,
    pub text_span: String,
    pub suggestion: String,
    pub explanation: String,
}

/// The kinds of grammatical errors.
#[allow(non_camel_case_types)]
#[derive(Debug, Clone)]
pub enum GrammarErrorType {
    Agreement,
    Tense,
    Number,
    Gender,
    Case,
    Word_Order,
    Other(String),
}

/// An error of style.
#[derive(Debug, Clone)]
pub struct StyleError {
    pub error_type: StyleErrorType,
    pub text_span: String,
    pub suggestion: String,
    pub explanation: String,
}

/// The kinds of errors of style.
#[derive(Debug, Clone)]
pub enum StyleErrorType {
    Formality,
    Register,
    Consistency,
    Clarity,
    Other(String),
}

/// An error against the context.
#[derive(Debug, Clone)]
pub struct ContextError {
    pub error_type: ContextErrorType,
    pub text_span: String,
    pub context: String,
    pub suggestion: String,
    pub explanation: String,
}

/// The kinds of errors against the context.
#[derive(Debug, Clone)]
pub enum ContextErrorType {
    Domain,
    Cultural,
    Pragmatic,
    Other(String),
}

/// How formal a text is to be.
#[derive(Debug, Clone, Copy, PartialEq, Eq, Structural)]
pub enum FormalityLevel {
    Formal,
    SemiFormal,
    Informal,
}

/// The familiar form of address that a formal text avoids.
pub open spec fn familiar_address() -> Seq<char> {
    "את"@
}

/// The longer familiar form of address.
pub open spec fn familiar_address_long() -> Seq<char> {
    "אתה"@
}

/// A text of the given level may read `text`: a formal text holds no
/// familiar form of address, the other levels allow everything.
pub open spec fn formality_allows(level: FormalityLevel, text: Seq<char>) -> bool {
    match level {
        FormalityLevel::Formal => !contains_text(text, familiar_address_long()) && !contains_text(
            text,
            familiar_address(),
        ),
        FormalityLevel::SemiFormal => true,
        FormalityLevel::Informal => true,
    }
}

/// The style that translations are held to.
#[derive(Debug, Clone)]
pub struct StyleGuide {
    formality_level: FormalityLevel,
    domains: Vec<String>,
    rules: Vec<Vec<String>>,
}

impl StyleGuide {
    /// The level of formality.
    pub closed spec fn level(&self) -> FormalityLevel {
        self.formality_level
    }

    /// The domains that have rules, in the order of entry.
    pub closed spec fn domains(&self) -> Seq<Seq<char>> {
        text_views(self.domains@)
    }

    /// The rules, each list at the place of its domain.
    pub closed spec fn rules(&self) -> Seq<Vec<String>> {
        self.rules@
    }

    /// The guide's invariant: one list of rules for each domain.
    pub closed spec fn well_formed(&self) -> bool {
        self.domains@.len() == self.rules@.len()
    }

    /// The guide has rules for `domain`.
    pub open spec fn has_domain(&self, domain: Seq<char>) -> bool {
        position(self.domains(), domain) < self.domains().len()
    }

    /// The rules of `domain`.
    pub open spec fn rules_of(&self, domain: Seq<char>) -> Vec<String> {
        self.rules()[position(self.domains(), domain)]
    }

    /// A guide of the given level without domain rules.
    pub fn new(formality_level: FormalityLevel) -> (g: Self)
        ensures
            g.well_formed(),
            g.level() == formality_level,
            g.domains() == Seq::<Seq<char>>::empty(),
    {
        let g = StyleGuide { formality_level, domains: Vec::new(), rules: Vec::new() };
        assert(g.domains() =~= Seq::<Seq<char>>::empty());
        g
    }

    /// Sets the rules of `domain`, in place of those it had.
    pub fn add_domain_rule(&mut self, domain: String, rules: Vec<String>)
        requires
            old(self).well_formed(),
        ensures
            final(self).well_formed(),
            final(self).level() == old(self).level(),
            final(self).has_domain(domain@),
            final(self).rules_of(domain@) == rules,
            old(self).has_domain(domain@) ==> final(self).domains() == old(self).domains(),
            !old(self).has_domain(domain@) ==> final(self).domains() == old(self).domains().push(
                domain@,
            ),
            forall|other: Seq<char>|
                other != domain@ ==> (#[trigger] final(self).has_domain(other)) == old(
                    self,
                ).has_domain(other),
            forall|other: Seq<char>|
                other != domain@ && old(self).has_domain(other) ==> #[trigger] final(self).rules_of(
                    other,
                ) == old(self).rules_of(other),
    {
        let ghost before = self.domains();
        let ghost rules_before = self.rules@;
        let ghost d = domain@;
        let mut at: usize = 0;
        while at < self.domains.len() && !same_text(self.domains[at].as_str(), domain.as_str())
            invariant
                0 <= at <= self.domains@.len(),
                before == self.domains(),
                forall|i: int| 0 <= i < at ==> #[trigger] before[i] != domain@,
            decreases self.domains@.len() - at,
        {
            at += 1;
        }
        proof {
            lemma_position_found(before, d, at as int);
        }
        if at < self.domains.len() {
            self.rules[at] = rules;
            proof {
                assert(self.domains() == before);
                assert forall|other: Seq<char>| other != d && old(self).has_domain(other) implies
                    #[trigger] self.rules_of(other) == old(self).rules_of(other) by {
                    lemma_position_range(before, other);
                    let p = position(before, other);
                    assert(before[p] == other);
                    assert(before[at as int] == d);
                }
            }
        } else {
            self.domains.push(domain);
            self.rules.push(rules);
            proof {
                let after = self.domains();
                assert(after =~= before.push(d));
                lemma_position_found(after, d, at as int);
                assert forall|other: Seq<char>| other != d implies (#[trigger] self.has_domain(other))
                    == old(self).has_domain(other) by {
                    lemma_position_range(before, other);
                    let p = position(before, other);
                    if p < before.len() {
                        lemma_position_found(after, other, p);
                    } else {
                        lemma_position_found(after, other, p + 1);
                    }
                }
                assert forall|other: Seq<char>| other != d && old(self).has_domain(other) implies
                    #[trigger] self.rules_of(other) == old(self).rules_of(other) by {
                    lemma_position_range(before, other);
                    let p = position(before, other);
                    lemma_position_found(after, other, p);
                    assert(rules_before.push(rules)[p] == rules_before[p]);
                }
            }
        }
    }

    /// Decides whether `text` keeps to the guide's level of formality.
    pub fn check_formality(&self, text: &str) -> (r: bool)
        ensures
            r == formality_allows(self.level(), text@),
    {
        match self.formality_level {
            FormalityLevel::Formal => {
                let chars: Vec<char> = to_chars(text);
                let long: Vec<char> = to_chars("אתה");
                let short: Vec<char> = to_chars("את");
                !chars_contain(chars.as_slice(), long.as_slice()) && !chars_contain(
                    chars.as_slice(),
                    short.as_slice(),
                )
            },
            FormalityLevel::SemiFormal => true,
            FormalityLevel::Informal => true,
        }
    }
}

/// The character ends a sentence: a full stop, an exclamation mark or a
/// question mark.
pub open spec fn ends_sentence(c: char) -> bool {
    c == '.' || c == '!' || c == '?'
}

/// The number of sentence ends in `s`.
pub open spec fn sentence_ends(s: Seq<char>) -> int
    decreases s.len(),
{
    if s.len() == 0 {
        0
    } else {
        sentence_ends(s.drop_last()) + if ends_sentence(s.last()) {
            1int
        } else {
            0int
        }
    }
}

/// By how many the sentences of the source outnumber those of the
/// translation; zero where they do not.
pub open spec fn missing_sentences(source: Seq<char>, translated: Seq<char>) -> int {
    if sentence_ends(source) > sentence_ends(translated) {
        sentence_ends(source) - sentence_ends(translated)
    } else {
        0
    }
}

/// The term at place `i` is in the source, and its expected translation is
/// not in the translation.
pub open spec fn term_fails(
    terms: Seq<Seq<char>>,
    expected: Seq<Seq<char>>,
    source: Seq<char>,
    translated: Seq<char>,
    i: int,
) -> bool {
    contains_text(source, terms[i]) && !contains_text(translated, expected[i])
}

/// The places, among the first `n`, of the terms that fail, in order.
pub open spec fn failing_terms(
    terms: Seq<Seq<char>>,
    expected: Seq<Seq<char>>,
    source: Seq<char>,
    translated: Seq<char>,
    n: int,
) -> Seq<int>
    decreases n,
{
    if n <= 0 {
        Seq::empty()
    } else if term_fails(terms, expected, source, translated, n - 1) {
        failing_terms(terms, expected, source, translated, n - 1).push(n - 1)
    } else {
        failing_terms(terms, expected, source, translated, n - 1)
    }
}

/// Among the first `n` terms, the number of those that stand in the
/// source.
pub open spec fn terms_present(terms: Seq<Seq<char>>, source: Seq<char>, n: int) -> int
    decreases n,
{
    if n <= 0 {
        0
    } else {
        terms_present(terms, source, n - 1) + if contains_text(source, terms[n - 1]) {
            1int
        } else {
            0int
        }
    }
}

/// Among the first `n` terms, the number of those that stand in the source
/// and whose expected translation stands in the translation.
pub open spec fn terms_rendered(
    terms: Seq<Seq<char>>,
    expected: Seq<Seq<char>>,
    source: Seq<char>,
    translated: Seq<char>,
    n: int,
) -> int
    decreases n,
{
    if n <= 0 {
        0
    } else {
        terms_rendered(terms, expected, source, translated, n - 1) + if contains_text(
            source,
            terms[n - 1],
        ) && contains_text(translated, expected[n - 1]) {
            1int
        } else {
            0int
        }
    }
}

/// `e` reports the term `term` with the expected translation `expected`,
/// and nothing else.
pub open spec fn reports_term(e: TermError, term: Seq<char>, expected: Seq<char>) -> bool {
    &&& e.source_term@ == term
    &&& e.expected_term@ == expected
    &&& e.translated_term@ == Seq::<char>::empty()
    &&& e.context@ == Seq::<char>::empty()
    &&& e.domain@ == Seq::<char>::empty()
}

/// `errors` report the terms at the places `failing`, one by one.
pub open spec fn report_terms(
    errors: Seq<TermError>,
    terms: Seq<Seq<char>>,
    expected: Seq<Seq<char>>,
    failing: Seq<int>,
) -> bool {
    &&& errors.len() == failing.len()
    &&& forall|t: int|
        0 <= t < errors.len() ==> reports_term(
            #[trigger] errors[t],
            terms[failing[t]],
            expected[failing[t]],
        )
}

/// `e` says that `text` does not keep to the level of formality.
pub open spec fn reports_formality(e: StyleError, text: Seq<char>) -> bool {
    &&& e.error_type is Formality
    &&& e.text_span@ == text
    &&& e.suggestion@ == Seq::<char>::empty()
    &&& e.explanation@ == "רמת הפורמליות אינה מתאימה"@
}

fn count_sentence_ends(chars: &[char]) -> (n: usize)
    ensures
        n == sentence_ends(chars@),
{
    let mut n: usize = 0;
    let mut i: usize = 0;
    assert(chars@.take(0) =~= Seq::<char>::empty());
    while i < chars.len()
        invariant
            0 <= i <= chars@.len(),
            n == sentence_ends(chars@.take(i as int)),
            n <= i,
        decreases chars@.len() - i,
    {
        assert(chars@.take(i + 1).drop_last() =~= chars@.take(i as int));
        assert(chars@.take(i + 1).last() == chars@[i as int]);
        let c: char = chars[i];
        if c == '.' || c == '!' || c == '?' {
            n += 1;
        }
        i += 1;
    }
    assert(chars@.take(chars@.len() as int) =~= chars@);
    n
}

/// The evaluator of translations.
pub struct Evaluator {
    reference_translations: TextMap,
    technical_terms: TextMap,
    style_guide: StyleGuide,
}

impl Evaluator {
    /// The evaluator's invariant: that of its maps.
    pub closed spec fn well_formed(&self) -> bool {
        &&& self.reference_translations.well_formed()
        &&& self.technical_terms.well_formed()
    }

    /// The technical terms, in the order of entry.
    pub closed spec fn terms(&self) -> Seq<Seq<char>> {
        self.technical_terms.keys()
    }

    /// The expected translations, each at the place of its term.
    pub closed spec fn expected(&self) -> Seq<Seq<char>> {
        self.technical_terms.values()
    }

    /// The level of formality that the evaluator asks for.
    pub closed spec fn level(&self) -> FormalityLevel {
        self.style_guide.level()
    }

    /// The source texts that have a reference translation, in the order of
    /// entry.
    pub closed spec fn sources(&self) -> Seq<Seq<char>> {
        self.reference_translations.keys()
    }

    /// The reference translations, each at the place of its source text.
    pub closed spec fn references(&self) -> Seq<Seq<char>> {
        self.reference_translations.values()
    }

    /// The reference translation of `source`: empty where there is none.
    pub open spec fn reference_of(&self, source: Seq<char>) -> Seq<char> {
        if position(self.sources(), source) < self.sources().len() {
            self.references()[position(self.sources(), source)]
        } else {
            Seq::empty()
        }
    }

    /// Looks up the reference translation of `source_text`.
    pub fn reference_for(&self, source_text: &str) -> (r: String)
        requires
            self.well_formed(),
        ensures
            r@ == self.reference_of(source_text@),
    {
        match self.reference_translations.get(source_text) {
            Some(reference) => copy_text(reference.as_str()),
            None => String::new(),
        }
    }

    /// An evaluator with the given reference translations, technical terms
    /// and style guide.
    pub fn new(reference_translations: TextMap, technical_terms: TextMap, style_guide: StyleGuide) -> (e:
        Self)
        requires
            reference_translations.well_formed(),
            technical_terms.well_formed(),
        ensures
            e.well_formed(),
            e.sources() == reference_translations.keys(),
            e.references() == reference_translations.values(),
            e.terms() == technical_terms.keys(),
            e.expected() == technical_terms.values(),
            e.level() == style_guide.level(),
    {
        Evaluator { reference_translations, technical_terms, style_guide }
    }

    /// The technical terms of the source whose expected translation the
    /// translation lacks, in the order of the terms.
    pub fn analyze_term_errors(&self, source_text: &str, translated_text: &str) -> (errors: Vec<
        TermError,
    >)
        requires
            self.well_formed(),
        ensures
            report_terms(
                errors@,
                self.terms(),
                self.expected(),
                failing_terms(
                    self.terms(),
                    self.expected(),
                    source_text@,
                    translated_text@,
                    self.terms().len() as int,
                ),
            ),
    {
        let source: Vec<char> = to_chars(source_text);
        let translated: Vec<char> = to_chars(translated_text);
        let total: usize = self.technical_terms.len();
        let mut errors: Vec<TermError> = Vec::new();
        let mut i: usize = 0;
        while i < total
            invariant
                0 <= i <= total,
                total == self.terms().len(),
                total == self.expected().len(),
                source@ == source_text@,
                translated@ == translated_text@,
                report_terms(
                    errors@,
                    self.terms(),
                    self.expected(),
                    failing_terms(self.terms(), self.expected(), source@, translated@, i as int),
                ),
            decreases total - i,
        {
            let ghost before = errors@;
            let ghost failing = failing_terms(
                self.terms(),
                self.expected(),
                source@,
                translated@,
                i as int,
            );
            let ghost next = failing_terms(
                self.terms(),
                self.expected(),
                source@,
                translated@,
                i + 1,
            );
            let term: &String = self.technical_terms.key_at(i);
            let wanted: &String = self.technical_terms.value_at(i);
            let term_chars: Vec<char> = to_chars(term.as_str());
            let wanted_chars: Vec<char> = to_chars(wanted.as_str());
            if chars_contain(source.as_slice(), term_chars.as_slice()) && !chars_contain(
                translated.as_slice(),
                wanted_chars.as_slice(),
            ) {
                errors.push(
                    TermError {
                        source_term: copy_text(term.as_str()),
                        translated_term: String::new(),
                        expected_term: copy_text(wanted.as_str()),
                        context: String::new(),
                        domain: String::new(),
                    },
                );
                proof {
                    assert(next == failing.push(i as int));
                    assert forall|t: int| 0 <= t < errors@.len() implies reports_term(
                        #[trigger] errors@[t],
                        self.terms()[next[t]],
                        self.expected()[next[t]],
                    ) by {
                        if t < before.len() {
                            assert(errors@[t] == before[t]);
                            assert(next[t] == failing[t]);
                        }
                    }
                    assert(report_terms(errors@, self.terms(), self.expected(), next));
                }
            } else {
                proof {
                    assert(next == failing);
                }
            }
            i += 1;
        }
        errors
    }

    /// The counts of technical accuracy: how many technical terms of the
    /// source were rendered as expected, and how many terms the source has.
    pub fn term_accuracy_counts(&self, source_text: &str, translated_text: &str) -> (r: (
        usize,
        usize,
    ))
        requires
            self.well_formed(),
        ensures
            r.0 == terms_rendered(
                self.terms(),
                self.expected(),
                source_text@,
                translated_text@,
                self.terms().len() as int,
            ),
            r.1 == terms_present(self.terms(), source_text@, self.terms().len() as int),
    {
        let source: Vec<char> = to_chars(source_text);
        let translated: Vec<char> = to_chars(translated_text);
        let total: usize = self.technical_terms.len();
        let mut correct: usize = 0;
        let mut present: usize = 0;
        let mut i: usize = 0;
        while i < total
            invariant
                0 <= i <= total,
                total == self.terms().len(),
                total == self.expected().len(),
                source@ == source_text@,
                translated@ == translated_text@,
                correct == terms_rendered(
                    self.terms(),
                    self.expected(),
                    source@,
                    translated@,
                    i as int,
                ),
                present == terms_present(self.terms(), source@, i as int),
                correct <= present <= i,
            decreases total - i,
        {
            let term: &String = self.technical_terms.key_at(i);
            let wanted: &String = self.technical_terms.value_at(i);
            let term_chars: Vec<char> = to_chars(term.as_str());
            let wanted_chars: Vec<char> = to_chars(wanted.as_str());
            if chars_contain(source.as_slice(), term_chars.as_slice()) {
                present += 1;
                if chars_contain(translated.as_slice(), wanted_chars.as_slice()) {
                    correct += 1;
                }
            }
            i += 1;
        }
        (correct, present)
    }

    /// The grammatical errors of `text`: the evaluator has no rule yet and
    /// finds none.
    pub fn check_grammar(&self, text: &str) -> (errors: Vec<GrammarError>)
        ensures
            errors@.len() == 0,
    {
        Vec::new()
    }

    /// The errors of style of `text`: one, where it does not keep to the
    /// level of formality.
    pub fn check_style(&self, text: &str) -> (errors: Vec<StyleError>)
        ensures
            formality_allows(self.level(), text@) ==> errors@.len() == 0,
            !formality_allows(self.level(), text@) ==> errors@.len() == 1 && reports_formality(
                errors@[0],
                text@,
            ),
    {
        let mut errors: Vec<StyleError> = Vec::new();
        if !self.style_guide.check_formality(text) {
            errors.push(
                StyleError {
                    error_type: StyleErrorType::Formality,
                    text_span: copy_text(text),
                    suggestion: String::new(),
                    explanation: String::from_str("רמת הפורמליות אינה מתאימה"),
                },
            );
        }
        errors
    }

    /// The errors of the translation against its context: the evaluator
    /// has no rule yet and finds none.
    pub fn check_context(&self, source_text: &str, translated_text: &str) -> (errors: Vec<
        ContextError,
    >)
        ensures
            errors@.len() == 0,
    {
        Vec::new()
    }

    /// The number of sentences of the source that the translation lacks.
    pub fn check_missing_information(&self, source_text: &str, translated_text: &str) -> (n: usize)
        ensures
            n == missing_sentences(source_text@, translated_text@),
    {
        let source: Vec<char> = to_chars(source_text);
        let translated: Vec<char> = to_chars(translated_text);
        let have: usize = count_sentence_ends(source.as_slice());
        let got: usize = count_sentence_ends(translated.as_slice());
        if have > got {
            have - got
        } else {
            0
        }
    }

    /// The whole error analysis of a translation.
    pub fn analyze_errors(&self, source_text: &str, translated_text: &str) -> (analysis: ErrorAnalysis)
        requires
            self.well_formed(),
        ensures
            report_terms(
                analysis.technical_terms@,
                self.terms(),
                self.expected(),
                failing_terms(
                    self.terms(),
                    self.expected(),
                    source_text@,
                    translated_text@,
                    self.terms().len() as int,
                ),
            ),
            analysis.grammar_errors@.len() == 0,
            analysis.context_errors@.len() == 0,
            formality_allows(self.level(), translated_text@) ==> analysis.style_errors@.len() == 0,
            !formality_allows(self.level(), translated_text@) ==> analysis.style_errors@.len() == 1
                && reports_formality(analysis.style_errors@[0], translated_text@),
    {
        ErrorAnalysis {
            technical_terms: self.analyze_term_errors(source_text, translated_text),
            grammar_errors: self.check_grammar(translated_text),
            style_errors: self.check_style(translated_text),
            context_errors: self.check_context(source_text, translated_text),
        }
    }
}

} // verus!

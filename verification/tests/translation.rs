use translator_core::evaluation::{Evaluator, FormalityLevel, StyleErrorType, StyleGuide};
use translator_core::quality_control::{
    generate_suggestions, priority_of_grammar, priority_of_remark, ContextValidation,
    GrammarValidation, Priority, Severity, StyleValidation, SuggestionCategory, TermValidation,
    ValidationResults,
};
use translator_core::text_map::TextMap;
use translator_core::translation::{
    is_blank, trim_chars, TranslationEngine, TranslationError, TranslationStatus,
};

#[test]
fn segments_end_at_the_marks() {
    let e = TranslationEngine::new();
    assert_eq!(
        e.split_into_segments("Hello there.  How are you? Fine!\nok; done"),
        vec!["Hello there", "How are you", "Fine", "ok", "done"]
    );
    assert_eq!(e.split_into_segments(""), Vec::<String>::new());
    assert_eq!(e.split_into_segments(" .. ! ? ;\n  "), Vec::<String>::new());
    assert_eq!(e.split_into_segments("no mark"), vec!["no mark"]);
    assert_eq!(e.split_into_segments("שלום. עולם"), vec!["שלום", "עולם"]);
    assert_eq!(e.split_into_segments("a,b:c"), vec!["a,b:c"]);
}

#[test]
fn trimming_removes_white_space_at_both_ends() {
    let chars: Vec<char> = " \t a b \n".chars().collect();
    assert_eq!(trim_chars(&chars), vec!['a', ' ', 'b']);
    assert_eq!(trim_chars(&[' ', ' ']), Vec::<char>::new());
    assert_eq!(trim_chars(&[]), Vec::<char>::new());
    assert_eq!(trim_chars(&['x']), vec!['x']);
    assert!(is_blank(&[' ', '\n', '\u{3000}']));
    assert!(is_blank(&[]));
    assert!(!is_blank(&[' ', 'x']));
}

#[test]
fn manual_edits_need_an_original() {
    let mut e = TranslationEngine::new();
    assert_eq!(
        e.apply_manual_edit("".to_string(), "x".to_string()),
        Err(TranslationError::EmptyOriginal)
    );
    assert_eq!(
        e.apply_manual_edit("  \n ".to_string(), "x".to_string()),
        Err(TranslationError::EmptyOriginal)
    );
    assert_eq!(e.apply_manual_edit("hello".to_string(), "שלום".to_string()), Ok(()));
    assert_eq!(e.apply_manual_edit(" hello ".to_string(), "x".to_string()), Ok(()));
}

#[test]
fn a_new_engine_has_no_alternatives() {
    let e = TranslationEngine::new();
    assert_eq!(e.get_translation_alternatives("hello", 3), Vec::<String>::new());
    assert_eq!(e.get_translation_alternatives("hello", 0), Vec::<String>::new());
    assert_eq!(e.generate_variations("hello"), Vec::<String>::new());
    assert_eq!(e.get_synonyms("hello"), None);
    assert_eq!(e.translate_hebrew_to_russian("שלום"), Ok("שלום".to_string()));
    assert_eq!(e.translate_russian_to_hebrew("привет"), Ok("привет".to_string()));
    assert_eq!(TranslationEngine::load_custom_dictionary().len(), 0);
    assert_ne!(TranslationStatus::Automatic, TranslationStatus::ManuallyEdited);
}

#[test]
fn a_text_map_keeps_one_value_per_key() {
    let mut m = TextMap::new();
    assert_eq!(m.len(), 0);
    assert!(m.get("a").is_none());
    m.insert("a".to_string(), "1".to_string());
    m.insert("b".to_string(), "2".to_string());
    m.insert("a".to_string(), "3".to_string());
    assert_eq!(m.len(), 2);
    assert_eq!(m.get("a"), Some(&"3".to_string()));
    assert_eq!(m.get("b"), Some(&"2".to_string()));
    assert_eq!(m.key_at(0), "a");
    assert_eq!(m.value_at(1), "2");
    assert!(m.get("A").is_none());
}

fn evaluator(level: FormalityLevel) -> Evaluator {
    let mut terms = TextMap::new();
    terms.insert("sprinkler".to_string(), "ספרינקלר".to_string());
    terms.insert("valve".to_string(), "ברז".to_string());
    terms.insert("pipe".to_string(), "צינור".to_string());
    Evaluator::new(TextMap::new(), terms, StyleGuide::new(level))
}

#[test]
fn term_errors_name_the_missing_translations() {
    let e = evaluator(FormalityLevel::Informal);
    let errors = e.analyze_term_errors("Install a sprinkler and a pipe", "התקן ספרינקלר");
    assert_eq!(errors.len(), 1);
    assert_eq!(errors[0].source_term, "pipe");
    assert_eq!(errors[0].expected_term, "צינור");
    assert_eq!(errors[0].translated_term, "");
    assert_eq!(errors[0].context, "");
    assert_eq!(errors[0].domain, "");
    let all = e.analyze_term_errors("pipe valve sprinkler", "");
    let named: Vec<&str> = all.iter().map(|t| t.source_term.as_str()).collect();
    assert_eq!(named, vec!["sprinkler", "valve", "pipe"]);
    assert!(e.analyze_term_errors("nothing technical", "").is_empty());
}

#[test]
fn a_formal_text_avoids_the_familiar_address() {
    let formal = StyleGuide::new(FormalityLevel::Formal);
    assert!(formal.check_formality("נא להתקין"));
    assert!(!formal.check_formality("אתה מתקין"));
    assert!(!formal.check_formality("את מתקינה"));
    assert!(formal.check_formality(""));
    assert!(StyleGuide::new(FormalityLevel::SemiFormal).check_formality("אתה"));
    assert!(StyleGuide::new(FormalityLevel::Informal).check_formality("אתה"));
    let e = evaluator(FormalityLevel::Formal);
    let errors = e.check_style("אתה מתקין");
    assert_eq!(errors.len(), 1);
    assert!(matches!(errors[0].error_type, StyleErrorType::Formality));
    assert_eq!(errors[0].text_span, "אתה מתקין");
    assert_eq!(errors[0].suggestion, "");
    assert_eq!(errors[0].explanation, "רמת הפורמליות אינה מתאימה");
    assert!(e.check_style("נא להתקין").is_empty());
    assert!(e.check_grammar("anything").is_empty());
    assert!(e.check_context("a", "b").is_empty());
}

#[test]
fn missing_information_counts_sentences() {
    let e = evaluator(FormalityLevel::Informal);
    assert_eq!(e.check_missing_information("One. Two! Three?", "אחת."), 2);
    assert_eq!(e.check_missing_information("One.", "אחת. שתיים."), 0);
    assert_eq!(e.check_missing_information("", ""), 0);
    assert_eq!(e.check_missing_information("a;b\nc", ""), 0);
    let analysis = e.analyze_errors("A pipe. And more.", "אתה");
    assert_eq!(analysis.technical_terms.len(), 1);
    assert!(analysis.grammar_errors.is_empty());
    assert!(analysis.context_errors.is_empty());
    assert!(analysis.style_errors.is_empty());
}

#[test]
fn domain_rules_replace_earlier_ones() {
    let mut g = StyleGuide::new(FormalityLevel::Formal);
    g.add_domain_rule("plumbing".to_string(), vec!["a".to_string()]);
    g.add_domain_rule("fire".to_string(), vec![]);
    g.add_domain_rule("plumbing".to_string(), vec!["b".to_string(), "c".to_string()]);
    assert!(g.check_formality("ok"));
}

fn term(domain: &str, is_valid: bool) -> TermValidation {
    TermValidation {
        term: "pipe".to_string(),
        translation: "got".to_string(),
        expected: "want".to_string(),
        is_valid,
        context: "".to_string(),
        domain: domain.to_string(),
    }
}

fn grammar(text: &str, severity: Severity) -> GrammarValidation {
    GrammarValidation {
        text: text.to_string(),
        error_type: "agreement".to_string(),
        suggestion: "fix".to_string(),
        severity,
    }
}

fn style(text: &str, severity: Severity) -> StyleValidation {
    StyleValidation {
        text: text.to_string(),
        issue: "register".to_string(),
        expected_style: "formal".to_string(),
        suggestion: "fix".to_string(),
        severity,
    }
}

fn context(text: &str, severity: Severity) -> ContextValidation {
    ContextValidation {
        text: text.to_string(),
        context_type: "domain".to_string(),
        issue: "mismatch".to_string(),
        suggestion: "fix".to_string(),
        severity,
    }
}

#[test]
fn priorities_follow_the_severity() {
    assert_eq!(priority_of_grammar(Severity::Critical), Priority::High);
    assert_eq!(priority_of_grammar(Severity::Major), Priority::High);
    assert_eq!(priority_of_grammar(Severity::Minor), Priority::Medium);
    assert_eq!(priority_of_grammar(Severity::Info), Priority::Low);
    assert_eq!(priority_of_remark(Severity::Critical), Priority::High);
    assert_eq!(priority_of_remark(Severity::Major), Priority::Medium);
    assert_eq!(priority_of_remark(Severity::Minor), Priority::Low);
    assert_eq!(priority_of_remark(Severity::Info), Priority::Low);
}

#[test]
fn suggestions_come_most_urgent_first() {
    let suggestions = generate_suggestions(
        &[term("plumbing", true), term("fire", false)],
        &[grammar("g-info", Severity::Info), grammar("g-major", Severity::Major)],
        &[style("s-major", Severity::Major), style("s-critical", Severity::Critical)],
        &[context("c-minor", Severity::Minor)],
    );
    let texts: Vec<&str> = suggestions.iter().map(|s| s.text.as_str()).collect();
    assert_eq!(texts, vec!["got", "g-major", "s-critical", "s-major", "g-info", "c-minor"]);
    assert_eq!(suggestions[0].suggestion, "want");
    assert_eq!(suggestions[0].reason, "מונח טכני לא תקין בתחום fire");
    assert_eq!(suggestions[0].category, SuggestionCategory::Technical);
    assert_eq!(suggestions[0].priority, Priority::High);
    assert_eq!(suggestions[1].reason, "agreement");
    assert_eq!(suggestions[1].category, SuggestionCategory::Grammar);
    assert_eq!(suggestions[3].reason, "register");
    assert_eq!(suggestions[3].category, SuggestionCategory::Style);
    assert_eq!(suggestions[3].priority, Priority::Medium);
    assert_eq!(suggestions[5].reason, "mismatch");
    assert_eq!(suggestions[5].category, SuggestionCategory::Context);
    assert_eq!(suggestions[5].priority, Priority::Low);
    assert!(generate_suggestions(&[], &[], &[], &[]).is_empty());
    let results = ValidationResults {
        technical_terms: vec![term("fire", false)],
        grammar: vec![],
        style: vec![],
        context: vec![context("c", Severity::Critical)],
    };
    assert_eq!(results.suggestions().len(), 2);
}

fn sprinkler_controller() -> translator_core::quality_control::QualityController {
    let mut dictionary = translator_core::quality_control::TechnicalDictionary::new();
    dictionary.add_term("sprinkler", "ספרינקלר", "fire_protection", "");
    dictionary.add_term("valve", "ברז", "plumbing", "water");
    translator_core::quality_control::QualityController::new(dictionary)
}

#[test]
fn a_rendered_term_is_valid() {
    let controller = sprinkler_controller();
    let validations =
        controller.validate_technical_terms("Install a sprinkler system", "התקן מערכת ספרינקלר");
    assert_eq!(validations.len(), 1);
    assert!(validations[0].is_valid);
    assert_eq!(validations[0].term, "sprinkler");
    assert_eq!(validations[0].expected, "ספרינקלר");
    assert_eq!(validations[0].translation, "התקן מערכת ספרינקלר");
    assert_eq!(validations[0].domain, "fire_protection");
    assert_eq!(validations[0].context, "");
    assert_eq!(translator_core::quality_control::count_valid_terms(&validations), 1);
}

#[test]
fn a_missing_rendering_is_invalid() {
    let controller = sprinkler_controller();
    let validations =
        controller.validate_technical_terms("Install a sprinkler system", "התקן מערכת כיבוי");
    assert_eq!(validations.len(), 1);
    assert!(!validations[0].is_valid);
    assert_eq!(translator_core::quality_control::count_valid_terms(&validations), 0);
    let results = controller.validate("a valve and a sprinkler", "ברז");
    assert_eq!(results.technical_terms.len(), 2);
    assert_eq!(results.technical_terms[0].term, "sprinkler");
    assert!(!results.technical_terms[0].is_valid);
    assert_eq!(results.technical_terms[1].term, "valve");
    assert!(results.technical_terms[1].is_valid);
    assert_eq!(results.technical_terms[1].context, "water");
    assert!(results.grammar.is_empty());
    assert!(results.style.is_empty());
    assert!(results.context.is_empty());
    let suggestions = results.suggestions();
    assert_eq!(suggestions.len(), 1);
    assert_eq!(suggestions[0].suggestion, "ספרינקלר");
    assert!(controller.validate_technical_terms("nothing", "x").is_empty());
}

#[test]
fn a_dictionary_keeps_one_entry_per_term() {
    let mut d = translator_core::quality_control::TechnicalDictionary::new();
    assert_eq!(d.len(), 0);
    d.add_term("pipe", "צינור", "plumbing", "");
    d.add_term("pipe", "קנה", "general", "old");
    assert_eq!(d.len(), 1);
    let c = translator_core::quality_control::QualityController::new(d);
    let v = c.validate_technical_terms("a pipe", "קנה");
    assert_eq!(v.len(), 1);
    assert!(v[0].is_valid);
    assert_eq!(v[0].domain, "general");
    assert_eq!(v[0].context, "old");
    let rule = translator_core::quality_control::GrammarRule {
        pattern: "x".to_string(),
        error_type: "y".to_string(),
        suggestion: "z".to_string(),
        severity: Severity::Minor,
    };
    assert!(rule.check("x").is_none());
}

use translator_core::translation::{Language, TranslationRequest};

fn request(text: &str, source: Language, target: Language) -> TranslationRequest {
    TranslationRequest { text: text.to_string(), source_language: source, target_language: target }
}

#[test]
fn a_text_is_translated_segment_by_segment() {
    let mut e = TranslationEngine::new();
    e.apply_manual_edit("How are you".to_string(), "Как дела".to_string()).unwrap();
    let result = e
        .translate(request("Hello there. How are you? Fine", Language::Hebrew, Language::Russian))
        .unwrap();
    assert_eq!(result.original_text, "Hello there. How are you? Fine");
    assert_eq!(result.source_language, Language::Hebrew);
    assert_eq!(result.target_language, Language::Russian);
    assert_eq!(result.segments.len(), 3);
    assert_eq!(result.segments[0].original, "Hello there");
    assert_eq!(result.segments[0].translated, "Hello there");
    assert_eq!(result.segments[0].confidence, 700);
    assert!(!result.segments[0].has_manual_edit);
    assert!(result.segments[0].alternatives.is_empty());
    assert_eq!(result.segments[1].original, "How are you");
    assert_eq!(result.segments[1].translated, "Как дела");
    assert!(result.segments[1].has_manual_edit);
    assert_eq!(result.segments[1].confidence, 700);
    assert_eq!(result.translated_text, "Hello there Как дела Fine");
    assert_eq!(result.status, TranslationStatus::ManuallyEdited);
    assert_eq!(result.manual_edits.get("How are you"), Some(&"Как дела".to_string()));
    assert_eq!(result.manual_edits.len(), 1);
}

#[test]
fn a_translation_without_edits_is_automatic() {
    let e = TranslationEngine::new();
    let result = e.translate(request("שלום. עולם", Language::Russian, Language::Hebrew)).unwrap();
    assert_eq!(result.translated_text, "שלום עולם");
    assert_eq!(result.status, TranslationStatus::Automatic);
    let empty = e.translate(request(" .. ", Language::Hebrew, Language::Russian)).unwrap();
    assert!(empty.segments.is_empty());
    assert_eq!(empty.translated_text, "");
    assert_eq!(empty.status, TranslationStatus::Automatic);
}

#[test]
fn an_unsupported_pair_is_refused() {
    let e = TranslationEngine::new();
    for (source, target) in [
        (Language::Hebrew, Language::Hebrew),
        (Language::Russian, Language::Russian),
        (Language::Unknown, Language::Russian),
        (Language::Hebrew, Language::Unknown),
    ] {
        assert!(matches!(
            e.translate(request("one. two", source, target)),
            Err(TranslationError::UnsupportedLanguagePair)
        ));
        assert!(matches!(
            e.translate_segment("one", &request("", source, target)),
            Err(TranslationError::UnsupportedLanguagePair)
        ));
    }
    let none = e.translate(request("", Language::Unknown, Language::Unknown)).unwrap();
    assert!(none.segments.is_empty());
    let segment =
        e.translate_segment("one", &request("", Language::Hebrew, Language::Russian)).unwrap();
    assert_eq!(segment.translated, "one");
    assert_eq!(segment.confidence, 700);
}

#[test]
fn a_manual_edit_leaves_the_others_alone() {
    let mut e = TranslationEngine::new();
    e.apply_manual_edit("one".to_string(), "1".to_string()).unwrap();
    e.apply_manual_edit("two".to_string(), "2".to_string()).unwrap();
    e.apply_manual_edit("one".to_string(), "uno".to_string()).unwrap();
    assert!(e.apply_manual_edit(" ".to_string(), "x".to_string()).is_err());
    let result = e.translate(request("one. two. three", Language::Hebrew, Language::Russian)).unwrap();
    assert_eq!(result.translated_text, "uno 2 three");
    assert_eq!(result.manual_edits.len(), 2);
    assert_eq!(result.manual_edits.key_at(0), "one");
    assert_eq!(result.manual_edits.value_at(0), "uno");
    assert_eq!(result.manual_edits.key_at(1), "two");
    assert_eq!(result.manual_edits.value_at(1), "2");
}

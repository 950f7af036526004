use translator_core::evaluation::{Evaluator, FormalityLevel, StyleGuide};
use translator_core::feedback::{CorrectionType, FeedbackAnalyzer};
use translator_core::files::{classify, default_file_name, FileError, FileProcessor, FileType};
use translator_core::scoring::{
    bleu_counts, char_overlap, chrf_counts, meteor_counts, word_edit_distance, word_overlap,
};
use translator_core::text_map::TextMap;

fn words(text: &str) -> Vec<Vec<char>> {
    text.split_whitespace().map(|w| w.chars().collect()).collect()
}

#[test]
fn word_windows_are_counted_by_width() {
    assert_eq!(bleu_counts("a b c d", "a b c d"), (10, 10));
    assert_eq!(bleu_counts("a b c d", "d c b a"), (4, 10));
    assert_eq!(bleu_counts("a b c d", "a b x c d"), (6, 10));
    assert_eq!(bleu_counts("a b", "a b"), (3, 3));
    assert_eq!(bleu_counts("", "a b"), (0, 0));
    assert_eq!(bleu_counts("a b", ""), (0, 3));
    assert_eq!(bleu_counts("a a a a a", "a"), (5, 14));
    assert_eq!(word_overlap(&words("x y"), &words("x y z"), 1), (2, 2));
    assert_eq!(word_overlap(&words("x y"), &words("x y z"), 0), (0, 0));
}

#[test]
fn character_windows_are_counted_by_width() {
    assert_eq!(chrf_counts("abc", "abc"), (6, 6));
    assert_eq!(chrf_counts("abc", "cab"), (4, 6));
    assert_eq!(chrf_counts("abcdefg", "abcdefg"), (27, 27));
    assert_eq!(chrf_counts("", ""), (0, 0));
    let hyp: Vec<char> = "שלום".chars().collect();
    let reference: Vec<char> = "שלומ".chars().collect();
    assert_eq!(char_overlap(&hyp, &reference, 2), (5, 7));
}

#[test]
fn matched_words_form_one_chunk() {
    assert_eq!(meteor_counts("the cat sat", "the cat ran"), (2, 1));
    assert_eq!(meteor_counts("a a a", "a"), (3, 1));
    assert_eq!(meteor_counts("x y", "a b"), (0, 0));
    assert_eq!(meteor_counts("", "a b"), (0, 0));
}

#[test]
fn edit_distance_counts_word_edits() {
    assert_eq!(word_edit_distance("", ""), 0);
    assert_eq!(word_edit_distance("a b c", ""), 3);
    assert_eq!(word_edit_distance("", "a b"), 2);
    assert_eq!(word_edit_distance("a b c", "a b c"), 0);
    assert_eq!(word_edit_distance("a b c", "a x c"), 1);
    assert_eq!(word_edit_distance("a b c", "b c"), 1);
    assert_eq!(word_edit_distance("a b c", "a b c d e"), 2);
    assert_eq!(word_edit_distance("the quick brown fox", "quick the fox brown"), 3);
    assert_eq!(word_edit_distance("kitten sitting", "sitting kitten"), 2);
}

#[test]
fn term_accuracy_counts_present_and_rendered_terms() {
    let mut terms = TextMap::new();
    terms.insert("sprinkler".to_string(), "ספרינקלר".to_string());
    terms.insert("valve".to_string(), "ברז".to_string());
    terms.insert("pipe".to_string(), "צינור".to_string());
    let e = Evaluator::new(TextMap::new(), terms, StyleGuide::new(FormalityLevel::Informal));
    assert_eq!(e.term_accuracy_counts("a sprinkler and a pipe", "ספרינקלר"), (1, 2));
    assert_eq!(e.term_accuracy_counts("nothing", "ספרינקלר"), (0, 0));
    assert_eq!(e.term_accuracy_counts("valve pipe sprinkler", "ברז צינור ספרינקלר"), (3, 3));
}

#[test]
fn comments_are_searched_for_the_issues() {
    let mut a = FeedbackAnalyzer::new();
    assert_eq!(a.issue_count("grammar"), 0);
    a.analyze_comments("Bad GRAMMAR and odd style");
    a.analyze_comments("The style is off, culturally too");
    a.analyze_comments("fine");
    a.analyze_comments("Grammar again; terminology wrong; cultural gap");
    assert_eq!(a.issue_count("grammar"), 2);
    assert_eq!(a.issue_count("style"), 2);
    assert_eq!(a.issue_count("terminology"), 1);
    assert_eq!(a.issue_count("cultural"), 2);
    assert_eq!(a.issue_count("other"), 0);
    assert_ne!(CorrectionType::Grammar, CorrectionType::Style);
}

#[test]
fn files_are_taken_by_extension_and_size() {
    let p = FileProcessor::new();
    assert_eq!(p.accept("pdf", 0), Ok(FileType::PDF));
    assert_eq!(p.accept("DOCX", 10), Ok(FileType::Word));
    assert_eq!(p.accept("doc", 10), Ok(FileType::Word));
    assert_eq!(p.accept("Xls", 10), Ok(FileType::Excel));
    assert_eq!(p.accept("xlsx", 10), Ok(FileType::Excel));
    assert_eq!(p.accept("ppt", 10), Ok(FileType::PowerPoint));
    assert_eq!(p.accept("pptx", 10), Ok(FileType::PowerPoint));
    assert_eq!(p.accept("htm", 10), Ok(FileType::HTML));
    assert_eq!(p.accept("html", 10), Ok(FileType::HTML));
    assert_eq!(p.accept("csv", 10), Ok(FileType::CSV));
    assert_eq!(p.accept("txt", 10 * 1024 * 1024), Ok(FileType::Text));
    assert_eq!(p.accept("txt", 10 * 1024 * 1024 + 1), Err(FileError::TooLarge));
    assert_eq!(p.accept("exe", 10), Err(FileError::UnsupportedType));
    assert_eq!(p.accept("exe", u64::MAX), Err(FileError::UnsupportedType));
    assert_eq!(p.accept("", 10), Err(FileError::UnsupportedType));
    assert!(p.supports("PDF"));
    assert!(!p.supports("pdfx"));
    assert_eq!(classify("PDF"), None);
    assert_eq!(classify("pdf"), Some(FileType::PDF));
}

#[test]
fn translated_files_are_named_after_the_original() {
    assert_eq!(
        default_file_name("report", "20240102_030405", FileType::Word),
        "report_translated_20240102_030405.docx"
    );
    assert_eq!(default_file_name("", "", FileType::PDF), "_translated_.pdf");
    assert_eq!(default_file_name("a", "b", FileType::Excel), "a_translated_b.xlsx");
    assert_eq!(default_file_name("a", "b", FileType::PowerPoint), "a_translated_b.pptx");
    assert_eq!(default_file_name("a", "b", FileType::HTML), "a_translated_b.html");
    assert_eq!(default_file_name("a", "b", FileType::CSV), "a_translated_b.csv");
    assert_eq!(default_file_name("a", "b", FileType::Text), "a_translated_b.txt");
}

#[test]
fn references_default_to_the_empty_text() {
    let mut references = TextMap::new();
    references.insert("hello".to_string(), "привет".to_string());
    let e = Evaluator::new(references, TextMap::new(), StyleGuide::new(FormalityLevel::Formal));
    assert_eq!(e.reference_for("hello"), "привет");
    assert_eq!(e.reference_for("other"), "");
}

use translator_core::text::{chars_contain, contains_ignoring_case, same_text, split_words};
use translator_core::tokenizer::{SpecialTokens, Tokenizer};

#[test]
fn a_new_tokenizer_knows_the_special_tokens() {
    let t = Tokenizer::new();
    assert_eq!(t.vocab_size(), 4);
    assert_eq!(t.token_id("<PAD>"), Some(0));
    assert_eq!(t.token_id("<BOS>"), Some(1));
    assert_eq!(t.token_id("<EOS>"), Some(2));
    assert_eq!(t.token_id("<UNK>"), Some(3));
    assert_eq!(t.token_id("hello"), None);
    let s = SpecialTokens::default();
    assert_eq!(s.pad, "<PAD>");
    assert_eq!(s.bos, "<BOS>");
    assert_eq!(s.eos, "<EOS>");
    assert_eq!(s.unk, "<UNK>");
}

#[test]
fn tokens_are_numbered_in_the_order_of_entry() {
    let mut t = Tokenizer::new();
    assert_eq!(t.add_token("hello"), 4);
    assert_eq!(t.add_token("world"), 5);
    assert_eq!(t.add_token("hello"), 4);
    assert_eq!(t.add_token("<BOS>"), 1);
    assert_eq!(t.vocab_size(), 6);
}

#[test]
fn words_split_into_the_longest_known_pieces() {
    let mut t = Tokenizer::new();
    t.add_token("un");
    t.add_token("##break");
    t.add_token("##able");
    t.add_token("##a");
    assert_eq!(t.split_to_subwords("unbreakable"), vec!["un", "##break", "##able"]);
    assert_eq!(t.split_to_subwords("unax"), vec!["un", "##a", "##x"]);
    assert_eq!(t.split_to_subwords("xy"), vec!["x", "##y"]);
    assert_eq!(t.split_to_subwords(""), Vec::<String>::new());
    t.add_token("unbreakable");
    assert_eq!(t.split_to_subwords("unbreakable"), vec!["unbreakable"]);
    assert_eq!(t.split_to_subwords("שלום"), vec!["ש", "##ל", "##ו", "##ם"]);
}

#[test]
fn tokenize_frames_the_ids() {
    let mut t = Tokenizer::new();
    let hello = t.add_token("hello");
    let wor = t.add_token("wor");
    let ld = t.add_token("##ld");
    assert_eq!(t.tokenize(""), vec![1, 2]);
    assert_eq!(t.tokenize("   \n\t "), vec![1, 2]);
    assert_eq!(t.tokenize("hello world"), vec![1, hello, wor, ld, 2]);
    assert_eq!(t.tokenize("  hello \u{3000} hello\n"), vec![1, hello, hello, 2]);
    assert_eq!(t.tokenize("hi"), vec![1, 3, 3, 2]);
}

#[test]
fn detokenize_joins_pieces_and_words() {
    let mut t = Tokenizer::new();
    let hello = t.add_token("hello");
    let wor = t.add_token("wor");
    let ld = t.add_token("##ld");
    let odd = t.add_token("####x");
    assert_eq!(t.detokenize(&[1, hello, wor, ld, 2]), "hello world");
    assert_eq!(t.detokenize(&[]), "");
    assert_eq!(t.detokenize(&[0, 1, 2]), "");
    assert_eq!(t.detokenize(&[ld, hello]), "ld hello");
    assert_eq!(t.detokenize(&[hello, 0, hello]), "hello hello");
    assert_eq!(t.detokenize(&[hello, 3]), "hello <UNK>");
    assert_eq!(t.detokenize(&[hello, 99, -5]), "hello <UNK> <UNK>");
    assert_eq!(t.detokenize(&[hello, odd]), "hellox");
    let ids = t.tokenize("hello world hello");
    assert_eq!(t.detokenize(&ids), "hello world hello");
}

#[test]
fn training_enters_the_frequent_pieces() {
    let mut t = Tokenizer::new();
    t.train(&vec!["ab ab".to_string(), "ab c".to_string()], 2);
    assert_eq!(t.vocab_size(), 6);
    assert_eq!(t.token_id("a"), Some(4));
    assert_eq!(t.token_id("##b"), Some(5));
    assert_eq!(t.token_id("c"), None);
    t.train(&vec!["ab ab".to_string()], 1);
    assert_eq!(t.vocab_size(), 6);
    t.train(&vec!["q".to_string()], 0);
    assert_eq!(t.token_id("q"), Some(6));
    t.train(&vec![], 0);
    assert_eq!(t.vocab_size(), 7);
    assert_eq!(t.tokenize("ab q"), vec![1, 4, 5, 6, 2]);
}

#[test]
fn words_are_runs_without_white_space() {
    let words: Vec<String> = split_words(" a  bc\td\u{a0}e ").iter().map(|w| w.iter().collect()).collect();
    assert_eq!(words, vec!["a", "bc", "d", "e"]);
    assert!(split_words("").is_empty());
    assert!(split_words(" \n ").is_empty());
}

#[test]
fn text_search_and_comparison() {
    assert!(same_text("שלום", "שלום"));
    assert!(!same_text("abc", "abd"));
    assert!(!same_text("abc", "ab"));
    let hay: Vec<char> = "hello world".chars().collect();
    let inside: Vec<char> = "lo w".chars().collect();
    let outside: Vec<char> = "low".chars().collect();
    assert!(chars_contain(&hay, &inside));
    assert!(!chars_contain(&hay, &outside));
    assert!(chars_contain(&hay, &[]));
    assert!(contains_ignoring_case("Hello World", "WORLD"));
    assert!(contains_ignoring_case("ПРИВЕТ", "привет"));
    assert!(!contains_ignoring_case("Hello", "World"));
}

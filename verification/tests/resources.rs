use translator_core::resources::{HebrewResources, InputFormat, Resource, ResourceCategory};

#[test]
fn test_resource_creation() {
    let resources = HebrewResources::new();
    assert!(resources.get_resource("hedc4").is_some());
}

#[test]
fn test_category_filter() {
    let resources = HebrewResources::new();
    let corpora = resources.get_resources_by_category(&ResourceCategory::Corpus);
    assert!(!corpora.is_empty());
}

#[test]
fn test_language_filter() {
    let resources = HebrewResources::new();
    let hebrew_resources = resources.get_resources_by_language("Hebrew");
    assert!(!hebrew_resources.is_empty());
}

#[test]
fn test_search() {
    let resources = HebrewResources::new();
    let nlp_resources = resources.search_resources("nlp");
    assert!(!nlp_resources.is_empty());
}

#[test]
fn test_format_detection() {
    let resource = Resource {
        name: "Test".to_string(),
        url: "test.conllu".to_string(),
        description: "Test resource".to_string(),
        category: ResourceCategory::Corpus,
        subcategory: None,
        technologies: vec![],
        license: None,
        language: None,
        size: None,
    };
    assert_eq!(resource.get_format(), Some(InputFormat::Conllu));
}

#[test]
fn test_format_filter() {
    let mut resources = HebrewResources::new();
    resources.add_corpus_resource("test_conllu", "/path/to/test.conllu", InputFormat::Conllu);
    let conllu_resources = resources.get_resources_by_format(&InputFormat::Conllu);
    assert!(!conllu_resources.is_empty());
}

fn plain(url: &str) -> Resource {
    Resource {
        name: "Test".to_string(),
        url: url.to_string(),
        description: "Test resource".to_string(),
        category: ResourceCategory::Corpus,
        subcategory: None,
        technologies: vec![],
        license: None,
        language: None,
        size: None,
    }
}

#[test]
fn format_follows_the_last_full_stop() {
    assert_eq!(plain("a.csv").get_format(), Some(InputFormat::Csv));
    assert_eq!(plain("a.jsonl").get_format(), Some(InputFormat::Jsonl));
    assert_eq!(plain("a.txt").get_format(), Some(InputFormat::PlainText));
    assert_eq!(plain("archive.csv.txt").get_format(), Some(InputFormat::PlainText));
    assert_eq!(plain("a.conllu.bak").get_format(), None);
    assert_eq!(plain("no_extension").get_format(), None);
    assert_eq!(plain("").get_format(), None);
    assert_eq!(plain("ends.").get_format(), None);
}

#[test]
fn format_ignores_letter_case() {
    assert_eq!(plain("DATA.CONLLU").get_format(), Some(InputFormat::Conllu));
    assert_eq!(plain("data.Csv").get_format(), Some(InputFormat::Csv));
    assert_eq!(plain("data.TXT").get_format(), Some(InputFormat::PlainText));
}

#[test]
fn catalogue_holds_the_built_in_resources() {
    let resources = HebrewResources::new();
    assert_eq!(resources.len(), 31);
    let hedc4 = resources.get_resource("hedc4").unwrap();
    assert_eq!(hedc4.name, "HeDC4");
    assert_eq!(hedc4.url, "https://huggingface.co/datasets/HeNLP/HeDC4");
    assert_eq!(hedc4.category, ResourceCategory::Corpus);
    assert_eq!(hedc4.license.as_deref(), Some("Apache License 2.0"));
    let romain = resources.get_resource("romain").unwrap();
    assert_eq!(romain.category, ResourceCategory::TechnicalOntology);
    assert!(resources.get_resource("no such resource").is_none());
    assert!(resources.get_resource("HeDC4").is_none());
}

#[test]
fn category_filter_returns_exactly_the_category() {
    let resources = HebrewResources::new();
    let standards = resources.get_resources_by_category(&ResourceCategory::TechnicalStandard);
    assert_eq!(standards.len(), 1);
    assert_eq!(standards[0].name, "ISO 15926-4:2019");
    let courses = resources.get_resources_by_category(&ResourceCategory::Course);
    assert!(courses.is_empty());
    for r in resources.get_resources_by_category(&ResourceCategory::Corpus) {
        assert_eq!(r.category, ResourceCategory::Corpus);
    }
}

#[test]
fn subcategory_filter_compares_the_whole_text() {
    let resources = HebrewResources::new();
    let general = resources.get_resources_by_subcategory("Unannotated/General");
    assert_eq!(general.len(), 2);
    assert_eq!(general[0].name, "HeDC4");
    assert_eq!(general[1].name, "JPress");
    assert!(resources.get_resources_by_subcategory("Unannotated").is_empty());
}

#[test]
fn search_looks_at_name_description_and_technologies() {
    let resources = HebrewResources::new();
    let by_name = resources.search_resources("JPRESS");
    assert_eq!(by_name.len(), 1);
    assert_eq!(by_name[0].name, "JPress");
    let by_technology = resources.search_resources("ocr");
    assert!(by_technology.iter().any(|r| r.name == "JPress"));
    let by_description = resources.search_resources("Common Crawl");
    assert!(by_description.iter().any(|r| r.name == "HeDC4"));
    assert!(resources.search_resources("zzzz no such thing").is_empty());
    assert_eq!(resources.search_resources("").len(), 31);
}

#[test]
fn technical_resources_are_technical_or_use_tlp() {
    let resources = HebrewResources::new();
    let technical = resources.get_technical_resources();
    assert!(!technical.is_empty());
    for r in &technical {
        let by_category = matches!(
            r.category,
            ResourceCategory::TechnicalCorpus
                | ResourceCategory::MaintenanceData
                | ResourceCategory::TechnicalStandard
                | ResourceCategory::TechnicalOntology
        );
        assert!(by_category || r.technologies.iter().any(|t| t == "TLP"));
    }
    assert!(technical.iter().any(|r| r.name == "ROMAIN"));
    assert!(!technical.iter().any(|r| r.name == "HeDC4"));
}

#[test]
fn process_resource_names_the_format() {
    let resources = HebrewResources::new();
    assert_eq!(
        resources.process_resource(&plain("x.conllu"), "abc"),
        Ok("מעבד ניתוח מורפולוגי מפורמט CONLLU: abc".to_string())
    );
    assert_eq!(
        resources.process_resource(&plain("x.csv"), "abc"),
        Ok("מעבד ניתוח מורפולוגי מפורמט CSV: abc".to_string())
    );
    assert_eq!(
        resources.process_resource(&plain("x.jsonl"), ""),
        Ok("מעבד ישויות עם שם מפורמט JSONL: ".to_string())
    );
    assert_eq!(
        resources.process_resource(&plain("x.txt"), "abc"),
        Ok("מעבד טקסט רגיל: abc".to_string())
    );
    assert_eq!(
        resources.process_resource(&plain("x.pdf"), "abc"),
        Err("פורמט לא נתמך".to_string())
    );
}

#[test]
fn added_corpus_is_described_by_its_format() {
    let mut resources = HebrewResources::new();
    resources.add_corpus_resource("mine", "/data/mine.jsonl", InputFormat::Jsonl);
    assert_eq!(resources.len(), 32);
    let mine = resources.get_resource("mine").unwrap();
    assert_eq!(mine.name, "mine");
    assert_eq!(mine.url, "/data/mine.jsonl");
    assert_eq!(mine.description, "קורפוס בפורמט Jsonl");
    assert_eq!(mine.category, ResourceCategory::Corpus);
    assert_eq!(mine.subcategory.as_deref(), Some("Named Entities"));
    assert_eq!(mine.technologies, vec!["NLP".to_string()]);
    assert_eq!(mine.license, None);
    assert_eq!(mine.language.as_deref(), Some("Hebrew"));
    assert_eq!(mine.size, None);
    resources.add_corpus_resource("mine", "/data/mine.txt", InputFormat::PlainText);
    assert_eq!(resources.len(), 32);
    let again = resources.get_resource("mine").unwrap();
    assert_eq!(again.url, "/data/mine.txt");
    assert_eq!(again.subcategory.as_deref(), Some("Raw Text"));
    assert_eq!(again.description, "קורפוס בפורמט PlainText");
}

#[test]
fn language_filter_compares_the_whole_text() {
    let resources = HebrewResources::new();
    let english = resources.get_resources_by_language("English");
    assert!(english.iter().all(|r| r.language.as_deref() == Some("English")));
    assert!(resources.get_resources_by_language("hebrew").is_empty());
}

#[test]
fn the_question_answering_corpora_are_two() {
    let resources = HebrewResources::new();
    let found = resources.get_resources_by_subcategory("Annotated/QA");
    let names: Vec<&str> = found.iter().map(|r| r.name.as_str()).collect();
    assert_eq!(names, vec!["HeQ", "ParaShoot"]);
}

#[test]
fn the_technical_resources_are_five() {
    let resources = HebrewResources::new();
    let found = resources.get_technical_resources();
    let names: Vec<&str> = found.iter().map(|r| r.name.as_str()).collect();
    assert_eq!(
        names,
        vec!["Nestor", "MaintNet", "Excavator Maintenance Dataset", "ISO 15926-4:2019", "ROMAIN"]
    );
}

#[test]
fn the_catalogue_holds_every_field() {
    let resources = HebrewResources::new();
    let jpress = resources.get_resource("jpress").unwrap();
    assert_eq!(jpress.name, "JPress");
    assert_eq!(jpress.url, "http://www.jpress.org.il");
    assert_eq!(jpress.subcategory.as_deref(), Some("Unannotated/General"));
    assert_eq!(jpress.technologies, vec!["NLP".to_string(), "OCR".to_string()]);
    assert_eq!(jpress.license.as_deref(), Some("Custom Terms of Use"));
    assert_eq!(jpress.language.as_deref(), Some("Hebrew"));
    assert_eq!(jpress.size, None);
    let songs = resources.get_resource("hebrew_songs").unwrap();
    assert_eq!(songs.size.as_deref(), Some("15,000 songs"));
    assert_eq!(resources.get_resources_by_language("Hebrew").len(), 22);
}

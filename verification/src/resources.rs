//! The catalogue of language resources: corpora, lexicons, tools and
//! technical data sets, found by name, category, language, format or text.

use vstd::prelude::*;
use crate::text_map::text_views;
use crate::text::{
    contains_ignoring_case, contains_text, copy_text, from_chars, lowercase_of, same_text,
    to_chars, to_lowercase,
};

verus! {

/// The kinds of resources.
#[derive(Debug, Clone, Copy, PartialEq, Eq, Structural)]
pub enum ResourceCategory {
    Corpus,
    LexicalResource,
    WordEmbedding,
    AnnotationTool,
    CollaborativeProject,
    Evaluation,
    AcademicLab,
    NonProfit,
    Industry,
    Course,
    AudioCorpus,
    TechnicalCorpus,
    MaintenanceData,
    TechnicalStandard,
    TechnicalOntology,
}

/// The input formats that can be processed.
#[derive(Debug, Clone, Copy, PartialEq, Eq, Structural)]
pub enum InputFormat {
    /// Morphological analysis in CoNLL-U.
    Conllu,
    /// Morphological analysis in CSV.
    Csv,
    /// Named entities in JSON lines.
    Jsonl,
    PlainText,
    /// Metadata of a corpus.
    Metadata,
}

/// One source of data or one tool.
#[derive(Debug, Clone)]
pub struct Resource {
    pub name: String,
    pub url: String,
    pub description: String,
    pub category: ResourceCategory,
    pub subcategory: Option<String>,
    pub technologies: Vec<String>,
    pub license: Option<String>,
    pub language: Option<String>,
    pub size: Option<String>,
}

/// A resource as a mathematical value.
pub struct ResourceModel {
    pub name: Seq<char>,
    pub url: Seq<char>,
    pub description: Seq<char>,
    pub category: ResourceCategory,
    pub subcategory: Option<Seq<char>>,
    pub technologies: Seq<Seq<char>>,
    pub license: Option<Seq<char>>,
    pub language: Option<Seq<char>>,
    pub size: Option<Seq<char>>,
}

/// The text that an optional string holds, if it holds one.
pub open spec fn option_text(option: Option<String>) -> Option<Seq<char>> {
    match option {
        Some(s) => Some(s@),
        None => None,
    }
}

impl View for Resource {
    type V = ResourceModel;

    open spec fn view(&self) -> ResourceModel {
        ResourceModel {
            name: self.name@,
            url: self.url@,
            description: self.description@,
            category: self.category,
            subcategory: option_text(self.subcategory),
            technologies: text_views(self.technologies@),
            license: option_text(self.license),
            language: option_text(self.language),
            size: option_text(self.size),
        }
    }
}

/// The resources that a sequence holds, each as a mathematical value.
pub open spec fn resource_views(items: Seq<Resource>) -> Seq<ResourceModel> {
    Seq::new(items.len(), |i: int| items[i]@)
}

/// Position of the last full stop of `s`, or -1 where it has none.
pub open spec fn last_dot(s: Seq<char>) -> int
    decreases s.len(),
{
    if s.len() == 0 {
        -1
    } else if s.last() == '.' {
        s.len() - 1
    } else {
        last_dot(s.drop_last())
    }
}

/// What follows the last full stop of `s`, if it has one.
pub open spec fn extension(s: Seq<char>) -> Option<Seq<char>> {
    if last_dot(s) < 0 {
        None
    } else {
        Some(s.subrange(last_dot(s) + 1, s.len() as int))
    }
}

/// The format that a lower-case extension names.
pub open spec fn format_named(ext: Seq<char>) -> Option<InputFormat> {
    if ext == "conllu"@ {
        Some(InputFormat::Conllu)
    } else if ext == "csv"@ {
        Some(InputFormat::Csv)
    } else if ext == "jsonl"@ {
        Some(InputFormat::Jsonl)
    } else if ext == "txt"@ {
        Some(InputFormat::PlainText)
    } else {
        None
    }
}

/// The format of the file at `url`: that named by its extension in lower
/// case.
pub open spec fn format_of(url: Seq<char>) -> Option<InputFormat> {
    match extension(url) {
        Some(ext) => format_named(lowercase_of(ext)),
        None => None,
    }
}

proof fn lemma_last_dot_found(s: Seq<char>, at: int)
    requires
        0 <= at < s.len(),
        s[at] == '.',
        forall|j: int| at < j < s.len() ==> s[j] != '.',
    ensures
        last_dot(s) == at,
    decreases s.len(),
{
    if s.len() - 1 > at {
        lemma_last_dot_found(s.drop_last(), at);
    }
}

proof fn lemma_no_dot(s: Seq<char>)
    requires
        forall|j: int| 0 <= j < s.len() ==> s[j] != '.',
    ensures
        last_dot(s) == -1,
    decreases s.len(),
{
    if s.len() > 0 {
        lemma_no_dot(s.drop_last());
    }
}

impl Resource {
    /// The input format of the resource, by the extension of its URL.
    pub fn get_format(&self) -> (r: Option<InputFormat>)
        ensures
            r == format_of(self.url@),
    {
        let chars: Vec<char> = to_chars(self.url.as_str());
        let mut i: usize = chars.len();
        while i > 0 && chars[i - 1] != '.'
            invariant
                0 <= i <= chars@.len(),
                forall|j: int| i <= j < chars@.len() ==> chars@[j] != '.',
            decreases i,
        {
            i -= 1;
        }
        if i == 0 {
            proof {
                lemma_no_dot(chars@);
            }
            return None;
        }
        proof {
            lemma_last_dot_found(chars@, i - 1);
        }
        let mut tail: Vec<char> = Vec::new();
        let mut j: usize = i;
        while j < chars.len()
            invariant
                i <= j <= chars@.len(),
                tail@ == chars@.subrange(i as int, j as int),
            decreases chars@.len() - j,
        {
            tail.push(chars[j]);
            assert(chars@.subrange(i as int, j + 1) =~= chars@.subrange(i as int, j as int).push(
                chars@[j as int],
            ));
            j += 1;
        }
        let ext: String = from_chars(tail.as_slice());
        let lower: String = to_lowercase(ext.as_str());
        if same_text(lower.as_str(), "conllu") {
            Some(InputFormat::Conllu)
        } else if same_text(lower.as_str(), "csv") {
            Some(InputFormat::Csv)
        } else if same_text(lower.as_str(), "jsonl") {
            Some(InputFormat::Jsonl)
        } else if same_text(lower.as_str(), "txt") {
            Some(InputFormat::PlainText)
        } else {
            None
        }
    }
}

/// What a search of the catalogue asks for.
pub enum ResourceQuery {
    /// Resources of a category.
    Category(ResourceCategory),
    /// Resources whose subcategory is this text.
    Subcategory(String),
    /// Resources whose name, description or one of whose technologies holds
    /// this text, letter case aside.
    Search(String),
    /// Resources in this language.
    Language(String),
    /// Resources in this format.
    Format(InputFormat),
    /// Resources of a technical category, or with the technology TLP.
    Technical,
}

/// A query as a mathematical value.
pub enum QueryModel {
    Category(ResourceCategory),
    Subcategory(Seq<char>),
    Search(Seq<char>),
    Language(Seq<char>),
    Format(InputFormat),
    Technical,
}

impl View for ResourceQuery {
    type V = QueryModel;

    open spec fn view(&self) -> QueryModel {
        match *self {
            ResourceQuery::Category(c) => QueryModel::Category(c),
            ResourceQuery::Subcategory(s) => QueryModel::Subcategory(s@),
            ResourceQuery::Search(s) => QueryModel::Search(s@),
            ResourceQuery::Language(s) => QueryModel::Language(s@),
            ResourceQuery::Format(f) => QueryModel::Format(f),
            ResourceQuery::Technical => QueryModel::Technical,
        }
    }
}

/// Some technology of `technologies`, in lower case, holds `needle`.
pub open spec fn some_technology_holds(technologies: Seq<String>, needle: Seq<char>) -> bool {
    exists|i: int|
        0 <= i < technologies.len() && contains_text(lowercase_of((#[trigger] technologies[i])@), needle)
}

/// Some technology of `technologies` is `name`.
pub open spec fn has_technology(technologies: Seq<String>, name: Seq<char>) -> bool {
    exists|i: int| 0 <= i < technologies.len() && (#[trigger] technologies[i])@ == name
}

/// The category is one of the technical ones.
pub open spec fn is_technical_category(c: ResourceCategory) -> bool {
    c == ResourceCategory::TechnicalCorpus || c == ResourceCategory::MaintenanceData || c
        == ResourceCategory::TechnicalStandard || c == ResourceCategory::TechnicalOntology
}

/// The text is that of the option.
pub open spec fn option_is(option: Option<String>, text: Seq<char>) -> bool {
    match option {
        Some(s) => s@ == text,
        None => false,
    }
}

/// Resource `r` answers query `q`.
pub open spec fn answers(r: Resource, q: QueryModel) -> bool {
    match q {
        QueryModel::Category(c) => r.category == c,
        QueryModel::Subcategory(s) => option_is(r.subcategory, s),
        QueryModel::Search(text) => contains_text(lowercase_of(r.name@), lowercase_of(text))
            || contains_text(lowercase_of(r.description@), lowercase_of(text))
            || some_technology_holds(r.technologies@, lowercase_of(text)),
        QueryModel::Language(l) => option_is(r.language, l),
        QueryModel::Format(f) => format_of(r.url@) == Some(f),
        QueryModel::Technical => is_technical_category(r.category) || has_technology(
            r.technologies@,
            "TLP"@,
        ),
    }
}

/// The resources of `items` that answer `q`, in their order.
pub open spec fn selected(items: Seq<Resource>, q: QueryModel) -> Seq<Resource>
    decreases items.len(),
{
    if items.len() == 0 {
        Seq::empty()
    } else if answers(items.last(), q) {
        selected(items.drop_last(), q).push(items.last())
    } else {
        selected(items.drop_last(), q)
    }
}

/// The resources that a sequence of references refers to.
pub open spec fn referents(refs: Seq<&Resource>) -> Seq<Resource> {
    Seq::new(refs.len(), |i: int| *refs[i])
}

fn option_matches(option: &Option<String>, text: &str) -> (r: bool)
    ensures
        r == option_is(*option, text@),
{
    match option {
        Some(s) => same_text(s.as_str(), text),
        None => false,
    }
}

fn technology_holds(technologies: &Vec<String>, needle: &str) -> (r: bool)
    ensures
        r == some_technology_holds(technologies@, lowercase_of(needle@)),
{
    let mut i: usize = 0;
    while i < technologies.len()
        invariant
            0 <= i <= technologies@.len(),
            forall|t: int|
                0 <= t < i ==> !contains_text(
                    lowercase_of((#[trigger] technologies@[t])@),
                    lowercase_of(needle@),
                ),
        decreases technologies@.len() - i,
    {
        if contains_ignoring_case(technologies[i].as_str(), needle) {
            return true;
        }
        i += 1;
    }
    false
}

fn technology_listed(technologies: &Vec<String>, name: &str) -> (r: bool)
    ensures
        r == has_technology(technologies@, name@),
{
    let mut i: usize = 0;
    while i < technologies.len()
        invariant
            0 <= i <= technologies@.len(),
            forall|t: int| 0 <= t < i ==> (#[trigger] technologies@[t])@ != name@,
        decreases technologies@.len() - i,
    {
        if same_text(technologies[i].as_str(), name) {
            return true;
        }
        i += 1;
    }
    false
}

/// Decides whether a resource answers a query.
pub fn resource_answers(r: &Resource, q: &ResourceQuery) -> (b: bool)
    ensures
        b == answers(*r, q@),
{
    match q {
        ResourceQuery::Category(c) => r.category == *c,
        ResourceQuery::Subcategory(s) => option_matches(&r.subcategory, s.as_str()),
        ResourceQuery::Search(text) => {
            contains_ignoring_case(r.name.as_str(), text.as_str()) || contains_ignoring_case(
                r.description.as_str(),
                text.as_str(),
            ) || technology_holds(&r.technologies, text.as_str())
        },
        ResourceQuery::Language(l) => option_matches(&r.language, l.as_str()),
        ResourceQuery::Format(f) => {
            match r.get_format() {
                Some(g) => g == *f,
                None => false,
            }
        },
        ResourceQuery::Technical => {
            let technical: bool = match r.category {
                ResourceCategory::TechnicalCorpus => true,
                ResourceCategory::MaintenanceData => true,
                ResourceCategory::TechnicalStandard => true,
                ResourceCategory::TechnicalOntology => true,
                _ => false,
            };
            technical || technology_listed(&r.technologies, "TLP")
        },
    }
}

/// The position of `name` among `names`, or their number where it is not
/// among them.
pub open spec fn name_position(names: Seq<String>, name: Seq<char>) -> int
    decreases names.len(),
{
    if names.len() == 0 {
        0
    } else if names[0]@ == name {
        0
    } else {
        1 + name_position(names.drop_first(), name)
    }
}

proof fn lemma_name_position_found(names: Seq<String>, name: Seq<char>, at: int)
    requires
        0 <= at <= names.len(),
        forall|i: int| 0 <= i < at ==> (#[trigger] names[i])@ != name,
        at < names.len() ==> names[at]@ == name,
    ensures
        name_position(names, name) == at,
    decreases names.len(),
{
    if names.len() > 0 && at > 0 {
        let rest = names.drop_first();
        assert(names[0]@ != name);
        assert forall|i: int| 0 <= i < at - 1 implies (#[trigger] rest[i])@ != name by {
            assert(rest[i] == names[i + 1]);
        }
        lemma_name_position_found(rest, name, at - 1);
    }
}

/// The subcategory of a corpus in `format`.
pub open spec fn corpus_subcategory(format: InputFormat) -> Seq<char> {
    match format {
        InputFormat::Conllu => "Morphological"@,
        InputFormat::Csv => "Morphological"@,
        InputFormat::Jsonl => "Named Entities"@,
        InputFormat::PlainText => "Raw Text"@,
        InputFormat::Metadata => "Metadata"@,
    }
}

/// The name of a format as it is written in descriptions.
pub open spec fn format_name(format: InputFormat) -> Seq<char> {
    match format {
        InputFormat::Conllu => "Conllu"@,
        InputFormat::Csv => "Csv"@,
        InputFormat::Jsonl => "Jsonl"@,
        InputFormat::PlainText => "PlainText"@,
        InputFormat::Metadata => "Metadata"@,
    }
}

/// `r` is the resource that stands for a corpus at `path` in `format`,
/// entered under `name`.
pub open spec fn is_corpus_resource(
    r: Resource,
    name: Seq<char>,
    path: Seq<char>,
    format: InputFormat,
) -> bool {
    &&& r.name@ == name
    &&& r.url@ == path
    &&& r.description@ == "קורפוס בפורמט "@ + format_name(format)
    &&& r.category == ResourceCategory::Corpus
    &&& option_is(r.subcategory, corpus_subcategory(format))
    &&& r.technologies@.len() == 1
    &&& r.technologies@[0]@ == "NLP"@
    &&& r.license is None
    &&& option_is(r.language, "Hebrew"@)
    &&& r.size is None
}

/// What is said while a text in `format` is processed, before the text.
pub open spec fn processing_prefix(format: InputFormat) -> Seq<char> {
    match format {
        InputFormat::Conllu => "מעבד ניתוח מורפולוגי מפורמט CONLLU: "@,
        InputFormat::Csv => "מעבד ניתוח מורפולוגי מפורמט CSV: "@,
        InputFormat::Jsonl => "מעבד ישויות עם שם מפורמט JSONL: "@,
        InputFormat::PlainText => "מעבד טקסט רגיל: "@,
        InputFormat::Metadata => "מעבד מטא נתונים: "@,
    }
}

/// The built-in resource `hedc4`.
pub open spec fn entry_hedc4() -> ResourceModel {
    ResourceModel {
        name: "HeDC4"@,
        url: "https://huggingface.co/datasets/HeNLP/HeDC4"@,
        description: "קורפוס עברי מנוקה ומסונן מ-Common Crawl"@,
        category: ResourceCategory::Corpus,
        subcategory: Some("Unannotated/General"@),
        technologies: seq!["NLP"@],
        license: Some("Apache License 2.0"@),
        language: Some("Hebrew"@),
        size: None,
    }
}

/// The built-in resource `jpress`.
pub open spec fn entry_jpress() -> ResourceModel {
    ResourceModel {
        name: "JPress"@,
        url: "http://www.jpress.org.il"@,
        description: "אוסף עיתונים יהודיים שפורסמו במדינות, שפות ותקופות שונות"@,
        category: ResourceCategory::Corpus,
        subcategory: Some("Unannotated/General"@),
        technologies: seq!["NLP"@, "OCR"@],
        license: Some("Custom Terms of Use"@),
        language: Some("Hebrew"@),
        size: None,
    }
}

/// The built-in resource `sefaria`.
pub open spec fn entry_sefaria() -> ResourceModel {
    ResourceModel {
        name: "Sefaria"@,
        url: "https://github.com/Sefaria/Sefaria-Export/"@,
        description: "טקסטים יהודיים מובנים ומטא-דאטה עם רישיונות ציבוריים חופשיים"@,
        category: ResourceCategory::Corpus,
        subcategory: Some("Unannotated/Specialized"@),
        technologies: seq!["NLP"@],
        license: Some("Various"@),
        language: Some("Hebrew"@),
        size: None,
    }
}

/// The built-in resource `hebrew_songs`.
pub open spec fn entry_hebrew_songs() -> ResourceModel {
    ResourceModel {
        name: "Hebrew Songs Lyrics"@,
        url: "https://www.kaggle.com/datasets/guybarash/hebrew-songs-lyrics"@,
        description: "כ-15,000 שירים ישראליים שנאספו מאתר שירונט"@,
        category: ResourceCategory::Corpus,
        subcategory: Some("Unannotated/Specialized"@),
        technologies: seq!["NLP"@],
        license: Some("CC BY-SA 4.0"@),
        language: Some("Hebrew"@),
        size: Some("15,000 songs"@),
    }
}

/// The built-in resource `oscar`.
pub open spec fn entry_oscar() -> ResourceModel {
    ResourceModel {
        name: "OSCAR"@,
        url: "https://oscar-corpus.com/"@,
        description: "קורפוס רב-לשוני גדול שנוצר מסינון של Common Crawl"@,
        category: ResourceCategory::Corpus,
        subcategory: Some("Multilingual"@),
        technologies: seq!["NLP"@],
        license: Some("CC BY 4.0"@),
        language: Some("Multilingual"@),
        size: None,
    }
}

/// The built-in resource `cc100`.
pub open spec fn entry_cc100() -> ResourceModel {
    ResourceModel {
        name: "CC100"@,
        url: "https://data.statmt.org/cc-100/"@,
        description: "קורפוס המכיל נתונים חד-לשוניים עבור יותר מ-100 שפות"@,
        category: ResourceCategory::Corpus,
        subcategory: Some("Multilingual"@),
        technologies: seq!["NLP"@],
        license: Some("MIT"@),
        language: Some("Multilingual"@),
        size: None,
    }
}

/// The built-in resource `nemo`.
pub open spec fn entry_nemo() -> ResourceModel {
    ResourceModel {
        name: "NEMO"@,
        url: "https://github.com/OnlpLab/NEMO-Corpus"@,
        description: "אנוטציות של ישויות מוכרות בקורפוס העץ העברי"@,
        category: ResourceCategory::Corpus,
        subcategory: Some("Annotated/NER"@),
        technologies: seq!["NLP"@, "NER"@],
        license: Some("CC BY 4.0"@),
        language: Some("Hebrew"@),
        size: None,
    }
}

/// The built-in resource `ivrit_ai_corpus`.
pub open spec fn entry_ivrit_ai_corpus() -> ResourceModel {
    ResourceModel {
        name: "ivrit.ai Corpus"@,
        url: "https://huggingface.co/ivrit-ai"@,
        description: "מאגר נתוני דיבור בעברית הכולל כ-15,000 שעות של הקלטות מתומללות אוטומטית"@,
        category: ResourceCategory::AudioCorpus,
        subcategory: None,
        technologies: seq!["Speech"@, "ASR"@],
        license: Some("CC BY 4.0"@),
        language: Some("Hebrew"@),
        size: Some("15,000 hours"@),
    }
}

/// The built-in resource `mila_lexicon`.
pub open spec fn entry_mila_lexicon() -> ResourceModel {
    ResourceModel {
        name: "The MILA lexicon of Hebrew words"@,
        url: "http://www.mila.cs.technion.ac.il/resources_lexicons_mila.html"@,
        description: "לקסיקון המכיל כ-25,000 ערכים לשימוש במנתחים מורפולוגיים"@,
        category: ResourceCategory::LexicalResource,
        subcategory: Some("Monolingual"@),
        technologies: seq!["NLP"@, "Morphology"@],
        license: Some("GPLv3"@),
        language: Some("Hebrew"@),
        size: Some("25,000 entries"@),
    }
}

/// The built-in resource `heq`.
pub open spec fn entry_heq() -> ResourceModel {
    ResourceModel {
        name: "HeQ"@,
        url: "https://github.com/NNLP-IL/Hebrew-Question-Answering-Dataset"@,
        description: "מאגר נתונים של 30,147 שאלות בעברית מודרנית עם תשובות מתוך הטקסט"@,
        category: ResourceCategory::Corpus,
        subcategory: Some("Annotated/QA"@),
        technologies: seq!["NLP"@, "QA"@],
        license: Some("CC BY 4.0"@),
        language: Some("Hebrew"@),
        size: Some("30,147 questions"@),
    }
}

/// The built-in resource `parashoot`.
pub open spec fn entry_parashoot() -> ResourceModel {
    ResourceModel {
        name: "ParaShoot"@,
        url: "https://github.com/omrikeren/ParaShoot"@,
        description: "מאגר נתונים של שאלות ותשובות בסגנון SQuAD, מבוסס על ערכים מויקיפדיה"@,
        category: ResourceCategory::Corpus,
        subcategory: Some("Annotated/QA"@),
        technologies: seq!["NLP"@, "QA"@],
        license: None,
        language: Some("Hebrew"@),
        size: Some("3,000 QA pairs"@),
    }
}

/// The built-in resource `hebrew_sentiment`.
pub open spec fn entry_hebrew_sentiment() -> ResourceModel {
    ResourceModel {
        name: "Hebrew-Sentiment-Data"@,
        url: "https://github.com/OnlpLab/Hebrew-Sentiment-Data"@,
        description: "מאגר נתונים לניתוח רגשות בעברית, מבוסס על 12,000 תגובות מרשתות חברתיות"@,
        category: ResourceCategory::Corpus,
        subcategory: Some("Annotated/Sentiment"@),
        technologies: seq!["NLP"@, "Sentiment Analysis"@],
        license: None,
        language: Some("Hebrew"@),
        size: Some("12,000 comments"@),
    }
}

/// The built-in resource `emotion_ugc`.
pub open spec fn entry_emotion_ugc() -> ResourceModel {
    ResourceModel {
        name: "Emotion User Generated Content"@,
        url: "https://github.com/avichaychriqui/HeBERT"@,
        description: "מאגר תגובות מאתרי חדשות ישראליים עם תיוג רגשות ורגש כללי"@,
        category: ResourceCategory::Corpus,
        subcategory: Some("Annotated/Emotion"@),
        technologies: seq!["NLP"@, "Emotion Detection"@],
        license: Some("MIT"@),
        language: Some("Hebrew"@),
        size: Some("350K sentences"@),
    }
}

/// The built-in resource `knesset_topics`.
pub open spec fn entry_knesset_topics() -> ResourceModel {
    ResourceModel {
        name: "Knesset Topic Classification"@,
        url: "https://github.com/NitzanBarzilay/KnessetTopicClassification/"@,
        description: "כ-2,700 ציטוטים מישיבות הכנסת מסווגים לשמונה נושאים"@,
        category: ResourceCategory::Corpus,
        subcategory: Some("Annotated/Topic"@),
        technologies: seq!["NLP"@, "Topic Classification"@],
        license: None,
        language: Some("Hebrew"@),
        size: Some("2,700 quotes"@),
    }
}

/// The built-in resource `hebnli`.
pub open spec fn entry_hebnli() -> ResourceModel {
    ResourceModel {
        name: "HebNLI"@,
        url: "https://github.com/NNLP-IL/HebNLI"@,
        description: "מאגר נתונים להסקה טקסטואלית בעברית, מבוסס על תרגום של MultiNLI"@,
        category: ResourceCategory::Corpus,
        subcategory: Some("Annotated/NLI"@),
        technologies: seq!["NLP"@, "NLI"@],
        license: Some("CC BY 4.0"@),
        language: Some("Hebrew"@),
        size: None,
    }
}

/// The built-in resource `hesum`.
pub open spec fn entry_hesum() -> ResourceModel {
    ResourceModel {
        name: "HeSum"@,
        url: "https://github.com/OnlpLab/HeSum"@,
        description: "מאגר נתונים לסיכום אבסטרקטיבי בעברית מודרנית, מכיל 10,000 מאמרים עם סיכומים"@,
        category: ResourceCategory::Corpus,
        subcategory: Some("Annotated/Summarization"@),
        technologies: seq!["NLP"@, "Text Summarization"@],
        license: None,
        language: Some("Hebrew"@),
        size: Some("10,000 articles"@),
    }
}

/// The built-in resource `fasttext_hebrew`.
pub open spec fn entry_fasttext_hebrew() -> ResourceModel {
    ResourceModel {
        name: "fastText pre-trained word vectors"@,
        url: "https://github.com/facebookresearch/fastText/blob/master/docs/pretrained-vectors.md"@,
        description: "וקטורי מילים שאומנו על ויקיפדיה העברית באמצעות fastText"@,
        category: ResourceCategory::WordEmbedding,
        subcategory: None,
        technologies: seq!["NLP"@, "Word Embeddings"@, "fastText"@],
        license: Some("CC-BY-SA 3.0"@),
        language: Some("Hebrew"@),
        size: None,
    }
}

/// The built-in resource `hebrew_w2v`.
pub open spec fn entry_hebrew_w2v() -> ResourceModel {
    ResourceModel {
        name: "hebrew-word2vec"@,
        url: "https://github.com/Ronshm/hebrew-word2vec"@,
        description: "וקטורי מילים שאומנו על נתונים מטוויטר, מכיל וקטורים ל-1.4M מילים"@,
        category: ResourceCategory::WordEmbedding,
        subcategory: None,
        technologies: seq!["NLP"@, "Word Embeddings"@, "Word2Vec"@],
        license: Some("Apache License 2.0"@),
        language: Some("Hebrew"@),
        size: Some("1.4M words"@),
    }
}

/// The built-in resource `hebrew_medical_audio`.
pub open spec fn entry_hebrew_medical_audio() -> ResourceModel {
    ResourceModel {
        name: "Hebrew Medical Audio Dataset - Verbit"@,
        url: "https://huggingface.co/datasets/verbit/hebrew_medical_audio"@,
        description: "מאגר הקלטות של סיכומים קליניים בעברית מ-41 דוברים שונים"@,
        category: ResourceCategory::AudioCorpus,
        subcategory: None,
        technologies: seq!["Speech"@, "Medical"@],
        license: Some("CC BY-NC 4.0"@),
        language: Some("Hebrew"@),
        size: Some("1000+ recordings"@),
    }
}

/// The built-in resource `hebdb`.
pub open spec fn entry_hebdb() -> ResourceModel {
    ResourceModel {
        name: "HebDB"@,
        url: "https://pages.cs.huji.ac.il/adiyoss-lab/HebDB/"@,
        description: "מאגר נתוני דיבור בעברית עם כ-2500 שעות של הקלטות טבעיות וספונטניות"@,
        category: ResourceCategory::AudioCorpus,
        subcategory: None,
        technologies: seq!["Speech"@],
        license: Some("CC BY 4.0"@),
        language: Some("Hebrew"@),
        size: Some("2500 hours"@),
    }
}

/// The built-in resource `hebrew_wordnet`.
pub open spec fn entry_hebrew_wordnet() -> ResourceModel {
    ResourceModel {
        name: "Hebrew WordNet"@,
        url: "http://www.mila.cs.technion.ac.il/resources_lexicons_wordnet.html"@,
        description: "וורדנט עברי המיושר עם WordNet באנגלית, איטלקית וספרדית"@,
        category: ResourceCategory::LexicalResource,
        subcategory: Some("Multilingual"@),
        technologies: seq!["NLP"@, "WordNet"@],
        license: Some("GPLv3"@),
        language: Some("Multilingual"@),
        size: None,
    }
}

/// The built-in resource `word2word`.
pub open spec fn entry_word2word() -> ResourceModel {
    ResourceModel {
        name: "word2word"@,
        url: "https://github.com/Kyubyong/word2word"@,
        description: "תרגומים מילה-למילה עבור 3,564 זוגות שפות, כולל עברית"@,
        category: ResourceCategory::LexicalResource,
        subcategory: Some("Multilingual"@),
        technologies: seq!["NLP"@, "Translation"@],
        license: Some("Apache License 2.0"@),
        language: Some("Multilingual"@),
        size: None,
    }
}

/// The built-in resource `hebrew_stopwords`.
pub open spec fn entry_hebrew_stopwords() -> ResourceModel {
    ResourceModel {
        name: "Hebrew Stop Words based on UD"@,
        url: "https://github.com/NNLP-IL/Stop-Words-Hebrew"@,
        description: "רשימת מילות עצירה בעברית שנוצרה באמצעות Universal Dependencies"@,
        category: ResourceCategory::LexicalResource,
        subcategory: Some("Word Lists"@),
        technologies: seq!["NLP"@],
        license: Some("CC-BY-SA 4.0"@),
        language: Some("Hebrew"@),
        size: None,
    }
}

/// The built-in resource `hebrew_wordlists`.
pub open spec fn entry_hebrew_wordlists() -> ResourceModel {
    ResourceModel {
        name: "Hebrew WordLists"@,
        url: "https://github.com/eyaler/hebrew_wordlists"@,
        description: "רשימות מילים שימושיות שחולצו מ-Hspell 1.4"@,
        category: ResourceCategory::LexicalResource,
        subcategory: Some("Word Lists"@),
        technologies: seq!["NLP"@],
        license: Some("AGPL-3.0"@),
        language: Some("Hebrew"@),
        size: None,
    }
}

/// The built-in resource `berel`.
pub open spec fn entry_berel() -> ResourceModel {
    ResourceModel {
        name: "BEREL"@,
        url: "https://www.dropbox.com/sh/us98wjb178itjk1/AACWu62ffHJ0zk19i77_rV06a"@,
        description: "מודל שפה מאומן מראש לעברית רבנית"@,
        category: ResourceCategory::WordEmbedding,
        subcategory: Some("Language Models"@),
        technologies: seq!["NLP"@, "BERT"@],
        license: None,
        language: Some("Hebrew"@),
        size: None,
    }
}

/// The built-in resource `heb_architecture_corpus`.
pub open spec fn entry_heb_architecture_corpus() -> ResourceModel {
    ResourceModel {
        name: "Hebrew Architecture Corpus"@,
        url: "https://github.com/bdar-lab/heb_architecture_corpus"@,
        description: "קורפוס טקסטואלי בעברית בנושאי בנייה, תכנון ואדריכלות. כולל מסמכים ממגוון מקורות כמו צווים חקיקתיים, הנחיות רגולטוריות, דוחות מחקר, מחקרים אקדמיים וכתבי עת מקצועיים"@,
        category: ResourceCategory::Corpus,
        subcategory: Some("Unannotated/Specialized"@),
        technologies: seq!["NLP"@, "OCR"@, "Architecture"@],
        license: Some("CC BY 4.0"@),
        language: Some("Hebrew"@),
        size: None,
    }
}

/// The built-in resource `nestor`.
pub open spec fn entry_nestor() -> ResourceModel {
    ResourceModel {
        name: "Nestor"@,
        url: "https://github.com/usnistgov/nestor"@,
        description: "ממשק משתמש גרפי לתיוג נתוני תחזוקה ועיבוד שפה טכנית"@,
        category: ResourceCategory::AnnotationTool,
        subcategory: Some("TLP"@),
        technologies: seq!["TLP"@, "Maintenance"@, "Annotation"@],
        license: Some("Public Domain"@),
        language: Some("Multilingual"@),
        size: None,
    }
}

/// The built-in resource `maintnet`.
pub open spec fn entry_maintnet() -> ResourceModel {
    ResourceModel {
        name: "MaintNet"@,
        url: "https://github.com/maintnet/maintnet"@,
        description: "ספריה שיתופית של כלים ונתונים לעיבוד שפה טכנית בתחום התחזוקה"@,
        category: ResourceCategory::MaintenanceData,
        subcategory: Some("TLP"@),
        technologies: seq!["TLP"@, "Maintenance"@, "NLP"@],
        license: Some("MIT"@),
        language: Some("Multilingual"@),
        size: None,
    }
}

/// The built-in resource `excavator_maintenance`.
pub open spec fn entry_excavator_maintenance() -> ResourceModel {
    ResourceModel {
        name: "Excavator Maintenance Dataset"@,
        url: "https://github.com/usnistgov/excavator"@,
        description: "מאגר נתוני תחזוקה של מחפרים, כולל גרסאות מנוקות ולא מנוקות"@,
        category: ResourceCategory::TechnicalCorpus,
        subcategory: Some("Maintenance"@),
        technologies: seq!["TLP"@, "Maintenance"@],
        license: Some("Public Domain"@),
        language: Some("English"@),
        size: None,
    }
}

/// The built-in resource `iso_15926`.
pub open spec fn entry_iso_15926() -> ResourceModel {
    ResourceModel {
        name: "ISO 15926-4:2019"@,
        url: "https://www.iso.org/standard/74389.html"@,
        description: "תקן לתיעוד מידע על מתקני תהליך"@,
        category: ResourceCategory::TechnicalStandard,
        subcategory: None,
        technologies: seq!["Process Plants"@, "Documentation"@],
        license: Some("ISO"@),
        language: Some("English"@),
        size: None,
    }
}

/// The built-in resource `romain`.
pub open spec fn entry_romain() -> ResourceModel {
    ResourceModel {
        name: "ROMAIN"@,
        url: "https://github.com/romain-ontology/romain"@,
        description: "אונטולוגיה לניהול תחזוקה"@,
        category: ResourceCategory::TechnicalOntology,
        subcategory: Some("Maintenance"@),
        technologies: seq!["TLP"@, "Maintenance"@, "Ontology"@],
        license: Some("Apache License 2.0"@),
        language: Some("English"@),
        size: None,
    }
}

/// The names of the built-in resources, in the order of entry.
pub open spec fn builtin_names() -> Seq<Seq<char>> {
    seq![
        "hedc4"@,
        "jpress"@,
        "sefaria"@,
        "hebrew_songs"@,
        "oscar"@,
        "cc100"@,
        "nemo"@,
        "ivrit_ai_corpus"@,
        "mila_lexicon"@,
        "heq"@,
        "parashoot"@,
        "hebrew_sentiment"@,
        "emotion_ugc"@,
        "knesset_topics"@,
        "hebnli"@,
        "hesum"@,
        "fasttext_hebrew"@,
        "hebrew_w2v"@,
        "hebrew_medical_audio"@,
        "hebdb"@,
        "hebrew_wordnet"@,
        "word2word"@,
        "hebrew_stopwords"@,
        "hebrew_wordlists"@,
        "berel"@,
        "heb_architecture_corpus"@,
        "nestor"@,
        "maintnet"@,
        "excavator_maintenance"@,
        "iso_15926"@,
        "romain"@,
    ]
}

/// The built-in resources, in the order of entry.
pub open spec fn builtin_catalogue() -> Seq<ResourceModel> {
    seq![
        entry_hedc4(),
        entry_jpress(),
        entry_sefaria(),
        entry_hebrew_songs(),
        entry_oscar(),
        entry_cc100(),
        entry_nemo(),
        entry_ivrit_ai_corpus(),
        entry_mila_lexicon(),
        entry_heq(),
        entry_parashoot(),
        entry_hebrew_sentiment(),
        entry_emotion_ugc(),
        entry_knesset_topics(),
        entry_hebnli(),
        entry_hesum(),
        entry_fasttext_hebrew(),
        entry_hebrew_w2v(),
        entry_hebrew_medical_audio(),
        entry_hebdb(),
        entry_hebrew_wordnet(),
        entry_word2word(),
        entry_hebrew_stopwords(),
        entry_hebrew_wordlists(),
        entry_berel(),
        entry_heb_architecture_corpus(),
        entry_nestor(),
        entry_maintnet(),
        entry_excavator_maintenance(),
        entry_iso_15926(),
        entry_romain(),
    ]
}

/// The name at place `i` stands at `i` or before it.
proof fn lemma_named_at(names: Seq<String>, i: int)
    requires
        0 <= i < names.len(),
    ensures
        name_position(names, names[i]@) <= i,
    decreases names.len(),
{
    if i > 0 && names[0]@ != names[i]@ {
        let rest = names.drop_first();
        assert(rest[i - 1] == names[i]);
        lemma_named_at(rest, i - 1);
    }
}

fn make_hedc4() -> (r: Resource)
    ensures
        r@ == entry_hedc4(),
{
    let mut technologies: Vec<String> = Vec::new();
    technologies.push(String::from_str("NLP"));
    assert(text_views(technologies@) =~= entry_hedc4().technologies);
    Resource {
        name: String::from_str("HeDC4"),
        url: String::from_str("https://huggingface.co/datasets/HeNLP/HeDC4"),
        description: String::from_str("קורפוס עברי מנוקה ומסונן מ-Common Crawl"),
        category: ResourceCategory::Corpus,
        subcategory: Some(String::from_str("Unannotated/General")),
        technologies,
        license: Some(String::from_str("Apache License 2.0")),
        language: Some(String::from_str("Hebrew")),
        size: None,
    }
}

fn make_jpress() -> (r: Resource)
    ensures
        r@ == entry_jpress(),
{
    let mut technologies: Vec<String> = Vec::new();
    technologies.push(String::from_str("NLP"));
    technologies.push(String::from_str("OCR"));
    assert(text_views(technologies@) =~= entry_jpress().technologies);
    Resource {
        name: String::from_str("JPress"),
        url: String::from_str("http://www.jpress.org.il"),
        description: String::from_str("אוסף עיתונים יהודיים שפורסמו במדינות, שפות ותקופות שונות"),
        category: ResourceCategory::Corpus,
        subcategory: Some(String::from_str("Unannotated/General")),
        technologies,
        license: Some(String::from_str("Custom Terms of Use")),
        language: Some(String::from_str("Hebrew")),
        size: None,
    }
}

fn make_sefaria() -> (r: Resource)
    ensures
        r@ == entry_sefaria(),
{
    let mut technologies: Vec<String> = Vec::new();
    technologies.push(String::from_str("NLP"));
    assert(text_views(technologies@) =~= entry_sefaria().technologies);
    Resource {
        name: String::from_str("Sefaria"),
        url: String::from_str("https://github.com/Sefaria/Sefaria-Export/"),
        description: String::from_str("טקסטים יהודיים מובנים ומטא-דאטה עם רישיונות ציבוריים חופשיים"),
        category: ResourceCategory::Corpus,
        subcategory: Some(String::from_str("Unannotated/Specialized")),
        technologies,
        license: Some(String::from_str("Various")),
        language: Some(String::from_str("Hebrew")),
        size: None,
    }
}

fn make_hebrew_songs() -> (r: Resource)
    ensures
        r@ == entry_hebrew_songs(),
{
    let mut technologies: Vec<String> = Vec::new();
    technologies.push(String::from_str("NLP"));
    assert(text_views(technologies@) =~= entry_hebrew_songs().technologies);
    Resource {
        name: String::from_str("Hebrew Songs Lyrics"),
        url: String::from_str("https://www.kaggle.com/datasets/guybarash/hebrew-songs-lyrics"),
        description: String::from_str("כ-15,000 שירים ישראליים שנאספו מאתר שירונט"),
        category: ResourceCategory::Corpus,
        subcategory: Some(String::from_str("Unannotated/Specialized")),
        technologies,
        license: Some(String::from_str("CC BY-SA 4.0")),
        language: Some(String::from_str("Hebrew")),
        size: Some(String::from_str("15,000 songs")),
    }
}

fn make_oscar() -> (r: Resource)
    ensures
        r@ == entry_oscar(),
{
    let mut technologies: Vec<String> = Vec::new();
    technologies.push(String::from_str("NLP"));
    assert(text_views(technologies@) =~= entry_oscar().technologies);
    Resource {
        name: String::from_str("OSCAR"),
        url: String::from_str("https://oscar-corpus.com/"),
        description: String::from_str("קורפוס רב-לשוני גדול שנוצר מסינון של Common Crawl"),
        category: ResourceCategory::Corpus,
        subcategory: Some(String::from_str("Multilingual")),
        technologies,
        license: Some(String::from_str("CC BY 4.0")),
        language: Some(String::from_str("Multilingual")),
        size: None,
    }
}

fn make_cc100() -> (r: Resource)
    ensures
        r@ == entry_cc100(),
{
    let mut technologies: Vec<String> = Vec::new();
    technologies.push(String::from_str("NLP"));
    assert(text_views(technologies@) =~= entry_cc100().technologies);
    Resource {
        name: String::from_str("CC100"),
        url: String::from_str("https://data.statmt.org/cc-100/"),
        description: String::from_str("קורפוס המכיל נתונים חד-לשוניים עבור יותר מ-100 שפות"),
        category: ResourceCategory::Corpus,
        subcategory: Some(String::from_str("Multilingual")),
        technologies,
        license: Some(String::from_str("MIT")),
        language: Some(String::from_str("Multilingual")),
        size: None,
    }
}

fn make_nemo() -> (r: Resource)
    ensures
        r@ == entry_nemo(),
{
    let mut technologies: Vec<String> = Vec::new();
    technologies.push(String::from_str("NLP"));
    technologies.push(String::from_str("NER"));
    assert(text_views(technologies@) =~= entry_nemo().technologies);
    Resource {
        name: String::from_str("NEMO"),
        url: String::from_str("https://github.com/OnlpLab/NEMO-Corpus"),
        description: String::from_str("אנוטציות של ישויות מוכרות בקורפוס העץ העברי"),
        category: ResourceCategory::Corpus,
        subcategory: Some(String::from_str("Annotated/NER")),
        technologies,
        license: Some(String::from_str("CC BY 4.0")),
        language: Some(String::from_str("Hebrew")),
        size: None,
    }
}

fn make_ivrit_ai_corpus() -> (r: Resource)
    ensures
        r@ == entry_ivrit_ai_corpus(),
{
    let mut technologies: Vec<String> = Vec::new();
    technologies.push(String::from_str("Speech"));
    technologies.push(String::from_str("ASR"));
    assert(text_views(technologies@) =~= entry_ivrit_ai_corpus().technologies);
    Resource {
        name: String::from_str("ivrit.ai Corpus"),
        url: String::from_str("https://huggingface.co/ivrit-ai"),
        description: String::from_str("מאגר נתוני דיבור בעברית הכולל כ-15,000 שעות של הקלטות מתומללות אוטומטית"),
        category: ResourceCategory::AudioCorpus,
        subcategory: None,
        technologies,
        license: Some(String::from_str("CC BY 4.0")),
        language: Some(String::from_str("Hebrew")),
        size: Some(String::from_str("15,000 hours")),
    }
}

fn make_mila_lexicon() -> (r: Resource)
    ensures
        r@ == entry_mila_lexicon(),
{
    let mut technologies: Vec<String> = Vec::new();
    technologies.push(String::from_str("NLP"));
    technologies.push(String::from_str("Morphology"));
    assert(text_views(technologies@) =~= entry_mila_lexicon().technologies);
    Resource {
        name: String::from_str("The MILA lexicon of Hebrew words"),
        url: String::from_str("http://www.mila.cs.technion.ac.il/resources_lexicons_mila.html"),
        description: String::from_str("לקסיקון המכיל כ-25,000 ערכים לשימוש במנתחים מורפולוגיים"),
        category: ResourceCategory::LexicalResource,
        subcategory: Some(String::from_str("Monolingual")),
        technologies,
        license: Some(String::from_str("GPLv3")),
        language: Some(String::from_str("Hebrew")),
        size: Some(String::from_str("25,000 entries")),
    }
}

fn make_heq() -> (r: Resource)
    ensures
        r@ == entry_heq(),
{
    let mut technologies: Vec<String> = Vec::new();
    technologies.push(String::from_str("NLP"));
    technologies.push(String::from_str("QA"));
    assert(text_views(technologies@) =~= entry_heq().technologies);
    Resource {
        name: String::from_str("HeQ"),
        url: String::from_str("https://github.com/NNLP-IL/Hebrew-Question-Answering-Dataset"),
        description: String::from_str("מאגר נתונים של 30,147 שאלות בעברית מודרנית עם תשובות מתוך הטקסט"),
        category: ResourceCategory::Corpus,
        subcategory: Some(String::from_str("Annotated/QA")),
        technologies,
        license: Some(String::from_str("CC BY 4.0")),
        language: Some(String::from_str("Hebrew")),
        size: Some(String::from_str("30,147 questions")),
    }
}

fn make_parashoot() -> (r: Resource)
    ensures
        r@ == entry_parashoot(),
{
    let mut technologies: Vec<String> = Vec::new();
    technologies.push(String::from_str("NLP"));
    technologies.push(String::from_str("QA"));
    assert(text_views(technologies@) =~= entry_parashoot().technologies);
    Resource {
        name: String::from_str("ParaShoot"),
        url: String::from_str("https://github.com/omrikeren/ParaShoot"),
        description: String::from_str("מאגר נתונים של שאלות ותשובות בסגנון SQuAD, מבוסס על ערכים מויקיפדיה"),
        category: ResourceCategory::Corpus,
        subcategory: Some(String::from_str("Annotated/QA")),
        technologies,
        license: None,
        language: Some(String::from_str("Hebrew")),
        size: Some(String::from_str("3,000 QA pairs")),
    }
}

fn make_hebrew_sentiment() -> (r: Resource)
    ensures
        r@ == entry_hebrew_sentiment(),
{
    let mut technologies: Vec<String> = Vec::new();
    technologies.push(String::from_str("NLP"));
    technologies.push(String::from_str("Sentiment Analysis"));
    assert(text_views(technologies@) =~= entry_hebrew_sentiment().technologies);
    Resource {
        name: String::from_str("Hebrew-Sentiment-Data"),
        url: String::from_str("https://github.com/OnlpLab/Hebrew-Sentiment-Data"),
        description: String::from_str("מאגר נתונים לניתוח רגשות בעברית, מבוסס על 12,000 תגובות מרשתות חברתיות"),
        category: ResourceCategory::Corpus,
        subcategory: Some(String::from_str("Annotated/Sentiment")),
        technologies,
        license: None,
        language: Some(String::from_str("Hebrew")),
        size: Some(String::from_str("12,000 comments")),
    }
}

fn make_emotion_ugc() -> (r: Resource)
    ensures
        r@ == entry_emotion_ugc(),
{
    let mut technologies: Vec<String> = Vec::new();
    technologies.push(String::from_str("NLP"));
    technologies.push(String::from_str("Emotion Detection"));
    assert(text_views(technologies@) =~= entry_emotion_ugc().technologies);
    Resource {
        name: String::from_str("Emotion User Generated Content"),
        url: String::from_str("https://github.com/avichaychriqui/HeBERT"),
        description: String::from_str("מאגר תגובות מאתרי חדשות ישראליים עם תיוג רגשות ורגש כללי"),
        category: ResourceCategory::Corpus,
        subcategory: Some(String::from_str("Annotated/Emotion")),
        technologies,
        license: Some(String::from_str("MIT")),
        language: Some(String::from_str("Hebrew")),
        size: Some(String::from_str("350K sentences")),
    }
}

fn make_knesset_topics() -> (r: Resource)
    ensures
        r@ == entry_knesset_topics(),
{
    let mut technologies: Vec<String> = Vec::new();
    technologies.push(String::from_str("NLP"));
    technologies.push(String::from_str("Topic Classification"));
    assert(text_views(technologies@) =~= entry_knesset_topics().technologies);
    Resource {
        name: String::from_str("Knesset Topic Classification"),
        url: String::from_str("https://github.com/NitzanBarzilay/KnessetTopicClassification/"),
        description: String::from_str("כ-2,700 ציטוטים מישיבות הכנסת מסווגים לשמונה נושאים"),
        category: ResourceCategory::Corpus,
        subcategory: Some(String::from_str("Annotated/Topic")),
        technologies,
        license: None,
        language: Some(String::from_str("Hebrew")),
        size: Some(String::from_str("2,700 quotes")),
    }
}

fn make_hebnli() -> (r: Resource)
    ensures
        r@ == entry_hebnli(),
{
    let mut technologies: Vec<String> = Vec::new();
    technologies.push(String::from_str("NLP"));
    technologies.push(String::from_str("NLI"));
    assert(text_views(technologies@) =~= entry_hebnli().technologies);
    Resource {
        name: String::from_str("HebNLI"),
        url: String::from_str("https://github.com/NNLP-IL/HebNLI"),
        description: String::from_str("מאגר נתונים להסקה טקסטואלית בעברית, מבוסס על תרגום של MultiNLI"),
        category: ResourceCategory::Corpus,
        subcategory: Some(String::from_str("Annotated/NLI")),
        technologies,
        license: Some(String::from_str("CC BY 4.0")),
        language: Some(String::from_str("Hebrew")),
        size: None,
    }
}

fn make_hesum() -> (r: Resource)
    ensures
        r@ == entry_hesum(),
{
    let mut technologies: Vec<String> = Vec::new();
    technologies.push(String::from_str("NLP"));
    technologies.push(String::from_str("Text Summarization"));
    assert(text_views(technologies@) =~= entry_hesum().technologies);
    Resource {
        name: String::from_str("HeSum"),
        url: String::from_str("https://github.com/OnlpLab/HeSum"),
        description: String::from_str("מאגר נתונים לסיכום אבסטרקטיבי בעברית מודרנית, מכיל 10,000 מאמרים עם סיכומים"),
        category: ResourceCategory::Corpus,
        subcategory: Some(String::from_str("Annotated/Summarization")),
        technologies,
        license: None,
        language: Some(String::from_str("Hebrew")),
        size: Some(String::from_str("10,000 articles")),
    }
}

fn make_fasttext_hebrew() -> (r: Resource)
    ensures
        r@ == entry_fasttext_hebrew(),
{
    let mut technologies: Vec<String> = Vec::new();
    technologies.push(String::from_str("NLP"));
    technologies.push(String::from_str("Word Embeddings"));
    technologies.push(String::from_str("fastText"));
    assert(text_views(technologies@) =~= entry_fasttext_hebrew().technologies);
    Resource {
        name: String::from_str("fastText pre-trained word vectors"),
        url: String::from_str("https://github.com/facebookresearch/fastText/blob/master/docs/pretrained-vectors.md"),
        description: String::from_str("וקטורי מילים שאומנו על ויקיפדיה העברית באמצעות fastText"),
        category: ResourceCategory::WordEmbedding,
        subcategory: None,
        technologies,
        license: Some(String::from_str("CC-BY-SA 3.0")),
        language: Some(String::from_str("Hebrew")),
        size: None,
    }
}

fn make_hebrew_w2v() -> (r: Resource)
    ensures
        r@ == entry_hebrew_w2v(),
{
    let mut technologies: Vec<String> = Vec::new();
    technologies.push(String::from_str("NLP"));
    technologies.push(String::from_str("Word Embeddings"));
    technologies.push(String::from_str("Word2Vec"));
    assert(text_views(technologies@) =~= entry_hebrew_w2v().technologies);
    Resource {
        name: String::from_str("hebrew-word2vec"),
        url: String::from_str("https://github.com/Ronshm/hebrew-word2vec"),
        description: String::from_str("וקטורי מילים שאומנו על נתונים מטוויטר, מכיל וקטורים ל-1.4M מילים"),
        category: ResourceCategory::WordEmbedding,
        subcategory: None,
        technologies,
        license: Some(String::from_str("Apache License 2.0")),
        language: Some(String::from_str("Hebrew")),
        size: Some(String::from_str("1.4M words")),
    }
}

fn make_hebrew_medical_audio() -> (r: Resource)
    ensures
        r@ == entry_hebrew_medical_audio(),
{
    let mut technologies: Vec<String> = Vec::new();
    technologies.push(String::from_str("Speech"));
    technologies.push(String::from_str("Medical"));
    assert(text_views(technologies@) =~= entry_hebrew_medical_audio().technologies);
    Resource {
        name: String::from_str("Hebrew Medical Audio Dataset - Verbit"),
        url: String::from_str("https://huggingface.co/datasets/verbit/hebrew_medical_audio"),
        description: String::from_str("מאגר הקלטות של סיכומים קליניים בעברית מ-41 דוברים שונים"),
        category: ResourceCategory::AudioCorpus,
        subcategory: None,
        technologies,
        license: Some(String::from_str("CC BY-NC 4.0")),
        language: Some(String::from_str("Hebrew")),
        size: Some(String::from_str("1000+ recordings")),
    }
}

fn make_hebdb() -> (r: Resource)
    ensures
        r@ == entry_hebdb(),
{
    let mut technologies: Vec<String> = Vec::new();
    technologies.push(String::from_str("Speech"));
    assert(text_views(technologies@) =~= entry_hebdb().technologies);
    Resource {
        name: String::from_str("HebDB"),
        url: String::from_str("https://pages.cs.huji.ac.il/adiyoss-lab/HebDB/"),
        description: String::from_str("מאגר נתוני דיבור בעברית עם כ-2500 שעות של הקלטות טבעיות וספונטניות"),
        category: ResourceCategory::AudioCorpus,
        subcategory: None,
        technologies,
        license: Some(String::from_str("CC BY 4.0")),
        language: Some(String::from_str("Hebrew")),
        size: Some(String::from_str("2500 hours")),
    }
}

fn make_hebrew_wordnet() -> (r: Resource)
    ensures
        r@ == entry_hebrew_wordnet(),
{
    let mut technologies: Vec<String> = Vec::new();
    technologies.push(String::from_str("NLP"));
    technologies.push(String::from_str("WordNet"));
    assert(text_views(technologies@) =~= entry_hebrew_wordnet().technologies);
    Resource {
        name: String::from_str("Hebrew WordNet"),
        url: String::from_str("http://www.mila.cs.technion.ac.il/resources_lexicons_wordnet.html"),
        description: String::from_str("וורדנט עברי המיושר עם WordNet באנגלית, איטלקית וספרדית"),
        category: ResourceCategory::LexicalResource,
        subcategory: Some(String::from_str("Multilingual")),
        technologies,
        license: Some(String::from_str("GPLv3")),
        language: Some(String::from_str("Multilingual")),
        size: None,
    }
}

fn make_word2word() -> (r: Resource)
    ensures
        r@ == entry_word2word(),
{
    let mut technologies: Vec<String> = Vec::new();
    technologies.push(String::from_str("NLP"));
    technologies.push(String::from_str("Translation"));
    assert(text_views(technologies@) =~= entry_word2word().technologies);
    Resource {
        name: String::from_str("word2word"),
        url: String::from_str("https://github.com/Kyubyong/word2word"),
        description: String::from_str("תרגומים מילה-למילה עבור 3,564 זוגות שפות, כולל עברית"),
        category: ResourceCategory::LexicalResource,
        subcategory: Some(String::from_str("Multilingual")),
        technologies,
        license: Some(String::from_str("Apache License 2.0")),
        language: Some(String::from_str("Multilingual")),
        size: None,
    }
}

fn make_hebrew_stopwords() -> (r: Resource)
    ensures
        r@ == entry_hebrew_stopwords(),
{
    let mut technologies: Vec<String> = Vec::new();
    technologies.push(String::from_str("NLP"));
    assert(text_views(technologies@) =~= entry_hebrew_stopwords().technologies);
    Resource {
        name: String::from_str("Hebrew Stop Words based on UD"),
        url: String::from_str("https://github.com/NNLP-IL/Stop-Words-Hebrew"),
        description: String::from_str("רשימת מילות עצירה בעברית שנוצרה באמצעות Universal Dependencies"),
        category: ResourceCategory::LexicalResource,
        subcategory: Some(String::from_str("Word Lists")),
        technologies,
        license: Some(String::from_str("CC-BY-SA 4.0")),
        language: Some(String::from_str("Hebrew")),
        size: None,
    }
}

fn make_hebrew_wordlists() -> (r: Resource)
    ensures
        r@ == entry_hebrew_wordlists(),
{
    let mut technologies: Vec<String> = Vec::new();
    technologies.push(String::from_str("NLP"));
    assert(text_views(technologies@) =~= entry_hebrew_wordlists().technologies);
    Resource {
        name: String::from_str("Hebrew WordLists"),
        url: String::from_str("https://github.com/eyaler/hebrew_wordlists"),
        description: String::from_str("רשימות מילים שימושיות שחולצו מ-Hspell 1.4"),
        category: ResourceCategory::LexicalResource,
        subcategory: Some(String::from_str("Word Lists")),
        technologies,
        license: Some(String::from_str("AGPL-3.0")),
        language: Some(String::from_str("Hebrew")),
        size: None,
    }
}

fn make_berel() -> (r: Resource)
    ensures
        r@ == entry_berel(),
{
    let mut technologies: Vec<String> = Vec::new();
    technologies.push(String::from_str("NLP"));
    technologies.push(String::from_str("BERT"));
    assert(text_views(technologies@) =~= entry_berel().technologies);
    Resource {
        name: String::from_str("BEREL"),
        url: String::from_str("https://www.dropbox.com/sh/us98wjb178itjk1/AACWu62ffHJ0zk19i77_rV06a"),
        description: String::from_str("מודל שפה מאומן מראש לעברית רבנית"),
        category: ResourceCategory::WordEmbedding,
        subcategory: Some(String::from_str("Language Models")),
        technologies,
        license: None,
        language: Some(String::from_str("Hebrew")),
        size: None,
    }
}

fn make_heb_architecture_corpus() -> (r: Resource)
    ensures
        r@ == entry_heb_architecture_corpus(),
{
    let mut technologies: Vec<String> = Vec::new();
    technologies.push(String::from_str("NLP"));
    technologies.push(String::from_str("OCR"));
    technologies.push(String::from_str("Architecture"));
    assert(text_views(technologies@) =~= entry_heb_architecture_corpus().technologies);
    Resource {
        name: String::from_str("Hebrew Architecture Corpus"),
        url: String::from_str("https://github.com/bdar-lab/heb_architecture_corpus"),
        description: String::from_str("קורפוס טקסטואלי בעברית בנושאי בנייה, תכנון ואדריכלות. כולל מסמכים ממגוון מקורות כמו צווים חקיקתיים, הנחיות רגולטוריות, דוחות מחקר, מחקרים אקדמיים וכתבי עת מקצועיים"),
        category: ResourceCategory::Corpus,
        subcategory: Some(String::from_str("Unannotated/Specialized")),
        technologies,
        license: Some(String::from_str("CC BY 4.0")),
        language: Some(String::from_str("Hebrew")),
        size: None,
    }
}

fn make_nestor() -> (r: Resource)
    ensures
        r@ == entry_nestor(),
{
    let mut technologies: Vec<String> = Vec::new();
    technologies.push(String::from_str("TLP"));
    technologies.push(String::from_str("Maintenance"));
    technologies.push(String::from_str("Annotation"));
    assert(text_views(technologies@) =~= entry_nestor().technologies);
    Resource {
        name: String::from_str("Nestor"),
        url: String::from_str("https://github.com/usnistgov/nestor"),
        description: String::from_str("ממשק משתמש גרפי לתיוג נתוני תחזוקה ועיבוד שפה טכנית"),
        category: ResourceCategory::AnnotationTool,
        subcategory: Some(String::from_str("TLP")),
        technologies,
        license: Some(String::from_str("Public Domain")),
        language: Some(String::from_str("Multilingual")),
        size: None,
    }
}

fn make_maintnet() -> (r: Resource)
    ensures
        r@ == entry_maintnet(),
{
    let mut technologies: Vec<String> = Vec::new();
    technologies.push(String::from_str("TLP"));
    technologies.push(String::from_str("Maintenance"));
    technologies.push(String::from_str("NLP"));
    assert(text_views(technologies@) =~= entry_maintnet().technologies);
    Resource {
        name: String::from_str("MaintNet"),
        url: String::from_str("https://github.com/maintnet/maintnet"),
        description: String::from_str("ספריה שיתופית של כלים ונתונים לעיבוד שפה טכנית בתחום התחזוקה"),
        category: ResourceCategory::MaintenanceData,
        subcategory: Some(String::from_str("TLP")),
        technologies,
        license: Some(String::from_str("MIT")),
        language: Some(String::from_str("Multilingual")),
        size: None,
    }
}

fn make_excavator_maintenance() -> (r: Resource)
    ensures
        r@ == entry_excavator_maintenance(),
{
    let mut technologies: Vec<String> = Vec::new();
    technologies.push(String::from_str("TLP"));
    technologies.push(String::from_str("Maintenance"));
    assert(text_views(technologies@) =~= entry_excavator_maintenance().technologies);
    Resource {
        name: String::from_str("Excavator Maintenance Dataset"),
        url: String::from_str("https://github.com/usnistgov/excavator"),
        description: String::from_str("מאגר נתוני תחזוקה של מחפרים, כולל גרסאות מנוקות ולא מנוקות"),
        category: ResourceCategory::TechnicalCorpus,
        subcategory: Some(String::from_str("Maintenance")),
        technologies,
        license: Some(String::from_str("Public Domain")),
        language: Some(String::from_str("English")),
        size: None,
    }
}

fn make_iso_15926() -> (r: Resource)
    ensures
        r@ == entry_iso_15926(),
{
    let mut technologies: Vec<String> = Vec::new();
    technologies.push(String::from_str("Process Plants"));
    technologies.push(String::from_str("Documentation"));
    assert(text_views(technologies@) =~= entry_iso_15926().technologies);
    Resource {
        name: String::from_str("ISO 15926-4:2019"),
        url: String::from_str("https://www.iso.org/standard/74389.html"),
        description: String::from_str("תקן לתיעוד מידע על מתקני תהליך"),
        category: ResourceCategory::TechnicalStandard,
        subcategory: None,
        technologies,
        license: Some(String::from_str("ISO")),
        language: Some(String::from_str("English")),
        size: None,
    }
}

fn make_romain() -> (r: Resource)
    ensures
        r@ == entry_romain(),
{
    let mut technologies: Vec<String> = Vec::new();
    technologies.push(String::from_str("TLP"));
    technologies.push(String::from_str("Maintenance"));
    technologies.push(String::from_str("Ontology"));
    assert(text_views(technologies@) =~= entry_romain().technologies);
    Resource {
        name: String::from_str("ROMAIN"),
        url: String::from_str("https://github.com/romain-ontology/romain"),
        description: String::from_str("אונטולוגיה לניהול תחזוקה"),
        category: ResourceCategory::TechnicalOntology,
        subcategory: Some(String::from_str("Maintenance")),
        technologies,
        license: Some(String::from_str("Apache License 2.0")),
        language: Some(String::from_str("English")),
        size: None,
    }
}

/// Resource `m` answers query `q`, over mathematical values.
pub open spec fn model_answers(m: ResourceModel, q: QueryModel) -> bool {
    match q {
        QueryModel::Category(c) => m.category == c,
        QueryModel::Subcategory(s) => m.subcategory == Some(s),
        QueryModel::Search(text) => contains_text(lowercase_of(m.name), lowercase_of(text))
            || contains_text(lowercase_of(m.description), lowercase_of(text)) || exists|i: int|
            0 <= i < m.technologies.len() && contains_text(
                lowercase_of(#[trigger] m.technologies[i]),
                lowercase_of(text),
            ),
        QueryModel::Language(l) => m.language == Some(l),
        QueryModel::Format(f) => format_of(m.url) == Some(f),
        QueryModel::Technical => is_technical_category(m.category) || m.technologies.contains(
            "TLP"@,
        ),
    }
}

/// The values of `all` that answer `q`, in their order.
pub open spec fn chosen(all: Seq<ResourceModel>, q: QueryModel) -> Seq<ResourceModel>
    decreases all.len(),
{
    if all.len() == 0 {
        Seq::empty()
    } else if model_answers(all.last(), q) {
        chosen(all.drop_last(), q).push(all.last())
    } else {
        chosen(all.drop_last(), q)
    }
}

/// Whether a resource answers a query shows in its value.
pub proof fn lemma_answers_by_view(r: Resource, q: QueryModel)
    ensures
        answers(r, q) == model_answers(r@, q),
{
    let views = text_views(r.technologies@);
    match q {
        QueryModel::Search(text) => {
            let needle = lowercase_of(text);
            if some_technology_holds(r.technologies@, needle) {
                let i = choose|i: int|
                    0 <= i < r.technologies@.len() && contains_text(
                        lowercase_of((#[trigger] r.technologies@[i])@),
                        needle,
                    );
                assert(views[i] == r.technologies@[i]@);
            }
            if exists|i: int|
                0 <= i < views.len() && contains_text(lowercase_of(#[trigger] views[i]), needle) {
                let i = choose|i: int|
                    0 <= i < views.len() && contains_text(lowercase_of(#[trigger] views[i]), needle);
                assert(views[i] == r.technologies@[i]@);
            }
        },
        QueryModel::Technical => {
            if has_technology(r.technologies@, "TLP"@) {
                let i = choose|i: int|
                    0 <= i < r.technologies@.len() && (#[trigger] r.technologies@[i])@ == "TLP"@;
                assert(views[i] == "TLP"@);
            }
            if views.contains("TLP"@) {
                let i = choose|i: int| 0 <= i < views.len() && views[i] == "TLP"@;
                assert(r.technologies@[i]@ == "TLP"@);
            }
        },
        _ => {},
    }
}

/// What a query selects among resources is, as values, what it chooses
/// among their values.
pub proof fn lemma_selected_by_view(items: Seq<Resource>, q: QueryModel)
    ensures
        resource_views(selected(items, q)) == chosen(resource_views(items), q),
    decreases items.len(),
{
    if items.len() == 0 {
        assert(resource_views(selected(items, q)) =~= chosen(resource_views(items), q));
    } else {
        let earlier = items.drop_last();
        lemma_selected_by_view(earlier, q);
        lemma_answers_by_view(items.last(), q);
        assert(resource_views(items).drop_last() =~= resource_views(earlier));
        assert(resource_views(items).last() == items.last()@);
        if answers(items.last(), q) {
            assert(resource_views(selected(earlier, q).push(items.last())) =~= resource_views(
                selected(earlier, q),
            ).push(items.last()@));
        }
    }
}

/// What is chosen among the first `n + 1` values: what is chosen among the
/// first `n`, and the next value if it answers.
pub proof fn lemma_chosen_step(all: Seq<ResourceModel>, q: QueryModel, n: int)
    requires
        0 <= n < all.len(),
    ensures
        chosen(all.take(n + 1), q) == if model_answers(all[n], q) {
            chosen(all.take(n), q).push(all[n])
        } else {
            chosen(all.take(n), q)
        },
{
    assert(all.take(n + 1).drop_last() =~= all.take(n));
    assert(all.take(n + 1).last() == all[n]);
}

/// Every value that answers is chosen, and every chosen value answers and
/// stands among the values.
pub proof fn lemma_chosen_members(all: Seq<ResourceModel>, q: QueryModel)
    ensures
        forall|j: int| 0 <= j < chosen(all, q).len() ==> model_answers(#[trigger] chosen(all, q)[j], q),
        forall|j: int| 0 <= j < chosen(all, q).len() ==> all.contains(#[trigger] chosen(all, q)[j]),
        forall|i: int|
            0 <= i < all.len() && model_answers(#[trigger] all[i], q) ==> chosen(all, q).contains(
                all[i],
            ),
        chosen(all, q).len() <= all.len(),
    decreases all.len(),
{
    if all.len() > 0 {
        let earlier = all.drop_last();
        lemma_chosen_members(earlier, q);
        let picked = chosen(all, q);
        let before = chosen(earlier, q);
        assert forall|j: int| 0 <= j < picked.len() implies all.contains(#[trigger] picked[j]) by {
            if j < before.len() {
                let at = choose|at: int| 0 <= at < earlier.len() && earlier[at] == before[j];
                assert(all[at] == picked[j]);
            } else {
                assert(all[all.len() - 1] == picked[j]);
            }
        }
        assert forall|i: int| 0 <= i < all.len() && model_answers(#[trigger] all[i], q) implies picked.contains(
            all[i],
        ) by {
            if i < earlier.len() {
                assert(earlier[i] == all[i]);
                let at = choose|at: int| 0 <= at < before.len() && before[at] == earlier[i];
                assert(picked[at] == all[i]);
            } else {
                assert(picked[picked.len() - 1] == all[i]);
            }
        }
    }
}

/// The built-in catalogue holds resources in Hebrew.
pub proof fn lemma_catalogue_has_hebrew()
    ensures
        chosen(builtin_catalogue(), QueryModel::Language("Hebrew"@)).len() > 0,
{
    let all = builtin_catalogue();
    let q = QueryModel::Language("Hebrew"@);
    lemma_chosen_members(all, q);
    assert(all[0] == entry_hedc4());
    assert(model_answers(all[0], q));
    assert(chosen(all, q).contains(all[0]));
}

/// In the built-in catalogue the question-answering corpora are HeQ and
/// ParaShoot, and no others.
pub proof fn lemma_catalogue_question_answering()
    ensures
        chosen(builtin_catalogue(), QueryModel::Subcategory("Annotated/QA"@)) == seq![
            entry_heq(),
            entry_parashoot(),
        ],
{
    let all = builtin_catalogue();
    let query = QueryModel::Subcategory("Annotated/QA"@);
    reveal_strlit("Annotated/Emotion");
    reveal_strlit("Annotated/NER");
    reveal_strlit("Annotated/NLI");
    reveal_strlit("Annotated/QA");
    reveal_strlit("Annotated/Sentiment");
    reveal_strlit("Annotated/Summarization");
    reveal_strlit("Annotated/Topic");
    reveal_strlit("Language Models");
    reveal_strlit("Maintenance");
    reveal_strlit("Monolingual");
    reveal_strlit("Multilingual");
    reveal_strlit("TLP");
    reveal_strlit("Unannotated/General");
    reveal_strlit("Unannotated/Specialized");
    reveal_strlit("Word Lists");
    assert("Annotated/Emotion"@.len() != "Annotated/QA"@.len());
    assert("Annotated/NER"@.len() != "Annotated/QA"@.len());
    assert("Annotated/NLI"@.len() != "Annotated/QA"@.len());
    assert("Annotated/Sentiment"@.len() != "Annotated/QA"@.len());
    assert("Annotated/Summarization"@.len() != "Annotated/QA"@.len());
    assert("Annotated/Topic"@.len() != "Annotated/QA"@.len());
    assert("Language Models"@.len() != "Annotated/QA"@.len());
    assert("Maintenance"@.len() != "Annotated/QA"@.len());
    assert("Monolingual"@.len() != "Annotated/QA"@.len());
    assert("Multilingual"@[0] != "Annotated/QA"@[0]);
    assert("TLP"@.len() != "Annotated/QA"@.len());
    assert("Unannotated/General"@.len() != "Annotated/QA"@.len());
    assert("Unannotated/Specialized"@.len() != "Annotated/QA"@.len());
    assert("Word Lists"@.len() != "Annotated/QA"@.len());
    assert(all.take(0) =~= Seq::<ResourceModel>::empty());
    lemma_chosen_step(all, query, 0);
    assert(all[0] == entry_hedc4());
    assert(!model_answers(all[0], query));
    assert(chosen(all.take(1), query) =~= Seq::<ResourceModel>::empty());
    lemma_chosen_step(all, query, 1);
    assert(all[1] == entry_jpress());
    assert(!model_answers(all[1], query));
    assert(chosen(all.take(2), query) =~= Seq::<ResourceModel>::empty());
    lemma_chosen_step(all, query, 2);
    assert(all[2] == entry_sefaria());
    assert(!model_answers(all[2], query));
    assert(chosen(all.take(3), query) =~= Seq::<ResourceModel>::empty());
    lemma_chosen_step(all, query, 3);
    assert(all[3] == entry_hebrew_songs());
    assert(!model_answers(all[3], query));
    assert(chosen(all.take(4), query) =~= Seq::<ResourceModel>::empty());
    lemma_chosen_step(all, query, 4);
    assert(all[4] == entry_oscar());
    assert(!model_answers(all[4], query));
    assert(chosen(all.take(5), query) =~= Seq::<ResourceModel>::empty());
    lemma_chosen_step(all, query, 5);
    assert(all[5] == entry_cc100());
    assert(!model_answers(all[5], query));
    assert(chosen(all.take(6), query) =~= Seq::<ResourceModel>::empty());
    lemma_chosen_step(all, query, 6);
    assert(all[6] == entry_nemo());
    assert(!model_answers(all[6], query));
    assert(chosen(all.take(7), query) =~= Seq::<ResourceModel>::empty());
    lemma_chosen_step(all, query, 7);
    assert(all[7] == entry_ivrit_ai_corpus());
    assert(!model_answers(all[7], query));
    assert(chosen(all.take(8), query) =~= Seq::<ResourceModel>::empty());
    lemma_chosen_step(all, query, 8);
    assert(all[8] == entry_mila_lexicon());
    assert(!model_answers(all[8], query));
    assert(chosen(all.take(9), query) =~= Seq::<ResourceModel>::empty());
    lemma_chosen_step(all, query, 9);
    assert(all[9] == entry_heq());
    assert(model_answers(all[9], query));
    assert(chosen(all.take(10), query) =~= seq![entry_heq()]);
    lemma_chosen_step(all, query, 10);
    assert(all[10] == entry_parashoot());
    assert(model_answers(all[10], query));
    assert(chosen(all.take(11), query) =~= seq![entry_heq(), entry_parashoot()]);
    lemma_chosen_step(all, query, 11);
    assert(all[11] == entry_hebrew_sentiment());
    assert(!model_answers(all[11], query));
    assert(chosen(all.take(12), query) =~= seq![entry_heq(), entry_parashoot()]);
    lemma_chosen_step(all, query, 12);
    assert(all[12] == entry_emotion_ugc());
    assert(!model_answers(all[12], query));
    assert(chosen(all.take(13), query) =~= seq![entry_heq(), entry_parashoot()]);
    lemma_chosen_step(all, query, 13);
    assert(all[13] == entry_knesset_topics());
    assert(!model_answers(all[13], query));
    assert(chosen(all.take(14), query) =~= seq![entry_heq(), entry_parashoot()]);
    lemma_chosen_step(all, query, 14);
    assert(all[14] == entry_hebnli());
    assert(!model_answers(all[14], query));
    assert(chosen(all.take(15), query) =~= seq![entry_heq(), entry_parashoot()]);
    lemma_chosen_step(all, query, 15);
    assert(all[15] == entry_hesum());
    assert(!model_answers(all[15], query));
    assert(chosen(all.take(16), query) =~= seq![entry_heq(), entry_parashoot()]);
    lemma_chosen_step(all, query, 16);
    assert(all[16] == entry_fasttext_hebrew());
    assert(!model_answers(all[16], query));
    assert(chosen(all.take(17), query) =~= seq![entry_heq(), entry_parashoot()]);
    lemma_chosen_step(all, query, 17);
    assert(all[17] == entry_hebrew_w2v());
    assert(!model_answers(all[17], query));
    assert(chosen(all.take(18), query) =~= seq![entry_heq(), entry_parashoot()]);
    lemma_chosen_step(all, query, 18);
    assert(all[18] == entry_hebrew_medical_audio());
    assert(!model_answers(all[18], query));
    assert(chosen(all.take(19), query) =~= seq![entry_heq(), entry_parashoot()]);
    lemma_chosen_step(all, query, 19);
    assert(all[19] == entry_hebdb());
    assert(!model_answers(all[19], query));
    assert(chosen(all.take(20), query) =~= seq![entry_heq(), entry_parashoot()]);
    lemma_chosen_step(all, query, 20);
    assert(all[20] == entry_hebrew_wordnet());
    assert(!model_answers(all[20], query));
    assert(chosen(all.take(21), query) =~= seq![entry_heq(), entry_parashoot()]);
    lemma_chosen_step(all, query, 21);
    assert(all[21] == entry_word2word());
    assert(!model_answers(all[21], query));
    assert(chosen(all.take(22), query) =~= seq![entry_heq(), entry_parashoot()]);
    lemma_chosen_step(all, query, 22);
    assert(all[22] == entry_hebrew_stopwords());
    assert(!model_answers(all[22], query));
    assert(chosen(all.take(23), query) =~= seq![entry_heq(), entry_parashoot()]);
    lemma_chosen_step(all, query, 23);
    assert(all[23] == entry_hebrew_wordlists());
    assert(!model_answers(all[23], query));
    assert(chosen(all.take(24), query) =~= seq![entry_heq(), entry_parashoot()]);
    lemma_chosen_step(all, query, 24);
    assert(all[24] == entry_berel());
    assert(!model_answers(all[24], query));
    assert(chosen(all.take(25), query) =~= seq![entry_heq(), entry_parashoot()]);
    lemma_chosen_step(all, query, 25);
    assert(all[25] == entry_heb_architecture_corpus());
    assert(!model_answers(all[25], query));
    assert(chosen(all.take(26), query) =~= seq![entry_heq(), entry_parashoot()]);
    lemma_chosen_step(all, query, 26);
    assert(all[26] == entry_nestor());
    assert(!model_answers(all[26], query));
    assert(chosen(all.take(27), query) =~= seq![entry_heq(), entry_parashoot()]);
    lemma_chosen_step(all, query, 27);
    assert(all[27] == entry_maintnet());
    assert(!model_answers(all[27], query));
    assert(chosen(all.take(28), query) =~= seq![entry_heq(), entry_parashoot()]);
    lemma_chosen_step(all, query, 28);
    assert(all[28] == entry_excavator_maintenance());
    assert(!model_answers(all[28], query));
    assert(chosen(all.take(29), query) =~= seq![entry_heq(), entry_parashoot()]);
    lemma_chosen_step(all, query, 29);
    assert(all[29] == entry_iso_15926());
    assert(!model_answers(all[29], query));
    assert(chosen(all.take(30), query) =~= seq![entry_heq(), entry_parashoot()]);
    lemma_chosen_step(all, query, 30);
    assert(all[30] == entry_romain());
    assert(!model_answers(all[30], query));
    assert(chosen(all.take(31), query) =~= seq![entry_heq(), entry_parashoot()]);
    assert(all.take(31) =~= all);
}

/// In the built-in catalogue the technical resources are Nestor, MaintNet,
/// the Excavator Maintenance Dataset, ISO 15926-4:2019 and ROMAIN, each
/// once, and no others.
pub proof fn lemma_catalogue_technical()
    ensures
        chosen(builtin_catalogue(), QueryModel::Technical) == seq![
            entry_nestor(),
            entry_maintnet(),
            entry_excavator_maintenance(),
            entry_iso_15926(),
            entry_romain(),
        ],
{
    let all = builtin_catalogue();
    reveal_strlit("ASR");
    reveal_strlit("Annotation");
    reveal_strlit("Architecture");
    reveal_strlit("BERT");
    reveal_strlit("Documentation");
    reveal_strlit("Emotion Detection");
    reveal_strlit("Maintenance");
    reveal_strlit("Medical");
    reveal_strlit("Morphology");
    reveal_strlit("NER");
    reveal_strlit("NLI");
    reveal_strlit("NLP");
    reveal_strlit("OCR");
    reveal_strlit("Ontology");
    reveal_strlit("Process Plants");
    reveal_strlit("QA");
    reveal_strlit("Sentiment Analysis");
    reveal_strlit("Speech");
    reveal_strlit("TLP");
    reveal_strlit("Text Summarization");
    reveal_strlit("Topic Classification");
    reveal_strlit("Translation");
    reveal_strlit("Word Embeddings");
    reveal_strlit("Word2Vec");
    reveal_strlit("WordNet");
    reveal_strlit("fastText");
    assert("ASR"@[0] != "TLP"@[0]);
    assert("Annotation"@.len() != "TLP"@.len());
    assert("Architecture"@.len() != "TLP"@.len());
    assert("BERT"@.len() != "TLP"@.len());
    assert("Documentation"@.len() != "TLP"@.len());
    assert("Emotion Detection"@.len() != "TLP"@.len());
    assert("Maintenance"@.len() != "TLP"@.len());
    assert("Medical"@.len() != "TLP"@.len());
    assert("Morphology"@.len() != "TLP"@.len());
    assert("NER"@[0] != "TLP"@[0]);
    assert("NLI"@[0] != "TLP"@[0]);
    assert("NLP"@[0] != "TLP"@[0]);
    assert("OCR"@[0] != "TLP"@[0]);
    assert("Ontology"@.len() != "TLP"@.len());
    assert("Process Plants"@.len() != "TLP"@.len());
    assert("QA"@.len() != "TLP"@.len());
    assert("Sentiment Analysis"@.len() != "TLP"@.len());
    assert("Speech"@.len() != "TLP"@.len());
    assert("Text Summarization"@.len() != "TLP"@.len());
    assert("Topic Classification"@.len() != "TLP"@.len());
    assert("Translation"@.len() != "TLP"@.len());
    assert("Word Embeddings"@.len() != "TLP"@.len());
    assert("Word2Vec"@.len() != "TLP"@.len());
    assert("WordNet"@.len() != "TLP"@.len());
    assert("fastText"@.len() != "TLP"@.len());
    assert(all.take(0) =~= Seq::<ResourceModel>::empty());
    lemma_chosen_step(all, QueryModel::Technical, 0);
    assert(all[0] == entry_hedc4());
    assert(!model_answers(all[0], QueryModel::Technical));
    assert(chosen(all.take(1), QueryModel::Technical) =~= Seq::<ResourceModel>::empty());
    lemma_chosen_step(all, QueryModel::Technical, 1);
    assert(all[1] == entry_jpress());
    assert(!model_answers(all[1], QueryModel::Technical));
    assert(chosen(all.take(2), QueryModel::Technical) =~= Seq::<ResourceModel>::empty());
    lemma_chosen_step(all, QueryModel::Technical, 2);
    assert(all[2] == entry_sefaria());
    assert(!model_answers(all[2], QueryModel::Technical));
    assert(chosen(all.take(3), QueryModel::Technical) =~= Seq::<ResourceModel>::empty());
    lemma_chosen_step(all, QueryModel::Technical, 3);
    assert(all[3] == entry_hebrew_songs());
    assert(!model_answers(all[3], QueryModel::Technical));
    assert(chosen(all.take(4), QueryModel::Technical) =~= Seq::<ResourceModel>::empty());
    lemma_chosen_step(all, QueryModel::Technical, 4);
    assert(all[4] == entry_oscar());
    assert(!model_answers(all[4], QueryModel::Technical));
    assert(chosen(all.take(5), QueryModel::Technical) =~= Seq::<ResourceModel>::empty());
    lemma_chosen_step(all, QueryModel::Technical, 5);
    assert(all[5] == entry_cc100());
    assert(!model_answers(all[5], QueryModel::Technical));
    assert(chosen(all.take(6), QueryModel::Technical) =~= Seq::<ResourceModel>::empty());
    lemma_chosen_step(all, QueryModel::Technical, 6);
    assert(all[6] == entry_nemo());
    assert(!model_answers(all[6], QueryModel::Technical));
    assert(chosen(all.take(7), QueryModel::Technical) =~= Seq::<ResourceModel>::empty());
    lemma_chosen_step(all, QueryModel::Technical, 7);
    assert(all[7] == entry_ivrit_ai_corpus());
    assert(!model_answers(all[7], QueryModel::Technical));
    assert(chosen(all.take(8), QueryModel::Technical) =~= Seq::<ResourceModel>::empty());
    lemma_chosen_step(all, QueryModel::Technical, 8);
    assert(all[8] == entry_mila_lexicon());
    assert(!model_answers(all[8], QueryModel::Technical));
    assert(chosen(all.take(9), QueryModel::Technical) =~= Seq::<ResourceModel>::empty());
    lemma_chosen_step(all, QueryModel::Technical, 9);
    assert(all[9] == entry_heq());
    assert(!model_answers(all[9], QueryModel::Technical));
    assert(chosen(all.take(10), QueryModel::Technical) =~= Seq::<ResourceModel>::empty());
    lemma_chosen_step(all, QueryModel::Technical, 10);
    assert(all[10] == entry_parashoot());
    assert(!model_answers(all[10], QueryModel::Technical));
    assert(chosen(all.take(11), QueryModel::Technical) =~= Seq::<ResourceModel>::empty());
    lemma_chosen_step(all, QueryModel::Technical, 11);
    assert(all[11] == entry_hebrew_sentiment());
    assert(!model_answers(all[11], QueryModel::Technical));
    assert(chosen(all.take(12), QueryModel::Technical) =~= Seq::<ResourceModel>::empty());
    lemma_chosen_step(all, QueryModel::Technical, 12);
    assert(all[12] == entry_emotion_ugc());
    assert(!model_answers(all[12], QueryModel::Technical));
    assert(chosen(all.take(13), QueryModel::Technical) =~= Seq::<ResourceModel>::empty());
    lemma_chosen_step(all, QueryModel::Technical, 13);
    assert(all[13] == entry_knesset_topics());
    assert(!model_answers(all[13], QueryModel::Technical));
    assert(chosen(all.take(14), QueryModel::Technical) =~= Seq::<ResourceModel>::empty());
    lemma_chosen_step(all, QueryModel::Technical, 14);
    assert(all[14] == entry_hebnli());
    assert(!model_answers(all[14], QueryModel::Technical));
    assert(chosen(all.take(15), QueryModel::Technical) =~= Seq::<ResourceModel>::empty());
    lemma_chosen_step(all, QueryModel::Technical, 15);
    assert(all[15] == entry_hesum());
    assert(!model_answers(all[15], QueryModel::Technical));
    assert(chosen(all.take(16), QueryModel::Technical) =~= Seq::<ResourceModel>::empty());
    lemma_chosen_step(all, QueryModel::Technical, 16);
    assert(all[16] == entry_fasttext_hebrew());
    assert(!model_answers(all[16], QueryModel::Technical));
    assert(chosen(all.take(17), QueryModel::Technical) =~= Seq::<ResourceModel>::empty());
    lemma_chosen_step(all, QueryModel::Technical, 17);
    assert(all[17] == entry_hebrew_w2v());
    assert(!model_answers(all[17], QueryModel::Technical));
    assert(chosen(all.take(18), QueryModel::Technical) =~= Seq::<ResourceModel>::empty());
    lemma_chosen_step(all, QueryModel::Technical, 18);
    assert(all[18] == entry_hebrew_medical_audio());
    assert(!model_answers(all[18], QueryModel::Technical));
    assert(chosen(all.take(19), QueryModel::Technical) =~= Seq::<ResourceModel>::empty());
    lemma_chosen_step(all, QueryModel::Technical, 19);
    assert(all[19] == entry_hebdb());
    assert(!model_answers(all[19], QueryModel::Technical));
    assert(chosen(all.take(20), QueryModel::Technical) =~= Seq::<ResourceModel>::empty());
    lemma_chosen_step(all, QueryModel::Technical, 20);
    assert(all[20] == entry_hebrew_wordnet());
    assert(!model_answers(all[20], QueryModel::Technical));
    assert(chosen(all.take(21), QueryModel::Technical) =~= Seq::<ResourceModel>::empty());
    lemma_chosen_step(all, QueryModel::Technical, 21);
    assert(all[21] == entry_word2word());
    assert(!model_answers(all[21], QueryModel::Technical));
    assert(chosen(all.take(22), QueryModel::Technical) =~= Seq::<ResourceModel>::empty());
    lemma_chosen_step(all, QueryModel::Technical, 22);
    assert(all[22] == entry_hebrew_stopwords());
    assert(!model_answers(all[22], QueryModel::Technical));
    assert(chosen(all.take(23), QueryModel::Technical) =~= Seq::<ResourceModel>::empty());
    lemma_chosen_step(all, QueryModel::Technical, 23);
    assert(all[23] == entry_hebrew_wordlists());
    assert(!model_answers(all[23], QueryModel::Technical));
    assert(chosen(all.take(24), QueryModel::Technical) =~= Seq::<ResourceModel>::empty());
    lemma_chosen_step(all, QueryModel::Technical, 24);
    assert(all[24] == entry_berel());
    assert(!model_answers(all[24], QueryModel::Technical));
    assert(chosen(all.take(25), QueryModel::Technical) =~= Seq::<ResourceModel>::empty());
    lemma_chosen_step(all, QueryModel::Technical, 25);
    assert(all[25] == entry_heb_architecture_corpus());
    assert(!model_answers(all[25], QueryModel::Technical));
    assert(chosen(all.take(26), QueryModel::Technical) =~= Seq::<ResourceModel>::empty());
    lemma_chosen_step(all, QueryModel::Technical, 26);
    assert(all[26] == entry_nestor());
    assert(model_answers(all[26], QueryModel::Technical));
    assert(chosen(all.take(27), QueryModel::Technical) =~= seq![entry_nestor()]);
    lemma_chosen_step(all, QueryModel::Technical, 27);
    assert(all[27] == entry_maintnet());
    assert(model_answers(all[27], QueryModel::Technical));
    assert(chosen(all.take(28), QueryModel::Technical) =~= seq![entry_nestor(), entry_maintnet()]);
    lemma_chosen_step(all, QueryModel::Technical, 28);
    assert(all[28] == entry_excavator_maintenance());
    assert(model_answers(all[28], QueryModel::Technical));
    assert(chosen(all.take(29), QueryModel::Technical) =~= seq![entry_nestor(), entry_maintnet(), entry_excavator_maintenance()]);
    lemma_chosen_step(all, QueryModel::Technical, 29);
    assert(all[29] == entry_iso_15926());
    assert(model_answers(all[29], QueryModel::Technical));
    assert(chosen(all.take(30), QueryModel::Technical) =~= seq![entry_nestor(), entry_maintnet(), entry_excavator_maintenance(), entry_iso_15926()]);
    lemma_chosen_step(all, QueryModel::Technical, 30);
    assert(all[30] == entry_romain());
    assert(model_answers(all[30], QueryModel::Technical));
    assert(chosen(all.take(31), QueryModel::Technical) =~= seq![entry_nestor(), entry_maintnet(), entry_excavator_maintenance(), entry_iso_15926(), entry_romain()]);
    assert(all.take(31) =~= all);
}

/// The catalogue of resources, each under a name of its own.
pub struct HebrewResources {
    names: Vec<String>,
    items: Vec<Resource>,
}

impl HebrewResources {
    /// The names under which resources are entered, in the order of entry.
    pub closed spec fn names(&self) -> Seq<String> {
        self.names@
    }

    /// The resources, in the order of entry.
    pub closed spec fn all(&self) -> Seq<Resource> {
        self.items@
    }

    /// The names under which resources are entered, as texts.
    pub closed spec fn name_texts(&self) -> Seq<Seq<char>> {
        text_views(self.names@)
    }

    /// The catalogue's invariant: one resource for each name.
    pub closed spec fn well_formed(&self) -> bool {
        self.names@.len() == self.items@.len()
    }

    /// A resource is entered under `name`.
    pub open spec fn holds(&self, name: Seq<char>) -> bool {
        name_position(self.names(), name) < self.names().len()
    }

    /// The resource entered under `name`.
    pub open spec fn entry(&self, name: Seq<char>) -> Resource {
        self.all()[name_position(self.names(), name)]
    }

    fn find(&self, name: &str) -> (at: usize)
        ensures
            at == name_position(self.names(), name@),
            at <= self.names@.len(),
            at < self.names@.len() ==> self.names@[at as int]@ == name@,
            forall|i: int| 0 <= i < at ==> (#[trigger] self.names@[i])@ != name@,
    {
        let mut at: usize = 0;
        while at < self.names.len() && !same_text(self.names[at].as_str(), name)
            invariant
                0 <= at <= self.names@.len(),
                forall|i: int| 0 <= i < at ==> (#[trigger] self.names@[i])@ != name@,
            decreases self.names@.len() - at,
        {
            at += 1;
        }
        proof {
            lemma_name_position_found(self.names@, name@, at as int);
        }
        at
    }

    /// Enters `resource` under `name`, in place of what was entered there.
    fn put(&mut self, name: String, resource: Resource)
        requires
            old(self).well_formed(),
        ensures
            final(self).well_formed(),
            final(self).holds(name@),
            final(self).entry(name@) == resource,
            forall|other: Seq<char>|
                other != name@ ==> (#[trigger] final(self).holds(other)) == old(self).holds(other),
            forall|other: Seq<char>|
                other != name@ && old(self).holds(other) ==> #[trigger] final(self).entry(other) == old(
                    self,
                ).entry(other),
            old(self).holds(name@) ==> final(self).all().len() == old(self).all().len(),
            !old(self).holds(name@) ==> final(self).all().len() == old(self).all().len() + 1,
    {
        let at: usize = self.find(name.as_str());
        let ghost before = self.names@;
        let ghost items_before = self.items@;
        if at < self.names.len() {
            self.items[at] = resource;
            proof {
                assert forall|other: Seq<char>| other != name@ && old(self).holds(other) implies
                    #[trigger] self.entry(other) == old(self).entry(other) by {
                    lemma_name_position_range(before, other);
                }
            }
        } else {
            self.names.push(name);
            self.items.push(resource);
            proof {
                let after = self.names@;
                lemma_name_position_found(after, name@, at as int);
                assert forall|other: Seq<char>| other != name@ implies (#[trigger] self.holds(other))
                    == old(self).holds(other) by {
                    lemma_position_after_push(before, name, other);
                }
                assert forall|other: Seq<char>| other != name@ && old(self).holds(other) implies
                    #[trigger] self.entry(other) == old(self).entry(other) by {
                    lemma_position_after_push(before, name, other);
                    lemma_name_position_range(before, other);
                    let at_other = name_position(before, other);
                    assert(name_position(after, other) == at_other);
                    assert(self.items@ == items_before.push(resource));
                    assert(self.items@[at_other] == items_before[at_other]);
                }
            }
        }
    }

    /// The catalogue of the built-in resources.
    pub fn new() -> (r: Self)
        ensures
            r.well_formed(),
            r.name_texts() == builtin_names(),
            resource_views(r.all()) == builtin_catalogue(),
            r.holds("hedc4"@),
            r.holds("jpress"@),
            r.holds("sefaria"@),
            r.holds("hebrew_songs"@),
            r.holds("oscar"@),
            r.holds("cc100"@),
            r.holds("nemo"@),
            r.holds("ivrit_ai_corpus"@),
            r.holds("mila_lexicon"@),
            r.holds("heq"@),
            r.holds("parashoot"@),
            r.holds("hebrew_sentiment"@),
            r.holds("emotion_ugc"@),
            r.holds("knesset_topics"@),
            r.holds("hebnli"@),
            r.holds("hesum"@),
            r.holds("fasttext_hebrew"@),
            r.holds("hebrew_w2v"@),
            r.holds("hebrew_medical_audio"@),
            r.holds("hebdb"@),
            r.holds("hebrew_wordnet"@),
            r.holds("word2word"@),
            r.holds("hebrew_stopwords"@),
            r.holds("hebrew_wordlists"@),
            r.holds("berel"@),
            r.holds("heb_architecture_corpus"@),
            r.holds("nestor"@),
            r.holds("maintnet"@),
            r.holds("excavator_maintenance"@),
            r.holds("iso_15926"@),
            r.holds("romain"@),
    {
        let mut names: Vec<String> = Vec::new();
        let mut items: Vec<Resource> = Vec::new();
        names.push(String::from_str("hedc4"));
        items.push(make_hedc4());
        names.push(String::from_str("jpress"));
        items.push(make_jpress());
        names.push(String::from_str("sefaria"));
        items.push(make_sefaria());
        names.push(String::from_str("hebrew_songs"));
        items.push(make_hebrew_songs());
        names.push(String::from_str("oscar"));
        items.push(make_oscar());
        names.push(String::from_str("cc100"));
        items.push(make_cc100());
        names.push(String::from_str("nemo"));
        items.push(make_nemo());
        names.push(String::from_str("ivrit_ai_corpus"));
        items.push(make_ivrit_ai_corpus());
        names.push(String::from_str("mila_lexicon"));
        items.push(make_mila_lexicon());
        names.push(String::from_str("heq"));
        items.push(make_heq());
        names.push(String::from_str("parashoot"));
        items.push(make_parashoot());
        names.push(String::from_str("hebrew_sentiment"));
        items.push(make_hebrew_sentiment());
        names.push(String::from_str("emotion_ugc"));
        items.push(make_emotion_ugc());
        names.push(String::from_str("knesset_topics"));
        items.push(make_knesset_topics());
        names.push(String::from_str("hebnli"));
        items.push(make_hebnli());
        names.push(String::from_str("hesum"));
        items.push(make_hesum());
        names.push(String::from_str("fasttext_hebrew"));
        items.push(make_fasttext_hebrew());
        names.push(String::from_str("hebrew_w2v"));
        items.push(make_hebrew_w2v());
        names.push(String::from_str("hebrew_medical_audio"));
        items.push(make_hebrew_medical_audio());
        names.push(String::from_str("hebdb"));
        items.push(make_hebdb());
        names.push(String::from_str("hebrew_wordnet"));
        items.push(make_hebrew_wordnet());
        names.push(String::from_str("word2word"));
        items.push(make_word2word());
        names.push(String::from_str("hebrew_stopwords"));
        items.push(make_hebrew_stopwords());
        names.push(String::from_str("hebrew_wordlists"));
        items.push(make_hebrew_wordlists());
        names.push(String::from_str("berel"));
        items.push(make_berel());
        names.push(String::from_str("heb_architecture_corpus"));
        items.push(make_heb_architecture_corpus());
        names.push(String::from_str("nestor"));
        items.push(make_nestor());
        names.push(String::from_str("maintnet"));
        items.push(make_maintnet());
        names.push(String::from_str("excavator_maintenance"));
        items.push(make_excavator_maintenance());
        names.push(String::from_str("iso_15926"));
        items.push(make_iso_15926());
        names.push(String::from_str("romain"));
        items.push(make_romain());
        assert(text_views(names@) =~= builtin_names());
        assert(resource_views(items@) =~= builtin_catalogue());
        let r = HebrewResources { names, items };
        proof {
            assert forall|i: int| 0 <= i < r.names().len() implies r.names()[i]@ == builtin_names()[i] by {
                assert(text_views(r.names())[i] == r.names()[i]@);
            }
            assert(builtin_names()[0] == "hedc4"@);
            lemma_named_at(r.names(), 0);
            assert(r.holds("hedc4"@));
            assert(builtin_names()[1] == "jpress"@);
            lemma_named_at(r.names(), 1);
            assert(r.holds("jpress"@));
            assert(builtin_names()[2] == "sefaria"@);
            lemma_named_at(r.names(), 2);
            assert(r.holds("sefaria"@));
            assert(builtin_names()[3] == "hebrew_songs"@);
            lemma_named_at(r.names(), 3);
            assert(r.holds("hebrew_songs"@));
            assert(builtin_names()[4] == "oscar"@);
            lemma_named_at(r.names(), 4);
            assert(r.holds("oscar"@));
            assert(builtin_names()[5] == "cc100"@);
            lemma_named_at(r.names(), 5);
            assert(r.holds("cc100"@));
            assert(builtin_names()[6] == "nemo"@);
            lemma_named_at(r.names(), 6);
            assert(r.holds("nemo"@));
            assert(builtin_names()[7] == "ivrit_ai_corpus"@);
            lemma_named_at(r.names(), 7);
            assert(r.holds("ivrit_ai_corpus"@));
            assert(builtin_names()[8] == "mila_lexicon"@);
            lemma_named_at(r.names(), 8);
            assert(r.holds("mila_lexicon"@));
            assert(builtin_names()[9] == "heq"@);
            lemma_named_at(r.names(), 9);
            assert(r.holds("heq"@));
            assert(builtin_names()[10] == "parashoot"@);
            lemma_named_at(r.names(), 10);
            assert(r.holds("parashoot"@));
            assert(builtin_names()[11] == "hebrew_sentiment"@);
            lemma_named_at(r.names(), 11);
            assert(r.holds("hebrew_sentiment"@));
            assert(builtin_names()[12] == "emotion_ugc"@);
            lemma_named_at(r.names(), 12);
            assert(r.holds("emotion_ugc"@));
            assert(builtin_names()[13] == "knesset_topics"@);
            lemma_named_at(r.names(), 13);
            assert(r.holds("knesset_topics"@));
            assert(builtin_names()[14] == "hebnli"@);
            lemma_named_at(r.names(), 14);
            assert(r.holds("hebnli"@));
            assert(builtin_names()[15] == "hesum"@);
            lemma_named_at(r.names(), 15);
            assert(r.holds("hesum"@));
            assert(builtin_names()[16] == "fasttext_hebrew"@);
            lemma_named_at(r.names(), 16);
            assert(r.holds("fasttext_hebrew"@));
            assert(builtin_names()[17] == "hebrew_w2v"@);
            lemma_named_at(r.names(), 17);
            assert(r.holds("hebrew_w2v"@));
            assert(builtin_names()[18] == "hebrew_medical_audio"@);
            lemma_named_at(r.names(), 18);
            assert(r.holds("hebrew_medical_audio"@));
            assert(builtin_names()[19] == "hebdb"@);
            lemma_named_at(r.names(), 19);
            assert(r.holds("hebdb"@));
            assert(builtin_names()[20] == "hebrew_wordnet"@);
            lemma_named_at(r.names(), 20);
            assert(r.holds("hebrew_wordnet"@));
            assert(builtin_names()[21] == "word2word"@);
            lemma_named_at(r.names(), 21);
            assert(r.holds("word2word"@));
            assert(builtin_names()[22] == "hebrew_stopwords"@);
            lemma_named_at(r.names(), 22);
            assert(r.holds("hebrew_stopwords"@));
            assert(builtin_names()[23] == "hebrew_wordlists"@);
            lemma_named_at(r.names(), 23);
            assert(r.holds("hebrew_wordlists"@));
            assert(builtin_names()[24] == "berel"@);
            lemma_named_at(r.names(), 24);
            assert(r.holds("berel"@));
            assert(builtin_names()[25] == "heb_architecture_corpus"@);
            lemma_named_at(r.names(), 25);
            assert(r.holds("heb_architecture_corpus"@));
            assert(builtin_names()[26] == "nestor"@);
            lemma_named_at(r.names(), 26);
            assert(r.holds("nestor"@));
            assert(builtin_names()[27] == "maintnet"@);
            lemma_named_at(r.names(), 27);
            assert(r.holds("maintnet"@));
            assert(builtin_names()[28] == "excavator_maintenance"@);
            lemma_named_at(r.names(), 28);
            assert(r.holds("excavator_maintenance"@));
            assert(builtin_names()[29] == "iso_15926"@);
            lemma_named_at(r.names(), 29);
            assert(r.holds("iso_15926"@));
            assert(builtin_names()[30] == "romain"@);
            lemma_named_at(r.names(), 30);
            assert(r.holds("romain"@));
        }
        r
    }

    /// The resource entered under `name`, if there is one.
    pub fn get_resource(&self, name: &str) -> (r: Option<&Resource>)
        requires
            self.well_formed(),
        ensures
            match r {
                Some(found) => self.holds(name@) && *found == self.entry(name@),
                None => !self.holds(name@),
            },
    {
        let at: usize = self.find(name);
        if at < self.names.len() {
            Some(&self.items[at])
        } else {
            None
        }
    }

    /// The resources that answer a query, in the order of entry.
    pub fn query(&self, q: &ResourceQuery) -> (out: Vec<&Resource>)
        ensures
            referents(out@) == selected(self.all(), q@),
    {
        let mut out: Vec<&Resource> = Vec::new();
        let mut i: usize = 0;
        assert(self.items@.take(0) =~= Seq::<Resource>::empty());
        assert(referents(out@) =~= Seq::<Resource>::empty());
        while i < self.items.len()
            invariant
                0 <= i <= self.items@.len(),
                referents(out@) == selected(self.items@.take(i as int), q@),
            decreases self.items@.len() - i,
        {
            let ghost prior = referents(out@);
            assert(self.items@.take(i + 1).drop_last() =~= self.items@.take(i as int));
            assert(self.items@.take(i + 1).last() == self.items@[i as int]);
            if resource_answers(&self.items[i], q) {
                out.push(&self.items[i]);
                assert(referents(out@) =~= prior.push(self.items@[i as int]));
            }
            i += 1;
        }
        assert(self.items@.take(self.items@.len() as int) =~= self.items@);
        out
    }

    /// The resources of a category.
    pub fn get_resources_by_category(&self, category: &ResourceCategory) -> (out: Vec<&Resource>)
        ensures
            referents(out@) == selected(self.all(), QueryModel::Category(*category)),
    {
        self.query(&ResourceQuery::Category(*category))
    }

    /// The resources whose subcategory is `subcategory`.
    pub fn get_resources_by_subcategory(&self, subcategory: &str) -> (out: Vec<&Resource>)
        ensures
            referents(out@) == selected(self.all(), QueryModel::Subcategory(subcategory@)),
    {
        let q = ResourceQuery::Subcategory(copy_text(subcategory));
        self.query(&q)
    }

    /// The resources whose name, description or one of whose technologies
    /// holds `query`, letter case aside.
    pub fn search_resources(&self, query: &str) -> (out: Vec<&Resource>)
        ensures
            referents(out@) == selected(self.all(), QueryModel::Search(query@)),
    {
        let q = ResourceQuery::Search(copy_text(query));
        self.query(&q)
    }

    /// The resources in `language`.
    pub fn get_resources_by_language(&self, language: &str) -> (out: Vec<&Resource>)
        ensures
            referents(out@) == selected(self.all(), QueryModel::Language(language@)),
    {
        let q = ResourceQuery::Language(copy_text(language));
        self.query(&q)
    }

    /// The resources in `format`.
    pub fn get_resources_by_format(&self, format: &InputFormat) -> (out: Vec<&Resource>)
        ensures
            referents(out@) == selected(self.all(), QueryModel::Format(*format)),
    {
        self.query(&ResourceQuery::Format(*format))
    }

    /// The technical resources: those of a technical category, and those
    /// with the technology TLP.
    pub fn get_technical_resources(&self) -> (out: Vec<&Resource>)
        ensures
            referents(out@) == selected(self.all(), QueryModel::Technical),
    {
        self.query(&ResourceQuery::Technical)
    }

    /// Says how `text` of `resource` is processed, by the resource's
    /// format. Fails where the resource has no known format.
    pub fn process_resource(&self, resource: &Resource, text: &str) -> (r: Result<String, String>)
        ensures
            match r {
                Ok(said) => format_of(resource.url@) is Some && said@ == processing_prefix(
                    format_of(resource.url@)->0,
                ) + text@,
                Err(why) => format_of(resource.url@) is None && why@ == "פורמט לא נתמך"@,
            },
    {
        match resource.get_format() {
            Some(InputFormat::Conllu) => Ok(
                String::from_str("מעבד ניתוח מורפולוגי מפורמט CONLLU: ").concat(text),
            ),
            Some(InputFormat::Csv) => Ok(
                String::from_str("מעבד ניתוח מורפולוגי מפורמט CSV: ").concat(text),
            ),
            Some(InputFormat::Jsonl) => Ok(
                String::from_str("מעבד ישויות עם שם מפורמט JSONL: ").concat(text),
            ),
            Some(InputFormat::PlainText) => Ok(String::from_str("מעבד טקסט רגיל: ").concat(text)),
            Some(InputFormat::Metadata) => Ok(String::from_str("מעבד מטא נתונים: ").concat(text)),
            None => Err(String::from_str("פורמט לא נתמך")),
        }
    }

    /// Enters a corpus at `path` in `format` under `name`, in place of what
    /// was entered there.
    pub fn add_corpus_resource(&mut self, name: &str, path: &str, format: InputFormat)
        requires
            old(self).well_formed(),
        ensures
            final(self).well_formed(),
            final(self).holds(name@),
            is_corpus_resource(final(self).entry(name@), name@, path@, format),
            forall|other: Seq<char>|
                other != name@ ==> (#[trigger] final(self).holds(other)) == old(self).holds(other),
            forall|other: Seq<char>|
                other != name@ && old(self).holds(other) ==> #[trigger] final(self).entry(other) == old(
                    self,
                ).entry(other),
            old(self).holds(name@) ==> final(self).all().len() == old(self).all().len(),
            !old(self).holds(name@) ==> final(self).all().len() == old(self).all().len() + 1,
    {
        let written: &str = match format {
            InputFormat::Conllu => "Conllu",
            InputFormat::Csv => "Csv",
            InputFormat::Jsonl => "Jsonl",
            InputFormat::PlainText => "PlainText",
            InputFormat::Metadata => "Metadata",
        };
        let subcategory: &str = match format {
            InputFormat::Conllu => "Morphological",
            InputFormat::Csv => "Morphological",
            InputFormat::Jsonl => "Named Entities",
            InputFormat::PlainText => "Raw Text",
            InputFormat::Metadata => "Metadata",
        };
        let mut technologies: Vec<String> = Vec::new();
        technologies.push(String::from_str("NLP"));
        let resource = Resource {
            name: copy_text(name),
            url: copy_text(path),
            description: String::from_str("קורפוס בפורמט ").concat(written),
            category: ResourceCategory::Corpus,
            subcategory: Some(String::from_str(subcategory)),
            technologies,
            license: None,
            language: Some(String::from_str("Hebrew")),
            size: None,
        };
        self.put(copy_text(name), resource);
    }

    /// The number of resources entered.
    pub fn len(&self) -> (n: usize)
        ensures
            n == self.all().len(),
    {
        self.items.len()
    }
}

proof fn lemma_name_position_range(names: Seq<String>, name: Seq<char>)
    ensures
        0 <= name_position(names, name) <= names.len(),
        name_position(names, name) < names.len() ==> names[name_position(names, name)]@ == name,
    decreases names.len(),
{
    if names.len() > 0 && names[0]@ != name {
        lemma_name_position_range(names.drop_first(), name);
    }
}

proof fn lemma_position_after_push(names: Seq<String>, added: String, other: Seq<char>)
    requires
        other != added@,
    ensures
        name_position(names.push(added), other) < names.len() + 1 <==> name_position(names, other)
            < names.len(),
        name_position(names, other) < names.len() ==> name_position(names.push(added), other)
            == name_position(names, other),
        name_position(names, other) <= names.len(),
    decreases names.len(),
{
    let longer = names.push(added);
    if names.len() == 0 {
        assert(longer.drop_first() =~= Seq::<String>::empty());
        assert(longer[0] == added);
        assert(name_position(longer.drop_first(), other) == 0);
        assert(name_position(longer, other) == 1);
    } else {
        assert(longer.drop_first() =~= names.drop_first().push(added));
        assert(longer[0] == names[0]);
        if names[0]@ != other {
            lemma_position_after_push(names.drop_first(), added, other);
        }
    }
}

} // verus!

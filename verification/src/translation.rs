//! The translation engine's bookkeeping: translation memory, custom
//! dictionary, manual edits, and the splitting of a text into segments.

use vstd::prelude::*;
use crate::text::{copy_text, from_chars, is_space, is_whitespace, position, to_chars};
use crate::text_map::{text_views, TextMap};

verus! {

/// The languages the engine translates between.
#[derive(Debug, Clone, Copy, PartialEq, Eq, Structural)]
pub enum Language {
    Hebrew,
    Russian,
    Unknown,
}

/// How a translation came about.
#[derive(Debug, Clone, Copy, PartialEq, Eq, Structural)]
pub enum TranslationStatus {
    Automatic,
    ManuallyEdited,
    InReview,
}

/// Why the engine refuses a request.
#[derive(Debug, Clone, Copy, PartialEq, Eq, Structural)]
pub enum TranslationError {
    /// A manual edit was given for a text that is empty or all white space.
    EmptyOriginal,
    /// The engine does not translate between the two languages.
    UnsupportedLanguagePair,
}

/// A request for a translation.
#[derive(Debug, Clone)]
pub struct TranslationRequest {
    pub text: String,
    pub source_language: Language,
    pub target_language: Language,
}

/// One translated segment.
#[derive(Debug, Clone)]
pub struct TranslationSegment {
    pub original: String,
    pub translated: String,
    /// In thousandths: 1000 where the memory gave the rendering, 900 where
    /// the custom dictionary gave it, 700 where it was made automatically.
    pub confidence: u32,
    pub alternatives: Vec<String>,
    pub has_manual_edit: bool,
}

/// A translated segment as a mathematical value.
pub struct SegmentModel {
    pub original: Seq<char>,
    pub translated: Seq<char>,
    pub confidence: u32,
    pub alternatives: Seq<Seq<char>>,
    pub has_manual_edit: bool,
}

impl View for TranslationSegment {
    type V = SegmentModel;

    open spec fn view(&self) -> SegmentModel {
        SegmentModel {
            original: self.original@,
            translated: self.translated@,
            confidence: self.confidence,
            alternatives: text_views(self.alternatives@),
            has_manual_edit: self.has_manual_edit,
        }
    }
}

/// The segments that a sequence holds, each as a mathematical value.
pub open spec fn segment_views(segments: Seq<TranslationSegment>) -> Seq<SegmentModel> {
    Seq::new(segments.len(), |i: int| segments[i]@)
}

/// A translation with its segments.
pub struct TranslationResult {
    pub original_text: String,
    pub translated_text: String,
    pub source_language: Language,
    pub target_language: Language,
    pub segments: Vec<TranslationSegment>,
    pub manual_edits: TextMap,
    pub status: TranslationStatus,
}

/// The confidence of a rendering that the memory gave.
pub const MEMORY_CONFIDENCE: u32 = 1000;

/// The confidence of a rendering that the custom dictionary gave.
pub const DICTIONARY_CONFIDENCE: u32 = 900;

/// The confidence of a rendering that was made automatically.
pub const AUTOMATIC_CONFIDENCE: u32 = 700;

/// The engine takes texts in `source` and renders them in `target`.
pub open spec fn supported_pair(source: Language, target: Language) -> bool {
    (source == Language::Hebrew && target == Language::Russian) || (source == Language::Russian
        && target == Language::Hebrew)
}

/// The translated texts of `segments`, with a space between each two.
pub open spec fn joined(segments: Seq<SegmentModel>) -> Seq<char>
    decreases segments.len(),
{
    if segments.len() == 0 {
        Seq::empty()
    } else if segments.len() == 1 {
        segments[0].translated
    } else {
        joined(segments.drop_last()) + seq![' '] + segments.last().translated
    }
}

/// Some segment of `segments` was edited by hand.
pub open spec fn any_edited(segments: Seq<SegmentModel>) -> bool {
    exists|i: int| 0 <= i < segments.len() && (#[trigger] segments[i]).has_manual_edit
}

/// Every character of `s` is white space.
pub open spec fn all_space(s: Seq<char>) -> bool {
    forall|i: int| 0 <= i < s.len() ==> is_space(#[trigger] s[i])
}

/// `s` without the white space at its front.
pub open spec fn trim_front(s: Seq<char>) -> Seq<char>
    decreases s.len(),
{
    if s.len() > 0 && is_space(s[0]) {
        trim_front(s.drop_first())
    } else {
        s
    }
}

/// `s` without the white space at its back.
pub open spec fn trim_back(s: Seq<char>) -> Seq<char>
    decreases s.len(),
{
    if s.len() > 0 && is_space(s.last()) {
        trim_back(s.drop_last())
    } else {
        s
    }
}

/// `s` without the white space at its front and back.
pub open spec fn trimmed(s: Seq<char>) -> Seq<char> {
    trim_back(trim_front(s))
}

/// The character ends a segment: a full stop, an exclamation mark, a
/// question mark, a semicolon or a line feed.
pub open spec fn ends_segment(c: char) -> bool {
    c == '.' || c == '!' || c == '?' || c == ';' || c == '\n'
}

/// The segments with `current` added, trimmed, unless it is all white
/// space.
pub open spec fn with_segment(done: Seq<Seq<char>>, current: Seq<char>) -> Seq<Seq<char>> {
    if all_space(current) {
        done
    } else {
        done.push(trimmed(current))
    }
}

/// The segments of `s` from position `i` on, given the part `current`
/// begun before `i` and the segments `done` finished before it.
pub open spec fn segments_from(s: Seq<char>, i: int, current: Seq<char>, done: Seq<Seq<char>>) -> Seq<
    Seq<char>,
>
    decreases s.len() - i,
{
    if i < 0 || i >= s.len() {
        with_segment(done, current)
    } else if ends_segment(s[i]) {
        segments_from(s, i + 1, Seq::empty(), with_segment(done, current))
    } else {
        segments_from(s, i + 1, current.push(s[i]), done)
    }
}

/// The segments of `s`: what stands between the marks that end a segment,
/// trimmed, without the parts that are all white space.
pub open spec fn segments_of(s: Seq<char>) -> Seq<Seq<char>> {
    segments_from(s, 0, Seq::empty(), Seq::empty())
}

proof fn lemma_trim_front(s: Seq<char>, a: int)
    requires
        0 <= a <= s.len(),
        forall|i: int| 0 <= i < a ==> is_space(#[trigger] s[i]),
        a < s.len() ==> !is_space(s[a]),
    ensures
        trim_front(s) == s.skip(a),
    decreases a,
{
    if a == 0 {
        assert(s.skip(0) =~= s);
    } else {
        let rest = s.drop_first();
        assert forall|i: int| 0 <= i < a - 1 implies is_space(#[trigger] rest[i]) by {
            assert(rest[i] == s[i + 1]);
        }
        lemma_trim_front(rest, a - 1);
        assert(rest.skip(a - 1) =~= s.skip(a));
    }
}

proof fn lemma_trim_back(s: Seq<char>, b: int)
    requires
        0 <= b <= s.len(),
        forall|i: int| b <= i < s.len() ==> is_space(#[trigger] s[i]),
        b > 0 ==> !is_space(s[b - 1]),
    ensures
        trim_back(s) == s.take(b),
    decreases s.len() - b,
{
    if b == s.len() {
        assert(s.take(b) =~= s);
    } else {
        let rest = s.drop_last();
        assert forall|i: int| b <= i < rest.len() implies is_space(#[trigger] rest[i]) by {
            assert(rest[i] == s[i]);
        }
        lemma_trim_back(rest, b);
        assert(rest.take(b) =~= s.take(b));
    }
}

/// Decides whether every character is white space.
pub fn is_blank(chars: &[char]) -> (r: bool)
    ensures
        r == all_space(chars@),
{
    let mut i: usize = 0;
    while i < chars.len()
        invariant
            0 <= i <= chars@.len(),
            forall|j: int| 0 <= j < i ==> is_space(#[trigger] chars@[j]),
        decreases chars@.len() - i,
    {
        if !is_whitespace(chars[i]) {
            return false;
        }
        i += 1;
    }
    true
}

/// Removes the white space at the front and back.
pub fn trim_chars(chars: &[char]) -> (r: Vec<char>)
    ensures
        r@ == trimmed(chars@),
{
    let total: usize = chars.len();
    let mut a: usize = 0;
    while a < total && is_whitespace(chars[a])
        invariant
            0 <= a <= total,
            total == chars@.len(),
            forall|i: int| 0 <= i < a ==> is_space(#[trigger] chars@[i]),
        decreases total - a,
    {
        a += 1;
    }
    let mut b: usize = total;
    while b > a && is_whitespace(chars[b - 1])
        invariant
            a <= b <= total,
            total == chars@.len(),
            forall|i: int| b <= i < total ==> is_space(#[trigger] chars@[i]),
        decreases b,
    {
        b -= 1;
    }
    proof {
        lemma_trim_front(chars@, a as int);
        let front = chars@.skip(a as int);
        assert forall|i: int| b - a <= i < front.len() implies is_space(#[trigger] front[i]) by {
            assert(front[i] == chars@[i + a]);
        }
        if b > a {
            assert(front[b - a - 1] == chars@[b - 1]);
        }
        lemma_trim_back(front, b - a);
        assert(front.take(b - a) =~= chars@.subrange(a as int, b as int));
    }
    let mut out: Vec<char> = Vec::new();
    let mut i: usize = a;
    while i < b
        invariant
            a <= i <= b,
            b <= chars@.len(),
            out@ == chars@.subrange(a as int, i as int),
        decreases b - i,
    {
        out.push(chars[i]);
        assert(chars@.subrange(a as int, i + 1) =~= chars@.subrange(a as int, i as int).push(
            chars@[i as int],
        ));
        i += 1;
    }
    out
}

/// The translation engine.
pub struct TranslationEngine {
    translation_memory: TextMap,
    custom_dictionary: TextMap,
    manual_edits: TextMap,
}

/// `items` cut down to at most `count`.
pub open spec fn first_of(items: Seq<Seq<char>>, count: usize) -> Seq<Seq<char>> {
    if items.len() <= count {
        items
    } else {
        items.take(count as int)
    }
}

impl TranslationEngine {
    /// The engine's invariant: that of its three maps.
    pub closed spec fn well_formed(&self) -> bool {
        &&& self.translation_memory.well_formed()
        &&& self.custom_dictionary.well_formed()
        &&& self.manual_edits.well_formed()
    }

    /// The translation memory holds a translation of `text`.
    pub closed spec fn remembers(&self, text: Seq<char>) -> bool {
        self.translation_memory.holds(text)
    }

    /// The translation of `text` in the translation memory.
    pub closed spec fn remembered(&self, text: Seq<char>) -> Seq<char> {
        self.translation_memory.value_of(text)
    }

    /// The custom dictionary holds a translation of `text`.
    pub closed spec fn defines(&self, text: Seq<char>) -> bool {
        self.custom_dictionary.holds(text)
    }

    /// The translation of `text` in the custom dictionary.
    pub closed spec fn defined(&self, text: Seq<char>) -> Seq<char> {
        self.custom_dictionary.value_of(text)
    }

    /// A manual edit is on file for `text`.
    pub closed spec fn has_edit(&self, text: Seq<char>) -> bool {
        self.manual_edits.holds(text)
    }

    /// The manual edit on file for `text`.
    pub closed spec fn edit_of(&self, text: Seq<char>) -> Seq<char> {
        self.manual_edits.value_of(text)
    }

    /// The number of manual edits on file.
    pub closed spec fn edit_count(&self) -> nat {
        self.manual_edits.keys().len()
    }

    /// The custom dictionary that an engine starts with: an empty one.
    pub fn load_custom_dictionary() -> (d: TextMap)
        ensures
            d.well_formed(),
            d.keys() == Seq::<Seq<char>>::empty(),
    {
        TextMap::new()
    }

    /// An engine with an empty memory and no manual edits.
    pub fn new() -> (e: Self)
        ensures
            e.well_formed(),
            e.edit_count() == 0,
            e.edit_keys() == Seq::<Seq<char>>::empty(),
            e.edit_values() == Seq::<Seq<char>>::empty(),
            forall|text: Seq<char>| !(#[trigger] e.remembers(text)),
            forall|text: Seq<char>| !(#[trigger] e.defines(text)),
            forall|text: Seq<char>| !(#[trigger] e.has_edit(text)),
    {
        TranslationEngine {
            translation_memory: TextMap::new(),
            custom_dictionary: Self::load_custom_dictionary(),
            manual_edits: TextMap::new(),
        }
    }

    /// Puts a manual edit on file: from now on `edited` stands for
    /// `original`. Refuses an original that is empty or all white space.
    pub fn apply_manual_edit(&mut self, original: String, edited: String) -> (r: Result<
        (),
        TranslationError,
    >)
        requires
            old(self).well_formed(),
        ensures
            final(self).well_formed(),
            all_space(original@) <==> r == Err::<(), TranslationError>(
                TranslationError::EmptyOriginal,
            ),
            all_space(original@) ==> final(self).edit_keys() == old(self).edit_keys() && final(self).edit_values() == old(self).edit_values(),
            !all_space(original@) ==> r is Ok && final(self).has_edit(original@)
                && final(self).edit_of(original@) == edited@,
            !all_space(original@) && old(self).has_edit(original@) ==> final(self).edit_keys()
                == old(self).edit_keys() && final(self).edit_values() == old(self).edit_values().update(position(old(self).edit_keys(), original@), edited@),
            !all_space(original@) && !old(self).has_edit(original@) ==> final(self).edit_keys()
                == old(self).edit_keys().push(original@) && final(self).edit_values() == old(self).edit_values().push(edited@),
            forall|text: Seq<char>|
                text != original@ || all_space(original@) ==> (#[trigger] final(self).has_edit(text))
                    == old(self).has_edit(text),
            forall|text: Seq<char>|
                (text != original@ || all_space(original@)) && old(self).has_edit(text)
                    ==> #[trigger] final(self).edit_of(text) == old(self).edit_of(text),
            final(self).edit_count() == if all_space(original@) || old(self).has_edit(original@) {
                old(self).edit_count()
            } else {
                old(self).edit_count() + 1
            },
            forall|text: Seq<char>| (#[trigger] final(self).remembers(text)) == old(self).remembers(text),
            forall|text: Seq<char>|
                #[trigger] final(self).remembered(text) == old(self).remembered(text),
            forall|text: Seq<char>| (#[trigger] final(self).defines(text)) == old(self).defines(text),
            forall|text: Seq<char>| #[trigger] final(self).defined(text) == old(self).defined(text),
    {
        let chars: Vec<char> = to_chars(original.as_str());
        if is_blank(chars.as_slice()) {
            return Err(TranslationError::EmptyOriginal);
        }
        self.manual_edits.insert(original, edited);
        Ok(())
    }

    /// The synonyms of `text`: the engine knows none.
    pub fn get_synonyms(&self, text: &str) -> (r: Option<Vec<String>>)
        ensures
            r is None,
    {
        None
    }

    /// Variations of `text`, made of its synonyms: there are none.
    pub fn generate_variations(&self, text: &str) -> (r: Vec<String>)
        ensures
            r@.len() == 0,
    {
        let mut variations: Vec<String> = Vec::new();
        match self.get_synonyms(text) {
            Some(mut synonyms) => {
                variations.append(&mut synonyms);
            },
            None => {},
        }
        variations
    }

    /// The alternatives that the engine has for `text`: the translation in
    /// the memory, then the one in the custom dictionary.
    pub open spec fn alternatives(&self, text: Seq<char>) -> Seq<Seq<char>> {
        let from_memory = if self.remembers(text) {
            seq![self.remembered(text)]
        } else {
            Seq::<Seq<char>>::empty()
        };
        if self.defines(text) {
            from_memory.push(self.defined(text))
        } else {
            from_memory
        }
    }

    /// At most `count` alternative translations of `text`.
    pub fn get_translation_alternatives(&self, text: &str, count: usize) -> (r: Vec<String>)
        requires
            self.well_formed(),
        ensures
            text_views(r@) == first_of(self.alternatives(text@), count),
    {
        let mut alternatives: Vec<String> = Vec::new();
        assert(text_views(alternatives@) =~= Seq::<Seq<char>>::empty());
        match self.translation_memory.get(text) {
            Some(t) => {
                alternatives.push(copy_text(t.as_str()));
                assert(text_views(alternatives@) =~= seq![self.remembered(text@)]);
            },
            None => {},
        }
        let ghost so_far = text_views(alternatives@);
        match self.custom_dictionary.get(text) {
            Some(t) => {
                alternatives.push(copy_text(t.as_str()));
                assert(text_views(alternatives@) =~= so_far.push(self.defined(text@)));
            },
            None => {},
        }
        let mut variations: Vec<String> = self.generate_variations(text);
        let ghost all = text_views(alternatives@);
        alternatives.append(&mut variations);
        assert(text_views(alternatives@) =~= all);
        if alternatives.len() > count {
            alternatives.truncate(count);
            assert(text_views(alternatives@) =~= all.take(count as int));
        }
        alternatives
    }

    /// Splits `text` into its segments.
    pub fn split_into_segments(&self, text: &str) -> (segments: Vec<String>)
        ensures
            text_views(segments@) == segments_of(text@),
    {
        let chars: Vec<char> = to_chars(text);
        let mut segments: Vec<String> = Vec::new();
        let mut current: Vec<char> = Vec::new();
        let mut i: usize = 0;
        assert(text_views(segments@) =~= Seq::<Seq<char>>::empty());
        while i < chars.len()
            invariant
                0 <= i <= chars@.len(),
                chars@ == text@,
                segments_of(text@) == segments_from(
                    text@,
                    i as int,
                    current@,
                    text_views(segments@),
                ),
            decreases chars@.len() - i,
        {
            let c: char = chars[i];
            if c == '.' || c == '!' || c == '?' || c == ';' || c == '\n' {
                if !is_blank(current.as_slice()) {
                    let ghost prior = text_views(segments@);
                    let piece: Vec<char> = trim_chars(current.as_slice());
                    segments.push(from_chars(piece.as_slice()));
                    assert(text_views(segments@) =~= prior.push(trimmed(current@)));
                }
                current = Vec::new();
                assert(current@ =~= Seq::<char>::empty());
            } else {
                current.push(c);
            }
            i += 1;
        }
        if !is_blank(current.as_slice()) {
            let ghost prior = text_views(segments@);
            let piece: Vec<char> = trim_chars(current.as_slice());
            segments.push(from_chars(piece.as_slice()));
            assert(text_views(segments@) =~= prior.push(trimmed(current@)));
        }
        segments
    }

    /// The translation of one segment before manual edits, or `None` where
    /// the engine has it neither in memory nor in the dictionary and does
    /// not translate between the two languages.
    pub open spec fn segment_model(&self, text: Seq<char>, source: Language, target: Language) -> Option<
        SegmentModel,
    > {
        let alternatives = first_of(self.alternatives(text), 3);
        if self.remembers(text) {
            Some(
                SegmentModel {
                    original: text,
                    translated: self.remembered(text),
                    confidence: MEMORY_CONFIDENCE,
                    alternatives,
                    has_manual_edit: false,
                },
            )
        } else if self.defines(text) {
            Some(
                SegmentModel {
                    original: text,
                    translated: self.defined(text),
                    confidence: DICTIONARY_CONFIDENCE,
                    alternatives,
                    has_manual_edit: false,
                },
            )
        } else if supported_pair(source, target) {
            Some(
                SegmentModel {
                    original: text,
                    translated: text,
                    confidence: AUTOMATIC_CONFIDENCE,
                    alternatives,
                    has_manual_edit: false,
                },
            )
        } else {
            None
        }
    }

    /// The segment as it stands in a result: with the manual edit that is
    /// on file for its text, if there is one.
    pub open spec fn edited(&self, segment: SegmentModel) -> SegmentModel {
        if self.has_edit(segment.original) {
            SegmentModel {
                translated: self.edit_of(segment.original),
                has_manual_edit: true,
                ..segment
            }
        } else {
            segment
        }
    }

    /// Translates one segment: from the memory, else from the custom
    /// dictionary, else automatically. Fails where only an automatic
    /// translation is left and the pair of languages is not supported.
    pub fn translate_segment(&self, text: &str, request: &TranslationRequest) -> (r: Result<
        TranslationSegment,
        TranslationError,
    >)
        requires
            self.well_formed(),
        ensures
            match r {
                Ok(segment) => self.segment_model(
                    text@,
                    request.source_language,
                    request.target_language,
                ) == Some(segment@),
                Err(e) => e == TranslationError::UnsupportedLanguagePair && self.segment_model(
                    text@,
                    request.source_language,
                    request.target_language,
                ) is None,
            },
    {
        match self.translation_memory.get(text) {
            Some(cached) => {
                return Ok(
                    TranslationSegment {
                        original: copy_text(text),
                        translated: copy_text(cached.as_str()),
                        confidence: MEMORY_CONFIDENCE,
                        alternatives: self.get_translation_alternatives(text, 3),
                        has_manual_edit: false,
                    },
                );
            },
            None => {},
        }
        match self.custom_dictionary.get(text) {
            Some(custom) => {
                return Ok(
                    TranslationSegment {
                        original: copy_text(text),
                        translated: copy_text(custom.as_str()),
                        confidence: DICTIONARY_CONFIDENCE,
                        alternatives: self.get_translation_alternatives(text, 3),
                        has_manual_edit: false,
                    },
                );
            },
            None => {},
        }
        let translated: String = match (request.source_language, request.target_language) {
            (Language::Hebrew, Language::Russian) => match self.translate_hebrew_to_russian(text) {
                Ok(t) => t,
                Err(e) => {
                    return Err(e);
                },
            },
            (Language::Russian, Language::Hebrew) => match self.translate_russian_to_hebrew(text) {
                Ok(t) => t,
                Err(e) => {
                    return Err(e);
                },
            },
            _ => {
                return Err(TranslationError::UnsupportedLanguagePair);
            },
        };
        Ok(
            TranslationSegment {
                original: copy_text(text),
                translated,
                confidence: AUTOMATIC_CONFIDENCE,
                alternatives: self.get_translation_alternatives(text, 3),
                has_manual_edit: false,
            },
        )
    }

    /// Translates a text segment by segment. Where a manual edit is on
    /// file for a segment it stands in place of the translation. Fails
    /// where some segment cannot be translated.
    pub fn translate(&self, request: TranslationRequest) -> (r: Result<
        TranslationResult,
        TranslationError,
    >)
        requires
            self.well_formed(),
        ensures
            match r {
                Ok(result) => {
                    &&& result.original_text@ == request.text@
                    &&& result.source_language == request.source_language
                    &&& result.target_language == request.target_language
                    &&& result.segments@.len() == segments_of(request.text@).len()
                    &&& forall|i: int|
                        0 <= i < result.segments@.len() ==> self.segment_model(
                            #[trigger] segments_of(request.text@)[i],
                            request.source_language,
                            request.target_language,
                        ) is Some
                    &&& forall|i: int|
                        0 <= i < result.segments@.len() ==> (#[trigger] result.segments@[i])@
                            == self.edited(
                            self.segment_model(
                                segments_of(request.text@)[i],
                                request.source_language,
                                request.target_language,
                            )->0,
                        )
                    &&& result.translated_text@ == joined(segment_views(result.segments@))
                    &&& result.status == if any_edited(segment_views(result.segments@)) {
                        TranslationStatus::ManuallyEdited
                    } else {
                        TranslationStatus::Automatic
                    }
                    &&& result.manual_edits.well_formed()
                    &&& result.manual_edits.keys() == self.edit_keys()
                    &&& result.manual_edits.values() == self.edit_values()
                },
                Err(e) => e == TranslationError::UnsupportedLanguagePair && exists|i: int|
                    0 <= i < segments_of(request.text@).len() && self.segment_model(
                        #[trigger] segments_of(request.text@)[i],
                        request.source_language,
                        request.target_language,
                    ) is None,
            },
    {
        let texts: Vec<String> = self.split_into_segments(request.text.as_str());
        let ghost parts = segments_of(request.text@);
        let mut segments: Vec<TranslationSegment> = Vec::new();
        let mut joined_text: String = String::new();
        let mut edited_any: bool = false;
        let mut i: usize = 0;
        assert(segment_views(segments@) =~= Seq::<SegmentModel>::empty());
        while i < texts.len()
            invariant
                0 <= i <= texts@.len(),
                self.well_formed(),
                parts == text_views(texts@),
                parts == segments_of(request.text@),
                parts.len() == texts@.len(),
                segments@.len() == i,
                forall|t: int|
                    0 <= t < i ==> self.segment_model(
                        #[trigger] parts[t],
                        request.source_language,
                        request.target_language,
                    ) is Some,
                forall|t: int|
                    0 <= t < i ==> (#[trigger] segments@[t])@ == self.edited(
                        self.segment_model(
                            parts[t],
                            request.source_language,
                            request.target_language,
                        )->0,
                    ),
                joined_text@ == joined(segment_views(segments@)),
                edited_any == any_edited(segment_views(segments@)),
            decreases texts@.len() - i,
        {
            assert(parts[i as int] == texts@[i as int]@);
            let ghost model = self.segment_model(
                parts[i as int],
                request.source_language,
                request.target_language,
            );
            let mut segment: TranslationSegment = match self.translate_segment(
                texts[i].as_str(),
                &request,
            ) {
                Ok(s) => s,
                Err(e) => {
                    assert(self.segment_model(
                        segments_of(request.text@)[i as int],
                        request.source_language,
                        request.target_language,
                    ) is None);
                    return Err(e);
                },
            };
            assert(model == Some(segment@));
            match self.manual_edits.get(texts[i].as_str()) {
                Some(edit) => {
                    segment.translated = copy_text(edit.as_str());
                    segment.has_manual_edit = true;
                },
                None => {},
            }
            assert(segment@ == self.edited(model->0));
            let ghost before = segment_views(segments@);
            let ghost held = segments@;
            let ghost shown = segment@;
            if i > 0 {
                joined_text.append(" ");
            }
            joined_text.append(segment.translated.as_str());
            if segment.has_manual_edit {
                edited_any = true;
            }
            segments.push(segment);
            proof {
                reveal_strlit(" ");
                assert(" "@ =~= seq![' ']);
                let after = segment_views(segments@);
                assert forall|t: int| 0 <= t < i + 1 implies (#[trigger] segments@[t])@ == self.edited(
                    self.segment_model(
                        parts[t],
                        request.source_language,
                        request.target_language,
                    )->0,
                ) by {
                    if t < i {
                        assert(segments@[t] == held[t]);
                    } else {
                        assert(segments@[t]@ == shown);
                    }
                }
                assert(after =~= before.push(shown));
                assert(after.drop_last() =~= before);
                assert(after.last() == shown);
                if any_edited(before) {
                    let w = choose|w: int| 0 <= w < before.len() && (#[trigger] before[w]).has_manual_edit;
                    assert(after[w].has_manual_edit);
                }
                if shown.has_manual_edit {
                    assert(after[after.len() - 1].has_manual_edit);
                }
                if any_edited(after) {
                    let w = choose|w: int| 0 <= w < after.len() && (#[trigger] after[w]).has_manual_edit;
                    if w < before.len() {
                        assert(before[w].has_manual_edit);
                    }
                }
            }
            i += 1;
        }
        let status: TranslationStatus = if edited_any {
            TranslationStatus::ManuallyEdited
        } else {
            TranslationStatus::Automatic
        };
        Ok(
            TranslationResult {
                original_text: request.text,
                translated_text: joined_text,
                source_language: request.source_language,
                target_language: request.target_language,
                segments,
                manual_edits: self.manual_edits.duplicate(),
                status,
            },
        )
    }

    /// The texts for which manual edits are on file, in the order of entry.
    pub closed spec fn edit_keys(&self) -> Seq<Seq<char>> {
        self.manual_edits.keys()
    }

    /// The manual edits, each at the place of its text.
    pub closed spec fn edit_values(&self) -> Seq<Seq<char>> {
        self.manual_edits.values()
    }

    /// Translates `text` from Hebrew to Russian: for now the text itself.
    pub fn translate_hebrew_to_russian(&self, text: &str) -> (r: Result<String, TranslationError>)
        ensures
            r is Ok,
            r->Ok_0@ == text@,
    {
        Ok(copy_text(text))
    }

    /// Translates `text` from Russian to Hebrew: for now the text itself.
    pub fn translate_russian_to_hebrew(&self, text: &str) -> (r: Result<String, TranslationError>)
        ensures
            r is Ok,
            r->Ok_0@ == text@,
    {
        Ok(copy_text(text))
    }
}

} // verus!

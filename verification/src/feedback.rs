//! User feedback on translations, and the count of the issues that the
//! comments name.

use vstd::prelude::*;
use crate::text::{contains_text, lemma_position_found, lowercase_of, position, same_text};
use crate::text_map::text_views;

verus! {

/// How grave a validation finding is.
#[derive(Debug, Clone, Copy, PartialEq, Eq, Structural)]
pub enum ValidationSeverity {
    Low,
    Medium,
    High,
    Critical,
}

/// What kind of correction a user made.
#[derive(Debug, Clone, Copy, PartialEq, Eq, Structural)]
pub enum CorrectionType {
    Grammar,
    Style,
    Terminology,
    Cultural,
    Other,
}

/// One correction by a user.
#[derive(Debug, Clone)]
pub struct Correction {
    pub original_text: String,
    pub corrected_text: String,
    pub correction_type: CorrectionType,
    pub explanation: Option<String>,
}

/// What a user says of a translation.
#[derive(Debug, Clone)]
pub struct UserFeedback {
    pub rating: u8,
    pub comments: Option<String>,
    pub corrections: Option<Vec<Correction>>,
}

/// The issues that comments are searched for, in the order of search.
pub open spec fn issue_keywords() -> Seq<Seq<char>> {
    seq!["grammar"@, "style"@, "terminology"@, "cultural"@]
}

/// The tally after the comments `comments` were searched for `keyword`:
/// where their lower-case form holds it, its count is one higher, and a
/// keyword counted for the first time joins the tally at the end.
pub open spec fn tallied(
    issues: Seq<Seq<char>>,
    counts: Seq<usize>,
    comments: Seq<char>,
    keyword: Seq<char>,
) -> (Seq<Seq<char>>, Seq<usize>) {
    if !contains_text(lowercase_of(comments), keyword) {
        (issues, counts)
    } else {
        let at = position(issues, keyword);
        if at < issues.len() {
            (
                issues,
                counts.update(
                    at,
                    if counts[at] < usize::MAX {
                        (counts[at] + 1) as usize
                    } else {
                        counts[at]
                    },
                ),
            )
        } else {
            (issues.push(keyword), counts.push(1))
        }
    }
}

/// The tally after the comments were searched for the first `n` keywords.
pub open spec fn tallied_all(
    issues: Seq<Seq<char>>,
    counts: Seq<usize>,
    comments: Seq<char>,
    n: int,
) -> (Seq<Seq<char>>, Seq<usize>)
    decreases n,
{
    if n <= 0 || n > issue_keywords().len() {
        (issues, counts)
    } else {
        let before = tallied_all(issues, counts, comments, n - 1);
        tallied(before.0, before.1, comments, issue_keywords()[n - 1])
    }
}

/// The analysis of user feedback.
#[derive(Debug)]
pub struct FeedbackAnalyzer {
    total_feedback: usize,
    positive_feedback: usize,
    negative_feedback: usize,
    issues: Vec<String>,
    counts: Vec<usize>,
}

impl FeedbackAnalyzer {
    /// The issues counted so far, in the order in which they were first
    /// named.
    pub closed spec fn issues(&self) -> Seq<Seq<char>> {
        text_views(self.issues@)
    }

    /// The counts, each at the place of its issue.
    pub closed spec fn counts(&self) -> Seq<usize> {
        self.counts@
    }

    /// How much feedback was seen: all of it, the positive, the negative.
    pub closed spec fn totals(&self) -> (usize, usize, usize) {
        (self.total_feedback, self.positive_feedback, self.negative_feedback)
    }

    /// The analyzer's invariant: one count for each issue.
    pub closed spec fn well_formed(&self) -> bool {
        self.issues@.len() == self.counts@.len()
    }

    /// An analyzer that has seen no feedback.
    pub fn new() -> (a: Self)
        ensures
            a.well_formed(),
            a.issues() == Seq::<Seq<char>>::empty(),
            a.counts() == Seq::<usize>::empty(),
            a.totals() == (0usize, 0usize, 0usize),
    {
        let a = FeedbackAnalyzer {
            total_feedback: 0,
            positive_feedback: 0,
            negative_feedback: 0,
            issues: Vec::new(),
            counts: Vec::new(),
        };
        assert(a.issues() =~= Seq::<Seq<char>>::empty());
        a
    }

    fn count_keyword(&mut self, comments: &str, keyword: &str)
        requires
            old(self).well_formed(),
        ensures
            final(self).well_formed(),
            (final(self).issues(), final(self).counts()) == tallied(
                old(self).issues(),
                old(self).counts(),
                comments@,
                keyword@,
            ),
            final(self).totals() == old(self).totals(),
    {
        let lowered: String = crate::text::to_lowercase(comments);
        let hay: Vec<char> = crate::text::to_chars(lowered.as_str());
        let needle: Vec<char> = crate::text::to_chars(keyword);
        if !crate::text::chars_contain(hay.as_slice(), needle.as_slice()) {
            return ;
        }
        let ghost before = self.issues();
        let mut at: usize = 0;
        while at < self.issues.len() && !same_text(self.issues[at].as_str(), keyword)
            invariant
                0 <= at <= self.issues@.len(),
                before == self.issues(),
                forall|i: int| 0 <= i < at ==> #[trigger] before[i] != keyword@,
            decreases self.issues@.len() - at,
        {
            at += 1;
        }
        proof {
            lemma_position_found(before, keyword@, at as int);
        }
        if at < self.issues.len() {
            if self.counts[at] < usize::MAX {
                self.counts[at] = self.counts[at] + 1;
            }
        } else {
            self.issues.push(String::from_str(keyword));
            self.counts.push(1);
            assert(self.issues() =~= before.push(keyword@));
        }
    }

    /// Searches the comments for the names of the issues and counts each
    /// that their lower-case form holds.
    pub fn analyze_comments(&mut self, comments: &str)
        requires
            old(self).well_formed(),
        ensures
            final(self).well_formed(),
            (final(self).issues(), final(self).counts()) == tallied_all(
                old(self).issues(),
                old(self).counts(),
                comments@,
                4,
            ),
            final(self).totals() == old(self).totals(),
    {
        assert(issue_keywords().len() == 4);
        assert(issue_keywords()[0] == "grammar"@);
        assert(issue_keywords()[1] == "style"@);
        assert(issue_keywords()[2] == "terminology"@);
        assert(issue_keywords()[3] == "cultural"@);
        assert(tallied_all(old(self).issues(), old(self).counts(), comments@, 0) == (
            old(self).issues(),
            old(self).counts(),
        ));
        self.count_keyword(comments, "grammar");
        assert((self.issues(), self.counts()) == tallied_all(
            old(self).issues(),
            old(self).counts(),
            comments@,
            1,
        ));
        self.count_keyword(comments, "style");
        assert((self.issues(), self.counts()) == tallied_all(
            old(self).issues(),
            old(self).counts(),
            comments@,
            2,
        ));
        self.count_keyword(comments, "terminology");
        assert((self.issues(), self.counts()) == tallied_all(
            old(self).issues(),
            old(self).counts(),
            comments@,
            3,
        ));
        self.count_keyword(comments, "cultural");
    }

    /// How often `issue` was counted.
    pub fn issue_count(&self, issue: &str) -> (n: usize)
        requires
            self.well_formed(),
        ensures
            n == if position(self.issues(), issue@) < self.issues().len() {
                self.counts()[position(self.issues(), issue@)]
            } else {
                0
            },
    {
        let mut at: usize = 0;
        while at < self.issues.len() && !same_text(self.issues[at].as_str(), issue)
            invariant
                0 <= at <= self.issues@.len(),
                forall|i: int| 0 <= i < at ==> #[trigger] self.issues()[i] != issue@,
            decreases self.issues@.len() - at,
        {
            at += 1;
        }
        proof {
            lemma_position_found(self.issues(), issue@, at as int);
        }
        if at < self.issues.len() {
            self.counts[at]
        } else {
            0
        }
    }
}

} // verus!

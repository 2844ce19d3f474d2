//! The correction engine: turns a text and the issues found in it into the
//! corrected text.

use vstd::prelude::*;
use crate::diagnostic::{Diagnostic, SpellResult};
use crate::text::{chars_of, extend_chars, occurs_at, stands_at, string_of};

verus! {

/// The text from index `at` on, with every occurrence of `word` replaced by
/// `with`.
///
/// Occurrences are taken from left to right and do not overlap: after one has
/// been replaced the search goes on behind it, and the replacement itself is
/// never searched. An empty `word` occurs before every character and at the
/// end.
pub open spec fn replaced_from(
    text: Seq<char>,
    word: Seq<char>,
    with: Seq<char>,
    at: int,
) -> Seq<char>
    decreases text.len() - at,
{
    if at >= text.len() || at < 0 {
        if word.len() == 0 {
            with
        } else {
            Seq::empty()
        }
    } else if word.len() == 0 {
        with + seq![text[at]] + replaced_from(text, word, with, at + 1)
    } else if occurs_at(text, at, word) {
        with + replaced_from(text, word, with, at + word.len())
    } else {
        seq![text[at]] + replaced_from(text, word, with, at + 1)
    }
}

/// The text with every occurrence of `word` replaced by `with`.
pub open spec fn replaced(text: Seq<char>, word: Seq<char>, with: Seq<char>) -> Seq<char> {
    replaced_from(text, word, with, 0)
}

/// Replaces every occurrence of `word` in `text` by `with`.
pub fn replace_chars(text: &Vec<char>, word: &Vec<char>, with: &Vec<char>) -> (out: Vec<char>)
    ensures
        out@ == replaced(text@, word@, with@),
{
    let mut out: Vec<char> = Vec::new();
    let mut at: usize = 0;
    while at < text.len()
        invariant
            at <= text.len(),
            out@ + replaced_from(text@, word@, with@, at as int) == replaced(
                text@,
                word@,
                with@,
            ),
        decreases text.len() - at,
    {
        let ghost before = out@;
        if word.len() == 0 {
            extend_chars(&mut out, with);
            out.push(text[at]);
            assert(out@ + replaced_from(text@, word@, with@, at + 1) =~= before + (with@
                + seq![text@[at as int]] + replaced_from(text@, word@, with@, at + 1)));
            at += 1;
        } else if stands_at(text, at, word) {
            extend_chars(&mut out, with);
            assert(out@ + replaced_from(text@, word@, with@, at + word.len()) =~= before + (with@
                + replaced_from(text@, word@, with@, at + word.len())));
            at += word.len();
        } else {
            out.push(text[at]);
            assert(out@ + replaced_from(text@, word@, with@, at + 1) =~= before + (seq![
                text@[at as int],
            ] + replaced_from(text@, word@, with@, at + 1)));
            at += 1;
        }
    }
    if word.len() == 0 {
        extend_chars(&mut out, with);
    }
    assert(out@ =~= replaced(text@, word@, with@));
    out
}

/// Replaces every occurrence of `word` in `text` by `with`.
pub fn replace_all(text: &str, word: &str, with: &str) -> (out: String)
    ensures
        out@ == replaced(text@, word@, with@),
{
    let out = replace_chars(&chars_of(text), &chars_of(word), &chars_of(with));
    string_of(&out)
}

/// The text after one issue has been dealt with: every occurrence of the
/// issue's word gives way to its first suggestion; without a suggestion the
/// text stays as it is.
pub open spec fn corrected_by(text: Seq<char>, issue: Diagnostic) -> Seq<char> {
    if issue.s.len() > 0 {
        replaced(text, issue.word, issue.s[0])
    } else {
        text
    }
}

/// The text after all the issues have been dealt with, one after the other in
/// the order given, each on what the ones before it left.
pub open spec fn corrected(text: Seq<char>, issues: Seq<Diagnostic>) -> Seq<char>
    decreases issues.len(),
{
    if issues.len() == 0 {
        text
    } else {
        corrected_by(corrected(text, issues.drop_last()), issues.last())
    }
}

/// Applies the issues to the text and returns the corrected text.
pub fn apply(text: &str, issues: &Vec<SpellResult>) -> (out: String)
    ensures
        out@ == corrected(text@, issues.deep_view()),
{
    let mut current = chars_of(text);
    let mut i: usize = 0;
    while i < issues.len()
        invariant
            i <= issues.len(),
            current@ == corrected(text@, issues.deep_view().take(i as int)),
        decreases issues.len() - i,
    {
        let issue = &issues[i];
        proof {
            let done = issues.deep_view().take(i + 1);
            assert(done.drop_last() =~= issues.deep_view().take(i as int));
            assert(done.last() == issue.deep_view());
            assert(issue.s.deep_view().len() == issue.s.len());
        }
        if issue.s.len() > 0 {
            assert(issue.s.deep_view()[0] == issue.s[0]@);
            let word = chars_of(issue.word.as_str());
            let with = chars_of(issue.s[0].as_str());
            current = replace_chars(&current, &word, &with);
        }
        i += 1;
    }
    assert(issues.deep_view().take(issues.len() as int) =~= issues.deep_view());
    string_of(&current)
}

/// Without issues a text stays as it is.
pub proof fn lemma_nothing_to_apply(text: Seq<char>)
    ensures
        corrected(text, Seq::empty()) == text,
{
}

/// A corrected text that is handed back with no issues comes back unchanged.
pub proof fn lemma_corrected_text_is_stable(text: Seq<char>, issues: Seq<Diagnostic>)
    ensures
        corrected(corrected(text, issues), Seq::empty()) == corrected(text, issues),
{
}

/// Issues are applied one after the other: to apply two lists in a row is to
/// apply the second list to what the first one left.
pub proof fn lemma_corrected_in_turn(
    text: Seq<char>,
    first: Seq<Diagnostic>,
    second: Seq<Diagnostic>,
)
    ensures
        corrected(text, first + second) == corrected(corrected(text, first), second),
    decreases second.len(),
{
    if second.len() == 0 {
        assert(first + second =~= first);
    } else {
        lemma_corrected_in_turn(text, first, second.drop_last());
        assert((first + second).drop_last() =~= first + second.drop_last());
        assert((first + second).last() == second.last());
    }
}

/// An issue without suggestions changes nothing: wherever it stands in the
/// list, the result is that of the list without it.
pub proof fn lemma_issue_without_suggestion(
    text: Seq<char>,
    before: Seq<Diagnostic>,
    issue: Diagnostic,
    after: Seq<Diagnostic>,
)
    requires
        issue.s.len() == 0,
    ensures
        corrected_by(text, issue) == text,
        corrected(text, before + seq![issue] + after) == corrected(text, before + after),
{
    lemma_corrected_in_turn(text, before + seq![issue], after);
    lemma_corrected_in_turn(text, before, after);
    assert((before + seq![issue]).drop_last() =~= before);
    assert((before + seq![issue]).last() == issue);
}

/// Where no issue has a suggestion, the text stays as it is.
pub proof fn lemma_no_suggestions(text: Seq<char>, issues: Seq<Diagnostic>)
    requires
        forall|i: int| 0 <= i < issues.len() ==> (#[trigger] issues[i]).s.len() == 0,
    ensures
        corrected(text, issues) == text,
    decreases issues.len(),
{
    if issues.len() > 0 {
        lemma_no_suggestions(text, issues.drop_last());
    }
}

/// A word that stands nowhere in the text from `at` on leaves that part of
/// the text as it is.
pub proof fn lemma_absent_word_from(text: Seq<char>, word: Seq<char>, with: Seq<char>, at: int)
    requires
        word.len() > 0,
        0 <= at <= text.len(),
        forall|k: int| at <= k ==> !occurs_at(text, k, word),
    ensures
        replaced_from(text, word, with, at) == text.skip(at),
    decreases text.len() - at,
{
    if at < text.len() {
        lemma_absent_word_from(text, word, with, at + 1);
        assert(seq![text[at]] + text.skip(at + 1) =~= text.skip(at));
    } else {
        assert(text.skip(at) =~= Seq::empty());
    }
}

/// A word that stands nowhere in the text leaves the text as it is.
pub proof fn lemma_absent_word(text: Seq<char>, word: Seq<char>, with: Seq<char>)
    requires
        word.len() > 0,
        forall|k: int| !occurs_at(text, k, word),
    ensures
        replaced(text, word, with) == text,
{
    lemma_absent_word_from(text, word, with, 0);
    assert(text.skip(0) =~= text);
}

} // verus!

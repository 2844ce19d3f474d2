//! Correcting the files of a tree, one by one: what to do with each file
//! that the walk finds, and the report of what became of them.
//!
//! The walk itself, the reading and the writing are the caller's. A file
//! that fails is reported and then the walk goes on: nothing here can stop
//! it.

use vstd::prelude::*;
use crate::error::{message_of, too_long, SpellerError};
use crate::oracle::{byte_len, fits, format_tag, FORMAT_HTML};
use crate::speller::{Correction, Speller};
use crate::text::{chars_of, same_chars};

verus! {

/// What the walk found at a path.
#[derive(Debug, Clone, PartialEq, Eq)]
pub enum Found {
    /// A directory, or anything else that is no regular file.
    Other,
    /// A regular file whose content is no text.
    Binary,
    /// A regular file, and the text that it holds.
    Text(String),
}

/// What became of one file.
#[derive(Debug, Clone, PartialEq, Eq)]
pub enum FileOutcome {
    /// It was passed over; it is as it was.
    Skipped,
    /// It was corrected; this text is its new content.
    Corrected(String),
    /// It could not be corrected, for this reason; it is as it was.
    Failed(String),
}

/// What is to be done with a file next.
#[derive(Debug)]
pub enum FileStep {
    /// Nothing more: this became of it.
    Done(FileOutcome),
    /// Send the request of this correction, and complete it with the reply.
    Ask(Correction),
}

/// A message with the path of the file that it is about in front.
pub open spec fn annotated(path: Seq<char>, message: Seq<char>) -> Seq<char> {
    path + ": "@ + message
}

/// Puts the path of a file in front of a message.
pub fn annotate(path: &str, message: &str) -> (line: String)
    ensures
        line@ == annotated(path@, message@),
{
    String::from_str(path).concat(": ").concat(message)
}

/// Whether a file with this extension is HTML whatever the configuration
/// says.
pub open spec fn names_html(extension: Option<Seq<char>>) -> bool {
    extension == Some(FORMAT_HTML@)
}

impl Speller {
    /// The format in which a file with this extension is corrected: HTML
    /// for the extension `html`, the configured format for any other
    /// and for none.
    pub open spec fn file_format(self, extension: Option<Seq<char>>) -> Seq<char> {
        if names_html(extension) {
            FORMAT_HTML@
        } else {
            format_tag(self.config.is_html)
        }
    }

    /// Says what to do with what the walk found at a path. What is no
    /// regular file, and a file that holds no text, are passed over. For a
    /// text the correction is started, in the format that the extension
    /// asks for; a text that is too large fails at once, under its path.
    pub fn spell_path(&self, path: &str, extension: Option<&str>, found: &Found) -> (step:
        FileStep)
        ensures
            match found {
                Found::Other | Found::Binary => step == FileStep::Done(FileOutcome::Skipped),
                Found::Text(content) => if fits(content@) {
                    step matches FileStep::Ask(correction) && correction@ == self.query(
                        content@,
                        self.file_format(extension.deep_view()),
                    )
                } else {
                    step matches FileStep::Done(FileOutcome::Failed(line)) && line@ == annotated(
                        path@,
                        too_long(byte_len(content@)),
                    )
                },
            },
    {
        match found {
            Found::Other => FileStep::Done(FileOutcome::Skipped),
            Found::Binary => FileStep::Done(FileOutcome::Skipped),
            Found::Text(content) => {
                let html = match extension {
                    Some(extension) => same_chars(&chars_of(extension), &chars_of(FORMAT_HTML)),
                    None => false,
                };
                let started = if html {
                    self.spell_as(content.as_str(), FORMAT_HTML)
                } else {
                    self.spell_text(content.as_str())
                };
                match started {
                    Ok(correction) => FileStep::Ask(correction),
                    Err(e) => FileStep::Done(file_outcome(path, Err(e))),
                }
            },
        }
    }
}

/// What became of a file whose correction has come to an end: its new
/// content, or the failure under the file's path.
pub fn file_outcome(path: &str, result: Result<String, SpellerError>) -> (outcome: FileOutcome)
    ensures
        match result {
            Ok(text) => outcome == FileOutcome::Corrected(text),
            Err(e) => outcome matches FileOutcome::Failed(line) && line@ == annotated(
                path@,
                message_of(e.deep_view()),
            ),
        },
{
    match result {
        Ok(text) => FileOutcome::Corrected(text),
        Err(e) => FileOutcome::Failed(annotate(path, e.message().as_str())),
    }
}

/// What became of the file at a path.
#[derive(Debug, Clone, PartialEq, Eq)]
pub struct FileReport {
    /// The path of the file.
    pub path: String,
    /// What became of it.
    pub outcome: FileOutcome,
}

/// What became of the files of a walk, in the order of the walk.
#[derive(Debug, Clone, PartialEq, Eq)]
pub struct BatchReport {
    /// One entry for each file.
    pub files: Vec<FileReport>,
}

/// The reasons of the failures among the reports, in their order.
pub open spec fn failures_of(files: Seq<FileReport>) -> Seq<Seq<char>>
    decreases files.len(),
{
    if files.len() == 0 {
        Seq::empty()
    } else {
        let before = failures_of(files.drop_last());
        match files.last().outcome {
            FileOutcome::Failed(line) => before.push(line@),
            _ => before,
        }
    }
}

impl BatchReport {
    /// The report of a walk that has found nothing yet.
    pub fn new() -> (report: BatchReport)
        ensures
            report.files@.len() == 0,
    {
        BatchReport { files: Vec::new() }
    }

    /// Adds what became of one more file. What was reported before stays
    /// as it is.
    pub fn record(&mut self, path: &str, outcome: FileOutcome)
        ensures
            final(self).files@.len() == old(self).files@.len() + 1,
            final(self).files@.drop_last() == old(self).files@,
            final(self).files@.last().path@ == path@,
            final(self).files@.last().outcome == outcome,
    {
        self.files.push(FileReport { path: String::from_str(path), outcome });
        assert(self.files@.drop_last() =~= old(self).files@);
    }

    /// The reasons of all the failures, in the order of the walk.
    pub fn failures(&self) -> (lines: Vec<String>)
        ensures
            lines.deep_view() == failures_of(self.files@),
    {
        let mut lines: Vec<String> = Vec::new();
        let mut i: usize = 0;
        while i < self.files.len()
            invariant
                i <= self.files.len(),
                lines.deep_view() == failures_of(self.files@.take(i as int)),
            decreases self.files.len() - i,
        {
            let ghost before = lines.deep_view();
            assert(self.files@.take(i + 1).drop_last() =~= self.files@.take(i as int));
            match &self.files[i].outcome {
                FileOutcome::Failed(line) => {
                    lines.push(line.clone());
                    assert(lines.deep_view() =~= before.push(line@));
                },
                _ => {},
            }
            i += 1;
        }
        assert(self.files@.take(self.files.len() as int) =~= self.files@);
        lines
    }
}

} // verus!

//! What can go wrong, and how it is worded.

use vstd::prelude::*;
use crate::text::{chars_of, decimal, extend_chars, occurs_at, push_decimal, string_of};

verus! {

/// Number of bytes from which on a text is too large for one request.
pub const TEXT_LIMIT: usize = 10000;

/// A failure of one unit of work. None of them is retried.
#[derive(Debug, Clone, PartialEq, Eq)]
pub enum SpellerError {
    /// The text has this many bytes, which is not under the limit; nothing
    /// was sent.
    InputTooLarge(usize),
    /// No response came from the service; the transport said this.
    OracleUnavailable(String),
    /// The service answered with a status other than success, and this body.
    OracleRequestFailed(String),
    /// The service answered with success, but its body is not a list of
    /// issues; the decoder said this.
    OracleProtocolError(String),
    /// These tokens of a language list name no language, in the order in
    /// which they stood there.
    UnsupportedLanguage(Vec<String>),
    /// The page came with a status other than success, and this body.
    FetchFailed(String),
}

/// The mathematical value of a [`SpellerError`].
pub enum Failure {
    InputTooLarge(nat),
    OracleUnavailable(Seq<char>),
    OracleRequestFailed(Seq<char>),
    OracleProtocolError(Seq<char>),
    UnsupportedLanguage(Seq<Seq<char>>),
    FetchFailed(Seq<char>),
}

impl DeepView for SpellerError {
    type V = Failure;

    open spec fn deep_view(&self) -> Failure {
        match self {
            SpellerError::InputTooLarge(len) => Failure::InputTooLarge(*len as nat),
            SpellerError::OracleUnavailable(said) => Failure::OracleUnavailable(said@),
            SpellerError::OracleRequestFailed(body) => Failure::OracleRequestFailed(body@),
            SpellerError::OracleProtocolError(said) => Failure::OracleProtocolError(said@),
            SpellerError::UnsupportedLanguage(tokens) => Failure::UnsupportedLanguage(
                tokens.deep_view(),
            ),
            SpellerError::FetchFailed(body) => Failure::FetchFailed(body@),
        }
    }
}

impl View for SpellerError {
    type V = Failure;

    open spec fn view(&self) -> Failure {
        self.deep_view()
    }
}

/// What is said of a token that names no language.
pub open spec fn unsupported(token: Seq<char>) -> Seq<char> {
    "Unsupported language "@ + token
}

/// What is said of a list of tokens that name no language: for each token in
/// turn a comma and what is said of that token.
pub open spec fn unsupported_all(tokens: Seq<Seq<char>>) -> Seq<char>
    decreases tokens.len(),
{
    if tokens.len() == 0 {
        Seq::empty()
    } else {
        unsupported_all(tokens.drop_last()) + seq![','] + unsupported(tokens.last())
    }
}

/// What is said of a response that was no success.
pub open spec fn refused(body: Seq<char>) -> Seq<char> {
    "Failed to call api "@ + body
}

/// What is said of a text that is too large.
pub open spec fn too_long(len: nat) -> Seq<char> {
    "Input text is too long: "@ + decimal(len) + " >= "@ + decimal(TEXT_LIMIT as nat)
}

/// The wording of a failure.
pub open spec fn message_of(failure: Failure) -> Seq<char> {
    match failure {
        Failure::InputTooLarge(len) => too_long(len),
        Failure::OracleUnavailable(said) => said,
        Failure::OracleRequestFailed(body) => refused(body),
        Failure::OracleProtocolError(said) => said,
        Failure::UnsupportedLanguage(tokens) => unsupported_all(tokens),
        Failure::FetchFailed(body) => refused(body),
    }
}

/// Whether `word` stands somewhere in `text`.
pub open spec fn mentions(text: Seq<char>, word: Seq<char>) -> bool {
    exists|at: int| occurs_at(text, at, word)
}

impl SpellerError {
    /// The wording of this failure.
    pub fn message(&self) -> (m: String)
        ensures
            m@ == message_of(self.deep_view()),
    {
        match self {
            SpellerError::InputTooLarge(len) => {
                let mut out = chars_of("Input text is too long: ");
                push_decimal(&mut out, *len as u64);
                extend_chars(&mut out, &chars_of(" >= "));
                push_decimal(&mut out, TEXT_LIMIT as u64);
                string_of(&out)
            },
            SpellerError::OracleUnavailable(said) => said.clone(),
            SpellerError::OracleRequestFailed(body) => String::from_str("Failed to call api ").concat(
                body.as_str(),
            ),
            SpellerError::OracleProtocolError(said) => said.clone(),
            SpellerError::UnsupportedLanguage(tokens) => {
                let mut out: Vec<char> = Vec::new();
                let mut i: usize = 0;
                while i < tokens.len()
                    invariant
                        i <= tokens.len(),
                        out@ == unsupported_all(tokens.deep_view().take(i as int)),
                    decreases tokens.len() - i,
                {
                    proof {
                        let done = tokens.deep_view().take(i + 1);
                        assert(done.drop_last() =~= tokens.deep_view().take(i as int));
                        assert(done.last() == tokens[i as int]@);
                        reveal_strlit(",");
                        assert(","@ =~= seq![',']);
                    }
                    extend_chars(&mut out, &chars_of(","));
                    extend_chars(&mut out, &chars_of("Unsupported language "));
                    extend_chars(&mut out, &chars_of(tokens[i].as_str()));
                    assert(out@ =~= unsupported_all(tokens.deep_view().take(i + 1)));
                    i += 1;
                }
                assert(tokens.deep_view().take(tokens.len() as int) =~= tokens.deep_view());
                string_of(&out)
            },
            SpellerError::FetchFailed(body) => String::from_str("Failed to call api ").concat(
                body.as_str(),
            ),
        }
    }
}

/// The wording of a list of unsupported tokens mentions each of them.
pub proof fn lemma_every_token_is_mentioned(tokens: Seq<Seq<char>>, i: int)
    requires
        0 <= i < tokens.len(),
    ensures
        mentions(unsupported_all(tokens), tokens[i]),
        mentions(message_of(Failure::UnsupportedLanguage(tokens)), tokens[i]),
    decreases tokens.len(),
{
    let all = unsupported_all(tokens);
    let before = unsupported_all(tokens.drop_last());
    if i == tokens.len() - 1 {
        let at = all.len() - tokens[i].len();
        assert(all.subrange(at, at + tokens[i].len()) =~= tokens[i]);
        assert(occurs_at(all, at, tokens[i]));
    } else {
        lemma_every_token_is_mentioned(tokens.drop_last(), i);
        let at = choose|at: int| occurs_at(before, at, tokens[i]);
        assert(all.subrange(at, at + tokens[i].len()) =~= before.subrange(
            at,
            at + tokens[i].len(),
        ));
        assert(occurs_at(all, at, tokens[i]));
    }
}

} // verus!

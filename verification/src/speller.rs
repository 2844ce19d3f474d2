//! The speller: from a configuration and an input to the request that is to
//! be sent, and from the reply to the result.
//!
//! Nothing here touches the network or the file system. Each way of
//! working is cut where the world comes in: one function says what to ask,
//! the caller asks, another function says what the reply amounts to.

use vstd::prelude::*;
use crate::config::Config;
use crate::correction::{apply, corrected};
use crate::error::SpellerError;
use crate::language::lang_tag;
use crate::oracle::{
    answer, byte_len, fits, format_tag, is_success, read_reply, success, OracleReply,
    OracleRequest, Query, FORMAT_HTML, FORMAT_PLAIN,
};

verus! {

/// The option bit that makes the service pass over words with digits.
pub const IGNORE_DIGITS: u32 = 2;

/// The option bit that makes the service pass over addresses and file names.
pub const IGNORE_URLS: u32 = 4;

/// The option bit that makes the service report repeated words.
pub const FIND_REPEAT_WORDS: u32 = 8;

/// The option bit that makes the service pass over wrong capitalization.
pub const IGNORE_CAPITALIZATION: u32 = 512;

/// The bit of a toggle that is on; nothing for one that is off.
pub open spec fn flag(on: bool, bit: u32) -> u32 {
    if on {
        bit
    } else {
        0
    }
}

/// The option bits of a configuration: the bits of the toggles that are on,
/// or-ed together.
pub open spec fn options_of(config: Config) -> u32 {
    flag(config.ignore_digits, IGNORE_DIGITS) | flag(config.ignore_urls, IGNORE_URLS) | flag(
        config.find_repeat_words,
        FIND_REPEAT_WORDS,
    ) | flag(config.ignore_capitalization, IGNORE_CAPITALIZATION)
}

/// Or-ing the four option bits, each of them or nothing in its place.
proof fn lemma_or_of_bits(a: u32, b: u32, c: u32, d: u32)
    by (bit_vector)
    requires
        a == 0 || a == 2,
        b == 0 || b == 4,
        c == 0 || c == 8,
        d == 0 || d == 512,
    ensures
        (a | b | c | d) == a + b + c + d,
        (a | b | c | d) & 2 == a,
        (a | b | c | d) & 4 == b,
        (a | b | c | d) & 8 == c,
        (a | b | c | d) & 512 == d,
        (a | b | c | d) == (((0u32 | a) | b) | c) | d,
        (a | b | c | d) & !(2u32 | 4u32 | 8u32 | 512u32) == 0,
{
}

/// The option bits of a configuration are the sum of the bits of the toggles
/// that are on: each of the four bits is set if, and only if, its toggle is
/// on, and no other bit is ever set.
pub proof fn lemma_option_bits(config: Config)
    ensures
        options_of(config) == flag(config.ignore_digits, IGNORE_DIGITS) + flag(
            config.ignore_urls,
            IGNORE_URLS,
        ) + flag(config.find_repeat_words, FIND_REPEAT_WORDS) + flag(
            config.ignore_capitalization,
            IGNORE_CAPITALIZATION,
        ),
        (options_of(config) & IGNORE_DIGITS != 0) == config.ignore_digits,
        (options_of(config) & IGNORE_URLS != 0) == config.ignore_urls,
        (options_of(config) & FIND_REPEAT_WORDS != 0) == config.find_repeat_words,
        (options_of(config) & IGNORE_CAPITALIZATION != 0) == config.ignore_capitalization,
        options_of(config) & !(IGNORE_DIGITS | IGNORE_URLS | FIND_REPEAT_WORDS
            | IGNORE_CAPITALIZATION) == 0,
{
    lemma_or_of_bits(
        flag(config.ignore_digits, IGNORE_DIGITS),
        flag(config.ignore_urls, IGNORE_URLS),
        flag(config.find_repeat_words, FIND_REPEAT_WORDS),
        flag(config.ignore_capitalization, IGNORE_CAPITALIZATION),
    );
}

/// The entry point: a configuration, and the ways of working with it.
#[derive(Debug, Clone, Copy)]
pub struct Speller {
    /// The choices that hold for the next call.
    pub config: Config,
}

/// A correction that waits for the service's reply.
#[derive(Debug)]
pub struct Correction {
    request: OracleRequest,
}

impl View for Correction {
    type V = Query;

    /// The request that is to be sent; its text is the text to correct.
    closed spec fn view(&self) -> Query {
        self.request@
    }
}

/// The corrected text that a reply leads to, or the failure.
pub open spec fn outcome(text: Seq<char>, reply: OracleReply) -> Result<Seq<char>, SpellerError> {
    match answer(reply) {
        Ok(issues) => Ok(corrected(text, issues.deep_view())),
        Err(e) => Err(e),
    }
}

impl Correction {
    /// The request that is to be sent.
    pub fn request(&self) -> (request: &OracleRequest)
        ensures
            request@ == self@,
            fits(self@.text),
    {
        proof {
            use_type_invariant(&self.request);
        }
        &self.request
    }

    /// Completes the correction with the reply to its request: the text
    /// with every issue applied, or the failure that the reply stands for.
    pub fn finish(self, reply: OracleReply) -> (r: Result<String, SpellerError>)
        ensures
            match outcome(self@.text, reply) {
                Ok(text) => r matches Ok(t) && t@ == text,
                Err(e) => r == Err::<String, SpellerError>(e),
            },
    {
        match read_reply(reply) {
            Ok(issues) => Ok(apply(self.request.text(), &issues)),
            Err(e) => Err(e),
        }
    }
}

/// A page as it was fetched.
#[derive(Debug, Clone, PartialEq, Eq)]
pub struct Page {
    /// The status code of the response.
    pub status: u16,
    /// The body of the response.
    pub body: String,
}

impl Speller {
    /// A speller that works under the given configuration.
    pub fn new(config: Config) -> (speller: Speller)
        ensures
            speller.config == config,
    {
        Speller { config }
    }

    /// The option bits of the configuration.
    pub fn api_options(&self) -> (options: u32)
        ensures
            options == options_of(self.config),
    {
        let mut options = 0u32;
        if self.config.ignore_digits {
            options |= IGNORE_DIGITS
        }
        if self.config.ignore_urls {
            options |= IGNORE_URLS
        }
        if self.config.find_repeat_words {
            options |= FIND_REPEAT_WORDS
        }
        if self.config.ignore_capitalization {
            options |= IGNORE_CAPITALIZATION
        }
        proof {
            lemma_or_of_bits(
                flag(self.config.ignore_digits, IGNORE_DIGITS),
                flag(self.config.ignore_urls, IGNORE_URLS),
                flag(self.config.find_repeat_words, FIND_REPEAT_WORDS),
                flag(self.config.ignore_capitalization, IGNORE_CAPITALIZATION),
            );
            assert(forall|x: u32| #[trigger] (x | 0) == x) by (bit_vector);
        }
        options
    }

    /// The format tag of the configuration.
    pub fn get_format(&self) -> (format: &'static str)
        ensures
            format@ == format_tag(self.config.is_html),
    {
        if self.config.is_html {
            FORMAT_HTML
        } else {
            FORMAT_PLAIN
        }
    }

    /// The parameters with which this speller asks about a text.
    pub open spec fn query(self, text: Seq<char>, format: Seq<char>) -> Query {
        Query {
            text,
            options: options_of(self.config),
            lang: lang_tag(self.config.languages@),
            format,
        }
    }

    /// The request for a text in a format, under the configuration as it is
    /// now. A text that is not under the limit gets no request but the
    /// error that says so, with its number of bytes.
    pub fn call_api(&self, text: &str, format: &str) -> (r: Result<OracleRequest, SpellerError>)
        ensures
            match r {
                Ok(request) => fits(text@) && request@ == self.query(text@, format@),
                Err(e) => !fits(text@) && e == SpellerError::InputTooLarge(
                    byte_len(text@) as usize,
                ) && byte_len(text@) <= usize::MAX,
            },
    {
        let lang = self.config.languages.to_string();
        OracleRequest::new(text, self.api_options(), lang.as_str(), format)
    }

    /// Starts a check of a text in the configured format: gives the
    /// request to send. The reply is read with [`read_reply`], which gives
    /// the issues as they came, with nothing applied.
    pub fn check_text(&self, text: &str) -> (r: Result<OracleRequest, SpellerError>)
        ensures
            match r {
                Ok(request) => fits(text@) && request@ == self.query(
                    text@,
                    format_tag(self.config.is_html),
                ),
                Err(e) => !fits(text@) && e == SpellerError::InputTooLarge(
                    byte_len(text@) as usize,
                ) && byte_len(text@) <= usize::MAX,
            },
    {
        self.call_api(text, self.get_format())
    }

    /// Starts the correction of a text in the configured format.
    pub fn spell_text(&self, text: &str) -> (r: Result<Correction, SpellerError>)
        ensures
            match r {
                Ok(correction) => fits(text@) && correction@ == self.query(
                    text@,
                    format_tag(self.config.is_html),
                ),
                Err(e) => !fits(text@) && e == SpellerError::InputTooLarge(
                    byte_len(text@) as usize,
                ) && byte_len(text@) <= usize::MAX,
            },
    {
        self.spell_as(text, self.get_format())
    }

    /// Starts the correction of a text in the given format.
    pub fn spell_as(&self, text: &str, format: &str) -> (r: Result<Correction, SpellerError>)
        ensures
            match r {
                Ok(correction) => fits(text@) && correction@ == self.query(text@, format@),
                Err(e) => !fits(text@) && e == SpellerError::InputTooLarge(
                    byte_len(text@) as usize,
                ) && byte_len(text@) <= usize::MAX,
            },
    {
        match self.call_api(text, format) {
            Ok(request) => Ok(Correction { request }),
            Err(e) => Err(e),
        }
    }

    /// Starts the correction of a fetched page. A page that came without
    /// success is a failure, with its body. Any other page is corrected as
    /// HTML, whatever the configuration says of the format.
    pub fn spell_url(&self, page: Page) -> (r: Result<Correction, SpellerError>)
        ensures
            match r {
                Ok(correction) => success(page.status) && fits(page.body@) && correction@
                    == self.query(page.body@, FORMAT_HTML@),
                Err(e) => if success(page.status) {
                    !fits(page.body@) && e == SpellerError::InputTooLarge(
                        byte_len(page.body@) as usize,
                    ) && byte_len(page.body@) <= usize::MAX
                } else {
                    e == SpellerError::FetchFailed(page.body)
                },
            },
    {
        if !is_success(page.status) {
            return Err(SpellerError::FetchFailed(page.body));
        }
        self.spell_as(page.body.as_str(), FORMAT_HTML)
    }
}

} // verus!

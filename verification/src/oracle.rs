//! The exchange with the spelling service: what is asked, and what an answer
//! means. Sending and receiving are left to the caller.

use vstd::prelude::*;
use vstd::utf8::encode_utf8;
use crate::diagnostic::SpellResult;
use crate::error::{SpellerError, TEXT_LIMIT};

verus! {

/// Where the service is asked.
pub const API_URL: &'static str = "https://speller.yandex.net/services/spellservice.json/checkText";

/// The format tag of plain text.
pub const FORMAT_PLAIN: &'static str = "plain";

/// The format tag of HTML.
pub const FORMAT_HTML: &'static str = "html";

/// The number of bytes that a text takes on the wire.
pub open spec fn byte_len(text: Seq<char>) -> nat {
    encode_utf8(text).len()
}

/// Whether a text is small enough for one request.
pub open spec fn fits(text: Seq<char>) -> bool {
    byte_len(text) < TEXT_LIMIT
}

/// The format tag for HTML or for plain text.
pub open spec fn format_tag(html: bool) -> Seq<char> {
    if html {
        FORMAT_HTML@
    } else {
        FORMAT_PLAIN@
    }
}

/// The four parameters of a request.
pub struct Query {
    pub text: Seq<char>,
    pub options: u32,
    pub lang: Seq<char>,
    pub format: Seq<char>,
}

/// One request to the service: a GET of [`API_URL`] with the parameters
/// `text`, `options`, `lang` and `format`.
///
/// A request can only be had for a text that is under the limit, so none
/// that is over it can ever be sent.
#[derive(Debug, PartialEq, Eq)]
pub struct OracleRequest {
    text: String,
    options: u32,
    lang: String,
    format: String,
}

impl View for OracleRequest {
    type V = Query;

    closed spec fn view(&self) -> Query {
        Query { text: self.text@, options: self.options, lang: self.lang@, format: self.format@ }
    }
}

impl OracleRequest {
    /// The text of every request is under the limit.
    #[verifier::type_invariant]
    pub(crate) open spec fn within_limit(self) -> bool {
        fits(self@.text)
    }

    /// Makes the request for a text, unless the text is too large; the
    /// error then holds its number of bytes.
    pub fn new(text: &str, options: u32, lang: &str, format: &str) -> (r: Result<
        OracleRequest,
        SpellerError,
    >)
        ensures
            match r {
                Ok(request) => fits(text@) && request@ == (Query {
                    text: text@,
                    options,
                    lang: lang@,
                    format: format@,
                }),
                Err(e) => !fits(text@) && e == SpellerError::InputTooLarge(
                    byte_len(text@) as usize,
                ) && byte_len(text@) <= usize::MAX,
            },
    {
        let len = text.as_bytes().len();
        if len >= TEXT_LIMIT {
            return Err(SpellerError::InputTooLarge(len));
        }
        Ok(
            OracleRequest {
                text: String::from_str(text),
                options,
                lang: String::from_str(lang),
                format: String::from_str(format),
            },
        )
    }

    /// The text to check, which is under the limit.
    pub fn text(&self) -> (text: &str)
        ensures
            text@ == self@.text,
            fits(text@),
    {
        proof {
            use_type_invariant(self);
        }
        self.text.as_str()
    }

    /// The option bits.
    pub fn options(&self) -> (options: u32)
        ensures
            options == self@.options,
    {
        self.options
    }

    /// The language tag.
    pub fn lang(&self) -> (lang: &str)
        ensures
            lang@ == self@.lang,
    {
        self.lang.as_str()
    }

    /// The format tag.
    pub fn format(&self) -> (format: &str)
        ensures
            format@ == self@.format,
    {
        self.format.as_str()
    }
}

/// What came back for one request.
#[derive(Debug, PartialEq, Eq)]
pub enum OracleReply {
    /// Nothing: the connection, a timeout, or the transfer of the body
    /// failed, and the transport said this.
    Unavailable(String),
    /// A response.
    Response {
        /// Its status code.
        status: u16,
        /// Its body.
        body: String,
        /// The body read as a list of issues, or what the decoder said
        /// where it is none.
        decoded: Result<Vec<SpellResult>, String>,
    },
}

/// Whether a status code stands for success: the codes from 200 to 299.
pub open spec fn success(status: u16) -> bool {
    200 <= status < 300
}

/// Tests whether a status code stands for success.
pub fn is_success(status: u16) -> (yes: bool)
    ensures
        yes == success(status),
{
    200 <= status && status < 300
}

/// What a reply means: no response is a failure of the transport; a
/// response without success is a refusal, with its body; a response with
/// success is its list of issues if the body was one, and a breach of
/// the protocol if not.
pub open spec fn answer(reply: OracleReply) -> Result<Vec<SpellResult>, SpellerError> {
    match reply {
        OracleReply::Unavailable(said) => Err(SpellerError::OracleUnavailable(said)),
        OracleReply::Response { status, body, decoded } => if !success(status) {
            Err(SpellerError::OracleRequestFailed(body))
        } else {
            match decoded {
                Ok(issues) => Ok(issues),
                Err(said) => Err(SpellerError::OracleProtocolError(said)),
            }
        },
    }
}

/// Reads a reply: the issues that the service found, or the failure.
pub fn read_reply(reply: OracleReply) -> (r: Result<Vec<SpellResult>, SpellerError>)
    ensures
        r == answer(reply),
{
    match reply {
        OracleReply::Unavailable(said) => Err(SpellerError::OracleUnavailable(said)),
        OracleReply::Response { status, body, decoded } => {
            if !is_success(status) {
                Err(SpellerError::OracleRequestFailed(body))
            } else {
                match decoded {
                    Ok(issues) => Ok(issues),
                    Err(said) => Err(SpellerError::OracleProtocolError(said)),
                }
            }
        },
    }
}

} // verus!

//! What a caller can choose: the languages, the format, and four toggles.

use vstd::prelude::*;
use crate::error::{Failure, SpellerError};
use crate::language::{default_languages, parsed, Language, Languages};
use crate::text::{chars_of, stands_at};

verus! {

/// The choices under which a text is checked.
///
/// A speller reads them anew at every call, so a change between two calls
/// holds for the second.
#[derive(Clone, Debug, Copy)]
pub struct Config {
    /// The languages to check.
    pub languages: Languages,
    /// Whether the text is HTML rather than plain text.
    pub is_html: bool,
    /// Pass over words with digits in them, such as avp17h4534.
    pub ignore_digits: bool,
    /// Pass over Internet addresses, mail addresses and file names.
    pub ignore_urls: bool,
    /// Report a word that stands twice in a row.
    pub find_repeat_words: bool,
    /// Pass over wrong use of capital and small letters.
    pub ignore_capitalization: bool,
}

impl Default for Config {
    /// Russian and English, plain text, every toggle off.
    fn default() -> (config: Config)
        ensures
            config.languages@ == default_languages(),
            !config.is_html,
            !config.ignore_digits,
            !config.ignore_urls,
            !config.find_repeat_words,
            !config.ignore_capitalization,
    {
        Config {
            languages: Languages::default(),
            is_html: false,
            ignore_digits: false,
            ignore_urls: false,
            find_repeat_words: false,
            ignore_capitalization: false,
        }
    }
}

impl Config {
    /// Whether two configurations differ in nothing but their languages.
    pub open spec fn same_toggles(self, other: Config) -> bool {
        &&& self.is_html == other.is_html
        &&& self.ignore_digits == other.ignore_digits
        &&& self.ignore_urls == other.ignore_urls
        &&& self.find_repeat_words == other.find_repeat_words
        &&& self.ignore_capitalization == other.ignore_capitalization
    }

    /// Puts a language into the set of languages to check.
    pub fn enable_language(&mut self, language: Language)
        ensures
            final(self).languages@ == old(self).languages@.insert(language),
            final(self).same_toggles(*old(self)),
    {
        self.languages.enable_language(language)
    }

    /// Takes a language out of the set of languages to check.
    pub fn disable_language(&mut self, language: Language)
        ensures
            final(self).languages@ == old(self).languages@.remove(language),
            final(self).same_toggles(*old(self)),
    {
        self.languages.disable_language(language)
    }
}

/// The languages that a choice on the command line stands for: those of the
/// list if there is one, Russian and English if there is none.
pub open spec fn chosen(lang: Option<Seq<char>>) -> Result<Set<Language>, Seq<Seq<char>>> {
    match lang {
        Some(list) => parsed(list),
        None => Ok(default_languages()),
    }
}

/// Makes a configuration from what was given on the command line. It fails
/// if, and only if, a list of languages was given and a piece of it names no
/// language.
pub fn create_config(
    lang: Option<&str>,
    is_html: bool,
    ignore_digits: bool,
    ignore_urls: bool,
    find_repeat_words: bool,
    ignore_capitalization: bool,
) -> (r: Result<Config, SpellerError>)
    ensures
        match r {
            Ok(config) => {
                &&& chosen(lang.deep_view()) == Ok::<Set<Language>, Seq<Seq<char>>>(
                    config.languages@,
                )
                &&& config.is_html == is_html
                &&& config.ignore_digits == ignore_digits
                &&& config.ignore_urls == ignore_urls
                &&& config.find_repeat_words == find_repeat_words
                &&& config.ignore_capitalization == ignore_capitalization
            },
            Err(e) => {
                &&& chosen(lang.deep_view()) is Err
                &&& e.deep_view() == Failure::UnsupportedLanguage(chosen(lang.deep_view())->Err_0)
            },
        },
{
    let languages = match lang {
        Some(list) => match Languages::from_str(list) {
            Ok(languages) => languages,
            Err(e) => {
                return Err(e);
            },
        },
        None => Languages::default(),
    };
    Ok(
        Config {
            languages,
            is_html,
            ignore_digits,
            ignore_urls,
            find_repeat_words,
            ignore_capitalization,
        },
    )
}

/// Whether an argument of the command line is taken for an address of a
/// page: it is if it begins with `http`.
pub fn is_url(argument: &str) -> (yes: bool)
    ensures
        yes == "http"@.is_prefix_of(argument@),
{
    stands_at(&chars_of(argument), 0, &chars_of("http"))
}

} // verus!

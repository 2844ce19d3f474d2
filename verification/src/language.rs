//! The languages that the service knows, and sets of them.

use vstd::prelude::*;
use crate::error::{
    lemma_every_token_is_mentioned, mentions, message_of, unsupported, Failure, SpellerError,
};
use crate::text::{chars_of, join, joined, lemma_split_joined, same_chars, split, split_on};

verus! {

/// A language that the service can check.
#[derive(Debug, PartialEq, Eq, Clone, Copy, Structural)]
pub enum Language {
    /// Russian
    RU,
    /// English
    EN,
    /// Ukrainian
    UA,
}

/// The language that a wire code names, if it names one.
pub open spec fn language_of(code: Seq<char>) -> Option<Language> {
    if code == "ru"@ {
        Some(Language::RU)
    } else if code == "en"@ {
        Some(Language::EN)
    } else if code == "uk"@ {
        Some(Language::UA)
    } else {
        None
    }
}

/// The three wire codes, character by character.
pub proof fn lemma_codes()
    ensures
        "ru"@ == seq!['r', 'u'],
        "en"@ == seq!['e', 'n'],
        "uk"@ == seq!['u', 'k'],
{
    reveal_strlit("ru");
    reveal_strlit("en");
    reveal_strlit("uk");
    assert("ru"@ =~= seq!['r', 'u']);
    assert("en"@ =~= seq!['e', 'n']);
    assert("uk"@ =~= seq!['u', 'k']);
}

impl Language {
    /// The bit that stands for this language in a set of languages.
    pub open spec fn bit_spec(self) -> usize {
        match self {
            Language::RU => 1,
            Language::EN => 2,
            Language::UA => 4,
        }
    }

    /// The bit that stands for this language in a set of languages.
    pub fn bit(self) -> (b: usize)
        ensures
            b == self.bit_spec(),
    {
        match self {
            Language::RU => 1,
            Language::EN => 2,
            Language::UA => 4,
        }
    }

    /// The code by which the service knows this language.
    pub open spec fn code_spec(self) -> Seq<char> {
        match self {
            Language::RU => "ru"@,
            Language::EN => "en"@,
            Language::UA => "uk"@,
        }
    }

    /// The code by which the service knows this language.
    pub fn code(self) -> (c: &'static str)
        ensures
            c@ == self.code_spec(),
    {
        match self {
            Language::RU => "ru",
            Language::EN => "en",
            Language::UA => "uk",
        }
    }

    /// The language's code as an owned string.
    pub fn to_string(&self) -> (s: String)
        ensures
            s@ == self.code_spec(),
    {
        String::from_str(self.code())
    }

    /// Reads a language from its code. Any other string is an error, whose
    /// message repeats the string.
    pub fn from_str(s: &str) -> (r: Result<Language, String>)
        ensures
            match r {
                Ok(language) => language_of(s@) == Some(language),
                Err(message) => language_of(s@) is None && message@ == unsupported(s@),
            },
    {
        let chars = chars_of(s);
        match language_named(&chars) {
            Some(language) => Ok(language),
            None => Err(String::from_str("Unsupported language ").concat(s)),
        }
    }
}

/// The language that the given characters name, if they name one.
pub fn language_named(code: &Vec<char>) -> (r: Option<Language>)
    ensures
        r == language_of(code@),
{
    if same_chars(code, &chars_of("ru")) {
        Some(Language::RU)
    } else if same_chars(code, &chars_of("en")) {
        Some(Language::EN)
    } else if same_chars(code, &chars_of("uk")) {
        Some(Language::UA)
    } else {
        None
    }
}

/// Every code names the language it belongs to.
pub proof fn lemma_code_names_language(language: Language)
    ensures
        language_of(language.code_spec()) == Some(language),
{
    lemma_codes();
    assert(seq!['r', 'u'][0] == 'r');
    assert(seq!['e', 'n'][0] == 'e');
    assert(seq!['u', 'k'][0] == 'u');
}

/// A set of languages, held as the sum of its members' bits.
///
/// Start from `Languages::default()` or `Languages::new()`.
#[derive(Debug, Clone, Copy)]
pub struct Languages {
    langs: usize,
}

/// The languages that are checked where none are chosen.
pub open spec fn default_languages() -> Set<Language> {
    set![Language::RU, Language::EN]
}

/// The sum of the bits of the languages in a set.
pub open spec fn mask_of(set: Set<Language>) -> usize {
    let ru: usize = if set.contains(Language::RU) { 1 } else { 0 };
    let en: usize = if set.contains(Language::EN) { 2 } else { 0 };
    let ua: usize = if set.contains(Language::UA) { 4 } else { 0 };
    (ru + en + ua) as usize
}

/// How setting and clearing one language's bit acts on a mask of three bits.
proof fn lemma_bits(x: usize, b: usize, c: usize)
    by (bit_vector)
    requires
        x < 8,
        b == 1 || b == 2 || b == 4,
        c == 1 || c == 2 || c == 4,
    ensures
        (x | b) < 8,
        (x & !b) < 8,
        ((x | b) & c != 0) == ((x & c != 0) || b == c),
        ((x & !b) & c != 0) == ((x & c != 0) && b != c),
{
}

/// A mask of three bits is the sum of the bits that are set in it.
proof fn lemma_mask(x: usize)
    by (bit_vector)
    requires
        x < 8,
    ensures
        x == (if x & 1 != 0 { 1usize } else { 0usize }) + (if x & 2 != 0 { 2usize } else { 0usize })
            + (if x & 4 != 0 { 4usize } else { 0usize }),
        0usize & 1 == 0,
        0usize & 2 == 0,
        0usize & 4 == 0,
        3usize & 1 != 0,
        3usize & 2 != 0,
        3usize & 4 == 0,
{
}

impl View for Languages {
    type V = Set<Language>;

    closed spec fn view(&self) -> Set<Language> {
        Set::new(|language: Language| self.langs & language.bit_spec() != 0)
    }
}

impl Languages {
    /// No bit is set but those of the three languages.
    #[verifier::type_invariant]
    spec fn in_range(self) -> bool {
        self.langs < 8
    }

    /// The empty set.
    pub fn new() -> (languages: Languages)
        ensures
            languages@ == Set::<Language>::empty(),
    {
        proof {
            lemma_mask(0);
        }
        let languages = Languages { langs: 0 };
        assert(languages@ =~= Set::<Language>::empty());
        languages
    }

    /// The set as the sum of its members' bits.
    pub fn langs(&self) -> (mask: usize)
        ensures
            mask == mask_of(self@),
    {
        proof {
            use_type_invariant(self);
            lemma_mask(self.langs);
        }
        self.langs
    }

    /// Whether the language is in the set.
    pub fn contains(&self, language: Language) -> (found: bool)
        ensures
            found == self@.contains(language),
    {
        self.langs & language.bit() != 0
    }

    /// Puts a language into the set.
    pub fn enable_language(&mut self, language: Language)
        ensures
            final(self)@ == old(self)@.insert(language),
    {
        proof {
            use_type_invariant(&*self);
            lemma_bits(self.langs, language.bit_spec(), 1);
            lemma_bits(self.langs, language.bit_spec(), 2);
            lemma_bits(self.langs, language.bit_spec(), 4);
        }
        self.langs |= language.bit();
        assert(self@ =~= old(self)@.insert(language));
    }

    /// Takes a language out of the set.
    pub fn disable_language(&mut self, language: Language)
        ensures
            final(self)@ == old(self)@.remove(language),
    {
        proof {
            use_type_invariant(&*self);
            lemma_bits(self.langs, language.bit_spec(), 1);
            lemma_bits(self.langs, language.bit_spec(), 2);
            lemma_bits(self.langs, language.bit_spec(), 4);
        }
        self.langs &= !language.bit();
        assert(self@ =~= old(self)@.remove(language));
    }
}

impl Default for Languages {
    /// Russian and English.
    fn default() -> (languages: Languages)
        ensures
            languages@ == default_languages(),
    {
        proof {
            lemma_mask(3);
        }
        let languages = Languages { langs: 3 };
        assert(languages@ =~= default_languages());
        languages
    }
}

/// The codes of the languages in a set, in the order Russian, English,
/// Ukrainian.
pub open spec fn codes_of(set: Set<Language>) -> Seq<Seq<char>> {
    let ru = if set.contains(Language::RU) {
        seq![Language::RU.code_spec()]
    } else {
        Seq::empty()
    };
    let en = if set.contains(Language::EN) {
        seq![Language::EN.code_spec()]
    } else {
        Seq::empty()
    };
    let ua = if set.contains(Language::UA) {
        seq![Language::UA.code_spec()]
    } else {
        Seq::empty()
    };
    ru + en + ua
}

/// The tag by which a set of languages goes over the wire: the codes of its
/// members, in the order Russian, English, Ukrainian, with commas between
/// them. The tag of the empty set is empty.
pub open spec fn lang_tag(set: Set<Language>) -> Seq<char> {
    joined(codes_of(set), ',')
}

/// Those of the tokens that name no language, in their order.
pub open spec fn unknown(tokens: Seq<Seq<char>>) -> Seq<Seq<char>> {
    tokens.filter(|token: Seq<char>| language_of(token) is None)
}

/// The languages that the tokens name.
pub open spec fn named(tokens: Seq<Seq<char>>) -> Set<Language> {
    Set::new(
        |language: Language|
            exists|i: int|
                0 <= i < tokens.len() && language_of(#[trigger] tokens[i]) == Some(language),
    )
}

/// What a list of languages means: the string is cut at its commas; if every
/// piece names a language, the set of the languages named; if not, all the
/// pieces that name none, in their order.
pub open spec fn parsed(list: Seq<char>) -> Result<Set<Language>, Seq<Seq<char>>> {
    let tokens = split(list, ',');
    if unknown(tokens).len() == 0 {
        Ok(named(tokens))
    } else {
        Err(unknown(tokens))
    }
}

/// What one more token adds to the languages named and to the tokens that
/// name none.
proof fn lemma_one_more_token(tokens: Seq<Seq<char>>, token: Seq<char>)
    ensures
        language_of(token) matches Some(language) ==> named(tokens.push(token)) == named(
            tokens,
        ).insert(language) && unknown(tokens.push(token)) == unknown(tokens),
        language_of(token) is None ==> named(tokens.push(token)) == named(tokens) && unknown(
            tokens.push(token),
        ) == unknown(tokens).push(token),
{
    let more = tokens.push(token);
    reveal(Seq::filter);
    assert(more.drop_last() =~= tokens);
    assert(more.last() == token);
    assert forall|language: Language| named(tokens).contains(language) implies named(
        more,
    ).contains(language) by {
        let i = choose|i: int|
            0 <= i < tokens.len() && language_of(#[trigger] tokens[i]) == Some(language);
        assert(more[i] == tokens[i]);
    }
    assert forall|language: Language| named(more).contains(language) implies named(
        tokens,
    ).contains(language) || language_of(token) == Some(language) by {
        let i = choose|i: int|
            0 <= i < more.len() && language_of(#[trigger] more[i]) == Some(language);
        if i < tokens.len() {
            assert(more[i] == tokens[i]);
        }
    }
    match language_of(token) {
        Some(language) => {
            assert(language_of(more[tokens.len() as int]) == Some(language));
            assert(named(more) =~= named(tokens).insert(language));
        },
        None => {
            assert(named(more) =~= named(tokens));
        },
    }
}

impl Languages {
    /// The tag of this set for the wire.
    pub fn to_string(&self) -> (tag: String)
        ensures
            tag@ == lang_tag(self@),
    {
        let mut codes: Vec<String> = Vec::new();
        if self.contains(Language::RU) {
            codes.push(Language::RU.to_string());
        }
        if self.contains(Language::EN) {
            codes.push(Language::EN.to_string());
        }
        if self.contains(Language::UA) {
            codes.push(Language::UA.to_string());
        }
        assert(codes.deep_view() =~= codes_of(self@));
        join(&codes, ',')
    }

    /// Reads a set of languages from a list of codes with commas between
    /// them. If a piece of the list names no language, the whole list is
    /// refused, and the error holds every such piece.
    pub fn from_str(s: &str) -> (r: Result<Languages, SpellerError>)
        ensures
            match r {
                Ok(languages) => parsed(s@) == Ok::<Set<Language>, Seq<Seq<char>>>(languages@),
                Err(e) => parsed(s@) is Err && e.deep_view() == Failure::UnsupportedLanguage(
                    parsed(s@)->Err_0,
                ),
            },
    {
        let tokens = split_on(s, ',');
        let mut languages = Languages::new();
        let mut bad: Vec<String> = Vec::new();
        let mut i: usize = 0;
        proof {
            reveal(Seq::filter);
            assert(named(tokens.deep_view().take(0)) =~= Set::<Language>::empty());
            assert(unknown(tokens.deep_view().take(0)) =~= Seq::<Seq<char>>::empty());
        }
        while i < tokens.len()
            invariant
                i <= tokens.len(),
                languages@ == named(tokens.deep_view().take(i as int)),
                bad.deep_view() == unknown(tokens.deep_view().take(i as int)),
            decreases tokens.len() - i,
        {
            proof {
                let done = tokens.deep_view().take(i as int);
                lemma_one_more_token(done, tokens[i as int]@);
                assert(tokens.deep_view().take(i + 1) =~= done.push(tokens[i as int]@));
            }
            let ghost before = bad.deep_view();
            match language_named(&chars_of(tokens[i].as_str())) {
                Some(language) => {
                    languages.enable_language(language);
                },
                None => {
                    bad.push(tokens[i].clone());
                    assert(bad.deep_view() =~= before.push(tokens[i as int]@));
                },
            }
            i += 1;
        }
        assert(tokens.deep_view().take(tokens.len() as int) =~= tokens.deep_view());
        if bad.len() > 0 {
            Err(SpellerError::UnsupportedLanguage(bad))
        } else {
            Ok(languages)
        }
    }
}

/// A set of languages that is not empty comes back from its own tag.
pub proof fn lemma_tag_round_trip(set: Set<Language>)
    requires
        exists|language: Language| set.contains(language),
    ensures
        parsed(lang_tag(set)) == Ok::<Set<Language>, Seq<Seq<char>>>(set),
{
    let codes = codes_of(set);
    lemma_codes();
    assert forall|i: int| 0 <= i < codes.len() implies !(#[trigger] codes[i]).contains(',')
        && language_of(codes[i]) is Some && set.contains(language_of(codes[i])->0) by {
        lemma_code_names_language(Language::RU);
        lemma_code_names_language(Language::EN);
        lemma_code_names_language(Language::UA);
    }
    lemma_split_joined(codes, ',');
    lemma_all_named(codes);
    assert forall|language: Language| set.contains(language) implies named(codes).contains(
        language,
    ) by {
        lemma_code_names_language(language);
        let ru: int = if set.contains(Language::RU) { 1 } else { 0 };
        let en: int = if set.contains(Language::EN) { 1 } else { 0 };
        let i = match language {
            Language::RU => 0,
            Language::EN => ru,
            Language::UA => ru + en,
        };
        assert(codes[i] == language.code_spec());
    }
    assert(named(codes) =~= set);
}

/// One piece that names no language fails the whole list, whatever the
/// other pieces are: the error holds that piece, and its wording mentions it.
pub proof fn lemma_unknown_piece_fails_list(list: Seq<char>, i: int)
    requires
        0 <= i < split(list, ',').len(),
        language_of(split(list, ',')[i]) is None,
    ensures
        parsed(list) is Err,
        parsed(list)->Err_0.contains(split(list, ',')[i]),
        mentions(message_of(Failure::UnsupportedLanguage(parsed(list)->Err_0)), split(list, ',')[i]),
{
    let tokens = split(list, ',');
    let left = unknown(tokens);
    tokens.lemma_filter_contains(|token: Seq<char>| language_of(token) is None, i);
    let k = choose|k: int| 0 <= k < left.len() && left[k] == tokens[i];
    lemma_every_token_is_mentioned(left, k);
}

/// Where every token names a language, none is left over.
proof fn lemma_all_named(tokens: Seq<Seq<char>>)
    requires
        forall|i: int| 0 <= i < tokens.len() ==> language_of(#[trigger] tokens[i]) is Some,
    ensures
        unknown(tokens).len() == 0,
    decreases tokens.len(),
{
    reveal(Seq::filter);
    if tokens.len() > 0 {
        lemma_all_named(tokens.drop_last());
    }
}

} // verus!

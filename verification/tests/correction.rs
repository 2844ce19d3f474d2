use ryaspeller::correction::{apply, replace_all};
use ryaspeller::SpellResult;

fn issue(word: &str, suggestions: &[&str]) -> SpellResult {
    SpellResult {
        code: 1,
        col: 0,
        len: word.chars().count() as u32,
        pos: 0,
        row: 0,
        s: suggestions.iter().map(|s| s.to_string()).collect(),
        word: word.to_string(),
    }
}

#[test]
fn every_occurrence_is_replaced() {
    let issues = vec![issue("cat", &["cats"])];
    assert_eq!(apply("cat cat dog", &issues), "cats cats dog");
}

#[test]
fn an_issue_without_suggestion_changes_nothing() {
    let issues = vec![issue("cat", &[])];
    assert_eq!(apply("cat cat dog", &issues), "cat cat dog");
}

#[test]
fn an_issue_without_suggestion_among_others_is_passed_over() {
    let with = vec![issue("dog", &["dogs"]), issue("cat", &[]), issue("cow", &["cows"])];
    let without = vec![issue("dog", &["dogs"]), issue("cow", &["cows"])];
    assert_eq!(apply("cat dog cow", &with), "cat dogs cows");
    assert_eq!(apply("cat dog cow", &with), apply("cat dog cow", &without));
}

#[test]
fn no_issues_no_change() {
    assert_eq!(apply("a texxt", &Vec::new()), "a texxt");
    assert_eq!(apply("", &Vec::new()), "");
}

#[test]
fn a_corrected_text_with_no_issues_comes_back_unchanged() {
    let once = apply("a texxt with texxt", &vec![issue("texxt", &["text"])]);
    assert_eq!(once, "a text with text");
    assert_eq!(apply(&once, &Vec::new()), once);
}

#[test]
fn the_first_suggestion_is_taken() {
    let issues = vec![issue("русскиий", &["русский", "русские"])];
    assert_eq!(apply("Some и русскиий тексты", &issues), "Some и русский тексты");
}

#[test]
fn later_issues_work_on_what_earlier_ones_left() {
    let issues = vec![issue("ab", &["cd"]), issue("cd", &["ef"])];
    assert_eq!(apply("ab cd", &issues), "ef ef");
    let reversed = vec![issue("cd", &["ef"]), issue("ab", &["cd"])];
    assert_eq!(apply("ab cd", &reversed), "cd ef");
}

#[test]
fn a_word_is_replaced_inside_other_words_too() {
    let issues = vec![issue("cat", &["dog"])];
    assert_eq!(apply("concatenate", &issues), "condogenate");
}

#[test]
fn positions_play_no_part() {
    let mut far = issue("texxt", &["text"]);
    far.pos = 9000;
    far.row = 7;
    far.col = 3;
    far.len = 1;
    assert_eq!(apply("a texxt", &vec![far]), "a text");
}

#[test]
fn the_example_of_two_languages() {
    let issues = vec![issue("суббботу", &["субботу"]), issue("утромъ", &["утром"])];
    assert_eq!(apply("В суббботу утромъ.", &issues), "В субботу утром.");
}

#[test]
fn occurrences_do_not_overlap() {
    assert_eq!(replace_all("aaa", "aa", "b"), "ba");
    assert_eq!(replace_all("aaaa", "aa", "b"), "bb");
    assert_eq!(replace_all("ababab", "aba", "x"), "xbab");
}

#[test]
fn the_replacement_is_not_searched_again() {
    assert_eq!(replace_all("cat", "cat", "catcat"), "catcat");
    assert_eq!(replace_all("a", "a", "aa"), "aa");
}

#[test]
fn an_absent_word_changes_nothing() {
    assert_eq!(replace_all("cat cat dog", "cow", "cows"), "cat cat dog");
    assert_eq!(replace_all("", "cow", "cows"), "");
    assert_eq!(replace_all("co", "cow", "cows"), "co");
}

#[test]
fn an_empty_word_stands_before_every_character_and_at_the_end() {
    assert_eq!(replace_all("abc", "", "-"), "-a-b-c-");
    assert_eq!(replace_all("", "", "-"), "-");
}

#[test]
fn a_word_can_be_replaced_by_nothing() {
    assert_eq!(replace_all("a, b, c", ", ", ""), "abc");
}

#[test]
fn replacing_agrees_with_the_standard_library() {
    let texts = ["", "a", "aaa", "abcabc", "cat cat dog", "ёжик и ёж", "a\u{301}a", "xx,en,,yy"];
    let words = ["", "a", "aa", "abc", "cat", "ёж", ",", "\u{301}", "dog "];
    let withs = ["", "b", "cats", "ёлка", "aa"];
    for text in texts {
        for word in words {
            for with in withs {
                assert_eq!(replace_all(text, word, with), text.replace(word, with));
            }
        }
    }
}

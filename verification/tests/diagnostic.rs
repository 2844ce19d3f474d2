use ryaspeller::{SpellResult, SpellResults};

fn with_code(code: u32) -> SpellResult {
    SpellResult { code, col: 5, len: 8, pos: 5, row: 0, s: vec!["english".to_string()], word: "engliish".to_string() }
}

#[test]
fn known_codes_have_names() {
    assert_eq!(with_code(1).get_error_name(), Some("ERROR_UNKNOWN_WORD"));
    assert_eq!(with_code(2).get_error_name(), Some("ERROR_REPEAT_WORD"));
    assert_eq!(with_code(3).get_error_name(), Some("ERROR_CAPITALIZATION"));
    assert_eq!(with_code(4).get_error_name(), Some("ERROR_UNKNOWN_WORD"));
}

#[test]
fn other_codes_have_no_name_and_are_kept() {
    assert_eq!(with_code(0).get_error_name(), None);
    assert_eq!(with_code(5).get_error_name(), None);
    assert_eq!(with_code(u32::MAX).get_error_name(), None);
    assert_eq!(with_code(5).code, 5);
}

#[test]
fn a_list_of_issues_keeps_its_order() {
    let issues: SpellResults = vec![with_code(1), with_code(3)];
    assert_eq!(issues.len(), 2);
    assert_eq!(issues[1].code, 3);
    assert_eq!(issues[0].s, vec!["english".to_string()]);
}

use ryaspeller::oracle::{is_success, read_reply, API_URL, FORMAT_HTML, FORMAT_PLAIN};
use ryaspeller::{Config, OracleReply, OracleRequest, SpellResult, Speller, SpellerError};

fn issue(word: &str, suggestion: &str) -> SpellResult {
    SpellResult { code: 1, col: 0, len: 0, pos: 0, row: 0, s: vec![suggestion.to_string()], word: word.to_string() }
}

fn all_toggles(mask: u32) -> Config {
    let mut config = Config::default();
    config.ignore_digits = mask & 1 != 0;
    config.ignore_urls = mask & 2 != 0;
    config.find_repeat_words = mask & 4 != 0;
    config.ignore_capitalization = mask & 8 != 0;
    config
}

#[test]
fn the_wire_constants() {
    assert_eq!(API_URL, "https://speller.yandex.net/services/spellservice.json/checkText");
    assert_eq!(FORMAT_PLAIN, "plain");
    assert_eq!(FORMAT_HTML, "html");
}

#[test]
fn each_toggle_has_its_bit() {
    assert_eq!(Speller::new(all_toggles(0)).api_options(), 0);
    assert_eq!(Speller::new(all_toggles(1)).api_options(), 2);
    assert_eq!(Speller::new(all_toggles(2)).api_options(), 4);
    assert_eq!(Speller::new(all_toggles(4)).api_options(), 8);
    assert_eq!(Speller::new(all_toggles(8)).api_options(), 512);
}

#[test]
fn the_options_are_the_or_of_the_active_bits() {
    for mask in 0u32..16 {
        let mut expected = 0;
        if mask & 1 != 0 {
            expected |= 2;
        }
        if mask & 2 != 0 {
            expected |= 4;
        }
        if mask & 4 != 0 {
            expected |= 8;
        }
        if mask & 8 != 0 {
            expected |= 512;
        }
        assert_eq!(Speller::new(all_toggles(mask)).api_options(), expected);
    }
    assert_eq!(Speller::new(all_toggles(15)).api_options(), 526);
}

#[test]
fn the_order_of_toggling_plays_no_part() {
    let mut one = Config::default();
    one.ignore_capitalization = true;
    one.ignore_digits = true;
    let mut other = Config::default();
    other.ignore_digits = true;
    other.ignore_capitalization = true;
    other.ignore_urls = true;
    other.ignore_urls = false;
    assert_eq!(Speller::new(one).api_options(), 514);
    assert_eq!(Speller::new(other).api_options(), 514);
}

#[test]
fn the_format_follows_the_configuration() {
    let mut config = Config::default();
    assert_eq!(Speller::new(config).get_format(), "plain");
    config.is_html = true;
    assert_eq!(Speller::new(config).get_format(), "html");
}

#[test]
fn a_request_holds_the_four_parameters() {
    let mut config = all_toggles(9);
    config.enable_language(ryaspeller::Language::UA);
    let request = Speller::new(config).call_api("a texxt", "html").unwrap();
    assert_eq!(request.text(), "a texxt");
    assert_eq!(request.options(), 514);
    assert_eq!(request.lang(), "ru,en,uk");
    assert_eq!(request.format(), "html");
}

#[test]
fn a_check_is_asked_in_the_configured_format() {
    let mut config = Config::default();
    let request = Speller::new(config).check_text("a texxt").unwrap();
    assert_eq!(request.format(), "plain");
    assert_eq!(request.lang(), "ru,en");
    assert_eq!(request.options(), 0);
    config.is_html = true;
    let request = Speller::new(config).check_text("<p>a texxt</p>").unwrap();
    assert_eq!(request.format(), "html");
    assert_eq!(request.text(), "<p>a texxt</p>");
}

#[test]
fn no_languages_give_an_empty_tag() {
    let mut config = Config::default();
    config.disable_language(ryaspeller::Language::RU);
    config.disable_language(ryaspeller::Language::EN);
    let request = Speller::new(config).check_text("text").unwrap();
    assert_eq!(request.lang(), "");
}

#[test]
fn the_limit_is_ten_thousand_bytes() {
    let speller = Speller::new(Config::default());
    assert!(speller.check_text("").is_ok());
    assert!(speller.check_text(&"a".repeat(9_999)).is_ok());
    assert_eq!(speller.check_text(&"a".repeat(10_000)), Err(SpellerError::InputTooLarge(10_000)));
    assert_eq!(speller.check_text(&"a".repeat(10_001)), Err(SpellerError::InputTooLarge(10_001)));
}

#[test]
fn the_limit_counts_bytes_not_characters() {
    let speller = Speller::new(Config::default());
    assert!(speller.check_text(&"я".repeat(4_999)).is_ok());
    assert_eq!(speller.check_text(&"я".repeat(5_000)), Err(SpellerError::InputTooLarge(10_000)));
    assert_eq!(
        OracleRequest::new(&"€".repeat(3_334), 0, "en", "plain"),
        Err(SpellerError::InputTooLarge(10_002))
    );
    assert!(OracleRequest::new(&"€".repeat(3_333), 0, "en", "plain").is_ok());
}

#[test]
fn a_text_that_is_too_large_is_never_sent() {
    let speller = Speller::new(Config::default());
    let mut calls = 0;
    let mut oracle = |_request: &OracleRequest| {
        calls += 1;
        OracleReply::Response { status: 200, body: "[]".to_string(), decoded: Ok(Vec::new()) }
    };
    let large = "a".repeat(10_000);
    let checked = match speller.check_text(&large) {
        Ok(request) => read_reply(oracle(&request)),
        Err(e) => Err(e),
    };
    assert_eq!(checked, Err(SpellerError::InputTooLarge(10_000)));
    let spelled = match speller.spell_text(&large) {
        Ok(correction) => {
            let reply = oracle(correction.request());
            correction.finish(reply)
        }
        Err(e) => Err(e),
    };
    assert_eq!(spelled, Err(SpellerError::InputTooLarge(10_000)));
    let small = match speller.check_text("small") {
        Ok(request) => read_reply(oracle(&request)),
        Err(e) => Err(e),
    };
    assert_eq!(small, Ok(Vec::new()));
    assert_eq!(calls, 1);
}

#[test]
fn the_wording_of_a_text_that_is_too_large() {
    assert_eq!(
        SpellerError::InputTooLarge(10_000).message(),
        "Input text is too long: 10000 >= 10000"
    );
    assert_eq!(
        SpellerError::InputTooLarge(123_456).message(),
        "Input text is too long: 123456 >= 10000"
    );
}

#[test]
fn success_is_two_hundred_to_two_hundred_ninety_nine() {
    assert!(!is_success(0));
    assert!(!is_success(199));
    assert!(is_success(200));
    assert!(is_success(204));
    assert!(is_success(299));
    assert!(!is_success(300));
    assert!(!is_success(404));
    assert!(!is_success(500));
    assert!(!is_success(u16::MAX));
}

#[test]
fn a_reply_with_success_gives_its_issues() {
    let issues = vec![issue("texxt", "text"), issue("engliish", "english")];
    let reply = OracleReply::Response { status: 200, body: "[..]".to_string(), decoded: Ok(issues.clone()) };
    assert_eq!(read_reply(reply), Ok(issues));
}

#[test]
fn a_reply_without_success_is_a_refusal_with_its_body() {
    let reply = OracleReply::Response {
        status: 503,
        body: "try later".to_string(),
        decoded: Ok(vec![issue("texxt", "text")]),
    };
    let error = read_reply(reply).unwrap_err();
    assert_eq!(error, SpellerError::OracleRequestFailed("try later".to_string()));
    assert_eq!(error.message(), "Failed to call api try later");
}

#[test]
fn a_body_that_is_no_list_of_issues_breaks_the_protocol() {
    let reply = OracleReply::Response {
        status: 200,
        body: "<html>".to_string(),
        decoded: Err("expected value at line 1 column 1".to_string()),
    };
    let error = read_reply(reply).unwrap_err();
    assert_eq!(error, SpellerError::OracleProtocolError("expected value at line 1 column 1".to_string()));
    assert_eq!(error.message(), "expected value at line 1 column 1");
}

#[test]
fn no_response_is_a_failure_of_the_transport() {
    let error = read_reply(OracleReply::Unavailable("connection refused".to_string())).unwrap_err();
    assert_eq!(error, SpellerError::OracleUnavailable("connection refused".to_string()));
    assert_eq!(error.message(), "connection refused");
}

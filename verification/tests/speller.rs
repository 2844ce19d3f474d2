use ryaspeller::{Config, OracleReply, Page, SpellResult, Speller, SpellerError};

fn issue(word: &str, suggestions: &[&str]) -> SpellResult {
    SpellResult {
        code: 1,
        col: 0,
        len: 0,
        pos: 0,
        row: 0,
        s: suggestions.iter().map(|s| s.to_string()).collect(),
        word: word.to_string(),
    }
}

fn found(issues: Vec<SpellResult>) -> OracleReply {
    OracleReply::Response { status: 200, body: String::new(), decoded: Ok(issues) }
}

#[test]
fn a_text_is_corrected_with_what_the_service_found() {
    let speller = Speller::new(Config::default());
    let correction = speller.spell_text("a texxt").unwrap();
    assert_eq!(correction.request().text(), "a texxt");
    assert_eq!(correction.request().format(), "plain");
    assert_eq!(correction.finish(found(vec![issue("texxt", &["text"])])), Ok("a text".to_string()));
}

#[test]
fn a_text_without_issues_stays_as_it_is() {
    let speller = Speller::new(Config::default());
    let correction = speller.spell_text("a text").unwrap();
    assert_eq!(correction.finish(found(Vec::new())), Ok("a text".to_string()));
}

#[test]
fn a_failure_gives_no_text() {
    let speller = Speller::new(Config::default());
    let correction = speller.spell_text("a texxt").unwrap();
    assert_eq!(
        correction.finish(OracleReply::Unavailable("timed out".to_string())),
        Err(SpellerError::OracleUnavailable("timed out".to_string()))
    );
    let correction = speller.spell_text("a texxt").unwrap();
    assert_eq!(
        correction.finish(OracleReply::Response {
            status: 400,
            body: "bad".to_string(),
            decoded: Ok(vec![issue("texxt", &["text"])]),
        }),
        Err(SpellerError::OracleRequestFailed("bad".to_string()))
    );
    let correction = speller.spell_text("a texxt").unwrap();
    assert_eq!(
        correction.finish(OracleReply::Response {
            status: 200,
            body: "{}".to_string(),
            decoded: Err("not a list".to_string()),
        }),
        Err(SpellerError::OracleProtocolError("not a list".to_string()))
    );
}

#[test]
fn the_configuration_is_read_at_every_call() {
    let mut speller = Speller::new(Config::default());
    assert_eq!(speller.spell_text("text").unwrap().request().options(), 0);
    speller.config.ignore_digits = true;
    speller.config.is_html = true;
    let correction = speller.spell_text("text").unwrap();
    assert_eq!(correction.request().options(), 2);
    assert_eq!(correction.request().format(), "html");
}

#[test]
fn a_text_can_be_corrected_in_a_given_format() {
    let speller = Speller::new(Config::default());
    let correction = speller.spell_as("<b>texxt</b>", "html").unwrap();
    assert_eq!(correction.request().format(), "html");
    assert_eq!(correction.request().text(), "<b>texxt</b>");
}

#[test]
fn a_page_is_always_corrected_as_html() {
    for is_html in [false, true] {
        let mut config = Config::default();
        config.is_html = is_html;
        let speller = Speller::new(config);
        let mut sent = Vec::new();
        let page = Page { status: 200, body: "<p>a texxt</p>".to_string() };
        let correction = speller.spell_url(page).unwrap();
        sent.push(correction.request().format().to_string());
        assert_eq!(correction.request().text(), "<p>a texxt</p>");
        assert_eq!(
            correction.finish(found(vec![issue("texxt", &["text"])])),
            Ok("<p>a text</p>".to_string())
        );
        assert_eq!(sent, vec!["html".to_string()]);
    }
}

#[test]
fn a_page_that_came_without_success_is_not_corrected() {
    let speller = Speller::new(Config::default());
    let page = Page { status: 404, body: "not found".to_string() };
    let error = speller.spell_url(page).map(|c| c.request().text().to_string()).unwrap_err();
    assert_eq!(error, SpellerError::FetchFailed("not found".to_string()));
    assert_eq!(error.message(), "Failed to call api not found");
    let large = Page { status: 500, body: "a".repeat(20_000) };
    assert_eq!(
        speller.spell_url(large).map(|c| c.request().text().to_string()),
        Err(SpellerError::FetchFailed("a".repeat(20_000)))
    );
}

#[test]
fn a_page_that_is_too_large_is_not_sent() {
    let speller = Speller::new(Config::default());
    let page = Page { status: 200, body: "a".repeat(10_000) };
    assert_eq!(
        speller.spell_url(page).map(|c| c.request().text().to_string()),
        Err(SpellerError::InputTooLarge(10_000))
    );
}

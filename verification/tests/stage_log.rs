use branchkit_stage_sdk::stage_log::{
    clear_session, debug, error, flatten_message, info, log_line, set_session, trace, warn,
    LogSession, LINE_PREFIX,
};

#[test]
fn lines_carry_the_ambient_session() {
    let mut s = LogSession::new();
    assert_eq!(info(&s, "hello"), "BKLOG1\tinfo\t\thello");
    set_session(&mut s, "sess-1");
    assert_eq!(warn(&s, "x"), "BKLOG1\twarn\tsess-1\tx");
    set_session(&mut s, "sess-2");
    assert_eq!(error(&s, "y"), "BKLOG1\terror\tsess-2\ty");
    clear_session(&mut s);
    assert_eq!(debug(&s, "z"), "BKLOG1\tdebug\t\tz");
    assert_eq!(trace(&s, "t"), "BKLOG1\ttrace\t\tt");
}

#[test]
fn embedded_newlines_are_flattened_tabs_kept() {
    let s = LogSession::new();
    assert_eq!(
        log_line(&s, "info", "a\nb\r\nc\td"),
        "BKLOG1\tinfo\t\ta b  c\td"
    );
    assert_eq!(flatten_message("\n\r"), "  ");
    assert_eq!(flatten_message("naïve\n"), "naïve ");
}

#[test]
fn prefix_is_the_sentinel() {
    assert_eq!(LINE_PREFIX, "BKLOG1\t");
    assert!(info(&LogSession::new(), "m").starts_with(LINE_PREFIX));
}

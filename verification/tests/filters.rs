use psmem::error::Error;
use psmem::filter::Filters;
use psmem::options::Options;
use std::path::PathBuf;

fn options(process: Option<&str>, user: Option<&str>) -> Options {
    Options {
        no_header: false,
        process_filter: process.map(|s| s.to_string()),
        user_filter: user.map(|s| s.to_string()),
        numeric: false,
        reverse: false,
        abbreviate: false,
        source: PathBuf::from("/proc"),
        fields: Vec::new(),
        sort_field: None,
        totals: false,
    }
}

#[test]
fn filters_without_pattern_accept_everything() {
    let filters = Filters::new();
    let inputs: [&[u8]; 6] = [b"", b"init", b"a b c", b"\xff\xfe", b"\0", b"  "];
    for input in inputs {
        assert!(filters.accept_process(input));
        assert!(filters.accept_user(input));
    }
}

#[test]
fn process_filter_matches_anywhere() {
    let mut filters = Filters::new();
    filters.process("fire");
    assert!(filters.accept_process(b"firefox"));
    assert!(filters.accept_process(b"/usr/bin/campfire --flag"));
    assert!(!filters.accept_process(b"fir"));
    assert!(!filters.accept_process(b""));
    assert!(filters.accept_user(b"anyone"));
}

#[test]
fn user_filter_is_independent_of_process_filter() {
    let mut filters = Filters::new();
    filters.user("^alice$");
    assert!(filters.accept_user(b"alice"));
    assert!(!filters.accept_user(b"malice"));
    assert!(!filters.accept_user(b"root"));
    assert!(filters.accept_process(b"root"));
}

#[test]
fn filter_setters_chain() {
    let mut filters = Filters::new();
    filters.process("^a").user("b$");
    assert!(filters.accept_process(b"ab"));
    assert!(!filters.accept_process(b"ba"));
    assert!(filters.accept_user(b"ab"));
    assert!(!filters.accept_user(b"ba"));
}

#[test]
fn filter_pattern_is_a_regular_expression() {
    let mut filters = Filters::new();
    filters.process("^[0-9]+d$");
    assert!(filters.accept_process(b"42d"));
    assert!(!filters.accept_process(b"^[0-9]+d$"));
}

#[test]
fn filter_matches_bytes_that_are_not_text() {
    let mut filters = Filters::new();
    filters.process("proc");
    assert!(filters.accept_process(b"\xffproc\xfe"));
}

#[test]
fn filters_from_options() {
    let filters = Filters::from_options(&options(Some("init"), Some("root"))).ok().unwrap();
    assert!(filters.accept_process(b"initd"));
    assert!(!filters.accept_process(b"bash"));
    assert!(filters.accept_user(b"root"));
    assert!(!filters.accept_user(b"alice"));
    let open = Filters::from_options(&options(None, None)).ok().unwrap();
    assert!(open.accept_process(b"bash"));
    assert!(open.accept_user(b"alice"));
}

#[test]
fn filters_from_options_report_why_a_pattern_fails() {
    let why = |pattern: &str| regex::bytes::Regex::new(pattern).err().unwrap().to_string();
    let message = |opts: Options| match Filters::from_options(&opts) {
        Err(Error::Processing(message)) => message,
        _ => panic!("a pattern that does not compile was accepted"),
    };
    assert_eq!(message(options(Some("foo(bar"), None)), why("foo(bar"));
    assert_eq!(message(options(None, Some("[z-a]"))), why("[z-a]"));
    assert_eq!(message(options(Some("a{2,1}"), Some("("))), why("a{2,1}"));
    assert_eq!(message(options(Some("fine"), Some("("))), why("("));
}

#[test]
fn filters_from_options_with_bad_pattern() {
    for opts in [options(Some("foo(bar"), None), options(None, Some("[z-a]")), options(Some("ok"), Some("(")) ] {
        match Filters::from_options(&opts) {
            Err(Error::Processing(message)) => assert!(!message.is_empty()),
            Err(other) => panic!("unexpected error: {:?}", other),
            Ok(_) => panic!("a pattern that does not compile was accepted"),
        }
    }
}

use psmem::fields::{Field, FieldKind};
use psmem::options::Options;
use std::path::PathBuf;
use std::str::FromStr;

fn options(numeric: bool) -> Options {
    Options {
        no_header: false,
        process_filter: None,
        user_filter: None,
        numeric,
        reverse: false,
        abbreviate: false,
        source: PathBuf::from("/proc"),
        fields: Vec::new(),
        sort_field: None,
        totals: false,
    }
}

const ALL: [Field; 7] = [
    Field::Pid,
    Field::User,
    Field::Pss,
    Field::Rss,
    Field::Uss,
    Field::Swap,
    Field::Cmdline,
];

#[test]
fn field_names() {
    let names: Vec<&str> = ALL.iter().map(|f| f.name()).collect();
    assert_eq!(names, vec!["Pid", "User", "Pss", "Rss", "Uss", "Swap", "Cmdline"]);
}

#[test]
fn field_kinds() {
    for numeric in [false, true] {
        let opts = options(numeric);
        assert!(Field::Pid.kind(&opts) == FieldKind::Id);
        assert!(Field::Pss.kind(&opts) == FieldKind::Size);
        assert!(Field::Rss.kind(&opts) == FieldKind::Size);
        assert!(Field::Uss.kind(&opts) == FieldKind::Size);
        assert!(Field::Swap.kind(&opts) == FieldKind::Size);
        assert!(Field::Cmdline.kind(&opts) == FieldKind::Text);
    }
}

#[test]
fn user_kind_follows_numeric_flag() {
    assert!(Field::User.kind(&options(false)) == FieldKind::Text);
    assert!(Field::User.kind(&options(true)) == FieldKind::Id);
}

#[test]
fn field_from_lower_case_name() {
    let names = ["pid", "user", "pss", "rss", "uss", "swap", "cmdline"];
    for (name, field) in names.iter().zip(ALL.iter()) {
        assert!(Field::from_str(name) == Ok(*field));
        assert!(Field::parse(name) == Ok(*field));
    }
}

#[test]
fn field_from_unknown_name() {
    assert_eq!(Field::from_str("Pid").err(), Some("Unknown field: Pid".to_string()));
    assert_eq!(Field::from_str("").err(), Some("Unknown field: ".to_string()));
    assert_eq!(Field::from_str("pid ").err(), Some("Unknown field: pid ".to_string()));
    assert_eq!(Field::parse("mémoire").err(), Some("Unknown field: mémoire".to_string()));
}

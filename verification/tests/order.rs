use psmem::fields::Field;
use psmem::options::Options;
use psmem::order::sort_order;
use psmem::stats::{Process, ProcessDetails, ProcessSizes, Size, User};
use std::cmp::Ordering;
use std::path::PathBuf;

fn options(sort_field: Option<Field>, reverse: bool, numeric: bool) -> Options {
    Options {
        no_header: false,
        process_filter: None,
        user_filter: None,
        numeric,
        reverse,
        abbreviate: false,
        source: PathBuf::from("/proc"),
        fields: Vec::new(),
        sort_field,
        totals: false,
    }
}

fn row(pid: i32, uid: u32, user: &str, cmdline: &str, rss: usize, pss: usize) -> ProcessDetails {
    ProcessDetails {
        process: Process {
            pid,
            uid,
            command: cmdline.as_bytes().to_vec(),
            cmdline: cmdline.as_bytes().to_vec(),
            procfs_path: PathBuf::from(format!("/proc/{}", pid)),
        },
        user: User { uid, name: user.as_bytes().to_vec() },
        sizes: ProcessSizes {
            rss: Size::new(rss),
            pss: Size::new(pss),
            uss: Size::new(pss / 2),
            swap: Size::new(0),
        },
    }
}

fn rows() -> Vec<ProcessDetails> {
    vec![
        row(30, 1000, "carol", "zsh", 500, 7),
        row(10, 0, "root", "initd", 100, 9),
        row(20, 1001, "alice", "bash -l", 300, 8),
        row(40, 33, "www", "httpd", 200, 6),
    ]
}

fn pids(rows: &[ProcessDetails], order: &[usize]) -> Vec<i32> {
    order.iter().map(|&i| rows[i].process.pid).collect()
}

#[test]
fn order_defaults_to_resident_size() {
    let rows = rows();
    let order = sort_order(&rows, &options(None, false, false));
    assert_eq!(pids(&rows, &order), vec![10, 40, 20, 30]);
}

#[test]
fn order_by_each_field() {
    let rows = rows();
    let by = |field| pids(&rows, &sort_order(&rows, &options(Some(field), false, false)));
    assert_eq!(by(Field::Pid), vec![10, 20, 30, 40]);
    assert_eq!(by(Field::User), vec![20, 30, 10, 40]);
    assert_eq!(by(Field::Pss), vec![40, 30, 20, 10]);
    assert_eq!(by(Field::Rss), vec![10, 40, 20, 30]);
    assert_eq!(by(Field::Uss), vec![30, 40, 10, 20]);
    assert_eq!(by(Field::Cmdline), vec![20, 40, 10, 30]);
}

#[test]
fn order_by_user_number_in_numeric_report() {
    let rows = rows();
    let order = sort_order(&rows, &options(Some(Field::User), false, true));
    assert_eq!(pids(&rows, &order), vec![10, 40, 30, 20]);
}

#[test]
fn order_reversed() {
    let rows = rows();
    let order = sort_order(&rows, &options(Some(Field::Pid), true, false));
    assert_eq!(pids(&rows, &order), vec![40, 30, 20, 10]);
}

#[test]
fn ascending_order_turned_round_is_descending_order() {
    let rows = rows();
    for field in [Field::Pid, Field::User, Field::Pss, Field::Rss, Field::Cmdline] {
        for numeric in [false, true] {
            let mut ascending = sort_order(&rows, &options(Some(field), false, numeric));
            let descending = sort_order(&rows, &options(Some(field), true, numeric));
            ascending.reverse();
            assert_eq!(ascending, descending);
        }
    }
}

#[test]
fn order_keeps_ties_as_found() {
    let rows = vec![
        row(5, 1, "u", "x", 10, 1),
        row(4, 1, "u", "x", 20, 1),
        row(3, 1, "u", "x", 10, 1),
        row(2, 1, "u", "x", 20, 1),
        row(1, 1, "u", "x", 10, 1),
    ];
    let ascending = sort_order(&rows, &options(Some(Field::Rss), false, false));
    assert_eq!(ascending, vec![0, 2, 4, 1, 3]);
    let descending = sort_order(&rows, &options(Some(Field::Rss), true, false));
    assert_eq!(descending, vec![1, 3, 0, 2, 4]);
    let all_tied = sort_order(&rows, &options(Some(Field::Swap), true, false));
    assert_eq!(all_tied, vec![0, 1, 2, 3, 4]);
}

#[test]
fn order_of_nothing_and_of_one() {
    let none: Vec<ProcessDetails> = Vec::new();
    assert!(sort_order(&none, &options(None, false, false)).is_empty());
    let one = vec![row(1, 1, "u", "x", 1, 1)];
    assert_eq!(sort_order(&one, &options(None, true, false)), vec![0]);
}

#[test]
fn order_agrees_with_a_stable_sort() {
    let mut rows = Vec::new();
    let mut seed: u64 = 12345;
    for pid in 0..200 {
        seed = seed.wrapping_mul(6364136223846793005).wrapping_add(1442695040888963407);
        let rss = ((seed >> 33) % 17) as usize;
        let name = format!("u{}", (seed >> 40) % 5);
        rows.push(row(pid, (seed >> 50) as u32 % 7, &name, &name, rss, rss));
    }
    for field in [Field::Rss, Field::User, Field::Cmdline, Field::Pid] {
        for reverse in [false, true] {
            for numeric in [false, true] {
                let opts = options(Some(field), reverse, numeric);
                let mut expected: Vec<usize> = (0..rows.len()).collect();
                expected.sort_by(|&a, &b| {
                    let ordering = rows[a].cmp_by(field, &rows[b], &opts);
                    if reverse { ordering.reverse() } else { ordering }
                });
                assert_eq!(sort_order(&rows, &opts), expected);
            }
        }
    }
}

#[test]
fn rows_compare_by_the_named_field_only() {
    let a = row(1, 5, "bob", "b", 10, 99);
    let b = row(2, 4, "alice", "a", 10, 1);
    let text = options(None, false, false);
    let numeric = options(None, false, true);
    assert_eq!(a.cmp_by(Field::Pid, &b, &text), Ordering::Less);
    assert_eq!(a.cmp_by(Field::Rss, &b, &text), Ordering::Equal);
    assert_eq!(a.cmp_by(Field::Pss, &b, &text), Ordering::Greater);
    assert_eq!(a.cmp_by(Field::Uss, &b, &text), Ordering::Greater);
    assert_eq!(a.cmp_by(Field::Swap, &b, &text), Ordering::Equal);
    assert_eq!(a.cmp_by(Field::User, &b, &text), Ordering::Greater);
    assert_eq!(a.cmp_by(Field::User, &b, &numeric), Ordering::Greater);
    assert_eq!(b.cmp_by(Field::User, &a, &numeric), Ordering::Less);
    assert_eq!(a.cmp_by(Field::Cmdline, &b, &text), Ordering::Greater);
    assert_eq!(a.cmp_by(Field::Cmdline, &a, &text), Ordering::Equal);
}

#[test]
fn texts_compare_as_byte_strings() {
    let short = row(1, 1, "ab", "ab", 0, 0);
    let long = row(2, 1, "abc", "abc", 0, 0);
    let upper = row(3, 1, "Zed", "Zed", 0, 0);
    let high = row(4, 1, "\u{e9}", "\u{e9}", 0, 0);
    let opts = options(None, false, false);
    assert_eq!(short.cmp_by(Field::User, &long, &opts), Ordering::Less);
    assert_eq!(long.cmp_by(Field::User, &short, &opts), Ordering::Greater);
    assert_eq!(upper.cmp_by(Field::Cmdline, &short, &opts), Ordering::Less);
    assert_eq!(high.cmp_by(Field::Cmdline, &long, &opts), Ordering::Greater);
    assert!(short.is_ahead(Field::User, &long, &opts));
    assert!(!long.is_ahead(Field::User, &short, &opts));
    assert!(long.is_ahead(Field::User, &short, &options(None, true, false)));
}

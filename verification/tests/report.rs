use psmem::error::Error;
use psmem::fields::Field;
use psmem::options::Options;
use psmem::report::{print_processes, report, total_sizes};
use psmem::stats::{Process, ProcessDetails, ProcessSizes, Size, User};
use std::path::PathBuf;

fn options() -> Options {
    Options {
        no_header: false,
        process_filter: None,
        user_filter: None,
        numeric: false,
        reverse: false,
        abbreviate: false,
        source: PathBuf::from("/proc"),
        fields: Vec::new(),
        sort_field: None,
        totals: false,
    }
}

fn row(pid: i32, uid: u32, user: &[u8], cmdline: &[u8], sizes: [usize; 4]) -> ProcessDetails {
    ProcessDetails {
        process: Process {
            pid,
            uid,
            command: cmdline.to_vec(),
            cmdline: cmdline.to_vec(),
            procfs_path: PathBuf::from("/proc"),
        },
        user: User { uid, name: user.to_vec() },
        sizes: ProcessSizes {
            pss: Size::new(sizes[0]),
            rss: Size::new(sizes[1]),
            uss: Size::new(sizes[2]),
            swap: Size::new(sizes[3]),
        },
    }
}

fn rows() -> Vec<ProcessDetails> {
    vec![
        row(100, 0, b"root", b"initd", [102400, 204800, 51200, 0]),
        row(200, 1000, b"alice", b"myproc --flag", [51200, 307200, 1536, 1024]),
    ]
}

fn totals_of(rows: &Vec<ProcessDetails>) -> Option<[usize; 4]> {
    total_sizes(rows).map(|t| [t.pss.bytes(), t.rss.bytes(), t.uss.bytes(), t.swap.bytes()])
}

#[test]
fn totals_of_no_rows_are_zero() {
    assert_eq!(totals_of(&Vec::new()), Some([0, 0, 0, 0]));
}

#[test]
fn totals_are_the_sums_of_all_rows() {
    assert_eq!(totals_of(&rows()), Some([153600, 512000, 52736, 1024]));
    let mut many = Vec::new();
    let mut expected = [0usize; 4];
    for n in 0..50usize {
        let sizes = [n, 2 * n + 1, n * n, 1000 - n];
        for k in 0..4 {
            expected[k] += sizes[k];
        }
        many.push(row(n as i32 + 1, 0, b"u", b"c", sizes));
        assert_eq!(totals_of(&many), Some(expected));
    }
}

#[test]
fn totals_beyond_a_machine_word_are_refused() {
    let rows = vec![
        row(1, 0, b"u", b"c", [usize::MAX, 0, 0, 0]),
        row(2, 0, b"u", b"c", [1, 0, 0, 0]),
    ];
    assert_eq!(totals_of(&rows), None);
    match report(&rows, &options()) {
        Err(Error::Processing(message)) => assert_eq!(message, "The total of the sizes is too large"),
        _ => panic!("totals that do not fit were accepted"),
    }
    assert!(matches!(print_processes(&rows, &vec![0, 1], &options()), Err(Error::Processing(_))));
}

#[test]
fn table_with_default_columns() {
    let text = print_processes(&rows(), &vec![0, 1], &options()).ok().unwrap();
    let expected = [
        "       Pid User              Pss        Rss        Uss       Swap Cmdline    \n",
        "       100 root           102400     204800      51200          0 initd      \n",
        "       200 alice           51200     307200       1536       1024 myproc --flag \n",
    ]
    .concat();
    assert_eq!(text, expected);
}

#[test]
fn table_rows_follow_the_order_given() {
    let mut opts = options();
    opts.no_header = true;
    opts.fields = vec![Field::Pid];
    assert_eq!(print_processes(&rows(), &vec![1, 0], &opts).ok().unwrap(), "       200 \n       100 \n");
    assert_eq!(print_processes(&rows(), &vec![0], &opts).ok().unwrap(), "       100 \n");
    assert_eq!(print_processes(&rows(), &Vec::new(), &opts).ok().unwrap(), "");
}

#[test]
fn table_shows_named_columns_in_their_order() {
    let mut opts = options();
    opts.fields = vec![Field::Cmdline, Field::Swap, Field::Pid, Field::Pid];
    let text = print_processes(&rows(), &vec![0, 1], &opts).ok().unwrap();
    let expected = [
        "Cmdline          Swap        Pid        Pid \n",
        "initd               0        100        100 \n",
        "myproc --flag       1024        200        200 \n",
    ]
    .concat();
    assert_eq!(text, expected);
}

#[test]
fn table_with_numeric_owner() {
    let mut opts = options();
    opts.numeric = true;
    opts.fields = vec![Field::User, Field::Pid];
    let text = print_processes(&rows(), &vec![0, 1], &opts).ok().unwrap();
    let expected = [
        "      User        Pid \n",
        "         0        100 \n",
        "      1000        200 \n",
    ]
    .concat();
    assert_eq!(text, expected);
}

#[test]
fn table_with_totals() {
    let mut opts = options();
    opts.totals = true;
    let text = print_processes(&rows(), &vec![0, 1], &opts).ok().unwrap();
    let expected = format!(
        "{}\n{}\n{}\n{}\n{}\n",
        "       Pid User              Pss        Rss        Uss       Swap Cmdline    ",
        "       100 root           102400     204800      51200          0 initd      ",
        "       200 alice           51200     307200       1536       1024 myproc --flag ",
        "-".repeat(80),
        "                          153600     512000      52736       1024            ",
    );
    assert_eq!(text, expected);
}

#[test]
fn totals_row_is_blank_outside_size_columns() {
    let mut opts = options();
    opts.totals = true;
    opts.no_header = true;
    opts.numeric = true;
    opts.fields = vec![Field::User, Field::Rss, Field::Cmdline];
    let text = print_processes(&rows(), &Vec::new(), &opts).ok().unwrap();
    let expected = format!("{}\n{}{:>10} {}\n", "-".repeat(80), " ".repeat(11), 512000, " ".repeat(11));
    assert_eq!(text, expected);
}

#[test]
fn table_with_abbreviated_sizes() {
    let mut opts = options();
    opts.abbreviate = true;
    opts.totals = true;
    opts.fields = vec![Field::Pid, Field::Pss, Field::Uss, Field::Swap];
    let text = print_processes(&rows(), &vec![0, 1], &opts).ok().unwrap();
    let expected = format!(
        "{}\n{}\n{}\n{}\n{}\n",
        "       Pid        Pss        Uss       Swap ",
        "       100      100KB       50KB         0B ",
        "       200       50KB     1.50KB        1KB ",
        "-".repeat(80),
        "                150KB    51.50KB        1KB ",
    );
    assert_eq!(text, expected);
}

#[test]
fn table_shows_bytes_that_are_not_text_with_a_replacement() {
    let rows = vec![row(-7, 1, b"b\xffb", b"\xc3\xa9t\xc3\xa9", [0, 0, 0, 0])];
    let mut opts = options();
    opts.no_header = true;
    opts.fields = vec![Field::Pid, Field::User, Field::Cmdline];
    let text = print_processes(&rows, &vec![0], &opts).ok().unwrap();
    assert_eq!(text, "        -7 b\u{fffd}b        \u{e9}t\u{e9}        \n");
}

#[test]
fn report_orders_then_prints() {
    let mut opts = options();
    opts.no_header = true;
    opts.fields = vec![Field::Pid, Field::Rss];
    let ascending = report(&rows(), &opts).ok().unwrap();
    assert_eq!(ascending, "       100     204800 \n       200     307200 \n");
    opts.reverse = true;
    let descending = report(&rows(), &opts).ok().unwrap();
    assert_eq!(descending, "       200     307200 \n       100     204800 \n");
    opts.sort_field = Some(Field::User);
    let by_user = report(&rows(), &opts).ok().unwrap();
    assert_eq!(by_user, "       100     204800 \n       200     307200 \n");
}

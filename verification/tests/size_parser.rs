use psmem::error::Error;
use psmem::stats::Size;

fn bytes_of(entry: &str) -> Option<usize> {
    match Size::from_smap_entry(entry) {
        Ok(size) => Some(size.bytes()),
        Err(Error::ParseSize) => None,
        Err(other) => panic!("unexpected error: {:?}", other),
    }
}

#[test]
fn entry_with_single_space() {
    assert_eq!(bytes_of("Pss: 10 kB\n"), Some(10240));
}

#[test]
fn entry_yields_value_times_1024_for_any_padding() {
    for n in [0usize, 1, 999999] {
        for width in 1..=24 {
            let line = format!("Pss:{}{} kB\n", " ".repeat(width), n);
            assert_eq!(bytes_of(&line), Some(n * 1024), "line {:?}", line);
        }
    }
}

#[test]
fn entry_value_is_exact() {
    assert_eq!(bytes_of("Rss:              999999 kB\n"), Some(1_023_998_976));
    assert_eq!(bytes_of("Swap:                  0 kB\n"), Some(0));
    assert_eq!(bytes_of("Private_Dirty:         1 kB\n"), Some(1024));
}

#[test]
fn entry_line_feed_is_optional() {
    assert_eq!(bytes_of("Pss: 10 kB"), Some(10240));
    assert_eq!(Size::from_smap_line(b"Pss: 10 kB").unwrap().bytes(), 10240);
}

#[test]
fn entry_takes_the_last_token_before_the_unit() {
    assert_eq!(bytes_of("Label: 7 8 9 kB\n"), Some(9 * 1024));
    assert_eq!(bytes_of("Label with words: 12 kB\n"), Some(12 * 1024));
}

#[test]
fn entry_accepts_tabs_as_whitespace() {
    assert_eq!(bytes_of("Pss:\t\t42\tkB\n"), Some(42 * 1024));
}

#[test]
fn entry_accepts_a_plus_sign() {
    assert_eq!(bytes_of("Pss: +5 kB\n"), Some(5120));
}

#[test]
fn entry_without_unit_fails() {
    assert!(matches!(Size::from_smap_entry("Pss: 10\n"), Err(Error::ParseSize)));
    assert!(matches!(Size::from_smap_entry("Pss: 10 MB\n"), Err(Error::ParseSize)));
    assert!(matches!(Size::from_smap_entry("Pss: 10 kB \n"), Err(Error::ParseSize)));
    assert!(matches!(Size::from_smap_entry(""), Err(Error::ParseSize)));
    assert!(matches!(Size::from_smap_entry("\n"), Err(Error::ParseSize)));
}

#[test]
fn entry_with_non_numeric_value_fails() {
    assert!(matches!(Size::from_smap_entry("Pss: abc kB\n"), Err(Error::ParseSize)));
    assert!(matches!(Size::from_smap_entry("Pss: 1x kB\n"), Err(Error::ParseSize)));
    assert!(matches!(Size::from_smap_entry("Pss: -1 kB\n"), Err(Error::ParseSize)));
    assert!(matches!(Size::from_smap_entry("Pss: + kB\n"), Err(Error::ParseSize)));
    assert!(matches!(Size::from_smap_entry("Pss: 1.5 kB\n"), Err(Error::ParseSize)));
}

#[test]
fn entry_without_whitespace_before_value_fails() {
    assert!(matches!(Size::from_smap_entry("Pss:10 kB\n"), Err(Error::ParseSize)));
    assert!(matches!(Size::from_smap_entry("10 kB\n"), Err(Error::ParseSize)));
    assert!(matches!(Size::from_smap_entry("kB\n"), Err(Error::ParseSize)));
    assert!(matches!(Size::from_smap_entry("   kB\n"), Err(Error::ParseSize)));
}

#[test]
fn entry_too_large_for_a_machine_word_fails() {
    let largest = usize::MAX / 1024;
    let fits = format!("Pss: {} kB\n", largest);
    assert_eq!(bytes_of(&fits), Some(largest * 1024));
    let too_large = format!("Pss: {} kB\n", largest as u128 + 1);
    assert_eq!(bytes_of(&too_large), None);
    assert_eq!(bytes_of("Pss: 99999999999999999999999999999999999999999 kB\n"), None);
}

#[test]
fn entry_with_leading_zeros() {
    assert_eq!(bytes_of("Pss: 0007 kB\n"), Some(7 * 1024));
}

#[test]
fn size_arithmetic() {
    let a = Size::new(3);
    let b = Size::new(4);
    assert_eq!((a + b).bytes(), 7);
    let mut c = Size::new(10);
    c.add_assign(Size::new(5));
    assert_eq!(c.bytes(), 15);
    assert_eq!(Size::default().bytes(), 0);
    assert_eq!(Size::new(usize::MAX).checked_add(&Size::new(1)).map(|s| s.bytes()), None);
    assert_eq!(Size::new(usize::MAX - 1).checked_add(&Size::new(1)).map(|s| s.bytes()), Some(usize::MAX));
    assert!(Size::new(1) < Size::new(2));
    assert!(Size::new(2) == Size::new(2));
}

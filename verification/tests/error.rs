use psmem::error::Error;
use std::io;

#[test]
fn error_messages() {
    assert_eq!(Error::Processing("Failed to get PID".to_string()).message(), "Failed to get PID");
    assert_eq!(Error::ParseSize.message(), "Could not parse a size");
    let io_error = Error::Io(io::Error::new(io::ErrorKind::Other, "disk on fire"));
    assert_eq!(io_error.message(), "disk on fire");
}

#[test]
fn error_from_io_error() {
    let error = Error::from(io::Error::new(io::ErrorKind::NotFound, "gone"));
    match error {
        Error::Io(inner) => assert_eq!(inner.kind(), io::ErrorKind::NotFound),
        other => panic!("unexpected error: {:?}", other),
    }
}

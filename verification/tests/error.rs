use pond_cache::Error;
use pond_cache::ErrorKind;
use pond_cache::Fault;
use pond_cache::Stage;

fn fault(stage: Stage, detail: &str) -> Fault {
    Fault {
        stage,
        detail: String::from(detail),
    }
}

#[test]
fn test_from_fault() {
    assert_eq!(
        Error::from_fault(true, fault(Stage::Open, "unable to open database file")),
        Error::new(
            ErrorKind::StorageUnavailable,
            String::from("unable to open database file")
        )
    );
    assert_eq!(
        Error::from_fault(false, fault(Stage::Open, "unable to open database file")),
        Error::new(
            ErrorKind::StorageUnavailable,
            String::from("unable to open database file")
        )
    );
    assert_eq!(
        Error::from_fault(true, fault(Stage::Execute, "disk full")),
        Error::new(ErrorKind::Schema, String::from("disk full"))
    );
    assert_eq!(
        Error::from_fault(false, fault(Stage::Execute, "no such table: items")),
        Error::new(ErrorKind::Query, String::from("no such table: items"))
    );
}

#[test]
fn test_kind_names_and_messages() {
    let cases = [
        (ErrorKind::StorageUnavailable, "storage unavailable"),
        (ErrorKind::Schema, "schema error"),
        (ErrorKind::Encode, "encode error"),
        (ErrorKind::Decode, "decode error"),
        (ErrorKind::Query, "query error"),
        (ErrorKind::Timestamp, "timestamp error"),
    ];
    for (kind, name) in cases {
        let error = Error::new(kind, String::from("why"));
        assert_eq!(error.kind, kind);
        assert_eq!(error.detail, "why");
        assert_eq!(error.kind_name(), name);
        assert_eq!(error.message(), format!("{}: why", name));
    }
    assert_eq!(
        Error::new(ErrorKind::Decode, String::new()).message(),
        "decode error: "
    );
}

#[test]
fn test_kinds_are_distinct() {
    assert_ne!(ErrorKind::Encode, ErrorKind::StorageUnavailable);
    assert_ne!(ErrorKind::Decode, ErrorKind::Query);
    assert_ne!(ErrorKind::Decode, ErrorKind::Encode);
    assert_ne!(ErrorKind::Schema, ErrorKind::Query);
}

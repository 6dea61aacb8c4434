use rustic_reader::{ReaderError, TransportError};

#[test]
fn each_failure_has_its_message() {
    assert_eq!(ReaderError::NoReadersFound.message(), "No readers found");
    assert_eq!(
        ReaderError::UnsupportedReader("Some Reader 0".to_string()).message(),
        "Unsupported reader: Some Reader 0"
    );
    assert_eq!(ReaderError::UnsupportedReader(String::new()).message(), "Unsupported reader: ");
    assert_eq!(
        ReaderError::UnsupportedCardType.message(),
        "Card error: unsupported card type"
    );
    assert_eq!(
        ReaderError::TransportError(TransportError { code: 0x8010_000A }).message(),
        "PCSC error"
    );
    assert_eq!(
        ReaderError::AuthenticationFailed.message(),
        "Card error: authentication failed"
    );
    assert_eq!(ReaderError::ReadFailed.message(), "Card error: read failed");
    assert_eq!(ReaderError::InvalidReaderName.message(), "Invalid reader name");
}

#[test]
fn transport_failure_converts_with_its_code() {
    let fault = TransportError { code: 0x8010_002E };
    assert_eq!(ReaderError::from(fault), ReaderError::TransportError(fault));
    let converted: ReaderError = fault.into();
    match converted {
        ReaderError::TransportError(inner) => assert_eq!(inner.code, 0x8010_002E),
        other => panic!("converted to {:?}", other),
    }
}

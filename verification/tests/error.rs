use feth::error::{parse_error, Error, InternalError};

#[test]
fn a_full_mempool_is_told_by_broadcast_tx_sync() {
    assert!(matches!(
        parse_error(Some("RPC error: broadcast_tx_sync failed: mempool is full")),
        Error::SyncTx
    ));
    assert!(matches!(parse_error(Some("broadcast_tx_sync")), Error::SyncTx));
}

#[test]
fn a_failed_check_is_told_by_its_words() {
    assert!(matches!(parse_error(Some("Transaction check error: low gas")), Error::CheckTx));
}

#[test]
fn a_request_that_was_not_sent_is_told_by_its_words() {
    assert!(matches!(
        parse_error(Some("error sending request for url (http://x/): timed out")),
        Error::SendErr
    ));
}

#[test]
fn an_internal_error_keeps_its_message() {
    let text = "InternalError: InvalidNonce: got 3, want 5";
    assert!(matches!(
        parse_error(Some(text)),
        Error::TxInternalErr(InternalError::InvalidNonce(m)) if m == text
    ));
    let text = "Some InternalError happened";
    assert!(matches!(
        parse_error(Some(text)),
        Error::TxInternalErr(InternalError::Other(m)) if m == text
    ));
}

#[test]
fn an_invalid_nonce_alone_is_unknown() {
    assert!(matches!(parse_error(Some("InvalidNonce")), Error::Unknown(m) if m == "InvalidNonce"));
}

#[test]
fn anything_else_is_unknown_with_its_message() {
    assert!(matches!(parse_error(Some("boom")), Error::Unknown(m) if m == "boom"));
    assert!(matches!(parse_error(Some("")), Error::Unknown(m) if m.is_empty()));
    assert!(matches!(parse_error(Some("Broadcast_tx_sync")), Error::Unknown(_)));
    assert!(matches!(parse_error(Some("broadcast_tx_syn")), Error::Unknown(_)));
    assert!(matches!(parse_error(Some("überraschung ✓")), Error::Unknown(m) if m == "überraschung ✓"));
}

#[test]
fn no_message_is_an_empty_error() {
    assert!(matches!(parse_error(None), Error::Unknown(m) if m == "empty error"));
}

#[test]
fn the_first_mark_decides() {
    let all = "InternalError InvalidNonce error sending request Transaction check error broadcast_tx_sync";
    assert!(matches!(parse_error(Some(all)), Error::SyncTx));
    let rest = "InternalError InvalidNonce error sending request Transaction check error";
    assert!(matches!(parse_error(Some(rest)), Error::CheckTx));
    let rest = "InternalError InvalidNonce error sending request";
    assert!(matches!(parse_error(Some(rest)), Error::SendErr));
}

#[test]
fn errors_say_what_went_wrong() {
    assert_eq!(Error::CheckTx.message(), "tx check failed");
    assert_eq!(Error::SyncTx.message(), "tx not accepted by tendermint");
    assert_eq!(Error::SendErr.message(), "tx not sent");
    assert_eq!(Error::Unknown("x".to_string()).message(), "an unknown error happens");
    assert_eq!(
        Error::TxInternalErr(InternalError::InvalidNonce("n=3".to_string())).message(),
        "tx refused for its nonce: n=3"
    );
    assert_eq!(
        Error::TxInternalErr(InternalError::Other("oops".to_string())).message(),
        "tx failed inside the node: oops"
    );
}

#[test]
fn an_io_error_is_wrapped_and_shown() {
    let e = Error::from(std::io::Error::new(std::io::ErrorKind::NotFound, "no such file"));
    assert!(matches!(&e, Error::Io(inner) if inner.kind() == std::io::ErrorKind::NotFound));
    let text = e.message();
    assert!(text.starts_with("Io error "));
    assert!(text.contains("NotFound"));
    assert!(text.contains("no such file"));
}

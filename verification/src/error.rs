//! What can go wrong when a transaction is handed to a node, and how a
//! node's message tells which.

use crate::text::{chars_of, found_in, occurs_at, occurs_in};
use vstd::prelude::*;

verus! {

/// `std::io::Error`, carried as it comes; nothing is known of what it
/// holds.
#[verifier::external_type_specification]
#[verifier::external_body]
pub struct ExIoError(std::io::Error);

/// The result of an operation that may fail with an [`Error`].
pub type Result<T> = std::result::Result<T, Error>;

/// A failure inside the node, with the message that came.
#[derive(Debug)]
pub enum InternalError {
    /// The node refused the nonce.
    InvalidNonce(String),
    /// Any other internal failure.
    Other(String),
}

/// Why a submission failed.
#[derive(Debug)]
pub enum Error {
    /// The node's check of the transaction failed.
    CheckTx,
    /// The mempool is full and took no more transactions.
    SyncTx,
    /// The request did not reach the node, or no answer came in time.
    SendErr,
    /// The node failed internally.
    TxInternalErr(InternalError),
    /// Reading or writing failed.
    Io(std::io::Error),
    /// Anything else, with the message that came.
    Unknown(String),
}

/// An [`Error`] as contracts see it: messages are sequences of characters.
pub enum ErrorKind {
    CheckTx,
    SyncTx,
    SendErr,
    InvalidNonce(Seq<char>),
    OtherInternal(Seq<char>),
    Io,
    Unknown(Seq<char>),
}

impl View for Error {
    type V = ErrorKind;

    open spec fn view(&self) -> ErrorKind {
        match *self {
            Error::CheckTx => ErrorKind::CheckTx,
            Error::SyncTx => ErrorKind::SyncTx,
            Error::SendErr => ErrorKind::SendErr,
            Error::TxInternalErr(InternalError::InvalidNonce(m)) => ErrorKind::InvalidNonce(m@),
            Error::TxInternalErr(InternalError::Other(m)) => ErrorKind::OtherInternal(m@),
            Error::Io(_) => ErrorKind::Io,
            Error::Unknown(m) => ErrorKind::Unknown(m@),
        }
    }
}

/// The kind of failure that a node's message tells of. The marks are looked
/// for in this order; the first that stands in the message decides.
pub open spec fn classify(message: Option<Seq<char>>) -> ErrorKind {
    match message {
        None => ErrorKind::Unknown("empty error"@),
        Some(m) => if occurs_in(m, "broadcast_tx_sync"@) {
            ErrorKind::SyncTx
        } else if occurs_in(m, "Transaction check error"@) {
            ErrorKind::CheckTx
        } else if occurs_in(m, "error sending request"@) {
            ErrorKind::SendErr
        } else if occurs_in(m, "InternalError"@) {
            if occurs_in(m, "InvalidNonce"@) {
                ErrorKind::InvalidNonce(m)
            } else {
                ErrorKind::OtherInternal(m)
            }
        } else {
            ErrorKind::Unknown(m)
        },
    }
}

/// The message of an optional text, as contracts see it.
pub open spec fn message_view(message: Option<&str>) -> Option<Seq<char>> {
    match message {
        Some(m) => Some(m@),
        None => None,
    }
}

/// The failure that a node's message tells of.
pub fn parse_error(message: Option<&str>) -> (e: Error)
    ensures
        e@ == classify(message_view(message)),
{
    match message {
        None => Error::Unknown(String::from_str("empty error")),
        Some(text) => {
            let m = chars_of(text);
            if found_in(&m, &chars_of("broadcast_tx_sync")) {
                Error::SyncTx
            } else if found_in(&m, &chars_of("Transaction check error")) {
                Error::CheckTx
            } else if found_in(&m, &chars_of("error sending request")) {
                Error::SendErr
            } else if found_in(&m, &chars_of("InternalError")) {
                if found_in(&m, &chars_of("InvalidNonce")) {
                    Error::TxInternalErr(InternalError::InvalidNonce(String::from_str(text)))
                } else {
                    Error::TxInternalErr(InternalError::Other(String::from_str(text)))
                }
            } else {
                Error::Unknown(String::from_str(text))
            }
        },
    }
}

/// `std::fmt::Debug` of `std::io::Error`, as text. Nothing is claimed of
/// the text.
#[verifier::external_body]
fn io_error_text(e: &std::io::Error) -> String {
    format!("{:?}", e)
}

impl Error {
    /// What went wrong, in words.
    pub fn message(&self) -> (text: String)
        ensures
            self@ is CheckTx ==> text@ == "tx check failed"@,
            self@ is SyncTx ==> text@ == "tx not accepted by tendermint"@,
            self@ is SendErr ==> text@ == "tx not sent"@,
            self@ matches ErrorKind::InvalidNonce(m) ==> text@ == "tx refused for its nonce: "@
                + m,
            self@ matches ErrorKind::OtherInternal(m) ==> text@ == "tx failed inside the node: "@
                + m,
            self@ is Unknown ==> text@ == "an unknown error happens"@,
            self@ is Io ==> occurs_at(text@, "Io error "@, 0),
    {
        match self {
            Error::CheckTx => String::from_str("tx check failed"),
            Error::SyncTx => String::from_str("tx not accepted by tendermint"),
            Error::SendErr => String::from_str("tx not sent"),
            Error::TxInternalErr(InternalError::InvalidNonce(m)) => String::from_str(
                "tx refused for its nonce: ",
            ).concat(m.as_str()),
            Error::TxInternalErr(InternalError::Other(m)) => String::from_str(
                "tx failed inside the node: ",
            ).concat(m.as_str()),
            Error::Io(e) => {
                let detail = io_error_text(e);
                let text = String::from_str("Io error ").concat(detail.as_str());
                assert(text@.subrange(0, "Io error "@.len() as int) =~= "Io error "@);
                text
            },
            Error::Unknown(_) => String::from_str("an unknown error happens"),
        }
    }
}

impl From<std::io::Error> for Error {
    fn from(e: std::io::Error) -> (r: Error)
        ensures
            r == Error::Io(e),
    {
        Error::Io(e)
    }
}

impl vstd::std_specs::convert::FromSpecImpl<std::io::Error> for Error {
    open spec fn obeys_from_spec() -> bool {
        true
    }

    open spec fn from_spec(e: std::io::Error) -> Error {
        Error::Io(e)
    }
}

} // verus!

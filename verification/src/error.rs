//! The errors of sending and retrying.

use crate::text::{decimal, to_decimal};
use vstd::prelude::*;
use vstd::string::StringExecFns;

verus! {

/// Everything that can go wrong while a transaction is sent and retried.
#[derive(Debug)]
pub enum RetryError {
    /// The transaction was not confirmed in any of the attempts.
    MaxRetriesExceeded { attempts: u32, signature: String },
    /// No confirmation was seen in the time allowed.
    ConfirmationTimeout { timeout_secs: u64, signature: String },
    /// The block hash expired and could not be renewed.
    BlockhashExpired,
    /// The leader schedule could not be fetched.
    LeaderScheduleFetchFailed(String),
    /// The simulation of the transaction failed.
    PreflightFailed(String),
    /// The RPC client failed; the text is that of its error.
    RpcError(String),
    /// The ledger rejected the transaction.
    TransactionRejected { reason: String, signature: String },
    /// The library contradicts itself.
    Internal(String),
}

/// An error with its texts as sequences of characters.
pub enum RetryErrorView {
    MaxRetriesExceeded { attempts: u32, signature: Seq<char> },
    ConfirmationTimeout { timeout_secs: u64, signature: Seq<char> },
    BlockhashExpired,
    LeaderScheduleFetchFailed(Seq<char>),
    PreflightFailed(Seq<char>),
    RpcError(Seq<char>),
    TransactionRejected { reason: Seq<char>, signature: Seq<char> },
    Internal(Seq<char>),
}

impl View for RetryError {
    type V = RetryErrorView;

    open spec fn view(&self) -> RetryErrorView {
        match self {
            RetryError::MaxRetriesExceeded { attempts, signature } => {
                RetryErrorView::MaxRetriesExceeded { attempts: *attempts, signature: signature@ }
            },
            RetryError::ConfirmationTimeout { timeout_secs, signature } => {
                RetryErrorView::ConfirmationTimeout {
                    timeout_secs: *timeout_secs,
                    signature: signature@,
                }
            },
            RetryError::BlockhashExpired => RetryErrorView::BlockhashExpired,
            RetryError::LeaderScheduleFetchFailed(why) => {
                RetryErrorView::LeaderScheduleFetchFailed(why@)
            },
            RetryError::PreflightFailed(why) => RetryErrorView::PreflightFailed(why@),
            RetryError::RpcError(why) => RetryErrorView::RpcError(why@),
            RetryError::TransactionRejected { reason, signature } => {
                RetryErrorView::TransactionRejected { reason: reason@, signature: signature@ }
            },
            RetryError::Internal(why) => RetryErrorView::Internal(why@),
        }
    }
}

impl RetryErrorView {
    /// The sentence that tells a person what went wrong.
    pub open spec fn sentence(self) -> Seq<char> {
        match self {
            RetryErrorView::MaxRetriesExceeded { attempts, signature } => {
                "Transaction dropped after "@ + decimal(attempts as nat) + " attempts: "@
                    + signature
            },
            RetryErrorView::ConfirmationTimeout { timeout_secs, signature } => {
                "Confirmation timeout reached after "@ + decimal(timeout_secs as nat)
                    + "s for signature "@ + signature
            },
            RetryErrorView::BlockhashExpired => "Blockhash expired, could not refresh in time"@,
            RetryErrorView::LeaderScheduleFetchFailed(why) => {
                "Failed to fetch leader schedule: "@ + why
            },
            RetryErrorView::PreflightFailed(why) => "Preflight simulation failed: "@ + why,
            RetryErrorView::RpcError(why) => "RPC client error: "@ + why,
            RetryErrorView::TransactionRejected { reason, signature } => {
                "Transaction rejected on-chain: "@ + reason
            },
            RetryErrorView::Internal(why) => "Internal error: "@ + why,
        }
    }
}

/// Joins two texts.
fn join(head: &str, tail: &str) -> (text: String)
    ensures
        text@ == head@ + tail@,
{
    let mut text: String = head.to_owned();
    text.append(tail);
    text
}

impl RetryError {
    /// The sentence that tells a person what went wrong.
    pub fn message(&self) -> (text: String)
        ensures
            text@ == self@.sentence(),
    {
        match self {
            RetryError::MaxRetriesExceeded { attempts, signature } => {
                let count: String = to_decimal(*attempts as u64);
                let mut text: String = join("Transaction dropped after ", count.as_str());
                text.append(" attempts: ");
                text.append(signature.as_str());
                text
            },
            RetryError::ConfirmationTimeout { timeout_secs, signature } => {
                let secs: String = to_decimal(*timeout_secs);
                let mut text: String = join("Confirmation timeout reached after ", secs.as_str());
                text.append("s for signature ");
                text.append(signature.as_str());
                text
            },
            RetryError::BlockhashExpired => {
                "Blockhash expired, could not refresh in time".to_owned()
            },
            RetryError::LeaderScheduleFetchFailed(why) => {
                join("Failed to fetch leader schedule: ", why.as_str())
            },
            RetryError::PreflightFailed(why) => {
                join("Preflight simulation failed: ", why.as_str())
            },
            RetryError::RpcError(why) => join("RPC client error: ", why.as_str()),
            RetryError::TransactionRejected { reason, signature: _ } => {
                join("Transaction rejected on-chain: ", reason.as_str())
            },
            RetryError::Internal(why) => join("Internal error: ", why.as_str()),
        }
    }
}

/// The outcome of an operation that can fail with a [`RetryError`].
pub type Result<T> = std::result::Result<T, RetryError>;

/// What came back from the RPC client: a value, or the text of the client's error.
pub type Reply<T> = std::result::Result<T, String>;

/// The sentence of an error begins with what went wrong, tells the numbers and texts that belong to
/// it in their order, and nothing else.
pub proof fn law_sentences_tell_what_went_wrong(
    attempts: u32,
    timeout_secs: u64,
    text: Seq<char>,
    signature: Seq<char>,
)
    ensures
        (RetryErrorView::MaxRetriesExceeded { attempts, signature }).sentence()
            == "Transaction dropped after "@ + decimal(attempts as nat) + " attempts: "@ + signature,
        (RetryErrorView::ConfirmationTimeout { timeout_secs, signature }).sentence()
            == "Confirmation timeout reached after "@ + decimal(timeout_secs as nat)
            + "s for signature "@ + signature,
        RetryErrorView::BlockhashExpired.sentence()
            == "Blockhash expired, could not refresh in time"@,
        RetryErrorView::LeaderScheduleFetchFailed(text).sentence()
            == "Failed to fetch leader schedule: "@ + text,
        RetryErrorView::PreflightFailed(text).sentence() == "Preflight simulation failed: "@ + text,
        RetryErrorView::RpcError(text).sentence() == "RPC client error: "@ + text,
        (RetryErrorView::TransactionRejected { reason: text, signature }).sentence()
            == "Transaction rejected on-chain: "@ + text,
        RetryErrorView::Internal(text).sentence() == "Internal error: "@ + text,
{
}

} // verus!

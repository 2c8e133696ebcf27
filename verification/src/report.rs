//! The error reporter: classifies failures at the two outward boundaries
//! (fetch and delivery) into a user-facing reply versus a propagated fault.

use vstd::prelude::*;

use crate::text::{dec_spec, dec_u64};

verus! {

/// How a leaderboard fetch failed, as the fetch collaborator classifies
/// it: a closed enum in place of inspecting a dynamic error for an
/// underlying transport shape.
#[derive(Clone, Copy, Debug, PartialEq, Eq, Structural)]
pub enum FetchFailure {
    /// The upstream answered the transport with this HTTP status code.
    UpstreamStatus(u16),
    /// Any other failure shape.
    Other,
}

/// How delivering the document failed, as the delivery collaborator
/// classifies it.
#[derive(Clone, Copy, Debug, PartialEq, Eq, Structural)]
pub enum DeliveryFailure {
    /// The document was too large for the transport.
    TooLarge,
    /// Any other failure shape.
    Other,
}

/// What the caller does with a boundary failure: answer the requester with
/// one short message and stop, or propagate the failure as a fault.
pub enum BoundaryAction {
    Reply(String),
    Propagate,
}

/// The user-facing sentence for a fetch failure with a known upstream
/// status, naming the year and the numeric status code.
pub open spec fn fetch_error_message_spec(year: u32, status: u16) -> Seq<char> {
    "Failed to fetch private leaderboard for "@ + dec_spec(year as nat) + " ("@ + dec_spec(
        status as nat,
    ) + ")"@
}

/// The user-facing remediation sentence for a document too large to
/// deliver.
pub open spec fn too_large_message_spec() -> Seq<char> {
    "The requested leaderboard slice would be too large to fit in a matrix message. Try to reduce the number of rows."@
}

/// Classify a fetch failure: a known upstream status is answered with one
/// user-facing message naming the year and the status and is not
/// propagated; every other failure shape is propagated as a fault.
pub fn report_fetch_failure(year: u32, f: &FetchFailure) -> (r: BoundaryAction)
    ensures
        (r is Reply) == (f is UpstreamStatus),
        (*f) matches FetchFailure::UpstreamStatus(s) ==> (r matches BoundaryAction::Reply(msg)
            && msg@ == fetch_error_message_spec(year, s)),
{
    match f {
        FetchFailure::UpstreamStatus(s) => {
            let mut msg = String::from_str("Failed to fetch private leaderboard for ");
            let y = dec_u64(year as u64);
            msg.append(y.as_str());
            msg.append(" (");
            let st = dec_u64(*s as u64);
            msg.append(st.as_str());
            msg.append(")");
            BoundaryAction::Reply(msg)
        },
        FetchFailure::Other => BoundaryAction::Propagate,
    }
}

/// Classify a delivery failure: "too large" is answered with one
/// user-facing remediation message and is not propagated; every other
/// failure shape is propagated as a fault.
pub fn report_delivery_failure(f: &DeliveryFailure) -> (r: BoundaryAction)
    ensures
        (r is Reply) == (f is TooLarge),
        f is TooLarge ==> (r matches BoundaryAction::Reply(msg) && msg@
            == too_large_message_spec()),
{
    match f {
        DeliveryFailure::TooLarge => BoundaryAction::Reply(
            String::from_str(
                "The requested leaderboard slice would be too large to fit in a matrix message. Try to reduce the number of rows.",
            ),
        ),
        DeliveryFailure::Other => BoundaryAction::Propagate,
    }
}

} // verus!

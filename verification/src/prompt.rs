//! The accept/decline prompt's outcome and its mapping to a decision.
//! Decline is the safe default: an explicit decline, a dismissal and an
//! unrecognized action identifier all decline the file.

use vstd::prelude::*;

verus! {

/// The two terminal answers a prompt can resolve to.
#[derive(PartialEq, Eq, Structural, Clone, Copy, Debug)]
pub enum Decision {
    Accept,
    Decline,
}

/// What the notification host reported back for one prompt: the identifier
/// of the action the user chose, or that the notification was dismissed or
/// closed without a choice.
pub enum PromptResponse {
    Action(String),
    Dismissed,
}

/// The decision a response maps to: only the "Accept" action accepts.
pub open spec fn decision_of(resp: PromptResponse) -> Decision {
    match resp {
        PromptResponse::Action(s) => if s@ == "Accept"@ {
            Decision::Accept
        } else {
            Decision::Decline
        },
        PromptResponse::Dismissed => Decision::Decline,
    }
}

/// Maps a prompt response to a decision; every response other than the
/// "Accept" action declines.
pub fn resolve_response(resp: &PromptResponse) -> (d: Decision)
    ensures
        d == decision_of(*resp),
        d == Decision::Accept <==> (resp matches PromptResponse::Action(s) && s@ == "Accept"@),
{
    match resp {
        PromptResponse::Action(s) => {
            let accept: String = "Accept".to_owned();
            if *s == accept {
                Decision::Accept
            } else {
                Decision::Decline
            }
        },
        PromptResponse::Dismissed => Decision::Decline,
    }
}

} // verus!

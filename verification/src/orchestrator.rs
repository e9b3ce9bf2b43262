//! The per-arrival pipeline: the prompt's outcome resolved to a decision
//! and carried out by the transfer executor. The prompt strictly precedes
//! the executor; a failed notification aborts the pipeline with the file
//! left in place — no disposition at all, not an implicit decline. One
//! arrival's failure is contained to its own pipeline.

use vstd::prelude::*;

verus! {

use crate::ident::Creds;
use crate::ident::UserIdentity;
use crate::prompt::Decision;
use crate::prompt::PromptResponse;
use crate::prompt::decision_of;
use crate::prompt::resolve_response;
use crate::transfer::DisposeError;
use crate::transfer::Disposition;
use crate::transfer::SimFs;
use crate::transfer::accept_result;
use crate::transfer::decline_result;
use crate::transfer::dest_path_of;
use crate::transfer::dispose;

/// How one prompt ended: with the notification host's response, or with a
/// failure to construct, display or await the notification.
pub enum PromptOutcome {
    Responded(PromptResponse),
    Failed,
}

/// Why one arrival's pipeline ended without a completed disposition.
#[derive(PartialEq, Eq, Structural, Clone, Copy, Debug)]
pub enum PipelineError {
    Notification,
    Dispose(DisposeError),
}

/// Settles one arrival after its prompt: the response maps to a decision —
/// decline unless the "Accept" action was chosen — and the executor moves
/// or removes the file accordingly. A failed notification leaves the
/// filesystem untouched and the file undisposed. Only an accepting
/// response asks for a move, so only there must the destination path
/// differ from the source.
pub fn settle_arrival(
    fs: &mut SimFs,
    source: &String,
    outcome: PromptOutcome,
    dest_dir: &String,
    dest_device: u64,
    who: &UserIdentity,
    executor: Creds,
) -> (r: Result<Disposition, PipelineError>)
    requires
        old(fs).wf(),
        outcome matches PromptOutcome::Responded(resp) && decision_of(resp) == Decision::Accept
            ==> source@ != dest_path_of(dest_dir@, source@),
    ensures
        final(fs).wf(),
        outcome matches PromptOutcome::Failed ==> *final(fs) == *old(fs) && (r matches Err(e) && e
            == PipelineError::Notification),
        outcome matches PromptOutcome::Responded(resp) && decision_of(resp) == Decision::Accept
            && old(fs).as_map().contains_key(source@) ==> (r matches Ok(d) && d
            == Disposition::Moved) && final(fs).as_map() == accept_result(
            old(fs).as_map(),
            source@,
            dest_path_of(dest_dir@, source@),
            dest_device,
            who.uid,
            who.gid,
        ),
        outcome matches PromptOutcome::Responded(resp) && decision_of(resp) == Decision::Decline
            && old(fs).as_map().contains_key(source@) ==> (r matches Ok(d) && d
            == Disposition::Deleted) && final(fs).as_map() == decline_result(
            old(fs).as_map(),
            source@,
        ),
        outcome matches PromptOutcome::Responded(resp) && !old(fs).as_map().contains_key(source@)
            ==> *final(fs) == *old(fs) && (r matches Err(e) && e matches PipelineError::Dispose(_)),
{
    match outcome {
        PromptOutcome::Failed => Err(PipelineError::Notification),
        PromptOutcome::Responded(resp) => {
            let d = resolve_response(&resp);
            match dispose(fs, source, d, dest_dir, dest_device, who, executor) {
                Ok(disp) => Ok(disp),
                Err(e) => Err(PipelineError::Dispose(e)),
            }
        },
    }
}

} // verus!

//! The laws the dispatch core obeys, stated over a ghost model of one
//! event's journey through the agent list.
//!
//! The shell performs uploads and deletions one agent at a time; the model
//! here records what that amounts to for each agent — which key is
//! uploaded, whether the local copy goes away, what is reported — so that
//! the isolation and safety claims can be stated and proved once, over
//! every possible upload outcome.

use vstd::prelude::*;

use crate::agent::{Agent, PostAction, UploadOutcome};
use crate::errors::SyncError;
use crate::manager::{EventKind, event_actionable_spec};
use crate::path_model::{CompView, is_under};

verus! {

/// What dispatching one event to one agent amounts to, as a value: the key
/// uploaded — if an upload was attempted at all — whether the local copy is
/// removed afterwards, and the error reported, if any.
pub struct AgentStep {
    pub uploaded: Option<Seq<char>>,
    pub removed: bool,
    pub reported: Option<SyncError>,
}

/// The model of one agent processing one event path whose single upload
/// attempt — if one happens — ends in `outcome`. A skipped event touches
/// nothing and reports nothing; otherwise the derived key is uploaded and
/// the post-upload decision applies.
pub open spec fn agent_step(a: Agent, path: Seq<CompView>, outcome: UploadOutcome) -> AgentStep {
    match a.object_key_spec(path) {
        Err(_) => AgentStep { uploaded: None, removed: false, reported: None },
        Ok(k) => AgentStep {
            uploaded: Some(k),
            removed: a.post_action_spec(outcome) is RemoveLocal,
            reported: match a.post_action_spec(outcome) {
                PostAction::Report(e) => Some(e),
                _ => None,
            },
        },
    }
}

/// Fan-out of one event across the whole agent list, each agent with its
/// own upload outcome.
pub open spec fn dispatch_steps(
    agents: Seq<Agent>,
    path: Seq<CompView>,
    outcomes: Seq<UploadOutcome>,
) -> Seq<AgentStep> {
    Seq::new(agents.len(), |i: int| agent_step(agents[i], path, outcomes[i]))
}

/// An event path outside an agent's root is rejected as `PathOutsideRoot`,
/// and the uploader is never invoked for it: whatever outcome an upload
/// could have had, the step uploads nothing, removes nothing and reports
/// nothing.
pub proof fn lemma_outside_root_never_uploads(
    a: Agent,
    path: Seq<CompView>,
    outcome: UploadOutcome,
)
    requires
        !is_under(path, a.root()),
    ensures
        a.object_key_spec(path) == Err::<Seq<char>, SyncError>(SyncError::PathOutsideRoot),
        agent_step(a, path, outcome).uploaded is None,
        !agent_step(a, path, outcome).removed,
        agent_step(a, path, outcome).reported is None,
{
}

/// Skips are silent and idempotent: when key derivation rejects an event —
/// a pattern mismatch or a path outside the root among the reasons — the
/// step does not depend on any upload outcome, uploads nothing, removes
/// nothing and reports nothing. Repeating the same skipped event therefore
/// changes nothing; and since every pipeline entry point takes its agent
/// and manager by shared reference, no agent or registry state can change
/// either.
pub proof fn lemma_skip_silent_idempotent(
    a: Agent,
    path: Seq<CompView>,
    o1: UploadOutcome,
    o2: UploadOutcome,
)
    requires
        a.object_key_spec(path) is Err,
    ensures
        agent_step(a, path, o1) == agent_step(a, path, o2),
        agent_step(a, path, o1).uploaded is None,
        !agent_step(a, path, o1).removed,
        agent_step(a, path, o1).reported is None,
{
}

/// The local copy is removed exactly when an upload was attempted, the
/// store confirmed it, and the agent asks for removal — never after a
/// failed or skipped upload.
pub proof fn lemma_remove_only_after_delivery(
    a: Agent,
    path: Seq<CompView>,
    outcome: UploadOutcome,
)
    ensures
        agent_step(a, path, outcome).removed <==> (a.object_key_spec(path) is Ok && outcome
            is Delivered && a.deletes_after_upload()),
{
}

/// Fan-out isolation: the dispatch model holds one step for every agent —
/// each is attempted — and an agent's step depends only on its own upload
/// outcome, so one agent's failure cannot disturb what another agent does
/// with the same event.
pub proof fn lemma_fanout_isolation(
    agents: Seq<Agent>,
    path: Seq<CompView>,
    o1: Seq<UploadOutcome>,
    o2: Seq<UploadOutcome>,
    i: int,
)
    requires
        o1.len() == agents.len(),
        o2.len() == agents.len(),
        0 <= i < agents.len(),
        o1[i] == o2[i],
    ensures
        dispatch_steps(agents, path, o1).len() == agents.len(),
        dispatch_steps(agents, path, o1)[i] == agent_step(agents[i], path, o1[i]),
        dispatch_steps(agents, path, o1)[i] == dispatch_steps(agents, path, o2)[i],
{
}

/// Key derivation only ever rejects an event for a filtering reason — the
/// path lies outside the root, a component is not text, or the pattern does
/// not match — never with an error that would count as a failure.
pub proof fn lemma_derive_errors_are_filtering(a: Agent, path: Seq<CompView>)
    ensures
        a.object_key_spec(path) matches Err(e) ==> e.is_filtering(),
{
}

/// An in-progress event is never dispatched to any agent pipeline,
/// whatever the filesystem says about its path at the time.
pub proof fn lemma_continuous_never_dispatched(path_present: bool, path_is_file: bool)
    ensures
        !event_actionable_spec(EventKind::AnyContinuous, path_present, path_is_file),
{
}

} // verus!

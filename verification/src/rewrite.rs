//! In-place file rewriting as a state machine.
//!
//! Rewriting a file safely means: check the path, write the transformed
//! output to a temporary file in the same directory, then rename the
//! temporary file over the source. When the rename fails (for instance
//! across filesystems) the bytes are copied over the source instead and the
//! temporary file is removed afterwards; a failed removal is only a warning.
//!
//! The machine below fixes that order of operations. Each state names the
//! operation to perform next (`next_action`), and `step` consumes the
//! outcome the caller observed. The caller performs the filesystem
//! operations; the proofs here show that the source file is never touched
//! before the temporary file is complete, and that a successful rename makes
//! the machine stop without ever asking for a byte-for-byte copy.
//!
//! One window remains open by design: when the rename has failed and the
//! fallback copy itself fails partway, the source may be left partially
//! written. The machine then stops with `RewriteError::Io` and never asks
//! for the temporary file to be removed, so the complete output survives in
//! the temporary file for manual recovery.

use vstd::prelude::*;

verus! {

/// Why an in-place rewrite failed.
#[derive(Clone, Copy, PartialEq, Eq, Structural, Debug)]
pub enum RewriteError {
    /// The path does not exist.
    NotFound,
    /// The path exists but is not a regular file.
    NotAFile,
    /// Reading, writing, renaming or copying failed.
    Io,
}

/// Where the rewrite of one file stands.
#[derive(Clone, Copy, PartialEq, Eq, Structural, Debug)]
pub enum RewriteState {
    /// The path has not been checked yet.
    Validating,
    /// The transformed output is being written to the temporary file.
    Writing,
    /// The temporary file is complete; it is to be renamed over the source.
    Swapping,
    /// The rename failed; the temporary file's bytes are to be copied over
    /// the source instead.
    FallbackCopying,
    /// The copy succeeded; the temporary file is to be removed.
    Cleanup,
    /// The rewrite succeeded. `cleanup_warning` is set when the temporary
    /// file could not be removed after a successful fallback copy: the
    /// source holds the new content, but a stray temporary file remains.
    Done { cleanup_warning: bool },
    /// The rewrite failed; the source was not asked to change unless the
    /// failure happened during the fallback copy itself.
    Failed { error: RewriteError },
}

/// The outcome of one filesystem operation, reported back to the machine.
#[derive(Clone, Copy, PartialEq, Eq, Structural, Debug)]
pub enum RewriteEvent {
    /// Whether the source path exists and is a regular file.
    Checked { exists: bool, is_file: bool },
    /// Whether the temporary file was created and fully written.
    Wrote { ok: bool },
    /// Whether the rename of the temporary file over the source succeeded.
    Renamed { ok: bool },
    /// Whether copying the temporary file's bytes over the source succeeded.
    Copied { ok: bool },
    /// Whether the temporary file was removed.
    Removed { ok: bool },
}

/// The operation the caller is asked to perform next.
#[derive(Clone, Copy, PartialEq, Eq, Structural, Debug)]
pub enum RewriteAction {
    /// Find out whether the source path exists and is a regular file.
    CheckSource,
    /// Create the temporary file next to the source and stream the
    /// transformed lines into it, then close both files.
    WriteTemp,
    /// Rename the temporary file over the source.
    RenameTempOverSource,
    /// Copy the temporary file's bytes over the source.
    CopyTempToSource,
    /// Remove the temporary file.
    RemoveTemp,
    /// Nothing is left to do.
    Stop,
}

/// The operation each state calls for.
pub open spec fn action_spec(s: RewriteState) -> RewriteAction {
    match s {
        RewriteState::Validating => RewriteAction::CheckSource,
        RewriteState::Writing => RewriteAction::WriteTemp,
        RewriteState::Swapping => RewriteAction::RenameTempOverSource,
        RewriteState::FallbackCopying => RewriteAction::CopyTempToSource,
        RewriteState::Cleanup => RewriteAction::RemoveTemp,
        RewriteState::Done { .. } => RewriteAction::Stop,
        RewriteState::Failed { .. } => RewriteAction::Stop,
    }
}

/// The transition rules. An event that does not answer the pending action
/// changes nothing.
pub open spec fn step_spec(s: RewriteState, e: RewriteEvent) -> RewriteState {
    match (s, e) {
        (RewriteState::Validating, RewriteEvent::Checked { exists, is_file }) => {
            if !exists {
                RewriteState::Failed { error: RewriteError::NotFound }
            } else if !is_file {
                RewriteState::Failed { error: RewriteError::NotAFile }
            } else {
                RewriteState::Writing
            }
        },
        (RewriteState::Writing, RewriteEvent::Wrote { ok }) => {
            if ok {
                RewriteState::Swapping
            } else {
                RewriteState::Failed { error: RewriteError::Io }
            }
        },
        (RewriteState::Swapping, RewriteEvent::Renamed { ok }) => {
            if ok {
                RewriteState::Done { cleanup_warning: false }
            } else {
                RewriteState::FallbackCopying
            }
        },
        (RewriteState::FallbackCopying, RewriteEvent::Copied { ok }) => {
            if ok {
                RewriteState::Cleanup
            } else {
                RewriteState::Failed { error: RewriteError::Io }
            }
        },
        (RewriteState::Cleanup, RewriteEvent::Removed { ok }) => {
            RewriteState::Done { cleanup_warning: !ok }
        },
        _ => s,
    }
}

/// The operation to perform in state `s`.
pub fn next_action(s: &RewriteState) -> (a: RewriteAction)
    ensures
        a == action_spec(*s),
{
    match s {
        RewriteState::Validating => RewriteAction::CheckSource,
        RewriteState::Writing => RewriteAction::WriteTemp,
        RewriteState::Swapping => RewriteAction::RenameTempOverSource,
        RewriteState::FallbackCopying => RewriteAction::CopyTempToSource,
        RewriteState::Cleanup => RewriteAction::RemoveTemp,
        RewriteState::Done { .. } => RewriteAction::Stop,
        RewriteState::Failed { .. } => RewriteAction::Stop,
    }
}

/// Consume the outcome of the pending operation.
pub fn step(s: &RewriteState, e: &RewriteEvent) -> (t: RewriteState)
    ensures
        t == step_spec(*s, *e),
{
    match (s, e) {
        (RewriteState::Validating, RewriteEvent::Checked { exists, is_file }) => {
            if !*exists {
                RewriteState::Failed { error: RewriteError::NotFound }
            } else if !*is_file {
                RewriteState::Failed { error: RewriteError::NotAFile }
            } else {
                RewriteState::Writing
            }
        },
        (RewriteState::Writing, RewriteEvent::Wrote { ok }) => {
            if *ok {
                RewriteState::Swapping
            } else {
                RewriteState::Failed { error: RewriteError::Io }
            }
        },
        (RewriteState::Swapping, RewriteEvent::Renamed { ok }) => {
            if *ok {
                RewriteState::Done { cleanup_warning: false }
            } else {
                RewriteState::FallbackCopying
            }
        },
        (RewriteState::FallbackCopying, RewriteEvent::Copied { ok }) => {
            if *ok {
                RewriteState::Cleanup
            } else {
                RewriteState::Failed { error: RewriteError::Io }
            }
        },
        (RewriteState::Cleanup, RewriteEvent::Removed { ok }) => {
            RewriteState::Done { cleanup_warning: !*ok }
        },
        _ => *s,
    }
}

/// The state after consuming `events` in order, starting from `Validating`.
pub open spec fn run_spec(events: Seq<RewriteEvent>) -> RewriteState
    decreases events.len(),
{
    if events.len() == 0 {
        RewriteState::Validating
    } else {
        step_spec(run_spec(events.drop_last()), events.last())
    }
}

/// Whether an action changes the source path itself.
pub open spec fn writes_source(a: RewriteAction) -> bool {
    a == RewriteAction::RenameTempOverSource || a == RewriteAction::CopyTempToSource
}

/// While no rename has been reported failed, the machine never asks for the
/// file's bytes to be copied: on a same-filesystem rewrite, where the rename
/// succeeds, the swap is rename-based only.
pub proof fn lemma_no_rename_failure_no_copy(events: Seq<RewriteEvent>)
    requires
        forall|i: int| 0 <= i < events.len() ==> events[i] != (RewriteEvent::Renamed {
            ok: false,
        }),
    ensures
        action_spec(run_spec(events)) != RewriteAction::CopyTempToSource,
    decreases events.len(),
{
    if events.len() > 0 {
        assert forall|i: int| 0 <= i < events.drop_last().len() implies events.drop_last()[i]
            != (RewriteEvent::Renamed { ok: false }) by {
            assert(events.drop_last()[i] == events[i]);
        }
        lemma_no_rename_failure_no_copy(events.drop_last());
        assert(events.last() != (RewriteEvent::Renamed { ok: false }));
    }
}

/// Until the temporary file has been reported fully written, the machine
/// never asks for an operation that changes the source file.
pub proof fn lemma_source_untouched_before_temp_complete(events: Seq<RewriteEvent>)
    requires
        forall|i: int| 0 <= i < events.len() ==> events[i] != (RewriteEvent::Wrote { ok: true }),
    ensures
        !writes_source(action_spec(run_spec(events))),
    decreases events.len(),
{
    if events.len() > 0 {
        assert forall|i: int| 0 <= i < events.drop_last().len() implies events.drop_last()[i]
            != (RewriteEvent::Wrote { ok: true }) by {
            assert(events.drop_last()[i] == events[i]);
        }
        lemma_source_untouched_before_temp_complete(events.drop_last());
        assert(events.last() != (RewriteEvent::Wrote { ok: true }));
    }
}

/// On a run that never completed the temporary file — every failure during
/// validation or while writing the temporary file — no point of the run ever
/// commanded a change to the source file: the original is left intact.
pub proof fn lemma_failure_before_swap_preserves_source(events: Seq<RewriteEvent>)
    requires
        forall|i: int| 0 <= i < events.len() ==> events[i] != (RewriteEvent::Wrote { ok: true }),
    ensures
        forall|k: int|
            0 <= k <= events.len() ==> !writes_source(
                action_spec(#[trigger] run_spec(events.take(k))),
            ),
{
    assert forall|k: int| 0 <= k <= events.len() implies !writes_source(
        action_spec(run_spec(events.take(k))),
    ) by {
        assert forall|i: int| 0 <= i < events.take(k).len() implies events.take(k)[i]
            != (RewriteEvent::Wrote { ok: true }) by {
            assert(events.take(k)[i] == events[i]);
        }
        lemma_source_untouched_before_temp_complete(events.take(k));
    }
}

/// Success is only ever reported after the new content actually reached the
/// source file: a run that ends `Done` (or that is about to remove the
/// temporary file) contains a successful rename or a successful copy.
pub proof fn lemma_success_requires_swap_or_copy(events: Seq<RewriteEvent>)
    requires
        run_spec(events) matches RewriteState::Done { .. } || run_spec(events)
            == RewriteState::Cleanup,
    ensures
        (exists|i: int|
            0 <= i < events.len() && events[i] == (RewriteEvent::Renamed { ok: true })) || (exists|
            j: int|
            0 <= j < events.len() && events[j] == (RewriteEvent::Copied { ok: true })),
    decreases events.len(),
{
    let prev = run_spec(events.drop_last());
    let e = events.last();
    if (prev matches RewriteState::Done { .. }) || prev == RewriteState::Cleanup {
        lemma_success_requires_swap_or_copy(events.drop_last());
        if exists|i: int|
            0 <= i < events.drop_last().len() && events.drop_last()[i] == (RewriteEvent::Renamed {
                ok: true,
            }) {
            let i = choose|i: int|
                0 <= i < events.drop_last().len() && events.drop_last()[i]
                    == (RewriteEvent::Renamed { ok: true });
            assert(events[i] == (RewriteEvent::Renamed { ok: true }));
        } else {
            let i = choose|i: int|
                0 <= i < events.drop_last().len() && events.drop_last()[i]
                    == (RewriteEvent::Copied { ok: true });
            assert(events[i] == (RewriteEvent::Copied { ok: true }));
        }
    } else {
        assert(e == (RewriteEvent::Renamed { ok: true }) || e == (RewriteEvent::Copied {
            ok: true,
        }));
        assert(events[events.len() - 1] == e);
    }
}

/// `Done` and `Failed` are terminal: once reached, the machine asks for
/// nothing further and no event changes it. In particular, after a failed
/// fallback copy the removal of the temporary file — which holds the
/// complete output — is never commanded: it is preserved for recovery.
pub proof fn lemma_terminal_states(s: RewriteState, e: RewriteEvent)
    requires
        s matches RewriteState::Done { .. } || s matches RewriteState::Failed { .. },
    ensures
        step_spec(s, e) == s,
        action_spec(s) == RewriteAction::Stop,
{
}

/// Characters a hyphenated UUID is made of.
pub open spec fn is_uuid_char(c: char) -> bool {
    ('0' as int <= c as int && c as int <= '9' as int) || ('a' as int <= c as int && c as int
        <= 'f' as int) || c == '-'
}

/// Relies on uuid::Uuid::new_v4 and uuid::fmt::Hyphenated: a fresh random
/// UUID rendered in the hyphenated form, 36 characters, lower-case
/// hexadecimal digits and hyphens. The value is random, so nothing is said
/// of which UUID comes back, only of its shape.
#[verifier::external_body]
fn uuid_v4_hyphenated() -> (r: String)
    ensures
        r@.len() == 36,
        forall|i: int| 0 <= i < r@.len() ==> is_uuid_char(#[trigger] r@[i]),
{
    uuid::Uuid::new_v4().hyphenated().to_string()
}

/// A name for the temporary file, to be created in the same directory as
/// the source: a dot followed by a fresh hyphenated UUID. Every character
/// is safe inside a single path component, and the random part makes a
/// collision with a concurrent invocation on the same directory as unlikely
/// as a UUID collision.
pub fn fresh_temp_name() -> (r: String)
    ensures
        r@.len() == 37,
        r@[0] == '.',
        forall|i: int| 1 <= i < r@.len() ==> is_uuid_char(#[trigger] r@[i]),
{
    let u = uuid_v4_hyphenated();
    let mut out = String::new();
    proof {
        reveal_strlit(".");
    }
    out.append(".");
    out.append(u.as_str());
    out
}

} // verus!

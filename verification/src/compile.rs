//! Debounced compile pipeline keyed by document-version identifiers.
//!
//! The pipeline decides which external tool invocations to start and keeps
//! the most recently received result. Running the external tool and reading
//! its output happen outside this module; whoever does so calls `submit` to
//! learn whether a new invocation is due, and `deliver` with each parsed
//! result as it arrives.
use vstd::prelude::*;

use crate::core_text::CursorRange;

verus! {

/// Identity of one compile request: the document version it was made for and
/// the optimization flag. Equality of the pair is the sole de-duplication
/// key.
#[derive(Clone, Copy, PartialEq, Eq, Structural, Debug)]
pub struct CompileId {
    pub id: u64,
    pub is_optimize: bool,
}

/// One diagnostic from the external tool: the source span it annotates, the
/// line it is reported on, and its text.
#[derive(Clone, Debug)]
pub struct CompilerMessage {
    pub line: usize,
    pub span: CursorRange,
    pub message: String,
}

/// Outcome of one external invocation: a success flag and the ordered
/// diagnostics.
#[derive(Clone, Debug)]
pub struct CompileResult {
    pub success: bool,
    pub messages: Vec<CompilerMessage>,
}

/// State of the compile pipeline.
///
/// `last_submitted` is the de-duplication key: `submit` starts a new
/// invocation exactly when its argument differs from it. `last_received`
/// holds the most recently delivered result, whatever its id
/// (last-received-wins). `in_flight` counts invocations started but not yet
/// delivered.
pub struct CompilePipeline {
    last_submitted: Option<CompileId>,
    last_received: Option<(CompileId, CompileResult)>,
    in_flight: u64,
}

impl CompilePipeline {
    /// The spec-level de-duplication key.
    pub closed spec fn spec_last_submitted(self) -> Option<CompileId> {
        self.last_submitted
    }

    /// The spec-level most recently received result.
    pub closed spec fn spec_last_received(self) -> Option<(CompileId, CompileResult)> {
        self.last_received
    }

    /// The spec-level count of undelivered invocations.
    pub closed spec fn spec_in_flight(self) -> nat {
        self.in_flight as nat
    }

    /// A fresh pipeline: nothing submitted, nothing received, nothing
    /// running.
    pub fn new() -> (r: Self)
        ensures
            r.spec_last_submitted() is None,
            r.spec_last_received() is None,
            r.spec_in_flight() == 0,
    {
        CompilePipeline { last_submitted: None, last_received: None, in_flight: 0 }
    }

    /// Submits a compile request. Returns `true` exactly when the request
    /// differs from the last submitted one, in which case the caller must
    /// start one external invocation for it; an identical consecutive
    /// resubmission is a no-op.
    pub fn submit(&mut self, id: CompileId) -> (started: bool)
        requires
            old(self).spec_in_flight() < u64::MAX,
        ensures
            started == submit_starts(old(self).spec_last_submitted(), id),
            final(self).spec_last_submitted() == Some(id),
            final(self).spec_last_received() == old(self).spec_last_received(),
            final(self).spec_in_flight() == if started {
                old(self).spec_in_flight() + 1
            } else {
                old(self).spec_in_flight()
            },
    {
        let duplicate = match &self.last_submitted {
            Some(last) => last.id == id.id && last.is_optimize == id.is_optimize,
            None => false,
        };
        if duplicate {
            return false;
        }
        self.last_submitted = Some(id);
        self.in_flight = self.in_flight + 1;
        true
    }

    /// Abandons one started invocation: the caller could not run it (no
    /// tool configured, no worker available), so no result will ever be
    /// delivered for it.
    pub fn abandon(&mut self)
        requires
            old(self).spec_in_flight() > 0,
        ensures
            final(self).spec_in_flight() == old(self).spec_in_flight() - 1,
            final(self).spec_last_submitted() == old(self).spec_last_submitted(),
            final(self).spec_last_received() == old(self).spec_last_received(),
    {
        self.in_flight = self.in_flight - 1;
    }

    /// Records one result received from an external invocation. The most
    /// recently delivered result wins, whether or not its id is the most
    /// recently submitted one.
    pub fn deliver(&mut self, id: CompileId, result: CompileResult)
        requires
            old(self).spec_in_flight() > 0,
        ensures
            final(self).spec_last_received() == Some((id, result)),
            final(self).spec_last_submitted() == old(self).spec_last_submitted(),
            final(self).spec_in_flight() == old(self).spec_in_flight() - 1,
    {
        self.last_received = Some((id, result));
        self.in_flight = self.in_flight - 1;
    }

    /// The most recently received result, if any.
    pub fn poll(&self) -> (r: Option<&(CompileId, CompileResult)>)
        ensures
            match r {
                Some(p) => self.spec_last_received() == Some(*p),
                None => self.spec_last_received() is None,
            },
    {
        self.last_received.as_ref()
    }

    /// Whether an invocation has been started and not yet delivered.
    pub fn is_running(&self) -> (r: bool)
        ensures
            r == (self.spec_in_flight() > 0),
    {
        self.in_flight > 0
    }
}

/// Whether `submit(id)` starts an external invocation when the
/// de-duplication key holds `last`.
pub open spec fn submit_starts(last: Option<CompileId>, id: CompileId) -> bool {
    last != Some(id)
}

/// Number of external invocations started by submitting `ids` in order,
/// starting from de-duplication key `last`: each `submit` leaves the key at
/// its argument, so an invocation is started exactly when an id differs from
/// its predecessor.
pub open spec fn count_started(last: Option<CompileId>, ids: Seq<CompileId>) -> nat
    decreases ids.len(),
{
    if ids.len() == 0 {
        0
    } else {
        (if submit_starts(last, ids[0]) {
            1nat
        } else {
            0nat
        }) + count_started(Some(ids[0]), ids.skip(1))
    }
}

/// Submitting any number of copies of one (version, optimize) pair in a row
/// triggers at most one external invocation.
pub proof fn lemma_resubmit_same_id(last: Option<CompileId>, ids: Seq<CompileId>, id: CompileId)
    requires
        forall|i: int| 0 <= i < ids.len() ==> ids[i] == id,
    ensures
        count_started(last, ids) <= 1,
    decreases ids.len(),
{
    if ids.len() > 0 {
        assert(forall|i: int| 0 <= i < ids.skip(1).len() ==> ids.skip(1)[i] == id);
        lemma_resubmit_after_key(ids.skip(1), id);
    }
}

/// Once the key already holds an id, resubmitting only that id starts
/// nothing at all.
pub proof fn lemma_resubmit_after_key(ids: Seq<CompileId>, id: CompileId)
    requires
        forall|i: int| 0 <= i < ids.len() ==> ids[i] == id,
    ensures
        count_started(Some(id), ids) == 0,
    decreases ids.len(),
{
    if ids.len() > 0 {
        assert(forall|i: int| 0 <= i < ids.skip(1).len() ==> ids.skip(1)[i] == id);
        lemma_resubmit_after_key(ids.skip(1), id);
    }
}

} // verus!

//! Debounced rebuild on config change. A UI edit marks the state dirty; once
//! the edit has settled (a short debounce), the pipeline is rebuilt. Discrete
//! edits (toggles) apply on the next frame instead of waiting out the window.
//! A failed rebuild is reported in plain language ([`humanize`]).

use crate::addon::error::{error_text, AddonError};
use crate::time::{duration_at_least, duration_from_millis, instant_elapsed, instant_now, nanos_of};
use std::time::Duration;
use std::time::Instant;
use vstd::prelude::*;
use vstd::string::StringExecFns;

verus! {

broadcast use vstd::string::to_string_from_display_ensures_for_str;

/// The debounce window: 120 ms.
fn debounce() -> (r: Duration)
    ensures
        nanos_of(r) == 120_000_000,
{
    duration_from_millis(120)
}

/// The abstract state: whether an edit is pending, whether that edit is
/// already due (a discrete edit does not wait out the window), and the last
/// error shown.
pub struct ReloadModel {
    pub pending: bool,
    pub due: bool,
    pub last_error: Option<Seq<char>>,
}

/// A UI edit of the pipeline document.
#[derive(Debug, Clone, Copy, PartialEq, Eq, Structural)]
pub enum PipelineEdit {
    /// A parameter value: a continuous edit.
    SetParam,
    /// A node enabled or disabled.
    SetEnabled,
    AddNode,
    RemoveNode,
    MoveNode,
}

/// The state after an edit of kind `edit` that `changed` the document: none
/// when it changed nothing; a continuous edit restarts the debounce window,
/// a discrete one is due on the next frame.
pub open spec fn after_edit(m: ReloadModel, edit: PipelineEdit, changed: bool) -> ReloadModel {
    if !changed {
        m
    } else {
        ReloadModel { pending: true, due: !(edit is SetParam), ..m }
    }
}

pub struct ReloadState {
    dirty_since: Option<Instant>,
    due: bool,
    last_error: Option<String>,
}

impl View for ReloadState {
    type V = ReloadModel;

    closed spec fn view(&self) -> ReloadModel {
        ReloadModel {
            pending: self.dirty_since is Some,
            due: self.dirty_since is Some && self.due,
            last_error: match self.last_error {
                Some(s) => Some(s@),
                None => None,
            },
        }
    }
}

impl ReloadState {
    pub fn new() -> (r: Self)
        ensures
            r@ == (ReloadModel { pending: false, due: false, last_error: None }),
    {
        ReloadState { dirty_since: None, due: false, last_error: None }
    }

    /// Continuous edit: (re)start the debounce window now.
    pub fn mark_dirty(&mut self)
        ensures
            final(self)@ == (ReloadModel { pending: true, due: false, ..old(self)@ }),
    {
        self.dirty_since = Some(instant_now());
        self.due = false;
    }

    /// Discrete edit: pending, and already settled.
    pub fn mark_dirty_now(&mut self)
        ensures
            final(self)@ == (ReloadModel { pending: true, due: true, ..old(self)@ }),
    {
        self.dirty_since = Some(instant_now());
        self.due = true;
    }

    /// Schedule the rebuild an edit calls for (see [`after_edit`]): an edit
    /// that changed the document leaves a rebuild pending, due on the next
    /// take for every kind but a parameter edit; one that changed nothing
    /// leaves the state as it was.
    pub fn note_edit(&mut self, edit: PipelineEdit, changed: bool)
        ensures
            final(self)@ == after_edit(old(self)@, edit, changed),
            changed ==> final(self)@.pending,
            changed ==> (final(self)@.due <==> edit != PipelineEdit::SetParam),
            final(self)@.last_error == old(self)@.last_error,
            !changed ==> final(self)@ == old(self)@,
    {
        if changed {
            match edit {
                PipelineEdit::SetParam => self.mark_dirty(),
                _ => self.mark_dirty_now(),
            }
        }
    }

    /// `true` exactly once per settled edit, consuming the pending flag; a
    /// `false` changes nothing. The window has elapsed when the time waited
    /// since the edit (read from the clock) is at least 120 ms.
    pub fn take_if_settled(&mut self) -> (r: bool)
        ensures
            exists|waited: Duration| (final(self)@, r) == take_step(old(self)@, nanos_of(waited) >= 120_000_000),
    {
        let waited = match &self.dirty_since {
            Some(t) => instant_elapsed(t),
            None => duration_from_millis(0),
        };
        let elapsed = duration_at_least(&waited, &debounce());
        let settled = self.dirty_since.is_some() && (self.due || elapsed);
        if settled {
            self.dirty_since = None;
            self.due = false;
        }
        assert((self@, settled) == take_step(old(self)@, nanos_of(waited) >= 120_000_000));
        settled
    }

    pub fn set_error(&mut self, msg: Option<String>)
        ensures
            final(self)@ == (ReloadModel {
                last_error: match msg {
                    Some(s) => Some(s@),
                    None => None,
                },
                ..old(self)@
            }),
    {
        self.last_error = msg;
    }

    pub fn last_error(&self) -> (r: Option<&str>)
        ensures
            match self@.last_error {
                Some(e) => r matches Some(s) && s@ == e,
                None => r is None,
            },
    {
        match &self.last_error {
            Some(s) => Some(s.as_str()),
            None => None,
        }
    }
}

impl Default for ReloadState {
    fn default() -> (r: Self)
        ensures
            r@ == (ReloadModel { pending: false, due: false, last_error: None }),
    {
        Self::new()
    }
}

/// One `take_if_settled`, given whether the debounce window has elapsed since
/// the last edit: the next state and the answer. A pending edit fires when it
/// is due or its window has elapsed.
pub open spec fn take_step(m: ReloadModel, elapsed: bool) -> (ReloadModel, bool) {
    if m.pending && (m.due || elapsed) {
        (ReloadModel { pending: false, due: false, ..m }, true)
    } else {
        (m, false)
    }
}

/// An edit that changed the document always leaves a rebuild pending. A
/// discrete edit (every kind but a parameter edit) is applied on the very
/// next take, whatever the time; a parameter edit waits out the debounce
/// window and then applies. An edit that changed nothing schedules nothing,
/// and no edit touches the error shown.
pub proof fn lemma_edits_schedule_rebuilds(m: ReloadModel, edit: PipelineEdit, elapsed: bool)
    ensures
        after_edit(m, edit, true).pending,
        edit != PipelineEdit::SetParam ==> take_step(after_edit(m, edit, true), elapsed).1,
        edit == PipelineEdit::SetParam ==> !take_step(after_edit(m, edit, true), false).1,
        edit == PipelineEdit::SetParam ==> take_step(after_edit(m, edit, true), true).1,
        after_edit(m, edit, false) == m,
        after_edit(m, edit, true).last_error == m.last_error,
{
}

/// An edit is applied at most once: after a take that fires, the next take
/// does not fire (whatever the time), until the state is marked dirty again.
pub proof fn lemma_take_fires_once(m: ReloadModel, first: bool, second: bool)
    requires
        take_step(m, first).1,
    ensures
        !take_step(take_step(m, first).0, second).1,
{
}

/// A continuous edit fires once its window has elapsed.
pub proof fn lemma_dirty_then_settled_fires(m: ReloadModel)
    ensures
        take_step(ReloadModel { pending: true, due: false, ..m }, true).1,
{
}

/// A discrete edit fires on the next take, whatever the time.
pub proof fn lemma_discrete_edit_fires_next(m: ReloadModel, elapsed: bool)
    ensures
        take_step(ReloadModel { pending: true, due: true, ..m }, elapsed).1,
{
}

/// A continuous edit that has not waited out its window does not fire.
pub proof fn lemma_fresh_continuous_edit_waits(m: ReloadModel)
    ensures
        !take_step(ReloadModel { pending: true, due: false, ..m }, false).1,
{
}

/// The plain-language message for an error, with no engine vocabulary.
pub open spec fn humanized(e: AddonError) -> Seq<char> {
    match e {
        AddonError::PipelineRejected(m) => "Some settings are invalid:\n"@ + m@,
        AddonError::UnsupportedSource(k) => "Unknown input source '"@ + k@ + "'."@,
        AddonError::UnsupportedSink(k) => "Unknown output '"@ + k@ + "'."@,
        AddonError::NoImplementation(id) => "Addon '"@ + id@ + "' is installed but has no code to run."@,
        AddonError::InvalidPipeline(m) => "This setup can't be applied: "@ + m@,
        other => "Couldn't apply changes: "@ + error_text(other),
    }
}

/// Turn an error into a message a non-technical user can act on.
pub fn humanize(e: &AddonError) -> (r: String)
    ensures
        r@ == humanized(*e),
{
    match e {
        AddonError::PipelineRejected(m) => "Some settings are invalid:\n".to_string().concat(m.as_str()),
        AddonError::UnsupportedSource(k) => "Unknown input source '".to_string().concat(k.as_str()).concat("'."),
        AddonError::UnsupportedSink(k) => "Unknown output '".to_string().concat(k.as_str()).concat("'."),
        AddonError::NoImplementation(id) => "Addon '".to_string().concat(id.as_str()).concat(
            "' is installed but has no code to run.",
        ),
        AddonError::InvalidPipeline(m) => "This setup can't be applied: ".to_string().concat(m.as_str()),
        other => "Couldn't apply changes: ".to_string().concat(other.message().as_str()),
    }
}

} // verus!

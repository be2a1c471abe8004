//! The turns of the picker and of a watch: what is done between two keys, and what is done for
//! what a key asks.

use vstd::prelude::*;

use crate::store::{has_row, StoreError};

use super::{Action, ActionView, Clock, PickerApp, PickerView};

verus! {

/// What comes after an action.
#[derive(Debug, Eq, PartialEq)]
pub enum Outcome {
    Continue,
    Quit,
    Open(String),
}

/// The outcome, with its identifier as text.
pub enum OutcomeView {
    Continue,
    Quit,
    Open(Seq<char>),
}

impl View for Outcome {
    type V = OutcomeView;

    open spec fn view(&self) -> OutcomeView {
        match self {
            Outcome::Continue => OutcomeView::Continue,
            Outcome::Quit => OutcomeView::Quit,
            Outcome::Open(id) => OutcomeView::Open(id@),
        }
    }
}

impl PickerView {
    /// After what is done between two keys.
    pub open spec fn after_turn(self, now: u64) -> PickerView {
        self.with_notice_expired(now).with_due_hosts_asked(now).with_activity_polled(now)
    }

    /// After an action that was not refused.
    pub open spec fn performed(self, action: ActionView, clock: Clock) -> PickerView {
        match action {
            ActionView::Nothing | ActionView::Quit | ActionView::Attach(_) => self,
            ActionView::Refresh => self.with_refresh_started(clock.monotonic_millis),
            ActionView::Acknowledge(id) => self.acknowledged(id, true, clock),
            ActionView::SetArchived { session_id, archived, .. } => self.with_archived(
                session_id,
                archived,
                clock,
            ),
            ActionView::SetHostFilter(host) => self.filtered(host, clock),
        }
    }

    /// The action is on a session that is not kept.
    pub open spec fn refuses(self, action: ActionView) -> bool {
        match action {
            ActionView::SetArchived { session_id, .. } => !has_row(self.store, session_id),
            _ => false,
        }
    }
}

/// What comes after an action that was not refused.
pub open spec fn outcome_of(action: ActionView) -> OutcomeView {
    match action {
        ActionView::Quit => OutcomeView::Quit,
        ActionView::Attach(id) => OutcomeView::Open(id),
        ActionView::SetArchived { session_id, attach, .. } => if attach {
            OutcomeView::Open(session_id)
        } else {
            OutcomeView::Continue
        },
        _ => OutcomeView::Continue,
    }
}

impl PickerApp {
    /// Does what is due between two keys.
    pub fn turn(&mut self, clock: Clock)
        requires
            old(self)@.wf(),
        ensures
            final(self)@ == old(self)@.after_turn(clock.monotonic_millis),
            final(self)@.wf(),
    {
        self.expire_notice(clock);
        self.maybe_start_host_refreshes(clock);
        self.maybe_start_activity_poll(clock);
    }

    /// Does what is due in a watch, and tells whether it is over: one that reconciles its hosts
    /// once is over as soon as nothing is awaited any more.
    pub fn watch_turn(&mut self, once: bool, clock: Clock) -> (r: bool)
        requires
            old(self)@.wf(),
        ensures
            r == (once && old(self)@.with_due_hosts_asked(clock.monotonic_millis).is_reconciled()),
            final(self)@ == (if r {
                old(self)@.with_due_hosts_asked(clock.monotonic_millis)
            } else {
                old(self)@.with_due_hosts_asked(clock.monotonic_millis).with_activity_polled(
                    clock.monotonic_millis,
                )
            }),
            final(self)@.wf(),
    {
        self.maybe_start_host_refreshes(clock);
        if once && self.initial_refresh_complete() {
            return true;
        }
        self.maybe_start_activity_poll(clock);
        false
    }

    /// Does what a key asked for.
    pub fn perform(&mut self, action: Action, clock: Clock) -> (r: Result<Outcome, StoreError>)
        requires
            old(self)@.wf(),
        ensures
            r is Err <==> old(self)@.refuses(action@),
            r matches Err(error) ==> error == StoreError::UnknownSession && final(self)@
                == old(self)@,
            r matches Ok(outcome) ==> outcome@ == outcome_of(action@) && final(self)@
                == old(self)@.performed(action@, clock),
            final(self)@.wf(),
    {
        match action {
            Action::Nothing => Ok(Outcome::Continue),
            Action::Quit => Ok(Outcome::Quit),
            Action::Attach(session_id) => Ok(Outcome::Open(session_id)),
            Action::Refresh => {
                self.start_refresh(clock);
                Ok(Outcome::Continue)
            },
            Action::Acknowledge(session_id) => {
                self.acknowledge_session(session_id.as_str(), true, clock);
                Ok(Outcome::Continue)
            },
            Action::SetArchived { session_id, archived, attach } => {
                match self.set_archived(session_id.as_str(), archived, clock) {
                    Err(error) => Err(error),
                    Ok(_) => if attach {
                        Ok(Outcome::Open(session_id))
                    } else {
                        Ok(Outcome::Continue)
                    },
                }
            },
            Action::SetHostFilter(host) => {
                self.set_host_filter(host, clock);
                Ok(Outcome::Continue)
            },
        }
    }
}

} // verus!

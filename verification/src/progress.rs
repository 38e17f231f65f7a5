//! How far a loop has come, and the only places where the loop calls into
//! the application. Each call is made by a function of its own that writes
//! the call down as it makes it, so that the record of calls cannot drift
//! from the calls.

use vstd::prelude::*;
use crate::app::App;
use crate::control::{AppControl, Phase};
use crate::event::MenuId;
use crate::model::{consistent, Call};

verus! {

/// The phase of a loop and the record of the calls it has made into the
/// application. The record costs nothing at run time.
pub(crate) struct Progress<U> {
    phase: Phase,
    calls: Ghost<Seq<Call<U>>>,
}

impl<U> Progress<U> {
    /// Where the loop is in its life.
    pub(crate) closed spec fn at(self) -> Phase {
        self.phase
    }

    /// Every call made so far, in order.
    pub(crate) closed spec fn calls(self) -> Seq<Call<U>> {
        self.calls@
    }

    /// The calls made always fit the phase.
    #[verifier::type_invariant]
    pub(crate) open spec fn inv(self) -> bool {
        consistent(self.at(), self.calls())
    }

    /// The progress of a loop that was just constructed.
    pub(crate) fn new() -> (progress: Self)
        ensures
            progress.at() == Phase::Uninitialized,
            progress.calls() == Seq::<Call<U>>::empty(),
    {
        Progress { phase: Phase::Uninitialized, calls: Ghost(Seq::empty()) }
    }

    /// Where the loop is in its life. The calls made always fit the phase.
    pub(crate) fn phase(&self) -> (phase: Phase)
        ensures
            phase == self.at(),
            consistent(self.at(), self.calls()),
    {
        proof {
            use_type_invariant(self);
        }
        self.phase
    }

    /// Enters `Running`.
    pub(crate) fn begin(&mut self)
        requires
            old(self).at() == Phase::Uninitialized,
        ensures
            final(self).at() == Phase::Running,
            final(self).calls() == old(self).calls(),
    {
        proof {
            use_type_invariant(&*self);
        }
        self.phase = Phase::Running;
    }

    /// Hands a user event to its handler, and writes the call down.
    pub(crate) fn hand_user_event<A: App<U>>(
        &mut self,
        app: &mut A,
        payload: U,
    ) -> (outcome: Result<AppControl, anyhow::Error>)
        requires
            old(self).at() == Phase::Running,
        ensures
            final(self).at() == Phase::Running,
            final(self).calls() == old(self).calls().push(Call::UserEvent(payload)),
    {
        proof {
            use_type_invariant(&*self);
        }
        self.calls = Ghost(self.calls@.push(Call::UserEvent(payload)));
        app.handle_user_event(payload)
    }

    /// Hands a menu activation to its handler, and writes the call down.
    pub(crate) fn hand_menu_event<A: App<U>>(
        &mut self,
        app: &mut A,
        menu_id: MenuId,
    ) -> (outcome: Result<AppControl, anyhow::Error>)
        requires
            old(self).at() == Phase::Running,
        ensures
            final(self).at() == Phase::Running,
            final(self).calls() == old(self).calls().push(Call::MenuEvent(menu_id)),
    {
        proof {
            use_type_invariant(&*self);
        }
        self.calls = Ghost(self.calls@.push(Call::MenuEvent(menu_id)));
        app.handle_menu_event(menu_id)
    }

    /// Leaves `Running`: the loop is `Exiting` while the exit hook runs, and
    /// `Terminated` once it has returned. The call is written down.
    pub(crate) fn run_exit_hook<A: App<U>>(
        &mut self,
        app: &mut A,
    ) -> (outcome: Result<(), anyhow::Error>)
        requires
            old(self).at() == Phase::Running,
        ensures
            final(self).at() == Phase::Terminated,
            final(self).calls() == old(self).calls().push(Call::Exit),
    {
        proof {
            use_type_invariant(&*self);
        }
        *self = Progress { phase: Phase::Exiting, calls: Ghost(self.calls@.push(Call::Exit)) };
        let outcome = app.handle_exit();
        self.phase = Phase::Terminated;
        outcome
    }
}

} // verus!

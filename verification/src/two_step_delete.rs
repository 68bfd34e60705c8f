//! Two-step deletion: a first click arms the target, a second click on the
//! same target confirms the deletion, anything else leaves it armed or resets.

use vstd::prelude::*;
use vstd::std_specs::cmp::PartialEqSpec;

verus! {

/// State of a two-step deletion: the target that is armed, if any.
#[derive(Clone, Debug)]
pub struct TwoStepDeleteController<T> {
    armed: Option<T>,
}

impl<T: PartialEq + Clone> TwoStepDeleteController<T> {
    /// The armed target.
    pub closed spec fn armed_target(&self) -> Option<T> {
        self.armed
    }

    /// A controller with nothing armed.
    pub fn new() -> (c: Self)
        ensures
            c.armed_target() is None,
    {
        TwoStepDeleteController { armed: None }
    }

    /// Arms `target`. A target that is already armed (equal by `==`) stays as
    /// it is; any other target replaces the armed one.
    pub fn arm(&mut self, target: T)
        ensures
            final(self).armed_target() is Some,
            final(self).armed_target() == Some(target) || final(self).armed_target()
                == old(self).armed_target(),
            T::obeys_eq_spec() ==> (match old(self).armed_target() {
                Some(a) if a.eq_spec(&target) => final(self).armed_target() == Some(a),
                _ => final(self).armed_target() == Some(target),
            }),
    {
        let same = match &self.armed {
            Some(a) => a.eq(&target),
            None => false,
        };
        if same {
            return ;
        }
        self.armed = Some(target);
    }

    /// Whether `target` is the armed one (equal by `==`).
    pub fn is_armed(&self, target: &T) -> (r: bool)
        ensures
            T::obeys_eq_spec() ==> r == (match self.armed_target() {
                Some(a) => a.eq_spec(target),
                None => false,
            }),
    {
        match &self.armed {
            Some(a) => a.eq(target),
            None => false,
        }
    }

    /// Confirms the deletion of `target`: when it is armed, the controller is
    /// reset and the result is `true` (the caller then deletes); otherwise
    /// nothing changes and the result is `false`.
    pub fn confirm_with(&mut self, target: &T) -> (r: bool)
        ensures
            T::obeys_eq_spec() ==> r == (match old(self).armed_target() {
                Some(a) => a.eq_spec(target),
                None => false,
            }),
            r ==> final(self).armed_target() is None,
            !r ==> final(self).armed_target() == old(self).armed_target(),
    {
        if self.is_armed(target) {
            self.reset();
            true
        } else {
            false
        }
    }

    /// Disarms.
    pub fn reset(&mut self)
        ensures
            final(self).armed_target() is None,
    {
        self.armed = None;
    }

    /// The armed target.
    pub fn signal(&self) -> (r: &Option<T>)
        ensures
            *r == self.armed_target(),
    {
        &self.armed
    }
}

/// A new two-step deletion controller with nothing armed.
pub fn use_two_step_delete<T: PartialEq + Clone>() -> (c: TwoStepDeleteController<T>)
    ensures
        c.armed_target() is None,
{
    TwoStepDeleteController::new()
}

} // verus!

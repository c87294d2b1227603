//! Whether the keys of a connection are still to be updated.

use crate::effect::{emit, shown, Effect, EffectView};
use crate::error::{ClientError, Http3Error, TransportError};
use crate::lines::{keys_updated, keys_updated_text};
use vstd::prelude::*;

verus! {

/// Track whether a key update is needed.
#[derive(Debug, PartialEq, Eq, Structural)]
pub struct KeyUpdateState(pub bool);

/// Whether an error says that a key update has to wait.
pub open spec fn update_blocked(e: ClientError) -> bool {
    ||| e == ClientError::TransportError(TransportError::KeyUpdateBlocked)
    ||| e == ClientError::Http3Error(Http3Error::TransportError(TransportError::KeyUpdateBlocked))
}

/// Whether a key update is still needed after an attempt at one.
pub open spec fn needed_after(outcome: Result<(), ClientError>) -> bool {
    outcome is Err
}

/// What an attempt at a key update is answered with: an attempt that has to wait is no failure.
pub open spec fn attempt_answer(outcome: Result<(), ClientError>) -> Result<(), ClientError> {
    match outcome {
        Ok(()) => Ok(()),
        Err(e) => if update_blocked(e) {
            Ok(())
        } else {
            Err(e)
        },
    }
}

/// What is told of an attempt at a key update.
pub open spec fn attempt_told(outcome: Result<(), ClientError>) -> Seq<EffectView> {
    if outcome is Ok {
        seq![EffectView::Print(keys_updated())]
    } else {
        Seq::empty()
    }
}

impl KeyUpdateState {
    /// Records an attempt at a key update.
    pub fn settle(&mut self, outcome: Result<(), ClientError>) -> (r: Result<(), ClientError>)
        requires
            old(self).0,
        ensures
            final(self).0 == needed_after(outcome),
            r == attempt_answer(outcome),
    {
        match outcome {
            Ok(()) => {
                self.0 = false;
                Ok(())
            },
            Err(e) => match e {
                ClientError::TransportError(TransportError::KeyUpdateBlocked)
                | ClientError::Http3Error(Http3Error::TransportError(
                    TransportError::KeyUpdateBlocked,
                )) => Ok(()),
                _ => Err(e),
            },
        }
    }

    /// Updates the keys if that is needed. An update that has to wait stays needed and is no
    /// failure; any other failure is handed on. It is told that the keys were updated.
    pub fn maybe_update<F, E>(&mut self, update_fn: F, effects: &mut Vec<Effect>) -> (r: Result<
        (),
        ClientError,
    >) where
        F: FnOnce() -> Result<(), E>,
        E: Into<ClientError>,

        requires
            old(self).0 ==> call_requires(update_fn, ()),
        ensures
            !old(self).0 ==> {
                &&& *final(self) == *old(self)
                &&& r == Ok::<(), ClientError>(())
                &&& shown(final(effects)@) == shown(old(effects)@)
            },
            old(self).0 ==> exists|outcome: Result<(), E>, told: Result<(), ClientError>|
                {
                    &&& #[trigger] call_ensures(update_fn, (), outcome)
                    &&& #[trigger] told_as(outcome, told)
                    &&& final(self).0 == needed_after(told)
                    &&& r == attempt_answer(told)
                    &&& shown(final(effects)@) == shown(old(effects)@) + attempt_told(told)
                },
    {
        if self.0 {
            let outcome = update_fn();
            let ghost seen = outcome;
            let told = match outcome {
                Ok(()) => Ok(()),
                Err(e) => Err(e.into()),
            };
            assert(told_as(seen, told));
            let ghost before = shown(effects@);
            let r = self.settle(told);
            if !self.0 {
                emit(effects, Effect::Print(keys_updated_text()));
            }
            proof {
                assert(shown(effects@) =~= before + attempt_told(told));
            }
            r
        } else {
            Ok(())
        }
    }

    /// Whether the keys are still to be updated.
    pub fn needed(&self) -> (r: bool)
        ensures
            r == self.0,
    {
        self.0
    }
}

/// A key update is settled by an attempt that works, which is told, and by no other. An attempt
/// that has to wait is no failure, whichever layer says so; any other error is handed on as it is.
pub proof fn law_attempt_settled(outcome: Result<(), ClientError>)
    ensures
        outcome is Ok <==> !needed_after(outcome),
        outcome is Ok <==> attempt_told(outcome) == seq![EffectView::Print("Keys updated"@)],
        attempt_told(outcome).len() > 0 ==> !needed_after(outcome),
        attempt_answer(outcome) is Err ==> attempt_answer(outcome) == outcome,
        attempt_answer(outcome) is Err <==> outcome is Err && !{
            ||| outcome->Err_0 matches ClientError::TransportError(
                TransportError::KeyUpdateBlocked,
            )
            ||| outcome->Err_0 matches ClientError::Http3Error(
                Http3Error::TransportError(TransportError::KeyUpdateBlocked),
            )
        },
{
    assert(seq![EffectView::Print("Keys updated"@)].len() == 1);
}

/// Whether `told` is `outcome` with its error, if any, turned into one of the client.
pub open spec fn told_as<E: Into<ClientError>>(
    outcome: Result<(), E>,
    told: Result<(), ClientError>,
) -> bool {
    match (outcome, told) {
        (Ok(()), Ok(())) => true,
        (Err(e), Err(c)) => call_ensures(<E as Into<ClientError>>::into, (e,), c),
        _ => false,
    }
}

} // verus!

//! A recovery state for a failed network discovery: the next heartbeat
//! re-enters the discovery phase.  It is defined but not wired into the
//! registry; the application may register it when it adopts the retry
//! path.

use vstd::prelude::*;

use crate::app_manager::{CommandSender, Context, Message, Response, State, Stateful};
use crate::usi;

verus! {

/// Waits for a heartbeat, then retries discovery by re-entering the
/// joining state.
pub struct NetworkDiscoverFailed {}

impl NetworkDiscoverFailed {
    pub fn on_enter<CS: CommandSender<usi::Message>>(
        &mut self,
        _cs: &CS,
        context: &mut Context,
    ) -> (r: Response<State>)
        ensures
            final(context)@ == old(context)@,
            r is Handled,
    {
        Response::Handled
    }

    pub fn on_event<CS: CommandSender<usi::Message>>(
        &mut self,
        _cs: &CS,
        event: &Message,
        context: &mut Context,
    ) -> (r: Response<State>)
        ensures
            final(context)@ == old(context)@,
            r == (match event@ {
                crate::app_manager::EventView::HeartBeat(_) => Response::Transition(
                    State::JoinNetwork,
                ),
                _ => Response::<State>::Handled,
            }),
    {
        match event {
            Message::HeartBeat(_) => Response::Transition(State::JoinNetwork),
            _ => Response::Handled,
        }
    }

    pub fn on_exit(&mut self, context: &mut Context)
        ensures
            final(context)@ == old(context)@,
    {
    }
}

impl<CS: CommandSender<usi::Message>> Stateful<CS> for NetworkDiscoverFailed {
    fn on_exit(&mut self, context: &mut Context) {
        NetworkDiscoverFailed::on_exit(self, context)
    }

    fn on_enter(&mut self, cs: &CS, context: &mut Context) -> Response<State> {
        NetworkDiscoverFailed::on_enter(self, cs, context)
    }

    fn on_event(&mut self, cs: &CS, event: &Message, context: &mut Context) -> Response<State> {
        NetworkDiscoverFailed::on_event(self, cs, event, context)
    }
}

} // verus!

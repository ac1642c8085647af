//! The idle state: waits for the startup signal.

use vstd::prelude::*;

use crate::app_manager::{
    on_enter_model, on_event_model, CommandSender, Context, HandlerView, Message, Response, State,
    Stateful,
};
use crate::usi;

verus! {

/// Waits for `Startup`, then moves to stack initialization.
pub struct Idle {}

impl Idle {
    pub fn on_enter<CS: CommandSender<usi::Message>>(
        &mut self,
        _cs: &CS,
        context: &mut Context,
    ) -> (r: Response<State>)
        ensures
            ({
                let (h2, c2, rr) = on_enter_model(HandlerView::Idle, old(context)@);
                final(context)@ == c2 && r == rr
            }),
    {
        Response::Handled
    }

    pub fn on_event<CS: CommandSender<usi::Message>>(
        &mut self,
        _cs: &CS,
        event: &Message,
        context: &mut Context,
    ) -> (r: Response<State>)
        ensures
            ({
                let (h2, c2, rr) = on_event_model(HandlerView::Idle, event@, old(context)@);
                final(context)@ == c2 && r == rr
            }),
    {
        match event {
            Message::Startup => Response::Transition(State::StackInitialize),
            _ => Response::Handled,
        }
    }

    pub fn on_exit(&mut self, context: &mut Context)
        ensures
            final(context)@ == old(context)@,
    {
    }
}

impl<CS: CommandSender<usi::Message>> Stateful<CS> for Idle {
    fn on_exit(&mut self, context: &mut Context) {
        Idle::on_exit(self, context)
    }

    fn on_enter(&mut self, cs: &CS, context: &mut Context) -> Response<State> {
        Idle::on_enter(self, cs, context)
    }

    fn on_event(&mut self, cs: &CS, event: &Message, context: &mut Context) -> Response<State> {
        Idle::on_event(self, cs, event, context)
    }
}

} // verus!

//! The operational state: data frames flow; a heartbeat asks for a
//! reinitialization of the stack with this node as coordinator.

use vstd::prelude::*;

use crate::adp::AdpMessage;
use crate::app_manager::{
    on_enter_model, on_event_model, CommandSender, Context, HandlerView, Message, Response, State,
    Stateful,
};
use crate::usi;

verus! {

/// Operational; a heartbeat re-enters stack initialization as
/// coordinator.
pub struct Ready {}

impl Ready {
    pub fn new() -> Ready {
        Ready {  }
    }

    pub fn on_enter<CS: CommandSender<usi::Message>>(
        &mut self,
        _cs: &CS,
        context: &mut Context,
    ) -> (r: Response<State>)
        ensures
            ({
                let (h2, c2, rr) = on_enter_model(HandlerView::Ready, old(context)@);
                final(context)@ == c2 && r == rr
            }),
    {
        Response::Handled
    }

    pub fn on_event<CS: CommandSender<usi::Message>>(
        &mut self,
        _cs: &CS,
        event: &Message,
        context: &mut Context,
    ) -> (r: Response<State>)
        ensures
            ({
                let (h2, c2, rr) = on_event_model(HandlerView::Ready, event@, old(context)@);
                final(context)@ == c2 && r == rr
            }),
    {
        match event {
            Message::Adp(adp) => match adp {
                AdpMessage::AdpG3MsgStatusResponse { .. } => Response::Handled,
                _ => Response::Handled,
            },
            Message::HeartBeat(_) => {
                context.is_coordinator = true;
                Response::Transition(State::StackInitialize)
            },
            _ => Response::Handled,
        }
    }

    pub fn on_exit(&mut self, context: &mut Context)
        ensures
            final(context)@ == old(context)@,
    {
    }
}

impl<CS: CommandSender<usi::Message>> Stateful<CS> for Ready {
    fn on_exit(&mut self, context: &mut Context) {
        Ready::on_exit(self, context)
    }

    fn on_enter(&mut self, cs: &CS, context: &mut Context) -> Response<State> {
        Ready::on_enter(self, cs, context)
    }

    fn on_event(&mut self, cs: &CS, event: &Message, context: &mut Context) -> Response<State> {
        Ready::on_event(self, cs, event, context)
    }
}

} // verus!

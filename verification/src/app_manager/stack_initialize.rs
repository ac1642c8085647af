//! Stack initialization: issue the ADP initialize request for the band and
//! await its confirm.

use vstd::prelude::*;

use crate::adp::{BAND_CENELEC_A, CMD_ADP_INITIALIZE};
use crate::app_manager::{
    ctx_sent, init_request, on_enter_model, on_event_model, CommandSender, Context, HandlerView,
    Message, Response, State, Stateful,
};
use crate::common::PROTOCOL_ADP_G3;
use crate::usi;
use crate::usi::OutMessage;

verus! {

/// Issues `AdpInitialize` on entry; a successful confirm moves on to
/// parameter programming.
pub struct StackInitialize {}

impl StackInitialize {
    pub fn new() -> StackInitialize {
        StackInitialize {  }
    }

    pub fn on_enter<CS: CommandSender<usi::Message>>(
        &mut self,
        cs: &CS,
        context: &mut Context,
    ) -> (r: Response<State>)
        ensures
            ({
                let (h2, c2, rr) = on_enter_model(HandlerView::StackInitialize, old(context)@);
                final(context)@ == c2 && r == rr
            }),
    {
        let mut payload: Vec<u8> = Vec::new();
        payload.push(CMD_ADP_INITIALIZE);
        payload.push(BAND_CENELEC_A);
        let out = OutMessage::new(PROTOCOL_ADP_G3, payload.as_slice());
        proof {
            assert(out@ =~= init_request());
        }
        let _ = cs.send_cmd(usi::Message::UsiOut(out));
        context.sent = Ghost(context.sent@ + seq![init_request()]);
        proof {
            assert(context@ =~= ctx_sent(old(context)@, init_request()));
        }
        Response::Handled
    }

    pub fn on_event<CS: CommandSender<usi::Message>>(
        &mut self,
        _cs: &CS,
        event: &Message,
        context: &mut Context,
    ) -> (r: Response<State>)
        ensures
            ({
                let (h2, c2, rr) = on_event_model(
                    HandlerView::StackInitialize,
                    event@,
                    old(context)@,
                );
                final(context)@ == c2 && r == rr
            }),
    {
        match event {
            Message::Adp(adp) => match adp {
                crate::adp::AdpMessage::AdpG3InitializeResponse { status } => {
                    if *status == crate::adp::G3_STATUS_SUCCESS {
                        Response::Transition(State::SetParams)
                    } else {
                        Response::Handled
                    }
                },
                _ => Response::Handled,
            },
            _ => Response::Handled,
        }
    }

    pub fn on_exit(&mut self, context: &mut Context)
        ensures
            final(context)@ == old(context)@,
    {
    }
}

impl<CS: CommandSender<usi::Message>> Stateful<CS> for StackInitialize {
    fn on_exit(&mut self, context: &mut Context) {
        StackInitialize::on_exit(self, context)
    }

    fn on_enter(&mut self, cs: &CS, context: &mut Context) -> Response<State> {
        StackInitialize::on_enter(self, cs, context)
    }

    fn on_event(&mut self, cs: &CS, event: &Message, context: &mut Context) -> Response<State> {
        StackInitialize::on_event(self, cs, event, context)
    }
}

} // verus!

//! Coordinator bootstrap: allocate the PAN and start the network; the
//! start confirm makes the coordinator operational.

use vstd::prelude::*;

use crate::adp::{AdpMessage, CMD_ADP_NETWORK_START_REQUEST, G3_STATUS_SUCCESS};
use crate::app_manager::{
    ctx_sent, on_enter_model, on_event_model, start_request, CommandSender, Context, HandlerView,
    Message, Response, State, Stateful,
};
use crate::common::PROTOCOL_ADP_G3;
use crate::usi;
use crate::usi::OutMessage;

verus! {

/// Issues the network start request on entry and completes on its
/// confirm.
pub struct StartNetwork {}

impl StartNetwork {
    pub fn new() -> StartNetwork {
        StartNetwork {  }
    }

    pub fn on_enter<CS: CommandSender<usi::Message>>(
        &mut self,
        cs: &CS,
        context: &mut Context,
    ) -> (r: Response<State>)
        ensures
            ({
                let (h2, c2, rr) = on_enter_model(HandlerView::StartNetwork, old(context)@);
                final(context)@ == c2 && r == rr
            }),
    {
        let mut payload: Vec<u8> = Vec::new();
        payload.push(CMD_ADP_NETWORK_START_REQUEST);
        payload.push(0);
        payload.push(0);
        let out = OutMessage::new(PROTOCOL_ADP_G3, payload.as_slice());
        proof {
            assert(out@ =~= start_request());
        }
        let _ = cs.send_cmd(usi::Message::UsiOut(out));
        context.sent = Ghost(context.sent@ + seq![start_request()]);
        proof {
            assert(context@ =~= ctx_sent(old(context)@, start_request()));
        }
        Response::Handled
    }

    pub fn on_event<CS: CommandSender<usi::Message>>(
        &mut self,
        _cs: &CS,
        event: &Message,
        context: &mut Context,
    ) -> (r: Response<State>)
        ensures
            ({
                let (h2, c2, rr) = on_event_model(HandlerView::StartNetwork, event@, old(context)@);
                final(context)@ == c2 && r == rr
            }),
    {
        match event {
            Message::Adp(adp) => match adp {
                AdpMessage::AdpG3NetworkStartResponse { status } => {
                    if *status == G3_STATUS_SUCCESS {
                        Response::Transition(State::Ready)
                    } else {
                        Response::Handled
                    }
                },
                _ => Response::Handled,
            },
            _ => Response::Handled,
        }
    }

    pub fn on_exit(&mut self, context: &mut Context)
        ensures
            final(context)@ == old(context)@,
    {
    }
}

impl<CS: CommandSender<usi::Message>> Stateful<CS> for StartNetwork {
    fn on_exit(&mut self, context: &mut Context) {
        StartNetwork::on_exit(self, context)
    }

    fn on_enter(&mut self, cs: &CS, context: &mut Context) -> Response<State> {
        StartNetwork::on_enter(self, cs, context)
    }

    fn on_event(&mut self, cs: &CS, event: &Message, context: &mut Context) -> Response<State> {
        StartNetwork::on_event(self, cs, event, context)
    }
}

} // verus!

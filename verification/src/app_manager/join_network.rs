//! Non-coordinator bootstrap: discover PANs, then join one; the join
//! confirm makes the node operational.

use vstd::prelude::*;

use crate::adp::{
    AdpMessage, ADP_DISCOVERY_DURATION_S, CMD_ADP_DISCOVERY_REQUEST, CMD_ADP_NETWORK_JOIN_REQUEST,
    G3_STATUS_SUCCESS,
};
use crate::app_manager::{
    ctx_sent, discovery_request, join_request, on_enter_model, on_event_model, CommandSender,
    Context, HandlerView, Message, Response, State, Stateful,
};
use crate::common::PROTOCOL_ADP_G3;
use crate::usi;
use crate::usi::OutMessage;

verus! {

/// Issues a network discovery on entry, a join request on a successful
/// discovery confirm, and completes on the join confirm.
pub struct JoinNetwork {}

impl JoinNetwork {
    pub fn new() -> JoinNetwork {
        JoinNetwork {  }
    }

    pub fn on_enter<CS: CommandSender<usi::Message>>(
        &mut self,
        cs: &CS,
        context: &mut Context,
    ) -> (r: Response<State>)
        ensures
            ({
                let (h2, c2, rr) = on_enter_model(HandlerView::JoinNetwork, old(context)@);
                final(context)@ == c2 && r == rr
            }),
    {
        let mut payload: Vec<u8> = Vec::new();
        payload.push(CMD_ADP_DISCOVERY_REQUEST);
        payload.push(ADP_DISCOVERY_DURATION_S);
        let out = OutMessage::new(PROTOCOL_ADP_G3, payload.as_slice());
        proof {
            assert(out@ =~= discovery_request());
        }
        let _ = cs.send_cmd(usi::Message::UsiOut(out));
        context.sent = Ghost(context.sent@ + seq![discovery_request()]);
        proof {
            assert(context@ =~= ctx_sent(old(context)@, discovery_request()));
        }
        Response::Handled
    }

    pub fn on_event<CS: CommandSender<usi::Message>>(
        &mut self,
        cs: &CS,
        event: &Message,
        context: &mut Context,
    ) -> (r: Response<State>)
        ensures
            ({
                let (h2, c2, rr) = on_event_model(HandlerView::JoinNetwork, event@, old(context)@);
                final(context)@ == c2 && r == rr
            }),
    {
        match event {
            Message::Adp(adp) => match adp {
                AdpMessage::AdpG3DiscoveryResponse { status } => {
                    if *status == G3_STATUS_SUCCESS {
                        let mut payload: Vec<u8> = Vec::new();
                        payload.push(CMD_ADP_NETWORK_JOIN_REQUEST);
                        payload.push(0);
                        payload.push(0);
                        let out = OutMessage::new(PROTOCOL_ADP_G3, payload.as_slice());
                        proof {
                            assert(out@ =~= join_request());
                        }
                        let _ = cs.send_cmd(usi::Message::UsiOut(out));
                        context.sent = Ghost(context.sent@ + seq![join_request()]);
                        proof {
                            assert(context@ =~= ctx_sent(old(context)@, join_request()));
                        }
                    }
                    Response::Handled
                },
                AdpMessage::AdpG3NetworkJoinResponse { status, .. } => {
                    if *status == G3_STATUS_SUCCESS {
                        Response::Transition(State::Ready)
                    } else {
                        Response::Handled
                    }
                },
                _ => Response::Handled,
            },
            _ => Response::Handled,
        }
    }

    pub fn on_exit(&mut self, context: &mut Context)
        ensures
            final(context)@ == old(context)@,
    {
    }
}

impl<CS: CommandSender<usi::Message>> Stateful<CS> for JoinNetwork {
    fn on_exit(&mut self, context: &mut Context) {
        JoinNetwork::on_exit(self, context)
    }

    fn on_enter(&mut self, cs: &CS, context: &mut Context) -> Response<State> {
        JoinNetwork::on_enter(self, cs, context)
    }

    fn on_event(&mut self, cs: &CS, event: &Message, context: &mut Context) -> Response<State> {
        JoinNetwork::on_event(self, cs, event, context)
    }
}

} // verus!

//! Parameter programming: set the modem's PIB attributes one at a time,
//! each next request driven by the confirm of the one before.

use vstd::prelude::*;

use crate::adp::{push_be32, push_be64, AdpMessage, CMD_ADP_SET_REQUEST, G3_STATUS_SUCCESS};
use crate::app_manager::{
    ctx_sent, on_enter_model, on_event_model, set_request, AdpParam, CommandSender, Context,
    HandlerView, Message, Response, State, Stateful,
};
use crate::common::PROTOCOL_ADP_G3;
use crate::usi;
use crate::usi::OutMessage;

verus! {

/// Programmes its parameter list in order; when the last one is
/// confirmed (or the list is empty on entry) it moves to read-back.
pub struct SetParams {
    pub params: Vec<AdpParam>,
    pub next: usize,
}

impl SetParams {
    pub fn new(params: Vec<AdpParam>) -> (r: SetParams)
        ensures
            r.params@ == params@,
            r.next == 0,
    {
        SetParams { params, next: 0 }
    }

    /// Issue the set request for the next unconfirmed parameter and
    /// record it in the context's sent journal.
    fn send_next<CS: CommandSender<usi::Message>>(&self, cs: &CS, context: &mut Context)
        requires
            self.next < self.params@.len(),
        ensures
            final(context)@ == ctx_sent(
                old(context)@,
                set_request(self.params@[self.next as int]),
            ),
    {
        let p = self.params[self.next];
        let mut payload: Vec<u8> = Vec::new();
        payload.push(CMD_ADP_SET_REQUEST);
        push_be32(&mut payload, p.id);
        push_be64(&mut payload, p.value);
        let out = OutMessage::new(PROTOCOL_ADP_G3, payload.as_slice());
        proof {
            assert(out@ =~= set_request(p));
        }
        let _ = cs.send_cmd(usi::Message::UsiOut(out));
        context.sent = Ghost(context.sent@ + seq![set_request(p)]);
        proof {
            assert(context@ =~= ctx_sent(old(context)@, set_request(p)));
        }
    }

    pub fn on_enter<CS: CommandSender<usi::Message>>(
        &mut self,
        cs: &CS,
        context: &mut Context,
    ) -> (r: Response<State>)
        ensures
            ({
                let (h2, c2, rr) = on_enter_model(
                    HandlerView::SetParams {
                        params: old(self).params@,
                        next: old(self).next as int,
                    },
                    old(context)@,
                );
                &&& HandlerView::SetParams {
                    params: final(self).params@,
                    next: final(self).next as int,
                } == h2
                &&& final(context)@ == c2
                &&& r == rr
            }),
    {
        if self.next >= self.params.len() {
            return Response::Transition(State::GetParams);
        }
        self.send_next(cs, context);
        Response::Handled
    }

    pub fn on_event<CS: CommandSender<usi::Message>>(
        &mut self,
        cs: &CS,
        event: &Message,
        context: &mut Context,
    ) -> (r: Response<State>)
        ensures
            ({
                let (h2, c2, rr) = on_event_model(
                    HandlerView::SetParams {
                        params: old(self).params@,
                        next: old(self).next as int,
                    },
                    event@,
                    old(context)@,
                );
                &&& HandlerView::SetParams {
                    params: final(self).params@,
                    next: final(self).next as int,
                } == h2
                &&& final(context)@ == c2
                &&& r == rr
            }),
    {
        match event {
            Message::Adp(adp) => match adp {
                AdpMessage::AdpG3SetResponse { status, .. } => {
                    if *status == G3_STATUS_SUCCESS && self.next < self.params.len() {
                        self.next = self.next + 1;
                        if self.next >= self.params.len() {
                            Response::Transition(State::GetParams)
                        } else {
                            self.send_next(cs, context);
                            Response::Handled
                        }
                    } else {
                        Response::Handled
                    }
                },
                _ => Response::Handled,
            },
            _ => Response::Handled,
        }
    }

    pub fn on_exit(&mut self, context: &mut Context)
        ensures
            final(self).params@ == old(self).params@,
            final(self).next == old(self).next,
            final(context)@ == old(context)@,
    {
    }
}

impl<CS: CommandSender<usi::Message>> Stateful<CS> for SetParams {
    fn on_exit(&mut self, context: &mut Context) {
        SetParams::on_exit(self, context)
    }

    fn on_enter(&mut self, cs: &CS, context: &mut Context) -> Response<State> {
        SetParams::on_enter(self, cs, context)
    }

    fn on_event(&mut self, cs: &CS, event: &Message, context: &mut Context) -> Response<State> {
        SetParams::on_event(self, cs, event, context)
    }
}

} // verus!

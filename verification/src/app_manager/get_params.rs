//! Parameter read-back: read the programmed attributes for verification
//! and store the extended address in the shared context; complete by
//! moving to the network phase the role selects.

use vstd::prelude::*;

use crate::adp::{
    push_be32, AdpMessage, ADP_PIB_EXTENDED_ADDRESS, CMD_ADP_GET_REQUEST, G3_STATUS_SUCCESS,
};
use crate::app_manager::{
    ctx_sent, get_request, on_enter_model, on_event_model, CommandSender, Context, HandlerView,
    Message, Response, State, Stateful,
};
use crate::common::PROTOCOL_ADP_G3;
use crate::usi;
use crate::usi::OutMessage;

verus! {

/// Reads its attribute list back in order; the extended address, when it
/// arrives, is stored in the context.  When the list is done (or empty on
/// entry) the machine moves to `StartNetwork` or `JoinNetwork` by role.
pub struct GetParams {
    pub attrs: Vec<u32>,
    pub next: usize,
}

impl GetParams {
    pub fn new(attrs: Vec<u32>) -> (r: GetParams)
        ensures
            r.attrs@ == attrs@,
            r.next == 0,
    {
        GetParams { attrs, next: 0 }
    }

    /// Issue the get request for the next attribute and record it in the
    /// context's sent journal.
    fn send_next<CS: CommandSender<usi::Message>>(&self, cs: &CS, context: &mut Context)
        requires
            self.next < self.attrs@.len(),
        ensures
            final(context)@ == ctx_sent(
                old(context)@,
                get_request(self.attrs@[self.next as int]),
            ),
    {
        let id = self.attrs[self.next];
        let mut payload: Vec<u8> = Vec::new();
        payload.push(CMD_ADP_GET_REQUEST);
        push_be32(&mut payload, id);
        let out = OutMessage::new(PROTOCOL_ADP_G3, payload.as_slice());
        proof {
            assert(out@ =~= get_request(id));
        }
        let _ = cs.send_cmd(usi::Message::UsiOut(out));
        context.sent = Ghost(context.sent@ + seq![get_request(id)]);
        proof {
            assert(context@ =~= ctx_sent(old(context)@, get_request(id)));
        }
    }

    pub fn on_enter<CS: CommandSender<usi::Message>>(
        &mut self,
        cs: &CS,
        context: &mut Context,
    ) -> (r: Response<State>)
        ensures
            ({
                let (h2, c2, rr) = on_enter_model(
                    HandlerView::GetParams { attrs: old(self).attrs@, next: old(self).next as int },
                    old(context)@,
                );
                &&& HandlerView::GetParams {
                    attrs: final(self).attrs@,
                    next: final(self).next as int,
                } == h2
                &&& final(context)@ == c2
                &&& r == rr
            }),
    {
        if self.next >= self.attrs.len() {
            if context.is_coordinator {
                return Response::Transition(State::StartNetwork);
            } else {
                return Response::Transition(State::JoinNetwork);
            }
        }
        self.send_next(cs, context);
        Response::Handled
    }

    pub fn on_event<CS: CommandSender<usi::Message>>(
        &mut self,
        cs: &CS,
        event: &Message,
        context: &mut Context,
    ) -> (r: Response<State>)
        ensures
            ({
                let (h2, c2, rr) = on_event_model(
                    HandlerView::GetParams { attrs: old(self).attrs@, next: old(self).next as int },
                    event@,
                    old(context)@,
                );
                &&& HandlerView::GetParams {
                    attrs: final(self).attrs@,
                    next: final(self).next as int,
                } == h2
                &&& final(context)@ == c2
                &&& r == rr
            }),
    {
        match event {
            Message::Adp(adp) => match adp {
                AdpMessage::AdpG3GetResponse { status, attribute_id, value } => {
                    if *status == G3_STATUS_SUCCESS && self.next < self.attrs.len() {
                        if *attribute_id == ADP_PIB_EXTENDED_ADDRESS {
                            context.extended_addr = Some(*value);
                        }
                        self.next = self.next + 1;
                        if self.next >= self.attrs.len() {
                            if context.is_coordinator {
                                Response::Transition(State::StartNetwork)
                            } else {
                                Response::Transition(State::JoinNetwork)
                            }
                        } else {
                            self.send_next(cs, context);
                            Response::Handled
                        }
                    } else {
                        Response::Handled
                    }
                },
                _ => Response::Handled,
            },
            _ => Response::Handled,
        }
    }

    pub fn on_exit(&mut self, context: &mut Context)
        ensures
            final(self).attrs@ == old(self).attrs@,
            final(self).next == old(self).next,
            final(context)@ == old(context)@,
    {
    }
}

impl<CS: CommandSender<usi::Message>> Stateful<CS> for GetParams {
    fn on_exit(&mut self, context: &mut Context) {
        GetParams::on_exit(self, context)
    }

    fn on_enter(&mut self, cs: &CS, context: &mut Context) -> Response<State> {
        GetParams::on_enter(self, cs, context)
    }

    fn on_event(&mut self, cs: &CS, event: &Message, context: &mut Context) -> Response<State> {
        GetParams::on_event(self, cs, event, context)
    }
}

} // verus!

//! The application state machine that drives the modem through its
//! initialization lifecycle: stack init, parameter set/get, then network
//! join or start, ending operational.
//!
//! The runtime is table-driven: a registry maps each state tag to its
//! handler, events are dispatched to the current state's handler, and a
//! re-entry loop lets a freshly entered state transition onward at once.
//! `on_exit` runs once on the state an accepted event leaves, and never
//! between chained entries.  A ghost trace of hook invocations records
//! that discipline so it can be stated and proved.

use vstd::prelude::*;

use crate::adp::{
    spec_be64_bytes, AdpMessage, AdpView, ADP_DISCOVERY_DURATION_S, ADP_PIB_EXTENDED_ADDRESS,
    ADP_PIB_MAX_HOPS, ADP_PIB_SECURITY_LEVEL, BAND_CENELEC_A, CMD_ADP_DISCOVERY_REQUEST,
    CMD_ADP_GET_REQUEST, CMD_ADP_INITIALIZE, CMD_ADP_NETWORK_JOIN_REQUEST,
    CMD_ADP_NETWORK_START_REQUEST, CMD_ADP_SET_REQUEST, G3_STATUS_SUCCESS,
};
use crate::common::PROTOCOL_ADP_G3;
use crate::usi;
use crate::usi::{spec_be32_bytes, OutMsgView};

pub use self::get_params::GetParams;
pub use self::idle::Idle;
pub use self::join_network::JoinNetwork;
pub use self::network_discover_failed::NetworkDiscoverFailed;
pub use self::ready::Ready;
pub use self::set_params::SetParams;
pub use self::stack_initialize::StackInitialize;
pub use self::start_network::StartNetwork;

mod get_params;
mod idle;
mod join_network;
mod network_discover_failed;
mod ready;
mod set_params;
mod stack_initialize;
mod start_network;

verus! {

/// The closed set of application states.
#[derive(Clone, Copy, Debug, PartialEq, Eq, Structural)]
pub enum State {
    Idle,
    StackInitialize,
    SetParams,
    GetParams,
    JoinNetwork,
    StartNetwork,
    Ready,
}

/// An event the state machine reacts to.
pub enum Message<'a> {
    Adp(&'a AdpMessage),
    HeartBeat(u64),
    Startup,
}

/// The mathematical content of an event.
#[verifier::ext_equal]
pub enum EventView {
    Adp(AdpView),
    HeartBeat(u64),
    Startup,
}

impl<'a> View for Message<'a> {
    type V = EventView;

    open spec fn view(&self) -> EventView {
        match self {
            Message::Adp(m) => EventView::Adp((*m)@),
            Message::HeartBeat(t) => EventView::HeartBeat(*t),
            Message::Startup => EventView::Startup,
        }
    }
}

/// A capability for handing commands onward (a port's sending end).
pub trait CommandSender<C> {
    fn send_cmd(&self, cmd: C) -> bool;
}

/// What a state exposes to the runtime.
pub trait Stateful<CS> {
    fn on_enter(&mut self, cs: &CS, context: &mut Context) -> Response<State>;

    fn on_event(&mut self, cs: &CS, event: &Message, context: &mut Context) -> Response<State>;

    fn on_exit(&mut self, context: &mut Context);
}

/// A state's answer to a hook: stay, or move to another state.
pub enum Response<S> {
    Handled,
    Transition(S),
}

/// The error-flavoured twin of `Response`, kept for callers that fold
/// fallible work into a transition decision.
pub enum Error<S> {
    Handled,
    Transition(S),
}

/// Shared scratch of one state machine: the node's role and, once read
/// back from the modem, its 8-byte extended address.  The ghost journal
/// records every request the states hand to the command sender, so that
/// the hooks' contracts can say what was sent.
#[derive(Clone, Copy)]
pub struct Context {
    pub is_coordinator: bool,
    pub extended_addr: Option<u64>,
    pub sent: Ghost<Seq<OutMsgView>>,
}

/// The mathematical content of a `Context`.
#[verifier::ext_equal]
pub struct ContextView {
    pub is_coordinator: bool,
    pub extended_addr: Option<u64>,
    pub sent: Seq<OutMsgView>,
}

impl View for Context {
    type V = ContextView;

    open spec fn view(&self) -> ContextView {
        ContextView {
            is_coordinator: self.is_coordinator,
            extended_addr: self.extended_addr,
            sent: self.sent@,
        }
    }
}

impl Context {
    /// A fresh context: the given role, no address yet, nothing sent.
    pub fn new(is_coordinator: bool) -> (r: Context)
        ensures
            r@ == (ContextView { is_coordinator, extended_addr: None, sent: Seq::empty() }),
    {
        Context { is_coordinator, extended_addr: None, sent: Ghost(Seq::empty()) }
    }
}

/// The stack-initialization request for the band.
pub open spec fn init_request() -> OutMsgView {
    OutMsgView {
        protocol: PROTOCOL_ADP_G3,
        data: seq![CMD_ADP_INITIALIZE, BAND_CENELEC_A],
    }
}

/// The set request programming one PIB attribute.
pub open spec fn set_request(p: AdpParam) -> OutMsgView {
    OutMsgView {
        protocol: PROTOCOL_ADP_G3,
        data: seq![CMD_ADP_SET_REQUEST] + spec_be32_bytes(p.id) + spec_be64_bytes(p.value),
    }
}

/// The get request reading one PIB attribute back.
pub open spec fn get_request(id: u32) -> OutMsgView {
    OutMsgView {
        protocol: PROTOCOL_ADP_G3,
        data: seq![CMD_ADP_GET_REQUEST] + spec_be32_bytes(id),
    }
}

/// The network discovery request.
pub open spec fn discovery_request() -> OutMsgView {
    OutMsgView {
        protocol: PROTOCOL_ADP_G3,
        data: seq![CMD_ADP_DISCOVERY_REQUEST, ADP_DISCOVERY_DURATION_S],
    }
}

/// The network join request.
pub open spec fn join_request() -> OutMsgView {
    OutMsgView {
        protocol: PROTOCOL_ADP_G3,
        data: seq![CMD_ADP_NETWORK_JOIN_REQUEST, 0, 0],
    }
}

/// The network start request.
pub open spec fn start_request() -> OutMsgView {
    OutMsgView {
        protocol: PROTOCOL_ADP_G3,
        data: seq![CMD_ADP_NETWORK_START_REQUEST, 0, 0],
    }
}

/// One PIB attribute to programme into the modem.
#[derive(Clone, Copy, Debug, PartialEq, Eq, Structural)]
pub struct AdpParam {
    pub id: u32,
    pub value: u64,
}

/// One recorded hook invocation: the event dispatch (with the accepted
/// move, if any), an exit, or an entry.
#[verifier::ext_equal]
pub enum Hook {
    Evt(State, Option<State>),
    Exit(State),
    Enter(State),
}

/// The mathematical content of a state handler.
#[verifier::ext_equal]
pub enum HandlerView {
    Idle,
    StackInitialize,
    SetParams { params: Seq<AdpParam>, next: int },
    GetParams { attrs: Seq<u32>, next: int },
    JoinNetwork,
    StartNetwork,
    Ready,
}

/// The tag a handler is meant to serve.
pub open spec fn handler_tag(h: HandlerView) -> State {
    match h {
        HandlerView::Idle => State::Idle,
        HandlerView::StackInitialize => State::StackInitialize,
        HandlerView::SetParams { .. } => State::SetParams,
        HandlerView::GetParams { .. } => State::GetParams,
        HandlerView::JoinNetwork => State::JoinNetwork,
        HandlerView::StartNetwork => State::StartNetwork,
        HandlerView::Ready => State::Ready,
    }
}

/// The mathematical content of the state registry.
#[verifier::ext_equal]
pub struct RegView {
    pub idle: Option<HandlerView>,
    pub stack_initialize: Option<HandlerView>,
    pub set_params: Option<HandlerView>,
    pub get_params: Option<HandlerView>,
    pub join_network: Option<HandlerView>,
    pub start_network: Option<HandlerView>,
    pub ready: Option<HandlerView>,
}

pub open spec fn reg_lookup(r: RegView, s: State) -> Option<HandlerView> {
    match s {
        State::Idle => r.idle,
        State::StackInitialize => r.stack_initialize,
        State::SetParams => r.set_params,
        State::GetParams => r.get_params,
        State::JoinNetwork => r.join_network,
        State::StartNetwork => r.start_network,
        State::Ready => r.ready,
    }
}

pub open spec fn reg_set(r: RegView, s: State, h: HandlerView) -> RegView {
    match s {
        State::Idle => RegView { idle: Some(h), ..r },
        State::StackInitialize => RegView { stack_initialize: Some(h), ..r },
        State::SetParams => RegView { set_params: Some(h), ..r },
        State::GetParams => RegView { get_params: Some(h), ..r },
        State::JoinNetwork => RegView { join_network: Some(h), ..r },
        State::StartNetwork => RegView { start_network: Some(h), ..r },
        State::Ready => RegView { ready: Some(h), ..r },
    }
}

pub open spec fn reg_clear(r: RegView, s: State) -> RegView {
    match s {
        State::Idle => RegView { idle: None, ..r },
        State::StackInitialize => RegView { stack_initialize: None, ..r },
        State::SetParams => RegView { set_params: None, ..r },
        State::GetParams => RegView { get_params: None, ..r },
        State::JoinNetwork => RegView { join_network: None, ..r },
        State::StartNetwork => RegView { start_network: None, ..r },
        State::Ready => RegView { ready: None, ..r },
    }
}

pub open spec fn reg_empty() -> RegView {
    RegView {
        idle: None,
        stack_initialize: None,
        set_params: None,
        get_params: None,
        join_network: None,
        start_network: None,
        ready: None,
    }
}

/// Every registered handler serves its own tag.
pub open spec fn wf_reg(r: RegView) -> bool {
    &&& (r.idle matches Some(h) ==> handler_tag(h) == State::Idle)
    &&& (r.stack_initialize matches Some(h) ==> handler_tag(h) == State::StackInitialize)
    &&& (r.set_params matches Some(h) ==> handler_tag(h) == State::SetParams)
    &&& (r.get_params matches Some(h) ==> handler_tag(h) == State::GetParams)
    &&& (r.join_network matches Some(h) ==> handler_tag(h) == State::JoinNetwork)
    &&& (r.start_network matches Some(h) ==> handler_tag(h) == State::StartNetwork)
    &&& (r.ready matches Some(h) ==> handler_tag(h) == State::Ready)
}

/// The context with one more request in the sent journal.
pub open spec fn ctx_sent(c: ContextView, req: OutMsgView) -> ContextView {
    ContextView { sent: c.sent + seq![req], ..c }
}

/// What a handler does with an event: its new content, the new context —
/// the sent journal included, so every request handed to the command
/// sender is pinned — and its answer.
pub open spec fn on_event_model(h: HandlerView, e: EventView, c: ContextView) -> (
    HandlerView,
    ContextView,
    Response<State>,
) {
    match h {
        HandlerView::Idle => (
            h,
            c,
            if e is Startup {
                Response::Transition(State::StackInitialize)
            } else {
                Response::Handled
            },
        ),
        HandlerView::StackInitialize => (
            h,
            c,
            match e {
                EventView::Adp(AdpView::InitializeResponse { status }) => {
                    if status == G3_STATUS_SUCCESS {
                        Response::Transition(State::SetParams)
                    } else {
                        Response::Handled
                    }
                },
                _ => Response::Handled,
            },
        ),
        HandlerView::SetParams { params, next } => match e {
            EventView::Adp(AdpView::SetResponse { status, attribute_id }) => {
                if status == G3_STATUS_SUCCESS && next < params.len() {
                    if next + 1 >= params.len() {
                        (
                            HandlerView::SetParams { params, next: next + 1 },
                            c,
                            Response::Transition(State::GetParams),
                        )
                    } else {
                        (
                            HandlerView::SetParams { params, next: next + 1 },
                            ctx_sent(c, set_request(params[next + 1])),
                            Response::Handled,
                        )
                    }
                } else {
                    (h, c, Response::Handled)
                }
            },
            _ => (h, c, Response::Handled),
        },
        HandlerView::GetParams { attrs, next } => match e {
            EventView::Adp(AdpView::GetResponse { status, attribute_id, value }) => {
                if status == G3_STATUS_SUCCESS && next < attrs.len() {
                    let c2 = if attribute_id == ADP_PIB_EXTENDED_ADDRESS {
                        ContextView { extended_addr: Some(value), ..c }
                    } else {
                        c
                    };
                    if next + 1 >= attrs.len() {
                        (
                            HandlerView::GetParams { attrs, next: next + 1 },
                            c2,
                            Response::Transition(
                                if c2.is_coordinator {
                                    State::StartNetwork
                                } else {
                                    State::JoinNetwork
                                },
                            ),
                        )
                    } else {
                        (
                            HandlerView::GetParams { attrs, next: next + 1 },
                            ctx_sent(c2, get_request(attrs[next + 1])),
                            Response::Handled,
                        )
                    }
                } else {
                    (h, c, Response::Handled)
                }
            },
            _ => (h, c, Response::Handled),
        },
        HandlerView::JoinNetwork => match e {
            EventView::Adp(AdpView::DiscoveryResponse { status }) => (
                h,
                if status == G3_STATUS_SUCCESS {
                    ctx_sent(c, join_request())
                } else {
                    c
                },
                Response::Handled,
            ),
            EventView::Adp(AdpView::NetworkJoinResponse { status, network_address }) => (
                h,
                c,
                if status == G3_STATUS_SUCCESS {
                    Response::Transition(State::Ready)
                } else {
                    Response::Handled
                },
            ),
            _ => (h, c, Response::Handled),
        },
        HandlerView::StartNetwork => (
            h,
            c,
            match e {
                EventView::Adp(AdpView::NetworkStartResponse { status }) => {
                    if status == G3_STATUS_SUCCESS {
                        Response::Transition(State::Ready)
                    } else {
                        Response::Handled
                    }
                },
                _ => Response::Handled,
            },
        ),
        HandlerView::Ready => match e {
            EventView::HeartBeat(_) => (
                h,
                ContextView { is_coordinator: true, ..c },
                Response::Transition(State::StackInitialize),
            ),
            _ => (h, c, Response::Handled),
        },
    }
}

/// What a handler does on entry: an empty parameter list moves straight
/// on, everything else issues its one request — recorded in the sent
/// journal — and waits.
pub open spec fn on_enter_model(h: HandlerView, c: ContextView) -> (
    HandlerView,
    ContextView,
    Response<State>,
) {
    match h {
        HandlerView::StackInitialize => (h, ctx_sent(c, init_request()), Response::Handled),
        HandlerView::SetParams { params, next } => {
            if next >= params.len() {
                (h, c, Response::Transition(State::GetParams))
            } else {
                (h, ctx_sent(c, set_request(params[next])), Response::Handled)
            }
        },
        HandlerView::GetParams { attrs, next } => {
            if next >= attrs.len() {
                (
                    h,
                    c,
                    Response::Transition(
                        if c.is_coordinator {
                            State::StartNetwork
                        } else {
                            State::JoinNetwork
                        },
                    ),
                )
            } else {
                (h, ctx_sent(c, get_request(attrs[next])), Response::Handled)
            }
        },
        HandlerView::JoinNetwork => (h, ctx_sent(c, discovery_request()), Response::Handled),
        HandlerView::StartNetwork => (h, ctx_sent(c, start_request()), Response::Handled),
        _ => (h, c, Response::Handled),
    }
}

/// A measure under which every instantaneous entry transition descends:
/// parameter programming may skip to read-back, read-back to the network
/// phase, and nothing else moves on entry.
pub open spec fn rank(s: State) -> nat {
    match s {
        State::SetParams => 3,
        State::GetParams => 2,
        State::JoinNetwork => 1,
        State::StartNetwork => 1,
        _ => 0,
    }
}

/// The re-entry loop: enter a state; while the entered state asks for
/// another state at once, enter that one, without any exit in between.
/// A missing target state breaks the chain.
pub open spec fn enter_chain(reg: RegView, s: State, c: ContextView) -> (
    RegView,
    State,
    ContextView,
    Seq<Hook>,
)
    decreases rank(s),
{
    match reg_lookup(reg, s) {
        None => (reg, s, c, Seq::empty()),
        Some(h) => {
            let (h2, c2, r) = on_enter_model(h, c);
            let reg2 = reg_set(reg, s, h2);
            match r {
                Response::Handled => (reg2, s, c2, seq![Hook::Enter(s)]),
                Response::Transition(s2) => {
                    if s2 == s || rank(s2) >= rank(s) {
                        (reg2, s, c2, seq![Hook::Enter(s)])
                    } else {
                        let t = enter_chain(reg2, s2, c2);
                        (t.0, t.1, t.2, seq![Hook::Enter(s)] + t.3)
                    }
                },
            }
        },
    }
}

/// The mathematical content of a state machine.
#[verifier::ext_equal]
pub struct MachineView {
    pub current: State,
    pub context: ContextView,
    pub registry: RegView,
    pub trace: Seq<Hook>,
}

pub open spec fn wf_machine(v: MachineView) -> bool {
    wf_reg(v.registry)
}

/// One event dispatch, exactly as the runtime performs it: look the
/// current state up (drop the event if it is missing), let it handle the
/// event, and on an accepted move exit once, then run the entry chain.
pub open spec fn machine_step(v: MachineView, e: EventView) -> MachineView {
    match reg_lookup(v.registry, v.current) {
        None => v,
        Some(h) => {
            let (h2, c2, r) = on_event_model(h, e, v.context);
            let reg2 = reg_set(v.registry, v.current, h2);
            match r {
                Response::Handled => MachineView {
                    context: c2,
                    registry: reg2,
                    trace: v.trace + seq![Hook::Evt(v.current, None)],
                    ..v
                },
                Response::Transition(s) => {
                    if s == v.current {
                        MachineView {
                            context: c2,
                            registry: reg2,
                            trace: v.trace + seq![Hook::Evt(v.current, None)],
                            ..v
                        }
                    } else {
                        let t = enter_chain(reg2, s, c2);
                        MachineView {
                            current: t.1,
                            context: t.2,
                            registry: t.0,
                            trace: v.trace + seq![
                                Hook::Evt(v.current, Some(s)),
                                Hook::Exit(v.current),
                            ] + t.3,
                        }
                    }
                },
            }
        },
    }
}

/// A state handler: the tagged-variant form of the state registry's
/// values, dispatched by a match instead of dynamic dispatch.
pub enum StateHandler {
    Idle(Idle),
    StackInitialize(StackInitialize),
    SetParams(SetParams),
    GetParams(GetParams),
    JoinNetwork(JoinNetwork),
    StartNetwork(StartNetwork),
    Ready(Ready),
}

impl View for StateHandler {
    type V = HandlerView;

    open spec fn view(&self) -> HandlerView {
        match self {
            StateHandler::Idle(_) => HandlerView::Idle,
            StateHandler::StackInitialize(_) => HandlerView::StackInitialize,
            StateHandler::SetParams(s) => HandlerView::SetParams {
                params: s.params@,
                next: s.next as int,
            },
            StateHandler::GetParams(s) => HandlerView::GetParams {
                attrs: s.attrs@,
                next: s.next as int,
            },
            StateHandler::JoinNetwork(_) => HandlerView::JoinNetwork,
            StateHandler::StartNetwork(_) => HandlerView::StartNetwork,
            StateHandler::Ready(_) => HandlerView::Ready,
        }
    }
}

impl StateHandler {
    /// Enter the state: issue its request, or move on at once.
    pub fn enter<CS: CommandSender<usi::Message>>(self, cs: &CS, context: &mut Context) -> (r: (
        StateHandler,
        Response<State>,
    ))
        ensures
            ({
                let (h2, c2, rr) = on_enter_model(self@, old(context)@);
                r.0@ == h2 && final(context)@ == c2 && r.1 == rr
            }),
    {
        match self {
            StateHandler::Idle(mut s) => {
                let r = s.on_enter(cs, context);
                (StateHandler::Idle(s), r)
            },
            StateHandler::StackInitialize(mut s) => {
                let r = s.on_enter(cs, context);
                (StateHandler::StackInitialize(s), r)
            },
            StateHandler::SetParams(mut s) => {
                let r = s.on_enter(cs, context);
                (StateHandler::SetParams(s), r)
            },
            StateHandler::GetParams(mut s) => {
                let r = s.on_enter(cs, context);
                (StateHandler::GetParams(s), r)
            },
            StateHandler::JoinNetwork(mut s) => {
                let r = s.on_enter(cs, context);
                (StateHandler::JoinNetwork(s), r)
            },
            StateHandler::StartNetwork(mut s) => {
                let r = s.on_enter(cs, context);
                (StateHandler::StartNetwork(s), r)
            },
            StateHandler::Ready(mut s) => {
                let r = s.on_enter(cs, context);
                (StateHandler::Ready(s), r)
            },
        }
    }

    /// Hand an event to the state.
    pub fn handle<CS: CommandSender<usi::Message>>(
        self,
        cs: &CS,
        event: &Message,
        context: &mut Context,
    ) -> (r: (StateHandler, Response<State>))
        ensures
            ({
                let (h2, c2, rr) = on_event_model(self@, event@, old(context)@);
                r.0@ == h2 && final(context)@ == c2 && r.1 == rr
            }),
    {
        match self {
            StateHandler::Idle(mut s) => {
                let r = s.on_event(cs, event, context);
                (StateHandler::Idle(s), r)
            },
            StateHandler::StackInitialize(mut s) => {
                let r = s.on_event(cs, event, context);
                (StateHandler::StackInitialize(s), r)
            },
            StateHandler::SetParams(mut s) => {
                let r = s.on_event(cs, event, context);
                (StateHandler::SetParams(s), r)
            },
            StateHandler::GetParams(mut s) => {
                let r = s.on_event(cs, event, context);
                (StateHandler::GetParams(s), r)
            },
            StateHandler::JoinNetwork(mut s) => {
                let r = s.on_event(cs, event, context);
                (StateHandler::JoinNetwork(s), r)
            },
            StateHandler::StartNetwork(mut s) => {
                let r = s.on_event(cs, event, context);
                (StateHandler::StartNetwork(s), r)
            },
            StateHandler::Ready(mut s) => {
                let r = s.on_event(cs, event, context);
                (StateHandler::Ready(s), r)
            },
        }
    }

    /// Leave the state.
    pub fn exit(self, context: &mut Context) -> (r: StateHandler)
        ensures
            r@ == self@,
            final(context)@ == old(context)@,
    {
        match self {
            StateHandler::Idle(mut s) => {
                s.on_exit(context);
                StateHandler::Idle(s)
            },
            StateHandler::StackInitialize(mut s) => {
                s.on_exit(context);
                StateHandler::StackInitialize(s)
            },
            StateHandler::SetParams(mut s) => {
                s.on_exit(context);
                StateHandler::SetParams(s)
            },
            StateHandler::GetParams(mut s) => {
                s.on_exit(context);
                StateHandler::GetParams(s)
            },
            StateHandler::JoinNetwork(mut s) => {
                s.on_exit(context);
                StateHandler::JoinNetwork(s)
            },
            StateHandler::StartNetwork(mut s) => {
                s.on_exit(context);
                StateHandler::StartNetwork(s)
            },
            StateHandler::Ready(mut s) => {
                s.on_exit(context);
                StateHandler::Ready(s)
            },
        }
    }
}

/// The state registry: one slot per tag, filled before the first event.
pub struct Registry {
    idle: Option<StateHandler>,
    stack_initialize: Option<StateHandler>,
    set_params: Option<StateHandler>,
    get_params: Option<StateHandler>,
    join_network: Option<StateHandler>,
    start_network: Option<StateHandler>,
    ready: Option<StateHandler>,
}

impl View for Registry {
    type V = RegView;

    closed spec fn view(&self) -> RegView {
        RegView {
            idle: match self.idle {
                Some(ref h) => Some(h@),
                None => None,
            },
            stack_initialize: match self.stack_initialize {
                Some(ref h) => Some(h@),
                None => None,
            },
            set_params: match self.set_params {
                Some(ref h) => Some(h@),
                None => None,
            },
            get_params: match self.get_params {
                Some(ref h) => Some(h@),
                None => None,
            },
            join_network: match self.join_network {
                Some(ref h) => Some(h@),
                None => None,
            },
            start_network: match self.start_network {
                Some(ref h) => Some(h@),
                None => None,
            },
            ready: match self.ready {
                Some(ref h) => Some(h@),
                None => None,
            },
        }
    }
}

impl Registry {
    fn new() -> (r: Registry)
        ensures
            r@ == reg_empty(),
    {
        let r = Registry {
            idle: None,
            stack_initialize: None,
            set_params: None,
            get_params: None,
            join_network: None,
            start_network: None,
            ready: None,
        };
        proof {
            assert(r@ =~= reg_empty());
        }
        r
    }

    fn set(&mut self, s: State, h: StateHandler)
        ensures
            final(self)@ == reg_set(old(self)@, s, h@),
    {
        let ghost hv = h@;
        match s {
            State::Idle => self.idle = Some(h),
            State::StackInitialize => self.stack_initialize = Some(h),
            State::SetParams => self.set_params = Some(h),
            State::GetParams => self.get_params = Some(h),
            State::JoinNetwork => self.join_network = Some(h),
            State::StartNetwork => self.start_network = Some(h),
            State::Ready => self.ready = Some(h),
        }
        proof {
            assert(self@ =~= reg_set(old(self)@, s, hv));
        }
    }

    fn take(&mut self, s: State) -> (r: Option<StateHandler>)
        ensures
            final(self)@ == reg_clear(old(self)@, s),
            match r {
                None => reg_lookup(old(self)@, s) is None,
                Some(h) => reg_lookup(old(self)@, s) == Some(h@),
            },
    {
        let r = match s {
            State::Idle => self.idle.take(),
            State::StackInitialize => self.stack_initialize.take(),
            State::SetParams => self.set_params.take(),
            State::GetParams => self.get_params.take(),
            State::JoinNetwork => self.join_network.take(),
            State::StartNetwork => self.start_network.take(),
            State::Ready => self.ready.take(),
        };
        proof {
            assert(self@ =~= reg_clear(old(self)@, s));
        }
        r
    }
}

/// The state machine runtime: the registry, the current state tag, the
/// command sender handed to hooks, the shared context, and the ghost
/// trace of hook invocations.
pub struct StateMachine<CS: CommandSender<usi::Message>> {
    registry: Registry,
    current_state: State,
    command_sender: CS,
    context: Context,
    trace: Ghost<Seq<Hook>>,
}

impl<CS: CommandSender<usi::Message>> View for StateMachine<CS> {
    type V = MachineView;

    closed spec fn view(&self) -> MachineView {
        MachineView {
            current: self.current_state,
            context: self.context@,
            registry: self.registry@,
            trace: self.trace@,
        }
    }
}

impl<CS: CommandSender<usi::Message>> StateMachine<CS> {
    pub fn new(initial_state: State, command_sender: CS, context: Context) -> (r: Self)
        ensures
            r@ == (MachineView {
                current: initial_state,
                context: context@,
                registry: reg_empty(),
                trace: Seq::empty(),
            }),
            r.spec_sender() == command_sender,
    {
        let r = StateMachine {
            registry: Registry::new(),
            current_state: initial_state,
            command_sender,
            context,
            trace: Ghost(Seq::empty()),
        };
        proof {
            assert(r@ =~= MachineView {
                current: initial_state,
                context: context@,
                registry: reg_empty(),
                trace: Seq::empty(),
            });
        }
        r
    }

    /// The command sender the machine was built with.
    pub closed spec fn spec_sender(&self) -> CS {
        self.command_sender
    }

    /// Register the handler of one state tag.
    pub fn add_state(&mut self, s: State, state: StateHandler)
        ensures
            final(self)@ == (MachineView {
                registry: reg_set(old(self)@.registry, s, state@),
                ..old(self)@
            }),
            final(self).spec_sender() == old(self).spec_sender(),
    {
        self.registry.set(s, state);
    }

    /// The tag of the state the machine is in.
    pub fn get_current_state(&self) -> (r: State)
        ensures
            r == self@.current,
    {
        self.current_state
    }

    /// The command sender the hooks are handed.
    pub fn get_sender(&self) -> (r: &CS)
        ensures
            *r == self.spec_sender(),
    {
        &self.command_sender
    }

    /// The machine's shared context.
    pub fn get_context(&self) -> (r: Context)
        ensures
            r@ == self@.context,
    {
        self.context
    }

    /// Dispatch one event, exactly as `machine_step` says: the current
    /// state handles it; an accepted move exits the left state once and
    /// runs the entry chain without further exits.
    pub fn process_event(&mut self, event: &Message)
        requires
            wf_machine(old(self)@),
        ensures
            final(self)@ == machine_step(old(self)@, event@),
            wf_machine(final(self)@),
            final(self).spec_sender() == old(self).spec_sender(),
    {
        let ghost v0 = self@;
        let cur = self.current_state;
        let taken = self.registry.take(cur);
        match taken {
            None => {
                proof {
                    assert(self@ =~= machine_step(v0, event@));
                }
            },
            Some(h) => {
                let ghost h_v = h@;
                let (h2, r) = h.handle(&self.command_sender, event, &mut self.context);
                proof {
                    lemma_event_model_keeps_tag(h_v, event@, v0.context);
                }
                match r {
                    Response::Handled => {
                        let ghost h2_v = h2@;
                        self.registry.set(cur, h2);
                        self.trace = Ghost(self.trace@ + seq![Hook::Evt(cur, None)]);
                        proof {
                            assert(self@.registry =~~= reg_set(v0.registry, cur, h2_v));
                            assert(self@ =~~= machine_step(v0, event@));
                        }
                    },
                    Response::Transition(s) => {
                        if s == cur {
                            let ghost h2_v = h2@;
                            self.registry.set(cur, h2);
                            self.trace = Ghost(self.trace@ + seq![Hook::Evt(cur, None)]);
                            proof {
                                assert(self@.registry =~~= reg_set(v0.registry, cur, h2_v));
                                assert(self@ =~~= machine_step(v0, event@));
                            }
                        } else {
                            let ghost h2_v = h2@;
                            let h3 = h2.exit(&mut self.context);
                            self.registry.set(cur, h3);
                            self.trace = Ghost(
                                self.trace@ + seq![Hook::Evt(cur, Some(s)), Hook::Exit(cur)],
                            );
                            self.current_state = s;
                            proof {
                                assert(self@.registry =~~= reg_set(v0.registry, cur, h2_v));
                                lemma_event_model_keeps_tag(h_v, event@, v0.context);
                                assert(wf_reg(self@.registry));
                            }
                            self.run_entry_chain();
                            proof {
                                assert(self@ =~~= machine_step(v0, event@));
                            }
                        }
                    },
                }
            },
        }
        proof {
            lemma_step_preserves_wf(v0, event@);
        }
    }

    /// The re-entry loop: enter the current state and follow immediate
    /// transitions until a state settles or a target is missing.
    fn run_entry_chain(&mut self)
        requires
            wf_machine(old(self)@),
        ensures
            ({
                let t = enter_chain(old(self)@.registry, old(self)@.current, old(self)@.context);
                final(self)@ == (MachineView {
                    registry: t.0,
                    current: t.1,
                    context: t.2,
                    trace: old(self)@.trace + t.3,
                })
            }),
            final(self).spec_sender() == old(self).spec_sender(),
    {
        let ghost t = enter_chain(old(self)@.registry, old(self)@.current, old(self)@.context);
        let ghost full = old(self)@.trace + t.3;
        let ghost snd = self.spec_sender();
        loop
            invariant_except_break
                self.spec_sender() == snd,
                wf_reg(self@.registry),
                enter_chain(self@.registry, self@.current, self@.context) == (
                    t.0,
                    t.1,
                    t.2,
                    full.skip(self@.trace.len() as int),
                ),
                self@.trace.len() <= full.len(),
                self@.trace == full.take(self@.trace.len() as int),
            ensures
                self.spec_sender() == snd,
                self@.registry == t.0,
                self@.current == t.1,
                self@.context == t.2,
                self@.trace == full,
            decreases rank(self.current_state),
        {
            let ghost vi = self@;
            let s = self.current_state;
            let taken = self.registry.take(s);
            match taken {
                None => {
                    proof {
                        assert(enter_chain(vi.registry, s, vi.context) == (
                            vi.registry,
                            s,
                            vi.context,
                            Seq::<Hook>::empty(),
                        ));
                        assert(reg_clear(vi.registry, s) =~= vi.registry);
                        assert(full.skip(vi.trace.len() as int).len() == 0);
                        assert(vi.trace =~= full);
                    }
                    break ;
                },
                Some(h) => {
                    let ghost h_v = h@;
                    let (h2, r) = h.enter(&self.command_sender, &mut self.context);
                    proof {
                        lemma_enter_model_keeps_tag(h_v, vi.context);
                    }
                    let ghost h2_v = h2@;
                    self.registry.set(s, h2);
                    self.trace = Ghost(self.trace@ + seq![Hook::Enter(s)]);
                    proof {
                        assert(self@.registry =~~= reg_set(vi.registry, s, h2_v));
                        assert(handler_tag(h_v) == s);
                        assert(full.skip(vi.trace.len() as int)[0] == Hook::Enter(s));
                        assert(self@.trace =~= full.take(self@.trace.len() as int));
                    }
                    match r {
                        Response::Handled => {
                            proof {
                                assert(full.skip(self@.trace.len() as int).len() == 0);
                                assert(self@.trace =~= full);
                            }
                            break ;
                        },
                        Response::Transition(s2) => {
                            if s2 == s {
                                proof {
                                    assert(full.skip(self@.trace.len() as int).len() == 0);
                                    assert(self@.trace =~= full);
                                }
                                break ;
                            } else {
                                proof {
                                    lemma_enter_targets_descend(h_v, vi.context, s);
                                    assert(full.skip(self@.trace.len() as int) =~= full.skip(
                                        vi.trace.len() as int,
                                    ).skip(1));
                                }
                                self.current_state = s2;
                            }
                        },
                    }
                },
            }
        }
    }
}

/// Handling an event never changes which tag a handler serves.
proof fn lemma_event_model_keeps_tag(h: HandlerView, e: EventView, c: ContextView)
    ensures
        handler_tag(on_event_model(h, e, c).0) == handler_tag(h),
{
}

/// Entering a state never changes which tag its handler serves.
proof fn lemma_enter_model_keeps_tag(h: HandlerView, c: ContextView)
    ensures
        handler_tag(on_enter_model(h, c).0) == handler_tag(h),
{
}

/// Under a well-wired registry, an entry transition always descends the
/// rank measure, so entry chains end.
proof fn lemma_enter_targets_descend(h: HandlerView, c: ContextView, s: State)
    requires
        handler_tag(h) == s,
    ensures
        on_enter_model(h, c).2 matches Response::Transition(s2) ==> rank(s2) < rank(s),
{
}

/// A machine step keeps the registry well-wired.
proof fn lemma_step_preserves_wf(v: MachineView, e: EventView)
    requires
        wf_machine(v),
    ensures
        wf_machine(machine_step(v, e)),
{
    match reg_lookup(v.registry, v.current) {
        None => {},
        Some(h) => {
            lemma_event_model_keeps_tag(h, e, v.context);
            let (h2, c2, r) = on_event_model(h, e, v.context);
            let reg2 = reg_set(v.registry, v.current, h2);
            assert(wf_reg(reg2));
            match r {
                Response::Handled => {},
                Response::Transition(s) => {
                    if s != v.current {
                        lemma_enter_chain_preserves_wf(reg2, s, c2);
                    }
                },
            }
        },
    }
}

/// The entry chain keeps the registry well-wired.
proof fn lemma_enter_chain_preserves_wf(reg: RegView, s: State, c: ContextView)
    requires
        wf_reg(reg),
    ensures
        wf_reg(enter_chain(reg, s, c).0),
    decreases rank(s),
{
    match reg_lookup(reg, s) {
        None => {},
        Some(h) => {
            lemma_enter_model_keeps_tag(h, c);
            let (h2, c2, r) = on_enter_model(h, c);
            let reg2 = reg_set(reg, s, h2);
            assert(wf_reg(reg2));
            match r {
                Response::Handled => {},
                Response::Transition(s2) => {
                    if !(s2 == s || rank(s2) >= rank(s)) {
                        lemma_enter_chain_preserves_wf(reg2, s2, c2);
                    }
                },
            }
        },
    }
}

/// Register the full state inventory, as the application wires it.
pub fn init_states<CS: CommandSender<usi::Message>>(state_machine: &mut StateMachine<CS>)
    ensures
        final(state_machine)@ == (MachineView {
            registry: initial_registry(),
            ..old(state_machine)@
        }),
        final(state_machine).spec_sender() == old(state_machine).spec_sender(),
{
    state_machine.add_state(State::Idle, StateHandler::Idle(Idle {}));
    state_machine.add_state(
        State::StackInitialize,
        StateHandler::StackInitialize(StackInitialize::new()),
    );
    state_machine.add_state(State::SetParams, StateHandler::SetParams(SetParams::new(
        default_set_params(),
    )));
    state_machine.add_state(State::GetParams, StateHandler::GetParams(GetParams::new(
        default_get_attrs(),
    )));
    state_machine.add_state(State::JoinNetwork, StateHandler::JoinNetwork(JoinNetwork::new()));
    state_machine.add_state(State::StartNetwork, StateHandler::StartNetwork(StartNetwork::new()));
    state_machine.add_state(State::Ready, StateHandler::Ready(Ready::new()));
    proof {
        assert(state_machine@.registry =~= initial_registry());
        assert(state_machine@ =~= MachineView {
            registry: initial_registry(),
            ..old(state_machine)@
        });
    }
}

/// The registry as `init_states` wires it.
pub open spec fn initial_registry() -> RegView {
    RegView {
        idle: Some(HandlerView::Idle),
        stack_initialize: Some(HandlerView::StackInitialize),
        set_params: Some(
            HandlerView::SetParams { params: spec_default_set_params(), next: 0 },
        ),
        get_params: Some(HandlerView::GetParams { attrs: spec_default_get_attrs(), next: 0 }),
        join_network: Some(HandlerView::JoinNetwork),
        start_network: Some(HandlerView::StartNetwork),
        ready: Some(HandlerView::Ready),
    }
}

/// The PIB attributes programmed before read-back.
pub open spec fn spec_default_set_params() -> Seq<AdpParam> {
    seq![
        AdpParam { id: ADP_PIB_SECURITY_LEVEL, value: 5 },
        AdpParam { id: ADP_PIB_MAX_HOPS, value: 8 },
    ]
}

/// The attributes read back for verification.
pub open spec fn spec_default_get_attrs() -> Seq<u32> {
    seq![ADP_PIB_EXTENDED_ADDRESS]
}

/// The PIB attributes programmed before read-back.
pub fn default_set_params() -> (r: Vec<AdpParam>)
    ensures
        r@ == spec_default_set_params(),
{
    let mut v: Vec<AdpParam> = Vec::new();
    v.push(AdpParam { id: ADP_PIB_SECURITY_LEVEL, value: 5 });
    v.push(AdpParam { id: ADP_PIB_MAX_HOPS, value: 8 });
    proof {
        assert(v@ =~= spec_default_set_params());
    }
    v
}

/// The attributes read back for verification.
pub fn default_get_attrs() -> (r: Vec<u32>)
    ensures
        r@ == spec_default_get_attrs(),
{
    let mut v: Vec<u32> = Vec::new();
    v.push(ADP_PIB_EXTENDED_ADDRESS);
    proof {
        assert(v@ =~= spec_default_get_attrs());
    }
    v
}

} // verus!

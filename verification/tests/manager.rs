//! State machine and routing tests: the initialization lifecycle, the
//! re-entry chain, the heartbeat reinitialization, and message routing.

use std::cell::RefCell;

use plc_usi::adp::{
    adp_message_to_lbp_message, route_adp, usi_message_to_message, AdpMessage, Route,
    ADP_PIB_EXTENDED_ADDRESS, ADP_PIB_MAX_HOPS, ADP_PIB_SECURITY_LEVEL, CMD_ADP_GET_CONFIRM,
    CMD_ADP_INITIALIZE, CMD_ADP_SET_CONFIRM,
};
use plc_usi::app_manager::{
    default_get_attrs, init_states, CommandSender, Context, GetParams, Message,
    NetworkDiscoverFailed, Response, SetParams, State, StateHandler, StateMachine,
};
use plc_usi::usi::{InMessage, Message as UsiMessage, RxState};

/// A command sink that records every outbound frame's payload.
struct RecordingSender {
    sent: RefCell<Vec<UsiMessage>>,
}

impl RecordingSender {
    fn new() -> Self {
        RecordingSender { sent: RefCell::new(Vec::new()) }
    }

    fn count(&self) -> usize {
        self.sent.borrow().len()
    }
}

impl CommandSender<UsiMessage> for RecordingSender {
    fn send_cmd(&self, cmd: UsiMessage) -> bool {
        self.sent.borrow_mut().push(cmd);
        true
    }
}

fn fresh_machine(is_coordinator: bool) -> StateMachine<RecordingSender> {
    let mut sm = StateMachine::new(
        State::Idle,
        RecordingSender::new(),
        Context::new(is_coordinator),
    );
    init_states(&mut sm);
    sm
}

#[test]
fn startup_drives_coordinator_to_ready() {
    // S5 and the lifecycle law: startup plus successful responses reach
    // Ready with no heartbeat, through the coordinator branch.
    let mut sm = fresh_machine(true);
    assert_eq!(sm.get_current_state(), State::Idle);

    sm.process_event(&Message::Startup);
    assert_eq!(sm.get_current_state(), State::StackInitialize);

    let init_ok = AdpMessage::AdpG3InitializeResponse { status: 0 };
    sm.process_event(&Message::Adp(&init_ok));
    assert_eq!(sm.get_current_state(), State::SetParams);

    let set_ok1 = AdpMessage::AdpG3SetResponse { status: 0, attribute_id: ADP_PIB_SECURITY_LEVEL };
    sm.process_event(&Message::Adp(&set_ok1));
    assert_eq!(sm.get_current_state(), State::SetParams);

    let set_ok2 = AdpMessage::AdpG3SetResponse { status: 0, attribute_id: ADP_PIB_MAX_HOPS };
    sm.process_event(&Message::Adp(&set_ok2));
    assert_eq!(sm.get_current_state(), State::GetParams);

    let get_ok = AdpMessage::AdpG3GetResponse {
        status: 0,
        attribute_id: ADP_PIB_EXTENDED_ADDRESS,
        value: 0x0011_2233_4455_6677,
    };
    sm.process_event(&Message::Adp(&get_ok));
    assert_eq!(sm.get_current_state(), State::StartNetwork);
    assert_eq!(sm.get_context().extended_addr, Some(0x0011_2233_4455_6677));

    let start_ok = AdpMessage::AdpG3NetworkStartResponse { status: 0 };
    sm.process_event(&Message::Adp(&start_ok));
    assert_eq!(sm.get_current_state(), State::Ready);
    // One request per phase: initialize, two sets, one get, one start.
    assert_eq!(sm.get_sender().count(), 5);
}

#[test]
fn startup_drives_joiner_to_ready() {
    let mut sm = fresh_machine(false);
    sm.process_event(&Message::Startup);
    let init_ok = AdpMessage::AdpG3InitializeResponse { status: 0 };
    sm.process_event(&Message::Adp(&init_ok));
    let set_ok1 = AdpMessage::AdpG3SetResponse { status: 0, attribute_id: ADP_PIB_SECURITY_LEVEL };
    sm.process_event(&Message::Adp(&set_ok1));
    let set_ok2 = AdpMessage::AdpG3SetResponse { status: 0, attribute_id: ADP_PIB_MAX_HOPS };
    sm.process_event(&Message::Adp(&set_ok2));
    let get_ok = AdpMessage::AdpG3GetResponse {
        status: 0,
        attribute_id: ADP_PIB_EXTENDED_ADDRESS,
        value: 42,
    };
    sm.process_event(&Message::Adp(&get_ok));
    assert_eq!(sm.get_current_state(), State::JoinNetwork);

    let disc_ok = AdpMessage::AdpG3DiscoveryResponse { status: 0 };
    sm.process_event(&Message::Adp(&disc_ok));
    assert_eq!(sm.get_current_state(), State::JoinNetwork);

    let join_ok = AdpMessage::AdpG3NetworkJoinResponse { status: 0, network_address: 5 };
    sm.process_event(&Message::Adp(&join_ok));
    assert_eq!(sm.get_current_state(), State::Ready);
    // Initialize, two sets, one get, discovery, join.
    assert_eq!(sm.get_sender().count(), 6);
}

#[test]
fn failed_response_does_not_advance() {
    let mut sm = fresh_machine(true);
    sm.process_event(&Message::Startup);
    let init_bad = AdpMessage::AdpG3InitializeResponse { status: 1 };
    sm.process_event(&Message::Adp(&init_bad));
    assert_eq!(sm.get_current_state(), State::StackInitialize);
}

#[test]
fn startup_issues_initialize_request() {
    let mut sm = fresh_machine(true);
    sm.process_event(&Message::Startup);
    // Entering StackInitialize issues exactly one request.
    let sent = sm.get_sender();
    assert_eq!(sent.count(), 1);
    let cmds = sent.sent.borrow();
    match &cmds[0] {
        UsiMessage::UsiOut(out) => {
            let bytes = out.to_usi().expect("request encodes");
            assert_eq!(bytes.first(), Some(&0x7E));
            // The command byte sits in payload position 0 on the wire
            // (third raw byte), and short frames carry no escapes here.
            assert_eq!(bytes[3] & 0x1F, CMD_ADP_INITIALIZE);
        }
        other => panic!("expected an outbound frame, got {:?}", kind_of(other)),
    }
}

fn kind_of(m: &UsiMessage) -> &'static str {
    match m {
        UsiMessage::UsiIn(_) => "UsiIn",
        UsiMessage::UsiOut(_) => "UsiOut",
        UsiMessage::HeartBeat(_) => "HeartBeat",
        UsiMessage::SystemStartup => "SystemStartup",
    }
}

#[test]
fn empty_parameter_lists_chain_to_network_phase() {
    // Chained instantaneous transitions: with nothing to program and
    // nothing to read back, one response carries the machine through
    // SetParams and GetParams into StartNetwork at once.
    let mut sm = StateMachine::new(
        State::Idle,
        RecordingSender::new(),
        Context::new(true),
    );
    init_states(&mut sm);
    sm.add_state(State::SetParams, StateHandler::SetParams(SetParams::new(Vec::new())));
    sm.add_state(State::GetParams, StateHandler::GetParams(GetParams::new(Vec::new())));

    sm.process_event(&Message::Startup);
    assert_eq!(sm.get_current_state(), State::StackInitialize);
    let init_ok = AdpMessage::AdpG3InitializeResponse { status: 0 };
    sm.process_event(&Message::Adp(&init_ok));
    assert_eq!(sm.get_current_state(), State::StartNetwork);
}

#[test]
fn ready_heartbeat_reinitializes_as_coordinator() {
    let mut sm = fresh_machine(false);
    sm.process_event(&Message::Startup);
    let init_ok = AdpMessage::AdpG3InitializeResponse { status: 0 };
    sm.process_event(&Message::Adp(&init_ok));
    let set_ok1 = AdpMessage::AdpG3SetResponse { status: 0, attribute_id: ADP_PIB_SECURITY_LEVEL };
    sm.process_event(&Message::Adp(&set_ok1));
    let set_ok2 = AdpMessage::AdpG3SetResponse { status: 0, attribute_id: ADP_PIB_MAX_HOPS };
    sm.process_event(&Message::Adp(&set_ok2));
    let get_ok = AdpMessage::AdpG3GetResponse {
        status: 0,
        attribute_id: ADP_PIB_EXTENDED_ADDRESS,
        value: 7,
    };
    sm.process_event(&Message::Adp(&get_ok));
    let disc_ok = AdpMessage::AdpG3DiscoveryResponse { status: 0 };
    sm.process_event(&Message::Adp(&disc_ok));
    let join_ok = AdpMessage::AdpG3NetworkJoinResponse { status: 0, network_address: 5 };
    sm.process_event(&Message::Adp(&join_ok));
    assert_eq!(sm.get_current_state(), State::Ready);
    assert!(!sm.get_context().is_coordinator);

    sm.process_event(&Message::HeartBeat(1000));
    assert_eq!(sm.get_current_state(), State::StackInitialize);
    assert!(sm.get_context().is_coordinator);
}

#[test]
fn heartbeat_alone_does_not_start() {
    let mut sm = fresh_machine(true);
    sm.process_event(&Message::HeartBeat(1));
    sm.process_event(&Message::HeartBeat(2));
    assert_eq!(sm.get_current_state(), State::Idle);
}

#[test]
fn network_discover_failed_retries_on_heartbeat() {
    let sender = RecordingSender::new();
    let mut ctx = Context::new(false);
    let mut ndf = NetworkDiscoverFailed {};
    let r = ndf.on_event(&sender, &Message::HeartBeat(9), &mut ctx);
    assert!(matches!(r, Response::Transition(State::JoinNetwork)));
    let r2 = ndf.on_event(&sender, &Message::Startup, &mut ctx);
    assert!(matches!(r2, Response::Handled));
}

#[test]
fn unregistered_state_drops_events() {
    // A machine whose current state has no handler logs and drops events.
    let mut sm: StateMachine<RecordingSender> = StateMachine::new(
        State::Idle,
        RecordingSender::new(),
        Context::new(false),
    );
    sm.process_event(&Message::Startup);
    assert_eq!(sm.get_current_state(), State::Idle);
    assert_eq!(sm.get_sender().count(), 0);
}

#[test]
fn routes_split_lbp_from_network_traffic() {
    let lbp_event = AdpMessage::AdpG3LbpEvent { payload: vec![0x02, 0x10, 0x11] };
    assert_eq!(route_adp(&lbp_event), Route::LbpHandlerEvent);
    let lbp_resp = AdpMessage::AdpG3LbpResponse { status: 0 };
    assert_eq!(route_adp(&lbp_resp), Route::LbpHandlerResponse);
    let other = AdpMessage::AdpG3MsgStatusResponse { status: 0 };
    assert_eq!(route_adp(&other), Route::NetworkManager);
}

#[test]
fn lbp_pdu_decodes_kind_and_body() {
    let lbp_event = AdpMessage::AdpG3LbpEvent { payload: vec![0x02, 0x10, 0x11] };
    let m = adp_message_to_lbp_message(&lbp_event).expect("decodes");
    assert_eq!(m.kind, 0x02);
    assert_eq!(m.payload, vec![0x10, 0x11]);

    let empty = AdpMessage::AdpG3LbpEvent { payload: Vec::new() };
    assert!(adp_message_to_lbp_message(&empty).is_none());
    let other = AdpMessage::AdpG3MsgStatusResponse { status: 0 };
    assert!(adp_message_to_lbp_message(&other).is_none());
}

#[test]
fn adp_decoder_reads_fields_big_endian() {
    let mut msg = InMessage::new();
    msg.buf = vec![CMD_ADP_SET_CONFIRM, 0x00, 0x08, 0x00, 0x00, 0x01];
    match usi_message_to_message(&msg) {
        Some(AdpMessage::AdpG3SetResponse { status, attribute_id }) => {
            assert_eq!(status, 0);
            assert_eq!(attribute_id, 0x0800_0001);
        }
        _ => panic!("set confirm expected"),
    }

    msg.buf = vec![
        CMD_ADP_GET_CONFIRM,
        0x00,
        0x08,
        0x00,
        0x00,
        0x01,
        0x01,
        0x02,
        0x03,
        0x04,
        0x05,
        0x06,
        0x07,
        0x08,
    ];
    match usi_message_to_message(&msg) {
        Some(AdpMessage::AdpG3GetResponse { status, attribute_id, value }) => {
            assert_eq!(status, 0);
            assert_eq!(attribute_id, ADP_PIB_EXTENDED_ADDRESS);
            assert_eq!(value, 0x0102_0304_0506_0708);
        }
        _ => panic!("get confirm expected"),
    }

    msg.buf = vec![0x1E, 0x00];
    assert!(usi_message_to_message(&msg).is_none());
    msg.buf = vec![CMD_ADP_SET_CONFIRM, 0x00];
    assert!(usi_message_to_message(&msg).is_none());
}

#[test]
fn deframed_message_feeds_decoder() {
    // End to end: a wire frame decodes, is stripped, and parses as an ADP
    // message.
    let encoded = plc_usi::usi::OutMessage::new(
        plc_usi::common::PROTOCOL_ADP_G3,
        &[CMD_ADP_SET_CONFIRM, 0x00, 0x00, 0x00, 0x00, 0x10],
    )
    .to_usi()
    .unwrap();
    let mut msg = InMessage::new();
    let mut data: std::collections::VecDeque<u8> = encoded.into_iter().collect();
    msg.process(&mut data);
    assert!(matches!(msg.get_state(), RxState::RxDone));
    msg.remove_header_and_crc();
    match usi_message_to_message(&msg) {
        Some(AdpMessage::AdpG3SetResponse { status, attribute_id }) => {
            assert_eq!(status, 0);
            assert_eq!(attribute_id, ADP_PIB_MAX_HOPS);
        }
        _ => panic!("set confirm expected"),
    }
}

#[test]
fn default_parameter_tables() {
    let params = plc_usi::app_manager::default_set_params();
    assert_eq!(params.len(), 2);
    assert_eq!(params[0].id, ADP_PIB_SECURITY_LEVEL);
    assert_eq!(params[1].id, ADP_PIB_MAX_HOPS);
    let attrs = default_get_attrs();
    assert_eq!(attrs, vec![ADP_PIB_EXTENDED_ADDRESS]);
}

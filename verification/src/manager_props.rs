//! Properties of the state machine runtime: the exit discipline (one exit
//! per accepted transition, none between chained entries) and the
//! initialization lifecycle (startup plus successful modem responses reach
//! the operational state with no heartbeat involved).

use vstd::prelude::*;

use crate::adp::{AdpView, ADP_PIB_EXTENDED_ADDRESS, ADP_PIB_MAX_HOPS, ADP_PIB_SECURITY_LEVEL};
use crate::app_manager::{
    discovery_request, enter_chain, get_request, init_request, initial_registry, join_request,
    machine_step, on_event_model, rank, reg_lookup, set_request, spec_default_set_params,
    start_request, ContextView, EventView, Hook, MachineView, RegView, Response, State,
};

verus! {

/// The number of exit hooks in a trace.
pub open spec fn count_exits(tr: Seq<Hook>) -> nat
    decreases tr.len(),
{
    if tr.len() == 0 {
        0
    } else {
        count_exits(tr.drop_last()) + if tr.last() is Exit {
            1nat
        } else {
            0nat
        }
    }
}

/// A trace of entries only has no exits.
proof fn lemma_count_exits_no_exit(tr: Seq<Hook>)
    requires
        forall|k: int| 0 <= k < tr.len() ==> !(#[trigger] tr[k] is Exit),
    ensures
        count_exits(tr) == 0,
    decreases tr.len(),
{
    if tr.len() > 0 {
        lemma_count_exits_no_exit(tr.drop_last());
    }
}

/// Exit counting distributes over concatenation.
proof fn lemma_count_exits_add(a: Seq<Hook>, b: Seq<Hook>)
    ensures
        count_exits(a + b) == count_exits(a) + count_exits(b),
    decreases b.len(),
{
    if b.len() == 0 {
        assert(a + b =~= a);
    } else {
        lemma_count_exits_add(a, b.drop_last());
        assert((a + b).drop_last() =~= a + b.drop_last());
        assert((a + b).last() == b.last());
    }
}

/// The entry chain records entries and nothing else.
proof fn lemma_enter_chain_only_enters(reg: RegView, s: State, c: ContextView)
    ensures
        forall|k: int|
            0 <= k < enter_chain(reg, s, c).3.len() ==> (#[trigger] enter_chain(
                reg,
                s,
                c,
            ).3[k]) is Enter,
    decreases rank(s),
{
    match reg_lookup(reg, s) {
        None => {},
        Some(h) => {
            let (h2, c2, r) = crate::app_manager::on_enter_model(h, c);
            let reg2 = crate::app_manager::reg_set(reg, s, h2);
            match r {
                Response::Handled => {},
                Response::Transition(s2) => {
                    if !(s2 == s || rank(s2) >= rank(s)) {
                        lemma_enter_chain_only_enters(reg2, s2, c2);
                        assert forall|k: int|
                            0 <= k < enter_chain(reg, s, c).3.len() implies (
                        #[trigger] enter_chain(reg, s, c).3[k]) is Enter by {
                            if k >= 1 {
                                assert(enter_chain(reg, s, c).3[k] == enter_chain(
                                    reg2,
                                    s2,
                                    c2,
                                ).3[k - 1]);
                            }
                        }
                    }
                },
            }
        },
    }
}

/// What one dispatch appends to the trace: nothing when the current state
/// is unregistered; one event record when the event is handled in place;
/// and otherwise the event record, exactly one exit — of the state left —
/// and then entries only.
pub proof fn lemma_dispatch_trace_shape(v: MachineView, e: EventView)
    ensures
        ({
            let w = machine_step(v, e);
            let ext = w.trace.skip(v.trace.len() as int);
            &&& w.trace.take(v.trace.len() as int) == v.trace
            &&& match reg_lookup(v.registry, v.current) {
                None => ext.len() == 0,
                Some(h) => {
                    let r = on_event_model(h, e, v.context).2;
                    match r {
                        Response::Handled => ext =~= seq![Hook::Evt(v.current, None)],
                        Response::Transition(s) => {
                            if s == v.current {
                                ext =~= seq![Hook::Evt(v.current, None)]
                            } else {
                                &&& ext.len() >= 2
                                &&& ext[0] == Hook::Evt(v.current, Some(s))
                                &&& ext[1] == Hook::Exit(v.current)
                                &&& forall|k: int| 2 <= k < ext.len() ==> (#[trigger] ext[k]) is Enter
                            }
                        },
                    }
                },
            }
        }),
{
    let w = machine_step(v, e);
    match reg_lookup(v.registry, v.current) {
        None => {
            assert(w.trace.skip(v.trace.len() as int) =~= Seq::<Hook>::empty());
            assert(w.trace.take(v.trace.len() as int) =~= v.trace);
        },
        Some(h) => {
            let (h2, c2, r) = on_event_model(h, e, v.context);
            let reg2 = crate::app_manager::reg_set(v.registry, v.current, h2);
            match r {
                Response::Handled => {
                    assert(w.trace.skip(v.trace.len() as int) =~= seq![
                        Hook::Evt(v.current, None),
                    ]);
                    assert(w.trace.take(v.trace.len() as int) =~= v.trace);
                },
                Response::Transition(s) => {
                    if s == v.current {
                        assert(w.trace.skip(v.trace.len() as int) =~= seq![
                            Hook::Evt(v.current, None),
                        ]);
                        assert(w.trace.take(v.trace.len() as int) =~= v.trace);
                    } else {
                        let t = enter_chain(reg2, s, c2);
                        let ext = w.trace.skip(v.trace.len() as int);
                        assert(ext =~= seq![Hook::Evt(v.current, Some(s)), Hook::Exit(v.current)]
                            + t.3);
                        assert(w.trace.take(v.trace.len() as int) =~= v.trace);
                        lemma_enter_chain_only_enters(reg2, s, c2);
                        assert forall|k: int| 2 <= k < ext.len() implies (
                        #[trigger] ext[k]) is Enter by {
                            assert(ext[k] == t.3[k - 2]);
                        }
                    }
                },
            }
        },
    }
}

/// `on_exit` runs exactly once for each transition accepted from
/// `on_event`, on the state left, and never otherwise.
pub proof fn lemma_exit_once_per_accepted_transition(v: MachineView, e: EventView)
    ensures
        ({
            let w = machine_step(v, e);
            let ext = w.trace.skip(v.trace.len() as int);
            match reg_lookup(v.registry, v.current) {
                None => count_exits(ext) == 0,
                Some(h) => {
                    match on_event_model(h, e, v.context).2 {
                        Response::Handled => count_exits(ext) == 0,
                        Response::Transition(s) => {
                            if s == v.current {
                                count_exits(ext) == 0
                            } else {
                                count_exits(ext) == 1 && ext[1] == Hook::Exit(v.current)
                            }
                        },
                    }
                },
            }
        }),
{
    let w = machine_step(v, e);
    let ext = w.trace.skip(v.trace.len() as int);
    lemma_dispatch_trace_shape(v, e);
    match reg_lookup(v.registry, v.current) {
        None => {
            lemma_count_exits_no_exit(ext);
        },
        Some(h) => {
            match on_event_model(h, e, v.context).2 {
                Response::Handled => {
                    lemma_count_exits_no_exit(ext);
                },
                Response::Transition(s) => {
                    if s == v.current {
                        lemma_count_exits_no_exit(ext);
                    } else {
                        let head = ext.take(2);
                        let tail = ext.skip(2);
                        assert(ext =~= head + tail);
                        lemma_count_exits_add(head, tail);
                        assert(forall|k: int| 0 <= k < tail.len() ==> (#[trigger] tail[k])
                            is Enter);
                        lemma_count_exits_no_exit(tail);
                        let e0 = seq![Hook::Evt(v.current, Some(s))];
                        assert(count_exits(Seq::<Hook>::empty()) == 0);
                        assert(e0.drop_last() =~= Seq::<Hook>::empty());
                        assert(!(e0.last() is Exit));
                        assert(count_exits(e0) == 0);
                        assert(head.drop_last() =~= e0);
                        assert(head.last() == Hook::Exit(v.current));
                        assert(count_exits(head) == 1);
                    }
                },
            }
        },
    }
}

/// Chained instantaneous transitions run their entries back to back: in
/// the appended trace everything after the one exit is an entry.
pub proof fn lemma_no_exit_between_chained_entries(v: MachineView, e: EventView)
    ensures
        ({
            let w = machine_step(v, e);
            let ext = w.trace.skip(v.trace.len() as int);
            forall|k: int| 2 <= k < ext.len() ==> (#[trigger] ext[k]) is Enter
        }),
{
    lemma_dispatch_trace_shape(v, e);
    let w = machine_step(v, e);
    let ext = w.trace.skip(v.trace.len() as int);
    match reg_lookup(v.registry, v.current) {
        None => {},
        Some(h) => {
            match on_event_model(h, e, v.context).2 {
                Response::Handled => {
                    assert(ext.len() <= 2);
                },
                Response::Transition(s) => {
                    if s == v.current {
                        assert(ext.len() <= 2);
                    }
                },
            }
        },
    }
}

/// Starting from `Idle` with the full registry, the startup signal and
/// successful modem responses alone — no heartbeat — drive the machine to
/// `Ready`, whichever role the node has; the extended address read back
/// on the way is stored in the context, and the requests handed to the
/// command sender are exactly the initialization sequence of the role.
#[verifier::rlimit(100)]
pub proof fn lemma_startup_drives_to_ready(coord: bool, addr: u64)
    ensures
        ({
            let v0 = MachineView {
                current: State::Idle,
                context: ContextView {
                    is_coordinator: coord,
                    extended_addr: None,
                    sent: Seq::empty(),
                },
                registry: initial_registry(),
                trace: Seq::empty(),
            };
            let v1 = machine_step(v0, EventView::Startup);
            let v2 = machine_step(
                v1,
                EventView::Adp(AdpView::InitializeResponse { status: 0 }),
            );
            let v3 = machine_step(
                v2,
                EventView::Adp(
                    AdpView::SetResponse { status: 0, attribute_id: ADP_PIB_SECURITY_LEVEL },
                ),
            );
            let v4 = machine_step(
                v3,
                EventView::Adp(AdpView::SetResponse { status: 0, attribute_id: ADP_PIB_MAX_HOPS }),
            );
            let v5 = machine_step(
                v4,
                EventView::Adp(
                    AdpView::GetResponse {
                        status: 0,
                        attribute_id: ADP_PIB_EXTENDED_ADDRESS,
                        value: addr,
                    },
                ),
            );
            let v6 = if coord {
                machine_step(v5, EventView::Adp(AdpView::NetworkStartResponse { status: 0 }))
            } else {
                machine_step(
                    machine_step(
                        v5,
                        EventView::Adp(AdpView::DiscoveryResponse { status: 0 }),
                    ),
                    EventView::Adp(
                        AdpView::NetworkJoinResponse { status: 0, network_address: 0 },
                    ),
                )
            };
            &&& v1.current == State::StackInitialize
            &&& v2.current == State::SetParams
            &&& v3.current == State::SetParams
            &&& v4.current == State::GetParams
            &&& v5.current == (if coord {
                State::StartNetwork
            } else {
                State::JoinNetwork
            })
            &&& v5.context.extended_addr == Some(addr)
            &&& v6.current == State::Ready
            &&& (coord ==> v6.context.sent =~= seq![
                init_request(),
                set_request(spec_default_set_params()[0]),
                set_request(spec_default_set_params()[1]),
                get_request(ADP_PIB_EXTENDED_ADDRESS),
                start_request(),
            ])
            &&& (!coord ==> v6.context.sent =~= seq![
                init_request(),
                set_request(spec_default_set_params()[0]),
                set_request(spec_default_set_params()[1]),
                get_request(ADP_PIB_EXTENDED_ADDRESS),
                discovery_request(),
                join_request(),
            ])
        }),
{
}

} // verus!

//! Laws of the request lifecycle, stated over the plain-value model that the
//! contracts of the manager use, and proved.

use vstd::prelude::*;
use crate::error::Error;
use crate::handle::{decimal, handle_of_text, lemma_handle_text_round_trip};
use crate::manager::{LaunchView, ManagerView};
use crate::registry::{Phase, RegistryView};
use crate::response::OutcomeView;

verus! {

/// One call of the host, or one completion reported by the transport.
pub enum HostCall {
    Init { url: Seq<char>, method: Seq<char> },
    SetHeaders { handle_text: Seq<char>, payload: Seq<char> },
    SetBody { handle_text: Seq<char>, text: Seq<char> },
    Launch { handle_text: Seq<char> },
    Conclude { handle: u64, outcome: OutcomeView },
    Startup { started: bool },
    Shutdown,
}

/// The manager after `call`.
pub open spec fn step(m: ManagerView, call: HostCall) -> ManagerView {
    match call {
        HostCall::Init { url, method } => m.init(url, method).0,
        HostCall::SetHeaders { handle_text, payload } => m.set_headers(handle_text, payload).0,
        HostCall::SetBody { handle_text, text } => m.set_body(handle_text, text).0,
        HostCall::Launch { handle_text } => m.launch(handle_text).0,
        HostCall::Conclude { handle, outcome } => m.conclude(handle, outcome),
        HostCall::Startup { started } => m.startup(started),
        HostCall::Shutdown => m.shutdown(),
    }
}

/// Whether `call` may be made on `m`: a request can only be created while
/// there is a handle left to issue.
pub open spec fn allowed(m: ManagerView, call: HostCall) -> bool {
    call is Init ==> m.registry.has_room()
}

/// Whether `call` drops the entries of `m` and restarts its handles: a
/// shutdown does, and so does a startup while the runtime is up.
pub open spec fn resets(m: ManagerView, call: HostCall) -> bool {
    call is Shutdown || (call is Startup && m.running)
}

/// The manager after the calls of `calls`, in order.
pub open spec fn run(m: ManagerView, calls: Seq<HostCall>) -> ManagerView
    decreases calls.len(),
{
    if calls.len() == 0 {
        m
    } else {
        step(run(m, calls.drop_last()), calls.last())
    }
}

/// Whether every call of `calls` is allowed when it is made.
pub open spec fn all_allowed(m: ManagerView, calls: Seq<HostCall>) -> bool {
    forall|i: int| 0 <= i < calls.len() ==> allowed(#[trigger] run(m, calls.take(i)), calls[i])
}

/// Whether no call of `calls` resets the manager.
pub open spec fn none_resets(m: ManagerView, calls: Seq<HostCall>) -> bool {
    forall|i: int| 0 <= i < calls.len() ==> !resets(#[trigger] run(m, calls.take(i)), calls[i])
}

/// The position of a phase in an entry's life.
pub open spec fn rank(phase: Phase) -> nat {
    match phase {
        Phase::UnderConstruction => 0,
        Phase::AwaitingResponse => 1,
        Phase::Concluded => 2,
    }
}

/// Every allowed call keeps the registry's invariant: the registry holds
/// exactly the issued handles, and each entry has its pending request
/// exactly while under construction and its outcome exactly once concluded.
pub proof fn lemma_step_keeps_invariant(m: ManagerView, call: HostCall)
    requires
        m.wf(),
        allowed(m, call),
    ensures
        step(m, call).wf(),
{
    let after = step(m, call);
    match call {
        HostCall::Init { url, method } => {
            let handle = m.registry.next as u64;
            assert forall|h: u64| #[trigger]
                after.registry.entries.contains_key(h) <==> (h as nat) < after.registry.next by {
                if h != handle {
                    assert(after.registry.entries.contains_key(h)
                        == m.registry.entries.contains_key(h));
                }
            }
            assert forall|h: u64| #[trigger]
                after.registry.entries.contains_key(h) implies after.registry.entries[h].handle
                == h && after.registry.entries[h].wf() by {
                if h != handle {
                    assert(m.registry.entries.contains_key(h));
                }
            }
        },
        HostCall::SetHeaders { handle_text, payload } => {
            match crate::codec::json_string_object(payload) {
                Some(pairs) => {
                    crate::codec::lemma_decoded_fields_are_valid(pairs);
                },
                None => {},
            }
            lemma_entry_change_keeps_invariant(m.registry, after.registry);
        },
        HostCall::SetBody { handle_text, text } => {
            lemma_entry_change_keeps_invariant(m.registry, after.registry);
        },
        HostCall::Launch { handle_text } => {
            lemma_entry_change_keeps_invariant(m.registry, after.registry);
        },
        HostCall::Conclude { handle, outcome } => {
            lemma_entry_change_keeps_invariant(m.registry, after.registry);
        },
        HostCall::Startup { started } => {},
        HostCall::Shutdown => {},
    }
}

/// A registry that differs from a well-formed one in at most one entry,
/// which keeps its handle and is consistent, is well formed.
proof fn lemma_entry_change_keeps_invariant(before: RegistryView, after: RegistryView)
    requires
        before.wf(),
        after.next == before.next,
        after.entries.dom() =~= before.entries.dom(),
        forall|h: u64| #[trigger]
            before.entries.contains_key(h) ==> after.entries[h].handle == h
                && after.entries[h].wf(),
    ensures
        after.wf(),
{
    assert forall|h: u64| #[trigger] after.entries.contains_key(h) <==> (h as nat)
        < after.next by {
        assert(after.entries.contains_key(h) == before.entries.contains_key(h));
    }
    assert forall|h: u64| #[trigger] after.entries.contains_key(h) implies after.entries[h].handle
        == h && after.entries[h].wf() by {
        assert(before.entries.contains_key(h));
    }
}

/// Every run of allowed calls keeps the registry's invariant.
pub proof fn lemma_run_keeps_invariant(m: ManagerView, calls: Seq<HostCall>)
    requires
        m.wf(),
        all_allowed(m, calls),
    ensures
        run(m, calls).wf(),
    decreases calls.len(),
{
    if calls.len() > 0 {
        let front = calls.drop_last();
        lemma_allowed_prefix(m, calls, calls.len() - 1);
        assert(calls.take(calls.len() - 1) =~= front);
        lemma_run_keeps_invariant(m, front);
        lemma_step_keeps_invariant(run(m, front), calls.last());
    }
}

/// A prefix of a run of allowed calls is a run of allowed calls, and
/// likewise for a run without resets.
pub proof fn lemma_allowed_prefix(m: ManagerView, calls: Seq<HostCall>, upto: int)
    requires
        0 <= upto <= calls.len(),
    ensures
        all_allowed(m, calls) ==> all_allowed(m, calls.take(upto)),
        none_resets(m, calls) ==> none_resets(m, calls.take(upto)),
{
    let prefix = calls.take(upto);
    assert forall|i: int| 0 <= i < prefix.len() implies prefix.take(i) == calls.take(i)
        && prefix[i] == calls[i] by {
        assert(prefix.take(i) =~= calls.take(i));
    }
    if all_allowed(m, calls) {
        assert forall|i: int| 0 <= i < prefix.len() implies allowed(
            #[trigger] run(m, prefix.take(i)),
            prefix[i],
        ) by {
            assert(allowed(run(m, calls.take(i)), calls[i]));
        }
    }
    if none_resets(m, calls) {
        assert forall|i: int| 0 <= i < prefix.len() implies !resets(
            #[trigger] run(m, prefix.take(i)),
            prefix[i],
        ) by {
            assert(!resets(run(m, calls.take(i)), calls[i]));
        }
    }
}

/// A call that does not reset the manager never lowers the handle counter,
/// and the creation of a request raises it by one.
pub proof fn lemma_step_counts_up(m: ManagerView, call: HostCall)
    requires
        !resets(m, call),
    ensures
        m.registry.next <= step(m, call).registry.next,
        call is Init ==> step(m, call).registry.next == m.registry.next + 1,
{
}

/// A run without resets never lowers the handle counter.
pub proof fn lemma_run_counts_up(m: ManagerView, calls: Seq<HostCall>)
    requires
        none_resets(m, calls),
    ensures
        m.registry.next <= run(m, calls).registry.next,
    decreases calls.len(),
{
    if calls.len() > 0 {
        let front = calls.drop_last();
        lemma_allowed_prefix(m, calls, calls.len() - 1);
        assert(calls.take(calls.len() - 1) =~= front);
        lemma_run_counts_up(m, front);
        assert(!resets(run(m, calls.take(calls.len() - 1)), calls[calls.len() - 1]));
        lemma_step_counts_up(run(m, front), calls.last());
    }
}

/// The numeral that the host is given by the call at position `at` of
/// `calls`, where that call creates a request.
pub open spec fn numeral_at(m: ManagerView, calls: Seq<HostCall>, at: int) -> Seq<char>
    recommends
        0 <= at < calls.len(),
        calls[at] is Init,
{
    run(m, calls.take(at)).init(calls[at]->url, calls[at]->method).1
}

/// Handles are fresh and grow. When two requests are created in a run of
/// allowed calls that holds no reset, both numerals given to the host name
/// handles, and the later request has the larger one.
pub proof fn lemma_handles_grow(m: ManagerView, calls: Seq<HostCall>, first: int, second: int)
    requires
        m.wf(),
        all_allowed(m, calls),
        none_resets(m, calls),
        0 <= first < second < calls.len(),
        calls[first] is Init,
        calls[second] is Init,
    ensures
        handle_of_text(numeral_at(m, calls, first)) is Some,
        handle_of_text(numeral_at(m, calls, second)) is Some,
        handle_of_text(numeral_at(m, calls, first))->0 < handle_of_text(
            numeral_at(m, calls, second),
        )->0,
{
    let at_first = run(m, calls.take(first));
    let after_first = run(m, calls.take(first + 1));
    let at_second = run(m, calls.take(second));
    assert(calls.take(first + 1).drop_last() =~= calls.take(first));
    assert(calls.take(first + 1).last() == calls[first]);
    assert(!resets(at_first, calls[first]));
    lemma_step_counts_up(at_first, calls[first]);
    // From the first creation to the second the counter does not fall.
    let between = calls.subrange(first + 1, second);
    lemma_run_splits(m, calls.take(second), first + 1);
    assert(calls.take(second).take(first + 1) =~= calls.take(first + 1));
    assert(calls.take(second).skip(first + 1) =~= between);
    assert(none_resets(after_first, between)) by {
        assert forall|i: int| 0 <= i < between.len() implies !resets(
            #[trigger] run(after_first, between.take(i)),
            between[i],
        ) by {
            let k = first + 1 + i;
            lemma_run_splits(m, calls.take(k), first + 1);
            assert(calls.take(k).take(first + 1) =~= calls.take(first + 1));
            assert(calls.take(k).skip(first + 1) =~= between.take(i));
            assert(!resets(run(m, calls.take(k)), calls[k]));
        }
    }
    lemma_run_counts_up(after_first, between);
    // Both counters fit a handle, so the handles compare as the counters do.
    lemma_allowed_prefix(m, calls, first);
    lemma_allowed_prefix(m, calls, second);
    lemma_run_keeps_invariant(m, calls.take(first));
    lemma_run_keeps_invariant(m, calls.take(second));
    assert(allowed(at_first, calls[first]));
    assert(allowed(at_second, calls[second]));
    let handle_first = at_first.registry.next as u64;
    let handle_second = at_second.registry.next as u64;
    assert(handle_first < handle_second);
    lemma_handle_text_round_trip(handle_first);
    lemma_handle_text_round_trip(handle_second);
}

/// Running a sequence of calls is running its first part and then the rest.
pub proof fn lemma_run_splits(m: ManagerView, calls: Seq<HostCall>, at: int)
    requires
        0 <= at <= calls.len(),
    ensures
        run(m, calls) == run(run(m, calls.take(at)), calls.skip(at)),
    decreases calls.len(),
{
    if at == calls.len() {
        assert(calls.take(at) =~= calls);
        assert(calls.skip(at) =~= Seq::empty());
    } else {
        let front = calls.drop_last();
        lemma_run_splits(m, front, at);
        assert(front.take(at) =~= calls.take(at));
        assert(front.skip(at) =~= calls.skip(at).drop_last());
        assert(calls.skip(at).last() == calls.last());
    }
}

/// The handle of a created request was not issued before, is larger than
/// every handle that was, and names an entry of its own that is under
/// construction. No other entry changes.
pub proof fn lemma_created_handle_is_fresh(m: ManagerView, url: Seq<char>, method: Seq<char>)
    requires
        m.wf(),
        m.registry.has_room(),
    ensures
        ({
            let (after, handle_text) = m.init(url, method);
            let handle = m.registry.next as u64;
            &&& handle_of_text(handle_text) == Some(handle)
            &&& !m.registry.issued(handle)
            &&& !m.registry.entries.contains_key(handle)
            &&& forall|earlier: u64| m.registry.issued(earlier) ==> earlier < handle
            &&& after.phase_of(handle_text) == Some(Phase::UnderConstruction)
            &&& forall|other: u64| #[trigger]
                m.registry.entries.contains_key(other) ==> after.registry.entries[other]
                    == m.registry.entries[other]
        }),
{
    let handle = m.registry.next as u64;
    lemma_handle_text_round_trip(handle);
    assert(!m.registry.entries.contains_key(handle));
}

/// Late changes are ignored. Adding headers to a request that awaits its
/// response or is concluded, or replacing its body, succeeds and changes
/// nothing at all, whatever the payload: neither the request that was
/// taken, nor the outcome, nor any other entry.
pub proof fn lemma_late_mutation_is_ignored(
    m: ManagerView,
    handle_text: Seq<char>,
    payload: Seq<char>,
)
    requires
        m.phase_of(handle_text) == Some(Phase::AwaitingResponse) || m.phase_of(handle_text)
            == Some(Phase::Concluded),
    ensures
        m.set_headers(handle_text, payload) == (m, Ok::<(), Error>(())),
        m.set_body(handle_text, payload) == (m, Ok::<(), Error>(())),
{
}

/// A late change does not alter what is recorded for the request
/// afterwards: concluding after an ignored change gives the state that
/// concluding without it gives.
pub proof fn lemma_late_mutation_leaves_outcome(
    m: ManagerView,
    handle: u64,
    payload: Seq<char>,
    outcome: OutcomeView,
)
    requires
        m.registry.phase_of(handle) == Some(Phase::AwaitingResponse),
    ensures
        m.set_headers(decimal(handle as nat), payload).0.conclude(handle, outcome) == m.conclude(
            handle,
            outcome,
        ),
        m.set_body(decimal(handle as nat), payload).0.conclude(handle, outcome) == m.conclude(
            handle,
            outcome,
        ),
        m.conclude(handle, outcome).registry.entries[handle].outcome == Some(outcome),
{
    lemma_handle_text_round_trip(handle);
}

/// A request is launched once. While the runtime is up, launching a handle
/// that names no entry fails with `UnknownHandle`, and so does launching an
/// entry that was launched before; both leave the manager as it was.
pub proof fn lemma_launch_needs_unlaunched_entry(m: ManagerView, handle_text: Seq<char>)
    requires
        m.running,
        m.phase_of(handle_text) != Some(Phase::UnderConstruction),
    ensures
        m.launch(handle_text) == (m, Err::<LaunchView, Error>(Error::UnknownHandle)),
{
}

/// A successful launch leaves the entry awaiting its response, so that a
/// second launch of the same handle fails with `UnknownHandle`.
pub proof fn lemma_second_launch_fails(m: ManagerView, handle_text: Seq<char>)
    requires
        m.launch(handle_text).1 is Ok,
    ensures
        ({
            let once = m.launch(handle_text).0;
            &&& once.phase_of(handle_text) == Some(Phase::AwaitingResponse)
            &&& once.launch(handle_text) == (once, Err::<LaunchView, Error>(Error::UnknownHandle))
        }),
{
}

/// While the runtime is stopped nothing is launched: every launch fails
/// with `RuntimeNotStarted` and changes nothing.
pub proof fn lemma_no_launch_while_stopped(m: ManagerView, handle_text: Seq<char>)
    requires
        !m.running,
    ensures
        m.launch(handle_text) == (m, Err::<LaunchView, Error>(Error::RuntimeNotStarted)),
{
}

/// The first outcome reported for a launched request concludes its entry
/// with that outcome.
pub proof fn lemma_outcome_concludes(m: ManagerView, handle: u64, outcome: OutcomeView)
    requires
        m.registry.phase_of(handle) == Some(Phase::AwaitingResponse),
    ensures
        m.conclude(handle, outcome).registry.phase_of(handle) == Some(Phase::Concluded),
        m.conclude(handle, outcome).registry.entries[handle].outcome == Some(outcome),
{
}

/// An entry never moves backwards. A call that does not reset the manager
/// keeps every entry, in the same phase or a later one, and a concluded
/// entry keeps its outcome.
pub proof fn lemma_phase_never_goes_back(m: ManagerView, call: HostCall, handle: u64)
    requires
        m.wf(),
        allowed(m, call),
        !resets(m, call),
        m.registry.entries.contains_key(handle),
    ensures
        step(m, call).registry.entries.contains_key(handle),
        rank(m.registry.entries[handle].phase) <= rank(
            step(m, call).registry.entries[handle].phase,
        ),
        m.registry.entries[handle].phase == Phase::Concluded ==> step(
            m,
            call,
        ).registry.entries[handle] == m.registry.entries[handle],
{
    assert(!(call is Init) || m.registry.next as u64 != handle);
}

/// An entry that awaits its response leaves that phase only by being
/// concluded with a reported outcome: every other call that does not reset
/// the manager leaves it exactly as it is.
pub proof fn lemma_awaiting_ends_by_outcome(m: ManagerView, call: HostCall, handle: u64)
    requires
        m.wf(),
        allowed(m, call),
        !resets(m, call),
        m.registry.phase_of(handle) == Some(Phase::AwaitingResponse),
        !(call is Conclude && call->Conclude_handle == handle),
    ensures
        step(m, call).registry.entries.contains_key(handle),
        step(m, call).registry.entries[handle] == m.registry.entries[handle],
{
    assert(!(call is Init) || m.registry.next as u64 != handle);
}

/// Completions of different requests do not interfere: in whichever order
/// two outcomes arrive, the manager ends in the same state, and each entry
/// holds the outcome reported for it.
pub proof fn lemma_completions_commute(
    m: ManagerView,
    a: u64,
    outcome_a: OutcomeView,
    b: u64,
    outcome_b: OutcomeView,
)
    requires
        a != b,
    ensures
        m.conclude(a, outcome_a).conclude(b, outcome_b) == m.conclude(b, outcome_b).conclude(
            a,
            outcome_a,
        ),
        m.registry.phase_of(a) == Some(Phase::AwaitingResponse) ==> m.conclude(a, outcome_a).conclude(
            b,
            outcome_b,
        ).registry.entries[a] == m.registry.entries[a].concluded(outcome_a),
        m.registry.phase_of(b) == Some(Phase::AwaitingResponse) ==> m.conclude(a, outcome_a).conclude(
            b,
            outcome_b,
        ).registry.entries[b] == m.registry.entries[b].concluded(outcome_b),
{
    let ab = m.conclude(a, outcome_a).conclude(b, outcome_b);
    let ba = m.conclude(b, outcome_b).conclude(a, outcome_a);
    assert(ab.registry.entries =~= ba.registry.entries);
}

/// A completion touches no entry but its own.
pub proof fn lemma_completion_is_local(m: ManagerView, handle: u64, outcome: OutcomeView, other: u64)
    requires
        other != handle,
    ensures
        m.conclude(handle, outcome).registry.entries.contains_key(other)
            == m.registry.entries.contains_key(other),
        m.conclude(handle, outcome).registry.entries[other] == m.registry.entries[other],
{
}

/// A restart begins the handles anew. After a shutdown followed by a
/// startup, whether or not the runtime came up, the next request created
/// gets the handle `"0"`.
pub proof fn lemma_restart_resets_handles(
    m: ManagerView,
    started: bool,
    url: Seq<char>,
    method: Seq<char>,
)
    ensures
        m.shutdown().startup(started).registry == RegistryView::empty(),
        m.shutdown().startup(started).running == started,
        m.shutdown().startup(started).init(url, method).1 == "0"@,
{
    reveal_strlit("0");
    assert(decimal(0) =~= "0"@);
}

/// Starting up while the runtime is up is a shutdown followed by a startup.
pub proof fn lemma_startup_restarts(m: ManagerView, started: bool)
    requires
        m.running,
    ensures
        m.startup(started) == m.shutdown().startup(started),
{
}

} // verus!

//! What holds of the relay whatever happens on the connections, proved over
//! the models that the registry and the workers follow.

use vstd::prelude::*;
use crate::address::Address;
use crate::model::{
    distinct, has_member, lemma_relay_to_push, position, relay_to, run, step, ClientModel,
    DeliveryModel, EventModel, OutcomeModel,
};
use crate::text::{is_bare_newline, relay_text};
use crate::worker::{advance_model, trace, Phase, SignalModel, Worker};

verus! {

/// A relay never writes to the sender: whatever the members are, no write
/// that a text event asks for goes to the address the text came from.
pub proof fn law_no_self_delivery<C>(
    members: Seq<ClientModel<C>>,
    address: Address,
    content: Seq<char>,
)
    ensures
        forall|k: int|
            0 <= k < step(members, EventModel::TextReceived { address, content }).1.writes().len()
                ==> (#[trigger] step(
                members,
                EventModel::TextReceived { address, content },
            ).1.writes()[k]).to != address,
{
    let writes = step(members, EventModel::TextReceived { address, content }).1.writes();
    assert forall|k: int| 0 <= k < writes.len() implies (#[trigger] writes[k]).to != address by {
        let text = relay_text(members[position(members, address)].display_name, content);
        lemma_relay_to_spares_sender(members, address, text, k);
    }
}

/// No write of a relay goes to the sender.
pub proof fn lemma_relay_to_spares_sender<C>(
    members: Seq<ClientModel<C>>,
    sender: Address,
    text: Seq<char>,
    k: int,
)
    requires
        0 <= k < relay_to(members, sender, text).len(),
    ensures
        relay_to(members, sender, text)[k].to != sender,
        relay_to(members, sender, text)[k].text == text,
{
    let others = |m: ClientModel<C>| m.address != sender;
    members.lemma_filter_pred(others, k);
}

/// A bare newline is suppressed: the event changes nothing and asks for no
/// write, whoever sent it.
pub proof fn law_bare_newline_suppressed<C>(members: Seq<ClientModel<C>>, address: Address)
    ensures
        step(members, EventModel::TextReceived { address, content: seq!['\n'] }) == (
            members,
            OutcomeModel::<C>::Suppressed,
        ),
        step(members, EventModel::TextReceived { address, content: seq!['\n'] }).1.writes()
            == Seq::<DeliveryModel>::empty(),
{
}

/// A disconnect for an address that is not registered is a no-op: the
/// members stay as they are and nothing is written. The registry takes the
/// events that follow as if it had never come.
pub proof fn law_disconnect_of_stranger<C>(members: Seq<ClientModel<C>>, address: Address)
    requires
        !has_member(members, address),
    ensures
        step(members, EventModel::Disconnected { address }) == (
            members,
            OutcomeModel::<C>::Unknown,
        ),
        step(members, EventModel::Disconnected { address }).1.writes()
            == Seq::<DeliveryModel>::empty(),
{
}

/// Disconnecting is idempotent: after one disconnect of an address, a second
/// one finds no member there and changes nothing.
pub proof fn law_disconnect_idempotent<C>(members: Seq<ClientModel<C>>, address: Address)
    requires
        distinct(members),
    ensures
        !has_member(step(members, EventModel::Disconnected { address }).0, address),
        step(
            step(members, EventModel::Disconnected { address }).0,
            EventModel::Disconnected { address },
        ) == (step(members, EventModel::Disconnected { address }).0, OutcomeModel::<C>::Unknown),
{
    let after = step(members, EventModel::Disconnected { address }).0;
    if has_member(members, address) {
        let p = position(members, address);
        assert forall|i: int| 0 <= i < after.len() implies (#[trigger] after[i]).address
            != address by {
            if i < p {
                assert(after[i] == members[i]);
            } else {
                assert(after[i] == members[i + 1]);
            }
        }
    }
}

/// Where the sender is no member, a relay writes to every member.
proof fn lemma_relay_to_without_sender<C>(
    members: Seq<ClientModel<C>>,
    sender: Address,
    text: Seq<char>,
)
    requires
        !has_member(members, sender),
    ensures
        relay_to(members, sender, text) == members.map_values(
            |m: ClientModel<C>| DeliveryModel { to: m.address, text },
        ),
    decreases members.len(),
{
    let write = |m: ClientModel<C>| DeliveryModel { to: m.address, text };
    if members.len() == 0 {
        lemma_relay_to_empty::<C>(sender, text);
        assert(members =~= Seq::empty());
        assert(members.map_values(write) =~= Seq::empty());
    } else {
        let init = members.drop_last();
        let last = members.last();
        assert(members =~= init.push(last));
        assert(last.address != sender) by {
            assert(members[members.len() - 1].address != sender);
        }
        assert(!has_member(init, sender)) by {
            assert forall|i: int| 0 <= i < init.len() implies (#[trigger] init[i]).address
                != sender by {
                assert(members[i].address != sender);
            }
        }
        lemma_relay_to_without_sender(init, sender, text);
        lemma_relay_to_push(init, last, sender, text);
        assert(init.map_values(write).push(write(last)) =~= members.map_values(write));
    }
}

/// Among no members, a relay writes nothing.
proof fn lemma_relay_to_empty<C>(sender: Address, text: Seq<char>)
    ensures
        relay_to(Seq::<ClientModel<C>>::empty(), sender, text) == Seq::<DeliveryModel>::empty(),
{
    let others = |m: ClientModel<C>| m.address != sender;
    let write = |m: ClientModel<C>| DeliveryModel { to: m.address, text };
    Seq::<ClientModel<C>>::empty().lemma_filter_len(others);
    assert(Seq::<ClientModel<C>>::empty().filter(others).map_values(write) =~= Seq::empty());
}

/// A relay writes to the members as they stand once the sender is taken out:
/// same members, same order.
pub proof fn lemma_relay_to_is_the_rest<C>(
    members: Seq<ClientModel<C>>,
    sender: Address,
    text: Seq<char>,
)
    requires
        distinct(members),
        has_member(members, sender),
    ensures
        relay_to(members, sender, text) == members.remove(position(members, sender)).map_values(
            |m: ClientModel<C>| DeliveryModel { to: m.address, text },
        ),
    decreases members.len(),
{
    let write = |m: ClientModel<C>| DeliveryModel { to: m.address, text };
    let p = position(members, sender);
    let init = members.drop_last();
    let last = members.last();
    assert(members =~= init.push(last));
    lemma_relay_to_push(init, last, sender, text);
    assert(distinct(init)) by {
        assert forall|i: int, j: int| 0 <= i < j < init.len() implies (#[trigger] init[i]).address
            != (#[trigger] init[j]).address by {
            assert(members[i].address != members[j].address);
        }
    }
    if last.address == sender {
        assert(p == members.len() - 1) by {
            if p < members.len() - 1 {
                assert(members[p].address != members[members.len() - 1].address);
            }
        }
        assert(!has_member(init, sender)) by {
            assert forall|i: int| 0 <= i < init.len() implies (#[trigger] init[i]).address
                != sender by {
                assert(members[i].address != members[members.len() - 1].address);
            }
        }
        lemma_relay_to_without_sender(init, sender, text);
        assert(members.remove(p) =~= init);
    } else {
        assert(p < init.len());
        assert(init[p].address == sender);
        assert(has_member(init, sender));
        assert(position(init, sender) == p) by {
            let q = position(init, sender);
            if q < p {
                assert(members[q].address != members[p].address);
            } else if p < q {
                assert(members[p].address != members[q].address);
            }
        }
        lemma_relay_to_is_the_rest(init, sender, text);
        assert(init.remove(p).map_values(write).push(write(last)) =~= members.remove(
            p,
        ).map_values(write));
    }
}

/// A relay is complete: where the sender is a member and the text is no bare
/// newline, the event asks for one write fewer than there are members; every
/// write carries the line that names the sender; no write goes to the sender
/// and no two go to the same member; and every other member is written to.
pub proof fn law_relay_reaches_all_others<C>(
    members: Seq<ClientModel<C>>,
    address: Address,
    content: Seq<char>,
)
    requires
        distinct(members),
        has_member(members, address),
        !is_bare_newline(content),
    ensures
        ({
            let writes = step(members, EventModel::TextReceived { address, content }).1.writes();
            let line = relay_text(members[position(members, address)].display_name, content);
            &&& step(members, EventModel::TextReceived { address, content }).0 == members
            &&& writes.len() == members.len() - 1
            &&& forall|k: int|
                0 <= k < writes.len() ==> (#[trigger] writes[k]).text == line && writes[k].to
                    != address
            &&& forall|j: int, k: int|
                0 <= j < k < writes.len() ==> (#[trigger] writes[j]).to != (#[trigger] writes[k]).to
            &&& forall|i: int|
                0 <= i < members.len() && (#[trigger] members[i]).address != address ==> exists|
                    k: int,
                |
                    0 <= k < writes.len() && (#[trigger] writes[k]).to == members[i].address
        }),
{
    let writes = step(members, EventModel::TextReceived { address, content }).1.writes();
    let line = relay_text(members[position(members, address)].display_name, content);
    let write = |m: ClientModel<C>| DeliveryModel { to: m.address, text: line };
    let p = position(members, address);
    let rest = members.remove(p);
    lemma_relay_to_is_the_rest(members, address, line);
    assert(writes == rest.map_values(write));
    assert forall|k: int| 0 <= k < writes.len() implies (#[trigger] writes[k]).text == line
        && writes[k].to != address by {
        if k < p {
            assert(rest[k] == members[k]);
            assert(members[k].address != members[p].address);
        } else {
            assert(rest[k] == members[k + 1]);
            assert(members[p].address != members[k + 1].address);
        }
    }
    assert forall|j: int, k: int| 0 <= j < k < writes.len() implies (#[trigger] writes[j]).to != (
    #[trigger] writes[k]).to by {
        let mj = if j < p { j } else { j + 1 };
        let mk = if k < p { k } else { k + 1 };
        assert(rest[j] == members[mj]);
        assert(rest[k] == members[mk]);
        assert(members[mj].address != members[mk].address);
    }
    assert forall|i: int|
        0 <= i < members.len() && (#[trigger] members[i]).address != address implies exists|k: int|
        0 <= k < writes.len() && (#[trigger] writes[k]).to == members[i].address by {
        let k = if i < p { i } else { i - 1 };
        assert(rest[k] == members[i]);
        assert(writes[k].to == members[i].address);
    }
}

/// How many of the events are connects.
pub open spec fn connects<C>(events: Seq<EventModel<C>>) -> nat
    decreases events.len(),
{
    if events.len() == 0 {
        0
    } else {
        connects(events.drop_last()) + if events.last() is Connected {
            1nat
        } else {
            0nat
        }
    }
}

/// How many of the events are disconnects of an address that was registered
/// when the event was applied, in a run that starts from `members`.
pub open spec fn departures<C>(members: Seq<ClientModel<C>>, events: Seq<EventModel<C>>) -> nat
    decreases events.len(),
{
    if events.len() == 0 {
        0
    } else {
        departures(members, events.drop_last()) + if events.last() matches EventModel::Disconnected {
            address,
        } && has_member(run(members, events.drop_last()), address) {
            1nat
        } else {
            0nat
        }
    }
}

/// The address that the event connects, if it is a connect.
pub open spec fn connect_address<C>(event: EventModel<C>) -> Option<Address> {
    match event {
        EventModel::Connected { address, .. } => Some(address),
        _ => None,
    }
}

/// No two connects among the events name the same address.
pub open spec fn connects_distinct<C>(events: Seq<EventModel<C>>) -> bool {
    forall|i: int, j: int|
        #![trigger events[i], events[j]]
        0 <= i < j < events.len() && connect_address(events[i]) is Some ==> connect_address(
            events[i],
        ) != connect_address(events[j])
}

/// No connect among the events names the address of one of the members.
pub open spec fn connects_fresh<C>(
    members: Seq<ClientModel<C>>,
    events: Seq<EventModel<C>>,
) -> bool {
    forall|i: int|
        #![trigger events[i]]
        0 <= i < events.len() && connect_address(events[i]) is Some ==> !has_member(
            members,
            connect_address(events[i])->0,
        )
}

/// Every member after a run was a member before it or connected during it.
proof fn lemma_members_come_from<C>(
    members: Seq<ClientModel<C>>,
    events: Seq<EventModel<C>>,
    address: Address,
)
    requires
        has_member(run(members, events), address),
    ensures
        has_member(members, address) || exists|i: int|
            0 <= i < events.len() && connect_address(#[trigger] events[i]) == Some(address),
    decreases events.len(),
{
    if events.len() > 0 {
        let earlier = events.drop_last();
        let before = run(members, earlier);
        let after = run(members, events);
        let k = choose|k: int| 0 <= k < after.len() && (#[trigger] after[k]).address == address;
        if has_member(before, address) {
            lemma_members_come_from(members, earlier, address);
            if !has_member(members, address) {
                let i = choose|i: int|
                    0 <= i < earlier.len() && connect_address(#[trigger] earlier[i]) == Some(
                        address,
                    );
                assert(connect_address(events[i]) == Some(address));
            }
        } else {
            match events.last() {
                EventModel::Connected { address: a, display_name, output_channel } => {
                    if k < before.len() {
                        assert(before[k].address == address);
                    }
                    assert(connect_address(events[events.len() - 1]) == Some(address));
                },
                EventModel::Disconnected { address: a } => {
                    if has_member(before, a) {
                        let p = position(before, a);
                        if k < p {
                            assert(before[k].address == address);
                        } else {
                            assert(before[k + 1].address == address);
                        }
                    }
                },
                EventModel::TextReceived { .. } => {},
            }
        }
    }
}

/// The member count after a run that starts from `members`, where every
/// connect names an address that no member and no other connect has: one
/// more for each connect, one less for each disconnect of an address that
/// was registered when it was applied.
pub proof fn law_member_count_from<C>(members: Seq<ClientModel<C>>, events: Seq<EventModel<C>>)
    requires
        connects_distinct(events),
        connects_fresh(members, events),
    ensures
        run(members, events).len() == members.len() + connects(events) - departures(
            members,
            events,
        ),
    decreases events.len(),
{
    if events.len() > 0 {
        let earlier = events.drop_last();
        let before = run(members, earlier);
        assert(connects_distinct(earlier)) by {
            assert forall|i: int, j: int|
                #![trigger earlier[i], earlier[j]]
                0 <= i < j < earlier.len() && connect_address(
                    earlier[i],
                ) is Some implies connect_address(earlier[i]) != connect_address(earlier[j]) by {
                assert(connect_address(events[i]) != connect_address(events[j]));
            }
        }
        assert(connects_fresh(members, earlier)) by {
            assert forall|i: int|
                #![trigger earlier[i]]
                0 <= i < earlier.len() && connect_address(earlier[i]) is Some implies !has_member(
                members,
                connect_address(earlier[i])->0,
            ) by {
                assert(earlier[i] == events[i]);
            }
        }
        law_member_count_from(members, earlier);
        match events.last() {
            EventModel::Connected { address, display_name, output_channel } => {
                let n = events.len() - 1;
                assert(connect_address(events[n]) == Some(address));
                if has_member(before, address) {
                    lemma_members_come_from(members, earlier, address);
                    if !has_member(members, address) {
                        let i = choose|i: int|
                            0 <= i < earlier.len() && connect_address(#[trigger] earlier[i])
                                == Some(address);
                        assert(connect_address(events[i]) != connect_address(events[n]));
                    }
                }
            },
            EventModel::Disconnected { address } => {},
            EventModel::TextReceived { .. } => {},
        }
    }
}

/// The member count of a registry that started empty, after events whose
/// connects name distinct addresses: the number of connects, less the number
/// of disconnects of an address that was registered when the disconnect was
/// applied.
pub proof fn law_member_count<C>(events: Seq<EventModel<C>>)
    requires
        connects_distinct(events),
    ensures
        run(Seq::<ClientModel<C>>::empty(), events).len() == connects(events) - departures(
            Seq::<ClientModel<C>>::empty(),
            events,
        ),
{
    law_member_count_from(Seq::<ClientModel<C>>::empty(), events);
}

/// A run keeps the members distinct.
pub proof fn law_run_keeps_distinct<C>(members: Seq<ClientModel<C>>, events: Seq<EventModel<C>>)
    requires
        distinct(members),
    ensures
        distinct(run(members, events)),
    decreases events.len(),
{
    if events.len() > 0 {
        law_run_keeps_distinct(members, events.drop_last());
        let before = run(members, events.drop_last());
        let after = run(members, events);
        match events.last() {
            EventModel::Connected { address, .. } => {},
            EventModel::Disconnected { address } => {
                if has_member(before, address) {
                    let p = position(before, address);
                    assert forall|i: int, j: int| 0 <= i < j < after.len() implies (
                    #[trigger] after[i]).address != (#[trigger] after[j]).address by {
                        let bi = if i < p { i } else { i + 1 };
                        let bj = if j < p { j } else { j + 1 };
                        assert(after[i] == before[bi]);
                        assert(after[j] == before[bj]);
                        assert(before[bi].address != before[bj].address);
                    }
                }
            },
            EventModel::TextReceived { .. } => {},
        }
    }
}

/// What a fresh worker has sent when it stands at `worker`: nothing
/// before the client is announced; then the connect, first and once, with
/// the channel the worker was made with; then messages; and a disconnect
/// only as the last word of a worker that has stopped.
pub open spec fn orderly<C>(
    address: Address,
    output_channel: C,
    worker: Worker<C>,
    events: Seq<EventModel<C>>,
) -> bool {
    &&& worker.address == address
    &&& forall|i: int| 0 <= i < events.len() ==> (#[trigger] events[i]).address() == address
    &&& forall|i: int| 0 <= i < events.len() ==> ((#[trigger] events[i]) is Connected <==> i == 0)
    &&& forall|i: int|
        0 <= i < events.len() && (#[trigger] events[i]) is Disconnected ==> i == events.len() - 1
    &&& events.len() > 0 ==> events[0]->Connected_output_channel == output_channel
    &&& match worker.phase {
        Phase::Greeting { output_channel: kept } => events.len() == 0 && kept == output_channel,
        Phase::AwaitingName { output_channel: kept } => events.len() == 0 && kept
            == output_channel,
        Phase::Relaying => events.len() > 0 && !(events.last() is Disconnected),
        Phase::Stopped => events.len() == 0 || events.last() is Disconnected,
    }
}

/// A worker sends its events in order, whatever the connection does: every
/// event is about its own address; the connect comes first and once, with
/// the channel the worker was made with, and nothing comes before it; a
/// disconnect comes at most once, last, and only from a worker that has
/// stopped.
pub proof fn law_worker_events_in_order<C>(
    address: Address,
    output_channel: C,
    signals: Seq<SignalModel>,
)
    ensures
        orderly(
            address,
            output_channel,
            trace(Worker { address, phase: Phase::Greeting { output_channel } }, signals).0,
            trace(Worker { address, phase: Phase::Greeting { output_channel } }, signals).1,
        ),
    decreases signals.len(),
{
    let fresh = Worker { address, phase: Phase::Greeting { output_channel } };
    if signals.len() > 0 {
        law_worker_events_in_order(address, output_channel, signals.drop_last());
        let (before, events) = trace(fresh, signals.drop_last());
        let (after, event) = advance_model(before, signals.last());
        match event {
            Some(event) => {
                let longer = events.push(event);
                assert forall|i: int| 0 <= i < longer.len() implies (
                #[trigger] longer[i]).address() == address by {
                    if i < events.len() {
                        assert(longer[i] == events[i]);
                    }
                }
                assert forall|i: int| 0 <= i < longer.len() implies ((
                #[trigger] longer[i]) is Connected <==> i == 0) by {
                    if i < events.len() {
                        assert(longer[i] == events[i]);
                    }
                }
                assert forall|i: int|
                    0 <= i < longer.len() && (#[trigger] longer[i]) is Disconnected implies i
                    == longer.len() - 1 by {
                    if i < events.len() {
                        assert(longer[i] == events[i]);
                    }
                }
                if events.len() > 0 {
                    assert(longer[0] == events[0]);
                }
            },
            None => {},
        }
    }
}

/// A handshake that fails ends the worker in silence: where the prompt
/// cannot be written or the name cannot be read, the worker stops and the
/// registry never hears of the connection.
pub proof fn law_failed_handshake_is_silent<C>(worker: Worker<C>)
    ensures
        worker.phase is Greeting ==> advance_model(worker, SignalModel::WriteFailed) == (
            Worker { address: worker.address, phase: Phase::<C>::Stopped },
            None::<EventModel<C>>,
        ),
        worker.phase is AwaitingName ==> advance_model(worker, SignalModel::ReadFailed) == (
            Worker { address: worker.address, phase: Phase::<C>::Stopped },
            None::<EventModel<C>>,
        ),
{
}

/// A stopped worker stays stopped and silent.
pub proof fn law_worker_stop_is_final<C>(worker: Worker<C>, signal: SignalModel)
    requires
        worker.phase is Stopped,
    ensures
        advance_model(worker, signal) == (worker, None::<EventModel<C>>),
{
}

} // verus!

//! The registry as mathematics: its state is the sequence of its members in
//! the order they joined, and [`step`] says what each event does to it.
//!
//! The executable registry is proved to follow this model; the laws of the
//! relay are stated and proved over it.

use vstd::prelude::*;
use crate::address::Address;
use crate::text::{is_bare_newline, relay_text, WELCOME};

verus! {

/// A member of the registry: one live connection. `C` is whatever the caller
/// uses to write to it.
pub struct ClientModel<C> {
    /// The identity of the connection.
    pub address: Address,
    /// The name the client chose. Names need not be unique.
    pub display_name: Seq<char>,
    /// The write side of the connection.
    pub output_channel: C,
}

/// One thing that happened on a connection, as its worker tells it.
pub enum EventModel<C> {
    /// A client completed the handshake.
    Connected { address: Address, display_name: Seq<char>, output_channel: C },
    /// The peer closed the connection.
    Disconnected { address: Address },
    /// The client sent text.
    TextReceived { address: Address, content: Seq<char> },
}

impl<C> EventModel<C> {
    /// The address the event is about.
    pub open spec fn address(self) -> Address {
        match self {
            EventModel::Connected { address, .. } => address,
            EventModel::Disconnected { address } => address,
            EventModel::TextReceived { address, .. } => address,
        }
    }
}

/// One write the registry asks for: `text`, to the member at `to`.
pub struct DeliveryModel {
    pub to: Address,
    pub text: Seq<char>,
}

/// What the registry did with an event, and what is left for the caller to do.
pub enum OutcomeModel<C> {
    /// The client was registered; the welcome line is to be written to it.
    Joined { welcome: DeliveryModel },
    /// The address is in use: the registry is as it was, and the client that
    /// asked is handed back.
    Rejected { client: ClientModel<C> },
    /// The member was removed; its connection is to be shut down.
    Left { client: ClientModel<C> },
    /// The text is to be written to every other member.
    Relayed { deliveries: Seq<DeliveryModel> },
    /// The text was a bare newline: nothing is written.
    Suppressed,
    /// The event names an address that is not registered: nothing is done.
    Unknown,
}

impl<C> OutcomeModel<C> {
    /// The writes this outcome asks for, in order.
    pub open spec fn writes(self) -> Seq<DeliveryModel> {
        match self {
            OutcomeModel::Joined { welcome } => seq![welcome],
            OutcomeModel::Relayed { deliveries } => deliveries,
            _ => Seq::empty(),
        }
    }
}

/// Whether some member has the address.
pub open spec fn has_member<C>(members: Seq<ClientModel<C>>, address: Address) -> bool {
    exists|i: int| 0 <= i < members.len() && (#[trigger] members[i]).address == address
}

/// Where the member with the address stands, if there is one.
pub open spec fn position<C>(members: Seq<ClientModel<C>>, address: Address) -> int {
    choose|i: int| 0 <= i < members.len() && (#[trigger] members[i]).address == address
}

/// No two members share an address. Every registry keeps this.
pub open spec fn distinct<C>(members: Seq<ClientModel<C>>) -> bool {
    forall|i: int, j: int|
        0 <= i < j < members.len() ==> (#[trigger] members[i]).address != (
        #[trigger] members[j]).address
}

/// One write of `text` to each member but the one at `sender`, in the order
/// of the registry.
pub open spec fn relay_to<C>(
    members: Seq<ClientModel<C>>,
    sender: Address,
    text: Seq<char>,
) -> Seq<DeliveryModel> {
    members.filter(|m: ClientModel<C>| m.address != sender).map_values(
        |m: ClientModel<C>| DeliveryModel { to: m.address, text },
    )
}

/// The writes that relay `content` from the member at `sender`: to each other
/// member, the line that names the sender and carries the content.
pub open spec fn relay<C>(
    members: Seq<ClientModel<C>>,
    sender: Address,
    content: Seq<char>,
) -> Seq<DeliveryModel> {
    relay_to(
        members,
        sender,
        relay_text(members[position(members, sender)].display_name, content),
    )
}

/// The transition of the registry: the members after `event`, and the outcome
/// to act on.
pub open spec fn step<C>(members: Seq<ClientModel<C>>, event: EventModel<C>) -> (
    Seq<ClientModel<C>>,
    OutcomeModel<C>,
) {
    match event {
        EventModel::Connected { address, display_name, output_channel } => {
            let client = ClientModel { address, display_name, output_channel };
            if has_member(members, address) {
                (members, OutcomeModel::Rejected { client })
            } else {
                (
                    members.push(client),
                    OutcomeModel::Joined {
                        welcome: DeliveryModel { to: address, text: WELCOME@ },
                    },
                )
            }
        },
        EventModel::Disconnected { address } => {
            if has_member(members, address) {
                let i = position(members, address);
                (members.remove(i), OutcomeModel::Left { client: members[i] })
            } else {
                (members, OutcomeModel::Unknown)
            }
        },
        EventModel::TextReceived { address, content } => {
            if is_bare_newline(content) {
                (members, OutcomeModel::Suppressed)
            } else if has_member(members, address) {
                (members, OutcomeModel::Relayed { deliveries: relay(members, address, content) })
            } else {
                (members, OutcomeModel::Unknown)
            }
        },
    }
}

/// The members after a run of events, applied in order.
pub open spec fn run<C>(members: Seq<ClientModel<C>>, events: Seq<EventModel<C>>) -> Seq<
    ClientModel<C>,
>
    decreases events.len(),
{
    if events.len() == 0 {
        members
    } else {
        step(run(members, events.drop_last()), events.last()).0
    }
}

/// What a new last member adds to a relay: one write to it, unless it is the
/// sender.
pub proof fn lemma_relay_to_push<C>(
    members: Seq<ClientModel<C>>,
    last: ClientModel<C>,
    sender: Address,
    text: Seq<char>,
)
    ensures
        relay_to(members.push(last), sender, text) == if last.address != sender {
            relay_to(members, sender, text).push(DeliveryModel { to: last.address, text })
        } else {
            relay_to(members, sender, text)
        },
{
    let others = |m: ClientModel<C>| m.address != sender;
    let write = |m: ClientModel<C>| DeliveryModel { to: m.address, text };
    members.lemma_filter_push(last, others);
    if last.address != sender {
        assert(members.filter(others).push(last).map_values(write) =~= members.filter(
            others,
        ).map_values(write).push(write(last)));
    }
}

} // verus!

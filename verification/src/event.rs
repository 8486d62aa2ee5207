//! What goes into the registry and what comes out of it.

use vstd::prelude::*;
use crate::address::Address;
use crate::model::{ClientModel, DeliveryModel, EventModel, OutcomeModel};

verus! {

/// One live connection as the registry knows it. `C` is the write side of
/// the connection: the registry keeps it and hands it out, and never looks
/// inside.
#[derive(Debug, PartialEq, Eq)]
pub struct ClientHandle<C> {
    /// The identity of the connection.
    pub address: Address,
    /// The name the client chose. Names need not be unique.
    pub display_name: String,
    /// The write side of the connection.
    pub output_channel: C,
}

impl<C> View for ClientHandle<C> {
    type V = ClientModel<C>;

    open spec fn view(&self) -> ClientModel<C> {
        ClientModel {
            address: self.address,
            display_name: self.display_name@,
            output_channel: self.output_channel,
        }
    }
}

/// One thing that happened on a connection, as its worker tells it.
#[derive(Debug, PartialEq, Eq)]
pub enum Event<C> {
    /// A client completed the handshake.
    Connected { address: Address, display_name: String, output_channel: C },
    /// The peer closed the connection.
    Disconnected { address: Address },
    /// The client sent text.
    TextReceived { address: Address, content: String },
}

impl<C> View for Event<C> {
    type V = EventModel<C>;

    open spec fn view(&self) -> EventModel<C> {
        match *self {
            Event::Connected { address, display_name, output_channel } => EventModel::Connected {
                address,
                display_name: display_name@,
                output_channel,
            },
            Event::Disconnected { address } => EventModel::Disconnected { address },
            Event::TextReceived { address, content } => EventModel::TextReceived {
                address,
                content: content@,
            },
        }
    }
}

/// One write the registry asks for: `text`, to the member at `to`.
#[derive(Debug, PartialEq, Eq)]
pub struct Delivery {
    pub to: Address,
    pub text: String,
}

impl View for Delivery {
    type V = DeliveryModel;

    open spec fn view(&self) -> DeliveryModel {
        DeliveryModel { to: self.to, text: self.text@ }
    }
}

/// The writes in `deliveries`, as the model has them.
pub open spec fn delivery_models(deliveries: Seq<Delivery>) -> Seq<DeliveryModel> {
    deliveries.map_values(|d: Delivery| d@)
}

/// What the registry did with an event, and what is left for the caller to do.
#[derive(Debug, PartialEq, Eq)]
pub enum Outcome<C> {
    /// The client was registered; the welcome line is to be written to it.
    Joined { welcome: Delivery },
    /// The address is in use: the registry is as it was, and the client that
    /// asked is handed back.
    Rejected { client: ClientHandle<C> },
    /// The member was removed; its connection is to be shut down.
    Left { client: ClientHandle<C> },
    /// The text is to be written to every other member.
    Relayed { deliveries: Vec<Delivery> },
    /// The text was a bare newline: nothing is written.
    Suppressed,
    /// The event names an address that is not registered: nothing is done.
    Unknown,
}

impl<C> View for Outcome<C> {
    type V = OutcomeModel<C>;

    open spec fn view(&self) -> OutcomeModel<C> {
        match *self {
            Outcome::Joined { welcome } => OutcomeModel::Joined { welcome: welcome@ },
            Outcome::Rejected { client } => OutcomeModel::Rejected { client: client@ },
            Outcome::Left { client } => OutcomeModel::Left { client: client@ },
            Outcome::Relayed { deliveries } => OutcomeModel::Relayed {
                deliveries: delivery_models(deliveries@),
            },
            Outcome::Suppressed => OutcomeModel::Suppressed,
            Outcome::Unknown => OutcomeModel::Unknown,
        }
    }
}

} // verus!

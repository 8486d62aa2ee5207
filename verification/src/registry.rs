//! The registry of connected clients: the one owner of the membership, and
//! the one place where text is fanned out.

use vstd::prelude::*;
use crate::address::Address;
use crate::event::{delivery_models, ClientHandle, Delivery, Event, Outcome};
use crate::laws::law_no_self_delivery;
use crate::model::{
    distinct, has_member, lemma_relay_to_push, position, relay, relay_to, step, ClientModel,
    DeliveryModel, OutcomeModel,
};
use crate::text::{bare_newline, is_bare_newline, relay_line, relay_text, WELCOME};

verus! {

/// The clients that are connected, each under its address.
pub struct Registry<C> {
    clients: Vec<ClientHandle<C>>,
}

impl<C> View for Registry<C> {
    type V = Seq<ClientModel<C>>;

    /// The members, in the order they joined.
    closed spec fn view(&self) -> Seq<ClientModel<C>> {
        self.clients@.map_values(|client: ClientHandle<C>| client@)
    }
}

impl<C> Registry<C> {
    /// What every registry holds to: no address is registered twice.
    #[verifier::type_invariant]
    spec fn valid(self) -> bool {
        distinct(self@)
    }

    /// A registry without members.
    pub fn new() -> (registry: Self)
        ensures
            registry@ == Seq::<ClientModel<C>>::empty(),
    {
        let registry = Registry { clients: Vec::new() };
        assert(registry@ =~= Seq::<ClientModel<C>>::empty());
        registry
    }

    /// The number of members.
    pub fn len(&self) -> (n: usize)
        ensures
            n == self@.len(),
            distinct(self@),
    {
        proof {
            use_type_invariant(self);
        }
        self.clients.len()
    }

    /// Where the member with the address stands in the vector, if there is
    /// one.
    fn find(&self, address: Address) -> (found: Option<usize>)
        ensures
            distinct(self@),
            self@.len() == self.clients@.len(),
            match found {
                Some(i) => i < self@.len() && self@[i as int].address == address && i
                    == position(self@, address) && has_member(self@, address),
                None => !has_member(self@, address),
            },
    {
        proof {
            use_type_invariant(self);
        }
        let mut i: usize = 0;
        while i < self.clients.len()
            invariant
                i <= self.clients@.len(),
                distinct(self@),
                forall|j: int| 0 <= j < i ==> (#[trigger] self@[j]).address != address,
            decreases self.clients@.len() - i,
        {
            if self.clients[i].address == address {
                assert(self@[i as int].address == address);
                return Some(i);
            }
            i += 1;
        }
        None
    }

    /// Takes the members out, to change them while the registry stays valid.
    fn take_clients(&mut self) -> (clients: Vec<ClientHandle<C>>)
        ensures
            clients@.map_values(|c: ClientHandle<C>| c@) == old(self)@,
            final(self)@ == Seq::<ClientModel<C>>::empty(),
    {
        let mut clients: Vec<ClientHandle<C>> = Vec::new();
        assert(clients@.map_values(|c: ClientHandle<C>| c@) =~= Seq::<ClientModel<C>>::empty());
        core::mem::swap(&mut self.clients, &mut clients);
        clients
    }

    /// Puts the members back.
    fn put_clients(&mut self, clients: Vec<ClientHandle<C>>)
        requires
            distinct(clients@.map_values(|c: ClientHandle<C>| c@)),
        ensures
            final(self)@ == clients@.map_values(|c: ClientHandle<C>| c@),
    {
        let mut clients = clients;
        core::mem::swap(&mut self.clients, &mut clients);
    }

    /// Whether the registry has no members.
    pub fn is_empty(&self) -> (empty: bool)
        ensures
            empty == (self@.len() == 0),
    {
        self.clients.len() == 0
    }

    /// Whether a client is registered under the address.
    pub fn contains(&self, address: Address) -> (found: bool)
        ensures
            found == has_member(self@, address),
            distinct(self@),
    {
        self.find(address).is_some()
    }

    /// The member at the address, if there is one.
    pub fn get(&self, address: Address) -> (found: Option<&ClientHandle<C>>)
        ensures
            match found {
                Some(client) => has_member(self@, address) && client@ == self@[position(
                    self@,
                    address,
                )],
                None => !has_member(self@, address),
            },
            distinct(self@),
    {
        match self.find(address) {
            Some(i) => Some(&self.clients[i]),
            None => None,
        }
    }

    /// Registers a client that completed the handshake.
    ///
    /// Where the address is free, the client becomes the last member and the
    /// welcome line is owed to it. Where a member has the address already,
    /// nothing changes and the client comes back in the outcome.
    pub fn connect(&mut self, client: ClientHandle<C>) -> (outcome: Outcome<C>)
        ensures
            distinct(final(self)@),
            has_member(old(self)@, client.address) ==> final(self)@ == old(self)@ && outcome@ == (
            OutcomeModel::Rejected { client: client@ }),
            !has_member(old(self)@, client.address) ==> final(self)@ == old(self)@.push(client@)
                && outcome@ == (OutcomeModel::<C>::Joined {
                welcome: DeliveryModel { to: client.address, text: WELCOME@ },
            }),
    {
        let address = client.address;
        match self.find(address) {
            Some(_) => Outcome::Rejected { client },
            None => {
                let mut clients = self.take_clients();
                clients.push(client);
                proof {
                    assert(clients@.map_values(|c: ClientHandle<C>| c@) =~= old(self)@.push(
                        client@,
                    ));
                }
                self.put_clients(clients);
                Outcome::Joined { welcome: Delivery { to: address, text: WELCOME.to_owned() } }
            },
        }
    }

    /// Removes the member at the address, whose connection has ended.
    ///
    /// The removed member comes back in the outcome, for its connection to be
    /// shut down. Where no member has the address, nothing changes.
    pub fn disconnect(&mut self, address: Address) -> (outcome: Outcome<C>)
        ensures
            distinct(final(self)@),
            has_member(old(self)@, address) ==> final(self)@ == old(self)@.remove(
                position(old(self)@, address),
            ) && outcome@ == (OutcomeModel::Left {
                client: old(self)@[position(old(self)@, address)],
            }),
            !has_member(old(self)@, address) ==> final(self)@ == old(self)@ && outcome@
                == OutcomeModel::<C>::Unknown,
    {
        match self.find(address) {
            Some(i) => {
                let mut clients = self.take_clients();
                let client = clients.remove(i);
                proof {
                    assert(clients@.map_values(|c: ClientHandle<C>| c@) =~= old(self)@.remove(
                        i as int,
                    ));
                }
                self.put_clients(clients);
                Outcome::Left { client }
            },
            None => Outcome::Unknown,
        }
    }

    /// Relays text that the member at `address` sent.
    ///
    /// A bare newline is suppressed. Any other text goes to every member but
    /// the sender, in the order of the registry, each time as the line that
    /// names the sender. Where no member has the address, nothing is done.
    /// The registry itself is never changed.
    pub fn broadcast(&self, address: Address, content: &str) -> (outcome: Outcome<C>)
        ensures
            is_bare_newline(content@) ==> outcome@ == OutcomeModel::<C>::Suppressed,
            !is_bare_newline(content@) && has_member(self@, address) ==> outcome@ == (
            OutcomeModel::<C>::Relayed { deliveries: relay(self@, address, content@) }),
            !is_bare_newline(content@) && !has_member(self@, address) ==> outcome@
                == OutcomeModel::<C>::Unknown,
            forall|k: int|
                0 <= k < outcome@.writes().len() ==> (#[trigger] outcome@.writes()[k]).to
                    != address,
            distinct(self@),
    {
        proof {
            use_type_invariant(self);
        }
        if bare_newline(content) {
            return Outcome::Suppressed;
        }
        let i = match self.find(address) {
            Some(i) => i,
            None => {
                return Outcome::Unknown;
            },
        };
        let name = self.clients[i].display_name.as_str();
        let ghost text = relay_text(name@, content@);
        let mut deliveries: Vec<Delivery> = Vec::new();
        let mut k: usize = 0;
        proof {
            assert(self@.take(0) =~= Seq::<ClientModel<C>>::empty());
            assert(delivery_models(deliveries@) =~= relay_to(self@.take(0), address, text));
        }
        while k < self.clients.len()
            invariant
                k <= self.clients@.len(),
                self@.len() == self.clients@.len(),
                text == relay_text(name@, content@),
                delivery_models(deliveries@) == relay_to(self@.take(k as int), address, text),
            decreases self.clients@.len() - k,
        {
            let to = self.clients[k].address;
            proof {
                lemma_relay_to_push(self@.take(k as int), self@[k as int], address, text);
                assert(self@.take(k + 1) =~= self@.take(k as int).push(self@[k as int]));
            }
            if to != address {
                let ghost before = deliveries@;
                let delivery = Delivery { to, text: relay_line(name, content) };
                deliveries.push(delivery);
                proof {
                    assert(delivery_models(deliveries@) =~= delivery_models(before).push(
                        delivery@,
                    ));
                }
            }
            k += 1;
        }
        proof {
            assert(self@.take(k as int) =~= self@);
            law_no_self_delivery(self@, address, content@);
        }
        Outcome::Relayed { deliveries }
    }

    /// Applies one event: the registry changes as the event asks, and the
    /// outcome says what is left for the caller to do.
    ///
    /// Every event is taken, whatever the registry holds. Text never changes
    /// the membership and is never written back to where it came from; a bare
    /// newline is written to nobody; and an event about an address that is
    /// not registered, other than a connect, does nothing at all.
    pub fn process(&mut self, event: Event<C>) -> (outcome: Outcome<C>)
        ensures
            (final(self)@, outcome@) == step(old(self)@, event@),
            distinct(final(self)@),
            event@ is TextReceived ==> final(self)@ == old(self)@ && forall|k: int|
                0 <= k < outcome@.writes().len() ==> (#[trigger] outcome@.writes()[k]).to
                    != event@.address(),
            event@ is TextReceived && is_bare_newline(event@->content) ==> outcome@.writes().len()
                == 0,
            !(event@ is Connected) && !has_member(old(self)@, event@.address()) ==> final(self)@
                == old(self)@ && outcome@.writes().len() == 0,
    {
        match event {
            Event::Connected { address, display_name, output_channel } => self.connect(
                ClientHandle { address, display_name, output_channel },
            ),
            Event::Disconnected { address } => self.disconnect(address),
            Event::TextReceived { address, content } => {
                proof {
                    use_type_invariant(&*self);
                }
                self.broadcast(address, content.as_str())
            },
        }
    }
}

} // verus!

use std::collections::HashMap;
use vstd::prelude::*;
use crate::address::{Address, AddressView, Protocol};
use crate::error::ErrorKind;

verus! {

broadcast use vstd::std_specs::hash::group_hash_axioms;

/// The numeric identifier of an actor.
pub type ActorID = u64;

/// An amount of tokens.
pub type TokenAmount = u128;

/// A reference to content: to an actor's code, or to its state.
#[derive(Clone, Copy, Debug, PartialEq, Eq, Structural)]
pub struct Cid(pub u64);

/// What the state tree holds of one actor.
#[derive(Clone, Copy, Debug, PartialEq, Eq, Structural)]
pub struct ActorState {
    pub code: Cid,
    pub balance: TokenAmount,
    pub sequence: u64,
    pub state_root: Cid,
}

/// One line of the address index: the address and the id it resolves to.
pub struct IndexEntry {
    pub addr: Address,
    pub id: ActorID,
}

/// What the state tree is: the actors by id, the address index in the order
/// in which its lines were written, and the id that the next new actor gets.
pub struct TreeView {
    pub actors: Map<ActorID, ActorState>,
    pub index: Seq<(AddressView, ActorID)>,
    pub next_id: ActorID,
}

/// The actors of one machine, and the index from address to id.
pub struct StateTree {
    actors: HashMap<ActorID, ActorState>,
    index: Vec<IndexEntry>,
    next_id: ActorID,
}

impl View for StateTree {
    type V = TreeView;

    closed spec fn view(&self) -> TreeView {
        TreeView {
            actors: self.actors@,
            index: Seq::new(self.index@.len(), |i: int| (self.index@[i].addr@, self.index@[i].id)),
            next_id: self.next_id,
        }
    }
}

/// The id that the index gives for an address: that of the last line
/// written for it.
pub open spec fn index_lookup(index: Seq<(AddressView, ActorID)>, addr: AddressView) -> Option<
    ActorID,
>
    decreases index.len(),
{
    if index.len() == 0 {
        None
    } else if index.last().0 == addr {
        Some(index.last().1)
    } else {
        index_lookup(index.drop_last(), addr)
    }
}

/// How a transfer ends, and the actors after it.
pub open spec fn transfer_spec(
    actors: Map<ActorID, ActorState>,
    from: ActorID,
    to: ActorID,
    value: TokenAmount,
) -> (Result<(), ErrorKind>, Map<ActorID, ActorState>) {
    if !actors.contains_key(from) {
        (Err(ErrorKind::IllegalArgument), actors)
    } else if actors[from].balance < value {
        (Err(ErrorKind::InsufficientFunds), actors)
    } else if !actors.contains_key(to) {
        (Err(ErrorKind::InvalidReceiver), actors)
    } else if from == to {
        (Ok(()), actors)
    } else if actors[to].balance + value > u128::MAX {
        (Err(ErrorKind::IllegalArgument), actors)
    } else {
        (
            Ok(()),
            actors.insert(
                from,
                ActorState { balance: (actors[from].balance - value) as u128, ..actors[from] },
            ).insert(to, ActorState { balance: (actors[to].balance + value) as u128, ..actors[to] }),
        )
    }
}

impl TreeView {
    /// The id that an address resolves to without creating anything: its
    /// own where it is an id, else what the index gives.
    pub open spec fn lookup_id(&self, addr: AddressView) -> Option<ActorID> {
        if addr.protocol == Protocol::Id {
            Some(addr.id)
        } else {
            index_lookup(self.index, addr)
        }
    }

    /// The state of the actor with the given id.
    pub open spec fn get_actor(&self, id: ActorID) -> Option<ActorState> {
        if self.actors.contains_key(id) {
            Some(self.actors[id])
        } else {
            None
        }
    }

    /// The tree with one actor set.
    pub open spec fn set_actor(&self, id: ActorID, state: ActorState) -> TreeView {
        TreeView { actors: self.actors.insert(id, state), ..*self }
    }

    /// The tree after a new actor was entered under an address.
    pub open spec fn create_actor(&self, addr: AddressView, state: ActorState) -> TreeView {
        TreeView {
            actors: self.actors.insert(self.next_id, state),
            index: self.index.push((addr, self.next_id)),
            next_id: (self.next_id + 1) as u64,
        }
    }

    /// How a transfer ends, and the tree after it.
    pub open spec fn transfer(&self, from: ActorID, to: ActorID, value: TokenAmount) -> (
        Result<(), ErrorKind>,
        TreeView,
    ) {
        (
            transfer_spec(self.actors, from, to, value).0,
            TreeView { actors: transfer_spec(self.actors, from, to, value).1, ..*self },
        )
    }
}

impl StateTree {
    /// A tree without actors, whose first new actor gets `next_id`.
    pub fn new(next_id: ActorID) -> (r: StateTree)
        ensures
            r@ == (TreeView { actors: Map::empty(), index: Seq::empty(), next_id }),
    {
        let r = StateTree { actors: HashMap::new(), index: Vec::new(), next_id };
        proof {
            assert(r@.index =~= Seq::empty());
        }
        r
    }

    /// The id of an address, where it is one or the index has it.
    pub fn lookup_id(&self, addr: &Address) -> (r: Option<ActorID>)
        ensures
            r == self@.lookup_id(addr@),
    {
        if let Some(id) = addr.id() {
            return Some(id);
        }
        let mut i: usize = self.index.len();
        proof {
            assert(self@.index.take(i as int) =~= self@.index);
        }
        while i > 0
            invariant
                0 <= i <= self.index.len(),
                self@.index.len() == self.index.len(),
                addr@.protocol != Protocol::Id,
                index_lookup(self@.index, addr@) == index_lookup(self@.index.take(i as int), addr@),
            decreases i,
        {
            proof {
                let part = self@.index.take(i as int);
                assert(part.drop_last() =~= self@.index.take(i - 1));
                assert(part.last() == (self.index@[i - 1].addr@, self.index@[i - 1].id));
            }
            i -= 1;
            if self.index[i].addr.same(addr) {
                return Some(self.index[i].id);
            }
        }
        None
    }

    /// The state of the actor with the given id, where there is one.
    pub fn get_actor_id(&self, id: ActorID) -> (r: Option<ActorState>)
        ensures
            r == self@.get_actor(id),
    {
        match self.actors.get(&id) {
            Some(state) => Some(*state),
            None => None,
        }
    }

    /// Sets the state of the actor with the given id.
    pub fn set_actor_id(&mut self, id: ActorID, state: ActorState)
        ensures
            final(self)@ == old(self)@.set_actor(id, state),
    {
        self.actors.insert(id, state);
    }

    /// Enters a new actor under an address and gives its id. Fails with
    /// `IllegalArgument`, changing nothing, where the ids are used up.
    pub fn create_actor(&mut self, addr: &Address, state: ActorState) -> (r: Result<
        ActorID,
        ErrorKind,
    >)
        ensures
            old(self)@.next_id == u64::MAX ==> r == Err::<ActorID, ErrorKind>(
                ErrorKind::IllegalArgument,
            ) && final(self)@ == old(self)@,
            old(self)@.next_id < u64::MAX ==> r == Ok::<ActorID, ErrorKind>(old(self)@.next_id)
                && final(self)@ == old(self)@.create_actor(addr@, state),
    {
        if self.next_id == u64::MAX {
            return Err(ErrorKind::IllegalArgument);
        }
        let id: ActorID = self.next_id;
        self.index.push(IndexEntry { addr: addr.duplicate(), id });
        self.actors.insert(id, state);
        self.next_id = id + 1;
        proof {
            assert(final(self)@.index =~= old(self)@.index.push((addr@, id)));
        }
        Ok(id)
    }

    /// Moves `value` from one actor's balance to another's, or fails and
    /// changes nothing.
    pub fn transfer(&mut self, from: ActorID, to: ActorID, value: TokenAmount) -> (r: Result<
        (),
        ErrorKind,
    >)
        ensures
            (r, final(self)@) == old(self)@.transfer(from, to, value),
    {
        let sender: ActorState = match self.actors.get(&from) {
            Some(state) => *state,
            None => {
                return Err(ErrorKind::IllegalArgument);
            },
        };
        if sender.balance < value {
            return Err(ErrorKind::InsufficientFunds);
        }
        let receiver: ActorState = match self.actors.get(&to) {
            Some(state) => *state,
            None => {
                return Err(ErrorKind::InvalidReceiver);
            },
        };
        if from == to {
            return Ok(());
        }
        if receiver.balance > u128::MAX - value {
            return Err(ErrorKind::IllegalArgument);
        }
        self.actors.insert(from, ActorState { balance: sender.balance - value, ..sender });
        self.actors.insert(to, ActorState { balance: receiver.balance + value, ..receiver });
        Ok(())
    }
}

/// Once an actor was entered under an address that is no id, the address
/// resolves to that actor's id, and resolves to it again however often it
/// is asked: looking up changes nothing.
pub proof fn lemma_created_address_resolves(tree: TreeView, addr: AddressView, state: ActorState)
    requires
        addr.protocol != Protocol::Id,
    ensures
        tree.create_actor(addr, state).lookup_id(addr) == Some(tree.next_id),
        tree.create_actor(addr, state).get_actor(tree.next_id) == Some(state),
{
    let after = tree.create_actor(addr, state);
    assert(after.index.last() == (addr, tree.next_id));
}

/// A transfer of more than the sender has fails with `InsufficientFunds`
/// and leaves every balance as it was.
pub proof fn lemma_overdraft_changes_nothing(
    tree: TreeView,
    from: ActorID,
    to: ActorID,
    value: TokenAmount,
)
    requires
        tree.actors.contains_key(from),
        value > tree.actors[from].balance,
    ensures
        tree.transfer(from, to, value) == (
            Err::<(), ErrorKind>(ErrorKind::InsufficientFunds),
            tree,
        ),
{
}

/// A transfer that succeeds between two different actors takes from the
/// one exactly what it gives to the other, and touches no third actor.
pub proof fn lemma_transfer_conserves(
    tree: TreeView,
    from: ActorID,
    to: ActorID,
    value: TokenAmount,
)
    requires
        from != to,
        tree.transfer(from, to, value).0 is Ok,
    ensures
        ({
            let after = tree.transfer(from, to, value).1;
            &&& after.actors[from].balance == tree.actors[from].balance - value
            &&& after.actors[to].balance == tree.actors[to].balance + value
            &&& after.actors.dom() == tree.actors.dom()
            &&& forall|id: ActorID|
                id != from && id != to && tree.actors.contains_key(id)
                    ==> after.actors[id] == tree.actors[id]
        }),
{
    let after = tree.transfer(from, to, value).1;
    assert(after.actors.dom() =~= tree.actors.dom());
}

} // verus!

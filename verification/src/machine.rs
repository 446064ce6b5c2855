use vstd::prelude::*;
use crate::gas::GasCharge;
use crate::kernel::copy_bytes;
use crate::state_tree::{ActorState, Cid, StateTree, TokenAmount, TreeView};

verus! {

/// The number of a method of an actor.
pub type MethodNum = u64;

/// The method that only moves value: no code runs for it.
pub const METHOD_SEND: MethodNum = 0;

/// The method that sets a new actor up.
pub const METHOD_CONSTRUCTOR: MethodNum = 1;

/// The prices of the metered operations of a send.
#[derive(Clone, Copy, Debug, PartialEq, Eq, Structural)]
pub struct PriceList {
    pub create_actor_compute: u32,
    pub create_actor_storage: u32,
    pub send_base: u32,
    pub send_transfer_funds: u32,
    pub send_transfer_only_premium: u32,
    pub send_invoke_method: u32,
}

impl PriceList {
    /// The price of entering a new actor.
    pub open spec fn create_actor_charge(&self) -> GasCharge {
        GasCharge {
            compute_gas: self.create_actor_compute as i64,
            storage_gas: self.create_actor_storage as i64,
        }
    }

    /// The price of invoking a method: the base price; for a value that is
    /// not zero the price of the transfer, and a premium where nothing but
    /// the transfer is asked; for any other method the price of running it.
    pub open spec fn method_invocation_charge(
        &self,
        value: TokenAmount,
        method: MethodNum,
    ) -> GasCharge {
        let transfer: int = if value != 0 {
            self.send_transfer_funds + if method == METHOD_SEND {
                self.send_transfer_only_premium as int
            } else {
                0
            }
        } else {
            0
        };
        let invoke: int = if method != METHOD_SEND {
            self.send_invoke_method as int
        } else {
            0
        };
        GasCharge { compute_gas: (self.send_base + transfer + invoke) as i64, storage_gas: 0 }
    }

    /// The price of entering a new actor.
    pub fn on_create_actor(&self) -> (r: GasCharge)
        ensures
            r == self.create_actor_charge(),
            r.wf(),
    {
        GasCharge {
            compute_gas: self.create_actor_compute as i64,
            storage_gas: self.create_actor_storage as i64,
        }
    }

    /// The price of invoking `method` with `value`.
    pub fn on_method_invocation(&self, value: TokenAmount, method: MethodNum) -> (r: GasCharge)
        ensures
            r == self.method_invocation_charge(value, method),
            r.wf(),
    {
        let mut gas: i64 = self.send_base as i64;
        if value != 0 {
            gas = gas + self.send_transfer_funds as i64;
            if method == METHOD_SEND {
                gas = gas + self.send_transfer_only_premium as i64;
            }
        }
        if method != METHOD_SEND {
            gas = gas + self.send_invoke_method as i64;
        }
        GasCharge { compute_gas: gas, storage_gas: 0 }
    }
}

/// One block of the store: the reference it is kept under, and its bytes.
pub struct StoredBlock {
    pub cid: Cid,
    pub data: Vec<u8>,
}

/// The blocks that a machine keeps, by reference: the code of the actors
/// among them.
pub struct BlockStore {
    blocks: Vec<StoredBlock>,
}

impl View for BlockStore {
    type V = Seq<(Cid, Seq<u8>)>;

    closed spec fn view(&self) -> Seq<(Cid, Seq<u8>)> {
        Seq::new(self.blocks@.len(), |i: int| (self.blocks@[i].cid, self.blocks@[i].data@))
    }
}

/// The bytes that a store gives for a reference: those last put under it.
pub open spec fn store_lookup(blocks: Seq<(Cid, Seq<u8>)>, cid: Cid) -> Option<Seq<u8>>
    decreases blocks.len(),
{
    if blocks.len() == 0 {
        None
    } else if blocks.last().0 == cid {
        Some(blocks.last().1)
    } else {
        store_lookup(blocks.drop_last(), cid)
    }
}

impl BlockStore {
    /// A store without blocks.
    pub fn new() -> (r: BlockStore)
        ensures
            r@ == Seq::<(Cid, Seq<u8>)>::empty(),
    {
        let r = BlockStore { blocks: Vec::new() };
        proof {
            assert(r@ =~= Seq::<(Cid, Seq<u8>)>::empty());
        }
        r
    }

    /// Keeps bytes under a reference.
    pub fn put(&mut self, cid: Cid, data: &Vec<u8>)
        ensures
            final(self)@ == old(self)@.push((cid, data@)),
    {
        self.blocks.push(StoredBlock { cid, data: copy_bytes(data) });
        proof {
            assert(final(self)@ =~= old(self)@.push((cid, data@)));
        }
    }

    /// The bytes kept under a reference, where there are any.
    pub fn get(&self, cid: Cid) -> (r: Option<Vec<u8>>)
        ensures
            match store_lookup(self@, cid) {
                None => r is None,
                Some(bytes) => r is Some && r->0@ == bytes,
            },
    {
        let mut i: usize = self.blocks.len();
        proof {
            assert(self@.take(i as int) =~= self@);
        }
        while i > 0
            invariant
                0 <= i <= self.blocks.len(),
                self@.len() == self.blocks.len(),
                store_lookup(self@, cid) == store_lookup(self@.take(i as int), cid),
            decreases i,
        {
            proof {
                let part = self@.take(i as int);
                assert(part.drop_last() =~= self@.take(i - 1));
                assert(part.last() == (self.blocks@[i - 1].cid, self.blocks@[i - 1].data@));
            }
            i -= 1;
            if self.blocks[i].cid.0 == cid.0 {
                return Some(copy_bytes(&self.blocks[i].data));
            }
        }
        None
    }
}

/// What a machine is.
pub struct MachineView {
    pub tree: TreeView,
    pub blocks: Seq<(Cid, Seq<u8>)>,
    pub prices: PriceList,
    pub account_code: Cid,
    pub empty_state: Cid,
}

impl MachineView {
    /// The state that a new account actor starts with.
    pub open spec fn account_zero_state(&self) -> ActorState {
        ActorState {
            code: self.account_code,
            balance: 0,
            sequence: 0,
            state_root: self.empty_state,
        }
    }
}

/// The world that one top-level message runs in: the state tree, the
/// prices, and what a new account actor is made of.
pub struct Machine {
    pub state_tree: StateTree,
    pub blocks: BlockStore,
    pub prices: PriceList,
    pub account_code: Cid,
    pub empty_state: Cid,
}

impl View for Machine {
    type V = MachineView;

    open spec fn view(&self) -> MachineView {
        MachineView {
            tree: self.state_tree@,
            blocks: self.blocks@,
            prices: self.prices,
            account_code: self.account_code,
            empty_state: self.empty_state,
        }
    }
}

impl Machine {
    /// A machine over a state tree and a block store.
    pub fn new(
        state_tree: StateTree,
        blocks: BlockStore,
        prices: PriceList,
        account_code: Cid,
        empty_state: Cid,
    ) -> (r: Machine)
        ensures
            r@ == (MachineView {
                tree: state_tree@,
                blocks: blocks@,
                prices,
                account_code,
                empty_state,
            }),
    {
        Machine { state_tree, blocks, prices, account_code, empty_state }
    }

    /// The state that a new account actor starts with.
    pub fn account_zero_state(&self) -> (r: ActorState)
        ensures
            r == self@.account_zero_state(),
    {
        ActorState {
            code: self.account_code,
            balance: 0,
            sequence: 0,
            state_root: self.empty_state,
        }
    }
}

} // verus!

use vstd::prelude::*;
use crate::error::ErrorKind;
use crate::machine::MethodNum;
use crate::address::Address;
use crate::gas::GasCharge;
use crate::manager::{sandbox_ok, send_rel, CallManager, InnerView};
use crate::state_tree::{ActorID, TokenAmount};

verus! {

/// The codec of the canonical binary encoding.
pub const DAG_CBOR: u64 = 0x71;

/// The handle of the first block of an execution context.
pub const FIRST_HANDLE: u32 = 1;

/// What a block is: a codec tag and bytes.
pub struct BlockView {
    pub codec: u64,
    pub data: Seq<u8>,
}

/// A byte payload with its codec tag: the only data that crosses the
/// sandbox boundary.
#[derive(Debug)]
pub struct Block {
    pub codec: u64,
    pub data: Vec<u8>,
}

impl View for Block {
    type V = BlockView;

    open spec fn view(&self) -> BlockView {
        BlockView { codec: self.codec, data: self.data@ }
    }
}

/// What a send returns, by value.
pub open spec fn result_view(r: Result<Block, ErrorKind>) -> Result<BlockView, ErrorKind> {
    match r {
        Ok(block) => Ok(block@),
        Err(e) => Err(e),
    }
}

/// The same bytes, anew.
pub fn copy_bytes(bytes: &Vec<u8>) -> (r: Vec<u8>)
    ensures
        r@ == bytes@,
{
    let mut out: Vec<u8> = Vec::new();
    let mut i: usize = 0;
    while i < bytes.len()
        invariant
            0 <= i <= bytes.len(),
            out@ == bytes@.take(i as int),
        decreases bytes.len() - i,
    {
        out.push(bytes[i]);
        proof {
            assert(out@ =~= bytes@.take(i + 1));
        }
        i += 1;
    }
    proof {
        assert(bytes@.take(bytes@.len() as int) =~= bytes@);
    }
    out
}

/// What a kernel is: the call manager it holds (or none, once taken), the
/// blocks of its execution context by handle, and the message it runs.
pub struct KernelView {
    pub manager: Option<InnerView>,
    pub blocks: Seq<BlockView>,
    pub from: ActorID,
    pub to: ActorID,
    pub method: MethodNum,
    pub value: TokenAmount,
}

impl KernelView {
    /// The kernel holds a call manager in working order.
    pub open spec fn wf(&self) -> bool {
        self.manager is Some && self.manager->0.wf()
    }

    /// Whether a handle names a block of this context.
    pub open spec fn has_block(&self, handle: u32) -> bool {
        FIRST_HANDLE <= handle <= self.blocks.len()
    }

    /// The block behind a handle, or `IllegalArgument`.
    pub open spec fn block_get(&self, handle: u32) -> Result<BlockView, ErrorKind> {
        if self.has_block(handle) {
            Ok(self.blocks[handle - FIRST_HANDLE])
        } else {
            Err(ErrorKind::IllegalArgument)
        }
    }

    /// The context with one more block.
    pub open spec fn with_block(&self, block: BlockView) -> KernelView {
        KernelView { blocks: self.blocks.push(block), ..*self }
    }
}

/// The kernel that one invocation starts with: it holds the manager and the
/// parameters as its first block.
pub open spec fn kernel_start(
    manager: InnerView,
    from: ActorID,
    to: ActorID,
    method: MethodNum,
    value: TokenAmount,
    params: Seq<u8>,
) -> KernelView {
    KernelView {
        manager: Some(manager),
        blocks: seq![BlockView { codec: DAG_CBOR, data: params }],
        from,
        to,
        method,
        value,
    }
}

/// The state of one invocation: what the sandboxed code can reach through
/// the host operations.
pub struct Kernel {
    call_manager: CallManager,
    blocks: Vec<Block>,
    from: ActorID,
    to: ActorID,
    method: MethodNum,
    value: TokenAmount,
}

impl View for Kernel {
    type V = KernelView;

    closed spec fn view(&self) -> KernelView {
        KernelView {
            manager: self.call_manager@,
            blocks: Seq::new(self.blocks@.len(), |i: int| self.blocks@[i]@),
            from: self.from,
            to: self.to,
            method: self.method,
            value: self.value,
        }
    }
}

impl Kernel {
    /// A kernel for one invocation, which takes the call manager with it.
    pub fn new(
        call_manager: CallManager,
        from: ActorID,
        to: ActorID,
        method: MethodNum,
        value: TokenAmount,
    ) -> (r: Kernel)
        ensures
            r@ == (KernelView {
                manager: call_manager@,
                blocks: Seq::empty(),
                from,
                to,
                method,
                value,
            }),
    {
        let r = Kernel { call_manager, blocks: Vec::new(), from, to, method, value };
        proof {
            assert(r@.blocks =~= Seq::empty());
        }
        r
    }

    /// Whether the kernel holds a call manager that can be used.
    pub fn in_order(&self) -> (r: bool)
        ensures
            r == self@.wf(),
    {
        self.call_manager.in_order()
    }

    /// Ends the invocation and gives the call manager back.
    pub fn take(self) -> (r: CallManager)
        ensures
            r@ == self@.manager,
    {
        self.call_manager
    }

    /// The sender of the message.
    pub fn caller(&self) -> (r: ActorID)
        ensures
            r == self@.from,
    {
        self.from
    }

    /// The receiver of the message: the actor whose code runs.
    pub fn receiver(&self) -> (r: ActorID)
        ensures
            r == self@.to,
    {
        self.to
    }

    /// The method invoked.
    pub fn method_number(&self) -> (r: MethodNum)
        ensures
            r == self@.method,
    {
        self.method
    }

    /// The value sent with the message.
    pub fn value_received(&self) -> (r: TokenAmount)
        ensures
            r == self@.value,
    {
        self.value
    }

    /// Charges gas against the budget of the call stack.
    pub fn charge_gas(&mut self, charge: GasCharge) -> (r: Result<(), ErrorKind>)
        requires
            old(self)@.wf(),
            charge.wf(),
        ensures
            final(self)@.wf(),
            r == old(self)@.manager->0.charge(charge).0,
            final(self)@ == (KernelView {
                manager: Some(old(self)@.manager->0.charge(charge).1),
                ..old(self)@
            }),
    {
        self.call_manager.charge_gas(charge)
    }

    /// The gas that can still be charged.
    pub fn gas_available(&self) -> (r: i64)
        requires
            self@.wf(),
        ensures
            r == self@.manager->0.gas.gas_limit - self@.manager->0.gas.gas_used,
    {
        self.call_manager.gas_available()
    }

    /// The gas charged so far on the call stack.
    pub fn gas_used(&self) -> (r: i64)
        requires
            self@.wf(),
        ensures
            r == self@.manager->0.gas.gas_used,
    {
        self.call_manager.gas_used()
    }

    /// A nested send, in the name of the actor whose code runs: it goes
    /// through the call manager that this kernel holds, and leaves the
    /// kernel's own blocks and message as they are.
    pub fn send<M, L, R>(
        &mut self,
        to: Address,
        method: MethodNum,
        params: &Vec<u8>,
        value: TokenAmount,
        loader: &L,
        runner: &R,
    ) -> (r: Result<Block, ErrorKind>) where
        L: Fn(Vec<u8>) -> Result<M, ErrorKind>,
        R: Fn(Kernel, M, u32) -> (Result<u32, ErrorKind>, Kernel),

        requires
            old(self)@.wf(),
            sandbox_ok(*loader, *runner),
        ensures
            final(self)@.wf(),
            send_rel(
                old(self)@.manager->0,
                old(self)@.to,
                to@,
                method,
                params@,
                value,
                *loader,
                *runner,
                result_view(r),
                final(self)@.manager->0,
            ),
            final(self)@ == (KernelView { manager: final(self)@.manager, ..old(self)@ }),
    {
        self.call_manager.send(self.to, to, method, params, value, loader, runner)
    }

    /// Stores bytes as a block and gives its handle. Fails with
    /// `IllegalArgument`, storing nothing, where the handles are used up.
    pub fn block_create(&mut self, codec: u64, data: &Vec<u8>) -> (r: Result<u32, ErrorKind>)
        ensures
            old(self)@.blocks.len() >= u32::MAX ==> r == Err::<u32, ErrorKind>(
                ErrorKind::IllegalArgument,
            ) && final(self)@ == old(self)@,
            old(self)@.blocks.len() < u32::MAX ==> r == Ok::<u32, ErrorKind>(
                (old(self)@.blocks.len() + FIRST_HANDLE) as u32,
            ) && final(self)@ == old(self)@.with_block(BlockView { codec, data: data@ }),
    {
        if self.blocks.len() >= u32::MAX as usize {
            return Err(ErrorKind::IllegalArgument);
        }
        let handle: u32 = self.blocks.len() as u32 + FIRST_HANDLE;
        self.blocks.push(Block { codec, data: copy_bytes(data) });
        proof {
            assert(final(self)@.blocks =~= old(self)@.blocks.push(
                BlockView { codec, data: data@ },
            ));
        }
        Ok(handle)
    }

    /// The block behind a handle: its codec tag and its bytes.
    pub fn block_get(&self, handle: u32) -> (r: Result<Block, ErrorKind>)
        ensures
            result_view(r) == self@.block_get(handle),
    {
        if handle < FIRST_HANDLE || handle as usize > self.blocks.len() {
            return Err(ErrorKind::IllegalArgument);
        }
        let block = &self.blocks[(handle - FIRST_HANDLE) as usize];
        Ok(Block { codec: block.codec, data: copy_bytes(&block.data) })
    }
}

/// A block that was stored is read back under its handle with the same
/// bytes and the same codec tag, and the blocks stored before it are still
/// read as they were.
pub proof fn lemma_block_round_trip(k: KernelView, block: BlockView, earlier: u32)
    requires
        k.blocks.len() < u32::MAX,
    ensures
        k.with_block(block).block_get((k.blocks.len() + FIRST_HANDLE) as u32) == Ok::<
            BlockView,
            ErrorKind,
        >(block),
        k.has_block(earlier) ==> k.with_block(block).block_get(earlier) == k.block_get(earlier),
{
}

} // verus!

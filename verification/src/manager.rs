use vstd::prelude::*;
use crate::error::ErrorKind;
use crate::gas::{charge_spec, GasCharge, GasTracker};
use crate::machine::{store_lookup, Machine, MachineView, MethodNum, METHOD_SEND};
use crate::address::{Address, AddressView, Protocol, is_zero_key};
use crate::kernel::{
    kernel_start, result_view, Block, BlockView, Kernel, KernelView, DAG_CBOR, FIRST_HANDLE,
};
use crate::machine::METHOD_CONSTRUCTOR;
use crate::state_tree::{ActorID, Cid, TokenAmount};

verus! {

/// What a call manager holds while it is present.
pub struct InnerView {
    pub machine: MachineView,
    pub gas: GasTracker,
}

impl InnerView {
    /// The gas used is within the limit.
    pub open spec fn wf(&self) -> bool {
        self.gas.wf()
    }

    /// How a charge ends, and the state after it.
    pub open spec fn charge(&self, c: GasCharge) -> (Result<(), ErrorKind>, InnerView) {
        (charge_spec(self.gas, c).0, InnerView { gas: charge_spec(self.gas, c).1, ..*self })
    }
}

/// How the part of a send before any code runs ends, and the state after
/// it: the receiver is looked up, the invocation is charged, the value is
/// moved. `Ok(None)` says that the send is done; `Ok(Some(code))` that the
/// receiver's code is to run.
pub open spec fn prepare_spec(
    s: InnerView,
    from: ActorID,
    to: ActorID,
    method: MethodNum,
    value: TokenAmount,
) -> (Result<Option<Cid>, ErrorKind>, InnerView) {
    match s.machine.tree.get_actor(to) {
        None => (Err(ErrorKind::InvalidReceiver), s),
        Some(state) => {
            let charged = s.charge(s.machine.prices.method_invocation_charge(value, method));
            if charged.0 is Err {
                (Err(ErrorKind::OutOfGas), s)
            } else if value == 0 {
                (Ok(code_to_run(state.code, method)), charged.1)
            } else {
                let moved = s.machine.tree.transfer(from, to, value);
                match moved.0 {
                    Err(e) => (Err(e), charged.1),
                    Ok(_) => (
                        Ok(code_to_run(state.code, method)),
                        InnerView {
                            machine: MachineView { tree: moved.1, ..s.machine },
                            gas: charged.1.gas,
                        },
                    ),
                }
            }
        },
    }
}

/// The code that a method runs: none for a plain send.
pub open spec fn code_to_run(code: Cid, method: MethodNum) -> Option<Cid> {
    if method == METHOD_SEND {
        None
    } else {
        Some(code)
    }
}

/// The machine and the gas tracker of one call stack.
pub struct InnerCallManager {
    /// The machine this call stack runs in.
    pub machine: Machine,
    /// The gas tracker that all calls of the stack share.
    pub gas_tracker: GasTracker,
}

impl View for InnerCallManager {
    type V = InnerView;

    open spec fn view(&self) -> InnerView {
        InnerView { machine: self.machine@, gas: self.gas_tracker }
    }
}

impl InnerCallManager {
    /// Looks the receiver up, charges the invocation and moves the value.
    pub fn prepare(
        &mut self,
        from: ActorID,
        to: ActorID,
        method: MethodNum,
        value: TokenAmount,
    ) -> (r: Result<Option<Cid>, ErrorKind>)
        requires
            old(self)@.wf(),
        ensures
            final(self)@.wf(),
            (r, final(self)@) == prepare_spec(old(self)@, from, to, method, value),
    {
        let state = match self.machine.state_tree.get_actor_id(to) {
            Some(state) => state,
            None => {
                return Err(ErrorKind::InvalidReceiver);
            },
        };
        let charge = self.machine.prices.on_method_invocation(value, method);
        match self.gas_tracker.charge_gas(charge) {
            Ok(_) => {},
            Err(e) => {
                return Err(e);
            },
        }
        if !is_zero(&value) {
            match self.machine.state_tree.transfer(from, to, value) {
                Ok(_) => {},
                Err(e) => {
                    return Err(e);
                },
            }
        }
        if method == METHOD_SEND {
            Ok(None)
        } else {
            Ok(Some(state.code))
        }
    }
}

/// Whether an amount is nothing, by `num_traits::Zero::is_zero`: true for 0
/// and for no other amount.
#[verifier::external_body]
fn is_zero(value: &TokenAmount) -> (r: bool)
    ensures
        r == (*value == 0),
{
    num_traits::Zero::is_zero(value)
}

/// The call stack of one top-level message: present, or absent while a
/// running invocation holds it.
pub struct CallManager(pub Option<InnerCallManager>);

impl View for CallManager {
    type V = Option<InnerView>;

    open spec fn view(&self) -> Option<InnerView> {
        match self.0 {
            Some(inner) => Some(inner@),
            None => None,
        }
    }
}

/// The id of the actor in whose name new accounts are set up.
pub const SYSTEM_ACTOR_ID: ActorID = 0;

/// What an invocation returns once the sandboxed code has come back: the
/// code's own failure, or the block behind the handle that it returned.
pub open spec fn conclude_spec(outcome: Result<u32, ErrorKind>, k: KernelView) -> Result<
    BlockView,
    ErrorKind,
> {
    match outcome {
        Err(e) => Err(e),
        Ok(handle) => k.block_get(handle),
    }
}

/// What holds of a sandbox that a send can use. The loader can be handed
/// any bytes. The runner can be started on any kernel that holds a call
/// manager in working order, and whenever it comes back, with success or
/// with failure, it hands back a kernel that holds one again.
pub open spec fn sandbox_ok<M, L, R>(loader: L, runner: R) -> bool where
    L: Fn(Vec<u8>) -> Result<M, ErrorKind>,
    R: Fn(Kernel, M, u32) -> (Result<u32, ErrorKind>, Kernel),
 {
    &&& forall|bytes: Vec<u8>| call_requires(loader, (bytes,))
    &&& forall|k: Kernel, module: M, handle: u32|
        k@.wf() ==> call_requires(runner, (k, module, handle))
    &&& forall|k: Kernel, module: M, handle: u32, out: (Result<u32, ErrorKind>, Kernel)|
        call_ensures(runner, (k, module, handle), out) ==> out.1@.wf()
}

/// The loading of a module relates the state, the code's reference and
/// the result. Code that the block store does not hold is no receiver's
/// code; else the result is what the loader made of the bytes.
pub open spec fn load_rel<M, L>(
    s: InnerView,
    code: Cid,
    loader: L,
    loaded: Result<M, ErrorKind>,
) -> bool where L: Fn(Vec<u8>) -> Result<M, ErrorKind> {
    match store_lookup(s.machine.blocks, code) {
        None => loaded == Err::<M, ErrorKind>(ErrorKind::InvalidReceiver),
        Some(bytes) => exists|input: Vec<u8>|
            input@ == bytes && #[trigger] call_ensures(loader, (input,), loaded),
    }
}

/// One run of a module relates the state before it, the result and the
/// state after it: the runner was started on a fresh kernel that holds the
/// manager and the parameters as its first block, with that block's handle;
/// the result is read from the kernel that it handed back, and the state is
/// the manager that this kernel held.
pub open spec fn invoke_rel<M, R>(
    pre: InnerView,
    from: ActorID,
    to: ActorID,
    method: MethodNum,
    value: TokenAmount,
    params: Seq<u8>,
    module: M,
    runner: R,
    result: Result<BlockView, ErrorKind>,
    post: Option<InnerView>,
) -> bool where R: Fn(Kernel, M, u32) -> (Result<u32, ErrorKind>, Kernel) {
    exists|k0: Kernel, out: (Result<u32, ErrorKind>, Kernel)|
        k0@ == kernel_start(pre, from, to, method, value, params) && #[trigger] call_ensures(
            runner,
            (k0, module, FIRST_HANDLE),
            out,
        ) && result == conclude_spec(out.0, out.1@) && post == out.1@.manager
}

/// A send to a resolved receiver relates the state before it, the result
/// and the state after it. Where the part before the code fails, that is
/// the result; a plain send returns an empty block; else the receiver's
/// code is loaded, and either that fails, or the module is run.
pub open spec fn send_resolved_rel<M, L, R>(
    pre: InnerView,
    from: ActorID,
    to: ActorID,
    method: MethodNum,
    params: Seq<u8>,
    value: TokenAmount,
    loader: L,
    runner: R,
    result: Result<BlockView, ErrorKind>,
    post: InnerView,
) -> bool where
    L: Fn(Vec<u8>) -> Result<M, ErrorKind>,
    R: Fn(Kernel, M, u32) -> (Result<u32, ErrorKind>, Kernel),
 {
    let prepared = prepare_spec(pre, from, to, method, value);
    match prepared.0 {
        Err(e) => result == Err::<BlockView, ErrorKind>(e) && post == prepared.1,
        Ok(None) => result == Ok::<BlockView, ErrorKind>(
            BlockView { codec: DAG_CBOR, data: Seq::empty() },
        ) && post == prepared.1,
        Ok(Some(code)) => exists|loaded: Result<M, ErrorKind>| #[trigger]
            load_rel(prepared.1, code, loader, loaded) && match loaded {
                Err(e) => result == Err::<BlockView, ErrorKind>(e) && post == prepared.1,
                Ok(module) => invoke_rel(
                    prepared.1,
                    from,
                    to,
                    method,
                    value,
                    params,
                    module,
                    runner,
                    result,
                    Some(post),
                ),
            },
    }
}

/// The state after the new account's actor was entered, before its
/// constructor runs.
pub open spec fn account_entered(s: InnerView, addr: AddressView) -> InnerView {
    InnerView {
        machine: MachineView {
            tree: s.machine.tree.create_actor(addr, s.machine.account_zero_state()),
            ..s.machine
        },
        gas: s.gas,
    }
}

/// The creation of an account actor relates the state before it, the
/// result and the state after it. The creation is charged first; the zero
/// key address is refused; the actor is entered; its constructor is sent
/// the address, in the name of the system actor and without value; and the
/// new id is the result where that send succeeded.
pub open spec fn create_account_rel<M, L, R>(
    pre: InnerView,
    addr: AddressView,
    loader: L,
    runner: R,
    result: Result<ActorID, ErrorKind>,
    post: InnerView,
) -> bool where
    L: Fn(Vec<u8>) -> Result<M, ErrorKind>,
    R: Fn(Kernel, M, u32) -> (Result<u32, ErrorKind>, Kernel),
 {
    let charged = pre.charge(pre.machine.prices.create_actor_charge());
    if charged.0 is Err {
        result == Err::<ActorID, ErrorKind>(ErrorKind::OutOfGas) && post == pre
    } else if (addr.protocol == Protocol::Bls && is_zero_key(addr.payload))
        || pre.machine.tree.next_id == u64::MAX {
        result == Err::<ActorID, ErrorKind>(ErrorKind::IllegalArgument) && post == charged.1
    } else {
        exists|built: Result<BlockView, ErrorKind>| #[trigger]
            send_resolved_rel(
                account_entered(charged.1, addr),
                SYSTEM_ACTOR_ID,
                pre.machine.tree.next_id,
                METHOD_CONSTRUCTOR,
                addr.key_bytes(),
                0,
                loader,
                runner,
                built,
                post,
            ) && result == match built {
                Err(e) => Err::<ActorID, ErrorKind>(e),
                Ok(_) => Ok::<ActorID, ErrorKind>(pre.machine.tree.next_id),
            }
    }
}

/// The resolution of an address relates the state before it, the result
/// and the state after it. An id, or an address that the index has, gives
/// its id and changes nothing. A key address that is new gets an account
/// actor. Any other address is no receiver.
pub open spec fn resolve_rel<M, L, R>(
    pre: InnerView,
    addr: AddressView,
    loader: L,
    runner: R,
    result: Result<ActorID, ErrorKind>,
    post: InnerView,
) -> bool where
    L: Fn(Vec<u8>) -> Result<M, ErrorKind>,
    R: Fn(Kernel, M, u32) -> (Result<u32, ErrorKind>, Kernel),
 {
    match pre.machine.tree.lookup_id(addr) {
        Some(id) => result == Ok::<ActorID, ErrorKind>(id) && post == pre,
        None => if addr.is_key() {
            create_account_rel(pre, addr, loader, runner, result, post)
        } else {
            result == Err::<ActorID, ErrorKind>(ErrorKind::InvalidReceiver) && post == pre
        },
    }
}

/// A send relates the state before it, the result and the state after it.
/// A receiver that resolves is sent to. A key address that does not yet
/// resolve gets an account actor first, and is sent to where that
/// succeeded. Any other address that does not resolve is no receiver.
pub open spec fn send_rel<M, L, R>(
    pre: InnerView,
    from: ActorID,
    to: AddressView,
    method: MethodNum,
    params: Seq<u8>,
    value: TokenAmount,
    loader: L,
    runner: R,
    result: Result<BlockView, ErrorKind>,
    post: InnerView,
) -> bool where
    L: Fn(Vec<u8>) -> Result<M, ErrorKind>,
    R: Fn(Kernel, M, u32) -> (Result<u32, ErrorKind>, Kernel),
 {
    match pre.machine.tree.lookup_id(to) {
        Some(id) => send_resolved_rel(
            pre,
            from,
            id,
            method,
            params,
            value,
            loader,
            runner,
            result,
            post,
        ),
        None => if to.is_key() {
            exists|created: Result<ActorID, ErrorKind>, mid: InnerView| #[trigger]
                create_account_rel(pre, to, loader, runner, created, mid) && match created {
                    Err(e) => result == Err::<BlockView, ErrorKind>(e) && post == mid,
                    Ok(id) => send_resolved_rel(
                        mid,
                        from,
                        id,
                        method,
                        params,
                        value,
                        loader,
                        runner,
                        result,
                        post,
                    ),
                }
        } else {
            result == Err::<BlockView, ErrorKind>(ErrorKind::InvalidReceiver) && post == pre
        },
    }
}

/// Reads the result of an invocation out of the kernel that the sandboxed
/// code handed back, and takes the call manager out of it.
pub fn conclude(outcome: Result<u32, ErrorKind>, kernel: Kernel) -> (r: (
    Result<Block, ErrorKind>,
    CallManager,
))
    ensures
        result_view(r.0) == conclude_spec(outcome, kernel@),
        r.1@ == kernel@.manager,
{
    let result = match outcome {
        Ok(handle) => kernel.block_get(handle),
        Err(e) => Err(e),
    };
    (result, kernel.take())
}

/// Runs a module for one message: makes the kernel, which takes the call
/// manager, stores the parameters as a block, starts the runner on that
/// block's handle, and reads the result from what the runner hands back.
pub fn invoke<M, R>(
    manager: CallManager,
    from: ActorID,
    to: ActorID,
    method: MethodNum,
    value: TokenAmount,
    params: &Vec<u8>,
    module: M,
    runner: &R,
) -> (r: (Result<Block, ErrorKind>, CallManager)) where
    R: Fn(Kernel, M, u32) -> (Result<u32, ErrorKind>, Kernel),

    requires
        manager.wf(),
        forall|k: Kernel, m: M, handle: u32| k@.wf() ==> call_requires(*runner, (k, m, handle)),
        forall|k: Kernel, m: M, handle: u32, out: (Result<u32, ErrorKind>, Kernel)|
            call_ensures(*runner, (k, m, handle), out) ==> out.1@.wf(),
    ensures
        r.1.wf(),
        invoke_rel(
            manager@->0,
            from,
            to,
            method,
            value,
            params@,
            module,
            *runner,
            result_view(r.0),
            r.1@,
        ),
{
    let mut kernel = Kernel::new(manager, from, to, method, value);
    let stored = kernel.block_create(DAG_CBOR, params);
    proof {
        assert(kernel@ =~= kernel_start(manager@->0, from, to, method, value, params@)) by {
            assert(kernel@.blocks =~= seq![BlockView { codec: DAG_CBOR, data: params@ }]);
        }
    }
    match stored {
        Ok(param_id) => {
            let ghost started = kernel;
            let out = runner(kernel, module, param_id);
            proof {
                assert(call_ensures(*runner, (started, module, FIRST_HANDLE), out));
            }
            conclude(out.0, out.1)
        },
        Err(e) => (Err(e), kernel.take()),
    }
}

impl CallManager {
    /// The manager is present, and its gas used is within the limit.
    pub open spec fn wf(&self) -> bool {
        self@ is Some && self@->0.wf()
    }

    /// Whether the manager can be used: it is present and its gas used is
    /// within the limit.
    pub fn in_order(&self) -> (r: bool)
        ensures
            r == self.wf(),
    {
        match &self.0 {
            Some(inner) => 0 <= inner.gas_tracker.gas_used
                && inner.gas_tracker.gas_used <= inner.gas_tracker.gas_limit,
            None => false,
        }
    }

    /// What stands in a manager's place while an invocation holds it.
    pub fn absent() -> (r: CallManager)
        ensures
            r@ is None,
    {
        CallManager(None)
    }

    /// A call manager for one top-level message, which takes the machine.
    pub fn new(machine: Machine, gas_limit: i64) -> (r: CallManager)
        requires
            gas_limit >= 0,
        ensures
            r.wf(),
            r@ == Some(
                InnerView { machine: machine@, gas: GasTracker { gas_limit, gas_used: 0 } },
            ),
    {
        CallManager(
            Some(InnerCallManager { machine, gas_tracker: GasTracker { gas_limit, gas_used: 0 } }),
        )
    }

    /// Ends the execution: gives the gas used and the machine.
    pub fn finish(self) -> (r: (i64, Machine))
        requires
            self.wf(),
        ensures
            r.0 == self@->0.gas.gas_used,
            r.0 >= 0,
            r.1@ == self@->0.machine,
    {
        match self.0 {
            Some(inner) => {
                let used: i64 = inner.gas_tracker.gas_used();
                (if used < 0 { 0 } else { used }, inner.machine)
            },
            None => unreached(),
        }
    }

    /// The machine that the call stack runs in.
    pub fn machine(&self) -> (r: &Machine)
        requires
            self.wf(),
        ensures
            r@ == self@->0.machine,
    {
        match &self.0 {
            Some(inner) => &inner.machine,
            None => unreached(),
        }
    }

    /// Charges gas against the budget that all calls of the stack share.
    pub fn charge_gas(&mut self, charge: GasCharge) -> (r: Result<(), ErrorKind>)
        requires
            old(self).wf(),
            charge.wf(),
        ensures
            final(self).wf(),
            r == old(self)@->0.charge(charge).0,
            final(self)@ == Some(old(self)@->0.charge(charge).1),
    {
        match self.0.take() {
            Some(mut inner) => {
                let r = inner.gas_tracker.charge_gas(charge);
                self.0 = Some(inner);
                r
            },
            None => unreached(),
        }
    }

    /// The gas that can still be charged.
    pub fn gas_available(&self) -> (r: i64)
        requires
            self.wf(),
        ensures
            r == self@->0.gas.gas_limit - self@->0.gas.gas_used,
            r >= 0,
    {
        match &self.0 {
            Some(inner) => inner.gas_tracker.gas_available(),
            None => unreached(),
        }
    }

    /// The gas charged so far.
    pub fn gas_used(&self) -> (r: i64)
        requires
            self.wf(),
        ensures
            r == self@->0.gas.gas_used,
            r >= 0,
    {
        match &self.0 {
            Some(inner) => inner.gas_tracker.gas_used(),
            None => unreached(),
        }
    }

    /// Creates the account actor of a key address that does not resolve
    /// yet, runs its constructor, and gives its id.
    pub fn create_account_actor<M, L, R>(&mut self, addr: &Address, loader: &L, runner: &R) -> (r:
        Result<ActorID, ErrorKind>) where
        L: Fn(Vec<u8>) -> Result<M, ErrorKind>,
        R: Fn(Kernel, M, u32) -> (Result<u32, ErrorKind>, Kernel),

        requires
            old(self).wf(),
            sandbox_ok(*loader, *runner),
        ensures
            final(self).wf(),
            create_account_rel(old(self)@->0, addr@, *loader, *runner, r, final(self)@->0),
    {
        let price = match &self.0 {
            Some(inner) => inner.machine.prices.on_create_actor(),
            None => unreached(),
        };
        match self.charge_gas(price) {
            Ok(_) => {},
            Err(e) => {
                return Err(e);
            },
        }
        if addr.is_bls_zero_address() {
            return Err(ErrorKind::IllegalArgument);
        }
        let entered = match self.0.take() {
            Some(mut inner) => {
                let zero_state = inner.machine.account_zero_state();
                let entered = inner.machine.state_tree.create_actor(addr, zero_state);
                self.0 = Some(inner);
                entered
            },
            None => unreached(),
        };
        let id: ActorID = match entered {
            Ok(id) => id,
            Err(e) => {
                return Err(e);
            },
        };
        let params = addr.key_bytes();
        let ghost charged = old(self)@->0.charge(old(self)@->0.machine.prices.create_actor_charge()).1;
        let ghost entered_state = self@->0;
        proof {
            assert(entered_state.machine == account_entered(charged, addr@).machine);
            assert(entered_state == account_entered(charged, addr@));
        }
        let built = self.send_resolved(
            SYSTEM_ACTOR_ID,
            id,
            METHOD_CONSTRUCTOR,
            &params,
            0,
            loader,
            runner,
        );
        proof {
            assert(send_resolved_rel(
                account_entered(charged, addr@),
                SYSTEM_ACTOR_ID,
                id,
                METHOD_CONSTRUCTOR,
                addr@.key_bytes(),
                0,
                *loader,
                *runner,
                result_view(built),
                self@->0,
            ));
        }
        match built {
            Ok(_) => Ok(id),
            Err(e) => Err(e),
        }
    }

    /// Sends a message to an actor: resolves the receiver, creating an
    /// account actor for a key address that is new, and sends to it.
    pub fn send<M, L, R>(
        &mut self,
        from: ActorID,
        to: Address,
        method: MethodNum,
        params: &Vec<u8>,
        value: TokenAmount,
        loader: &L,
        runner: &R,
    ) -> (r: Result<Block, ErrorKind>) where
        L: Fn(Vec<u8>) -> Result<M, ErrorKind>,
        R: Fn(Kernel, M, u32) -> (Result<u32, ErrorKind>, Kernel),

        requires
            old(self).wf(),
            sandbox_ok(*loader, *runner),
        ensures
            final(self).wf(),
            send_rel(
                old(self)@->0,
                from,
                to@,
                method,
                params@,
                value,
                *loader,
                *runner,
                result_view(r),
                final(self)@->0,
            ),
    {
        let to_id: ActorID = match self.resolve(&to, loader, runner) {
            Ok(id) => id,
            Err(e) => {
                return Err(e);
            },
        };
        self.send_resolved(from, to_id, method, params, value, loader, runner)
    }

    /// Resolves an address to the id of its actor, creating an account
    /// actor for a key address that is new.
    pub fn resolve<M, L, R>(&mut self, addr: &Address, loader: &L, runner: &R) -> (r: Result<
        ActorID,
        ErrorKind,
    >) where
        L: Fn(Vec<u8>) -> Result<M, ErrorKind>,
        R: Fn(Kernel, M, u32) -> (Result<u32, ErrorKind>, Kernel),

        requires
            old(self).wf(),
            sandbox_ok(*loader, *runner),
        ensures
            final(self).wf(),
            resolve_rel(old(self)@->0, addr@, *loader, *runner, r, final(self)@->0),
    {
        let found = match &self.0 {
            Some(inner) => inner.machine.state_tree.lookup_id(addr),
            None => unreached(),
        };
        match found {
            Some(id) => Ok(id),
            None => match addr.protocol() {
                Protocol::Bls | Protocol::Secp256k1 => self.create_account_actor(
                    addr,
                    loader,
                    runner,
                ),
                _ => Err(ErrorKind::InvalidReceiver),
            },
        }
    }

    /// Fetches the code behind a reference from the block store and has
    /// the loader make a module of it.
    pub fn load_module<M, L>(&self, code: Cid, loader: &L) -> (r: Result<M, ErrorKind>) where
        L: Fn(Vec<u8>) -> Result<M, ErrorKind>,

        requires
            self.wf(),
            forall|bytes: Vec<u8>| call_requires(*loader, (bytes,)),
        ensures
            load_rel(self@->0, code, *loader, r),
    {
        let found = match &self.0 {
            Some(inner) => inner.machine.blocks.get(code),
            None => unreached(),
        };
        match found {
            Some(bytes) => loader(bytes),
            None => Err(ErrorKind::InvalidReceiver),
        }
    }

    /// Sends a message to a receiver that is resolved: looks it up, charges
    /// the invocation, moves the value and, unless the method is a plain
    /// send, runs the receiver's code.
    pub fn send_resolved<M, L, R>(
        &mut self,
        from: ActorID,
        to: ActorID,
        method: MethodNum,
        params: &Vec<u8>,
        value: TokenAmount,
        loader: &L,
        runner: &R,
    ) -> (r: Result<Block, ErrorKind>) where
        L: Fn(Vec<u8>) -> Result<M, ErrorKind>,
        R: Fn(Kernel, M, u32) -> (Result<u32, ErrorKind>, Kernel),

        requires
            old(self).wf(),
            sandbox_ok(*loader, *runner),
        ensures
            final(self).wf(),
            send_resolved_rel(
                old(self)@->0,
                from,
                to,
                method,
                params@,
                value,
                *loader,
                *runner,
                result_view(r),
                final(self)@->0,
            ),
    {
        let prepared = match self.0.take() {
            Some(mut inner) => {
                let prepared = inner.prepare(from, to, method, value);
                self.0 = Some(inner);
                prepared
            },
            None => unreached(),
        };
        let code: Cid = match prepared {
            Err(e) => {
                return Err(e);
            },
            Ok(None) => {
                return Ok(Block { codec: DAG_CBOR, data: Vec::new() });
            },
            Ok(Some(code)) => code,
        };
        let loaded = self.load_module(code, loader);
        let ghost was_loaded = loaded;
        proof {
            let prepared = prepare_spec(old(self)@->0, from, to, method, value);
            assert(prepared.1 == self@->0);
            assert(load_rel(prepared.1, code, *loader, was_loaded));
        }
        let module: M = match loaded {
            Ok(module) => module,
            Err(e) => {
                return Err(e);
            },
        };
        let ghost the_module = module;
        let run =
            |manager: CallManager| -> (out: (Result<Block, ErrorKind>, CallManager))
                requires
                    manager.wf(),
                ensures
                    out.1.wf(),
                    invoke_rel(
                        manager@->0,
                        from,
                        to,
                        method,
                        value,
                        params@,
                        the_module,
                        *runner,
                        result_view(out.0),
                        out.1@,
                    ),
            {
                let out = invoke(manager, from, to, method, value, params, module, runner);
                out
            };
        self.map_mut(run)
    }

    /// Lends the manager out: `f` gets it whole, and what `f` hands back
    /// stands in this place again when the call returns.
    pub fn map_mut<F, T>(&mut self, f: F) -> (r: T) where F: FnOnce(CallManager) -> (T, CallManager)
        requires
            call_requires(f, (*old(self),)),
        ensures
            call_ensures(f, (*old(self),), (r, *final(self))),
    {
        replace_with_and_return(self, f)
    }
}

/// `replace_with::replace_with_and_return`, with an absent manager as the
/// value that is left behind should `f` unwind: `f` is called once, on the
/// value that stood in `dest`; the first part of what it returns is the
/// result, the second stands in `dest` afterwards.
#[verifier::external_body]
fn replace_with_and_return<F, T>(dest: &mut CallManager, f: F) -> (r: T) where
    F: FnOnce(CallManager) -> (T, CallManager),

    requires
        call_requires(f, (*old(dest),)),
    ensures
        call_ensures(f, (*old(dest),), (r, *final(dest))),
{
    replace_with::replace_with_and_return(dest, CallManager::absent, f)
}

} // verus!

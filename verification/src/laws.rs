use vstd::prelude::*;
use crate::address::{is_zero_key, AddressView, Protocol};
use crate::error::ErrorKind;
use crate::kernel::{kernel_start, BlockView, Kernel, DAG_CBOR, FIRST_HANDLE};
use crate::machine::{MethodNum, METHOD_CONSTRUCTOR, METHOD_SEND};
use crate::manager::{
    account_entered, conclude_spec, create_account_rel, invoke_rel, load_rel, prepare_spec,
    resolve_rel, send_rel, send_resolved_rel, InnerView, SYSTEM_ACTOR_ID,
};
use crate::state_tree::{lemma_created_address_resolves, ActorID, Cid, TokenAmount};

verus! {

/// What holds of a runner that hands back the manager it was given, as far
/// as the budget goes: the limit is what it was, and the gas used is no
/// less.
pub open spec fn runner_keeps_gas<M, R>(runner: R) -> bool where
    R: Fn(Kernel, M, u32) -> (Result<u32, ErrorKind>, Kernel),
 {
    forall|k: Kernel, module: M, handle: u32, out: (Result<u32, ErrorKind>, Kernel)|
        k@.wf() && #[trigger] call_ensures(runner, (k, module, handle), out) ==> {
            &&& out.1@.wf()
            &&& out.1@.manager->0.gas.gas_limit == k@.manager->0.gas.gas_limit
            &&& out.1@.manager->0.gas.gas_used >= k@.manager->0.gas.gas_used
        }
}

/// No gas comes back. With a runner that keeps the budget, a send to a
/// resolved receiver, whether it succeeds or fails, ends within the same
/// limit and with no less gas used than it began with.
pub proof fn lemma_send_resolved_never_refunds<M, L, R>(
    pre: InnerView,
    from: ActorID,
    to: ActorID,
    method: MethodNum,
    params: Seq<u8>,
    value: TokenAmount,
    loader: L,
    runner: R,
    result: Result<BlockView, ErrorKind>,
    post: InnerView,
) where L: Fn(Vec<u8>) -> Result<M, ErrorKind>, R: Fn(Kernel, M, u32) -> (Result<u32, ErrorKind>, Kernel)
    requires
        pre.wf(),
        runner_keeps_gas(runner),
        send_resolved_rel(pre, from, to, method, params, value, loader, runner, result, post),
    ensures
        post.wf(),
        post.gas.gas_limit == pre.gas.gas_limit,
        post.gas.gas_used >= pre.gas.gas_used,
{
    let prepared = prepare_spec(pre, from, to, method, value);
    assert(prepared.1.wf() && prepared.1.gas.gas_limit == pre.gas.gas_limit
        && prepared.1.gas.gas_used >= pre.gas.gas_used);
}

/// No gas comes back from a send either, with or without the creation of
/// an account on its way: the manager ends in working order, within the
/// same limit, and with no less gas used, whatever the result.
pub proof fn lemma_send_never_refunds<M, L, R>(
    pre: InnerView,
    from: ActorID,
    to: AddressView,
    method: MethodNum,
    params: Seq<u8>,
    value: TokenAmount,
    loader: L,
    runner: R,
    result: Result<BlockView, ErrorKind>,
    post: InnerView,
) where L: Fn(Vec<u8>) -> Result<M, ErrorKind>, R: Fn(Kernel, M, u32) -> (Result<u32, ErrorKind>, Kernel)
    requires
        pre.wf(),
        runner_keeps_gas(runner),
        send_rel(pre, from, to, method, params, value, loader, runner, result, post),
    ensures
        post.wf(),
        post.gas.gas_limit == pre.gas.gas_limit,
        post.gas.gas_used >= pre.gas.gas_used,
{
    match pre.machine.tree.lookup_id(to) {
        Some(id) => {
            lemma_send_resolved_never_refunds(
                pre,
                from,
                id,
                method,
                params,
                value,
                loader,
                runner,
                result,
                post,
            );
        },
        None => {
            if to.is_key() {
                let (created, mid): (Result<ActorID, ErrorKind>, InnerView) = choose|
                    created: Result<ActorID, ErrorKind>,
                    mid: InnerView,
                |
                    #[trigger] create_account_rel(pre, to, loader, runner, created, mid)
                        && match created {
                        Err(e) => result == Err::<BlockView, ErrorKind>(e) && post == mid,
                        Ok(id) => send_resolved_rel(
                            mid,
                            from,
                            id,
                            method,
                            params,
                            value,
                            loader,
                            runner,
                            result,
                            post,
                        ),
                    };
                lemma_account_creation_never_refunds(pre, to, loader, runner, created, mid);
                if let Ok(id) = created {
                    lemma_send_resolved_never_refunds(
                        mid,
                        from,
                        id,
                        method,
                        params,
                        value,
                        loader,
                        runner,
                        result,
                        post,
                    );
                }
            }
        },
    }
}

/// No gas comes back from the creation of an account.
pub proof fn lemma_account_creation_never_refunds<M, L, R>(
    pre: InnerView,
    addr: AddressView,
    loader: L,
    runner: R,
    result: Result<ActorID, ErrorKind>,
    post: InnerView,
) where L: Fn(Vec<u8>) -> Result<M, ErrorKind>, R: Fn(Kernel, M, u32) -> (Result<u32, ErrorKind>, Kernel)
    requires
        pre.wf(),
        runner_keeps_gas(runner),
        create_account_rel(pre, addr, loader, runner, result, post),
    ensures
        post.wf(),
        post.gas.gas_limit == pre.gas.gas_limit,
        post.gas.gas_used >= pre.gas.gas_used,
{
    let charged = pre.charge(pre.machine.prices.create_actor_charge());
    if charged.0 is Ok && !((addr.protocol == Protocol::Bls && is_zero_key(addr.payload))
        || pre.machine.tree.next_id == u64::MAX) {
        let built: Result<BlockView, ErrorKind> = choose|built: Result<BlockView, ErrorKind>| #[trigger]
            send_resolved_rel(
                account_entered(charged.1, addr),
                SYSTEM_ACTOR_ID,
                pre.machine.tree.next_id,
                METHOD_CONSTRUCTOR,
                addr.key_bytes(),
                0,
                loader,
                runner,
                built,
                post,
            ) && result == match built {
                Err(e) => Err::<ActorID, ErrorKind>(e),
                Ok(_) => Ok::<ActorID, ErrorKind>(pre.machine.tree.next_id),
            };
        lemma_send_resolved_never_refunds(
            account_entered(charged.1, addr),
            SYSTEM_ACTOR_ID,
            pre.machine.tree.next_id,
            METHOD_CONSTRUCTOR,
            addr.key_bytes(),
            0,
            loader,
            runner,
            built,
            post,
        );
    }
}

/// A plain send runs no code: whatever the loader and the runner are, its
/// result and the state after it are those of the part before the code.
/// Without value, and with gas for the base price, it returns an empty
/// block, leaves the machine as it was and uses the base price and no more.
pub proof fn lemma_plain_send_runs_no_code<M, L, R>(
    pre: InnerView,
    from: ActorID,
    to: ActorID,
    params: Seq<u8>,
    value: TokenAmount,
    loader: L,
    runner: R,
    result: Result<BlockView, ErrorKind>,
    post: InnerView,
) where L: Fn(Vec<u8>) -> Result<M, ErrorKind>, R: Fn(Kernel, M, u32) -> (Result<u32, ErrorKind>, Kernel)
    requires
        pre.wf(),
        send_resolved_rel(pre, from, to, METHOD_SEND, params, value, loader, runner, result, post),
    ensures
        post == prepare_spec(pre, from, to, METHOD_SEND, value).1,
        match prepare_spec(pre, from, to, METHOD_SEND, value).0 {
            Err(e) => result == Err::<BlockView, ErrorKind>(e),
            Ok(_) => result == Ok::<BlockView, ErrorKind>(
                BlockView { codec: DAG_CBOR, data: Seq::empty() },
            ),
        },
        value == 0 && pre.machine.tree.actors.contains_key(to) && pre.gas.gas_used
            + pre.machine.prices.send_base <= pre.gas.gas_limit ==> {
            &&& result == Ok::<BlockView, ErrorKind>(
                BlockView { codec: DAG_CBOR, data: Seq::empty() },
            )
            &&& post.machine == pre.machine
            &&& post.gas.gas_limit == pre.gas.gas_limit
            &&& post.gas.gas_used == pre.gas.gas_used + pre.machine.prices.send_base
        },
{
}

/// A send of more value than the sender has fails with `InsufficientFunds`
/// before any code runs. The machine, and so every balance, is as it was;
/// the invocation's price stays charged.
pub proof fn lemma_overdrawn_send_moves_nothing<M, L, R>(
    pre: InnerView,
    from: ActorID,
    to: ActorID,
    method: MethodNum,
    params: Seq<u8>,
    value: TokenAmount,
    loader: L,
    runner: R,
    result: Result<BlockView, ErrorKind>,
    post: InnerView,
) where L: Fn(Vec<u8>) -> Result<M, ErrorKind>, R: Fn(Kernel, M, u32) -> (Result<u32, ErrorKind>, Kernel)
    requires
        pre.wf(),
        pre.machine.tree.actors.contains_key(to),
        pre.machine.tree.actors.contains_key(from),
        value > pre.machine.tree.actors[from].balance,
        pre.gas.gas_used + pre.machine.prices.method_invocation_charge(value, method).total()
            <= pre.gas.gas_limit,
        send_resolved_rel(pre, from, to, method, params, value, loader, runner, result, post),
    ensures
        result == Err::<BlockView, ErrorKind>(ErrorKind::InsufficientFunds),
        post.machine == pre.machine,
        post.gas.gas_limit == pre.gas.gas_limit,
        post.gas.gas_used == pre.gas.gas_used + pre.machine.prices.method_invocation_charge(
            value,
            method,
        ).total(),
{
}

/// Whatever a module's run comes to, success or failure, the manager is
/// present again afterwards, and it is the one that the runner handed
/// back: what nested calls charged and changed is kept.
pub proof fn lemma_manager_returns_from_invocation<M, R>(
    pre: InnerView,
    from: ActorID,
    to: ActorID,
    method: MethodNum,
    value: TokenAmount,
    params: Seq<u8>,
    module: M,
    runner: R,
    result: Result<BlockView, ErrorKind>,
    post: Option<InnerView>,
) where R: Fn(Kernel, M, u32) -> (Result<u32, ErrorKind>, Kernel)
    requires
        forall|k: Kernel, m: M, handle: u32, out: (Result<u32, ErrorKind>, Kernel)|
            call_ensures(runner, (k, m, handle), out) ==> out.1@.wf(),
        invoke_rel(pre, from, to, method, value, params, module, runner, result, post),
    ensures
        post is Some,
        post->0.wf(),
        exists|k0: Kernel, out: (Result<u32, ErrorKind>, Kernel)| #[trigger]
            call_ensures(runner, (k0, module, FIRST_HANDLE), out) && post == out.1@.manager,
{
}

/// An address that resolves is sent to as it resolves: no account is
/// created for it, so the account's constructor does not run again.
pub proof fn lemma_resolved_address_creates_nothing<M, L, R>(
    pre: InnerView,
    from: ActorID,
    to: AddressView,
    id: ActorID,
    method: MethodNum,
    params: Seq<u8>,
    value: TokenAmount,
    loader: L,
    runner: R,
    result: Result<BlockView, ErrorKind>,
    post: InnerView,
) where L: Fn(Vec<u8>) -> Result<M, ErrorKind>, R: Fn(Kernel, M, u32) -> (Result<u32, ErrorKind>, Kernel)
    requires
        pre.machine.tree.lookup_id(to) == Some(id),
        send_rel(pre, from, to, method, params, value, loader, runner, result, post),
    ensures
        send_resolved_rel(pre, from, id, method, params, value, loader, runner, result, post),
{
}

/// Resolving an address that resolves already gives the same id however
/// often it is done, changes nothing and runs nothing.
pub proof fn lemma_resolve_is_stable<M, L, R>(
    pre: InnerView,
    addr: AddressView,
    id: ActorID,
    loader: L,
    runner: R,
    first: Result<ActorID, ErrorKind>,
    mid: InnerView,
    second: Result<ActorID, ErrorKind>,
    post: InnerView,
) where L: Fn(Vec<u8>) -> Result<M, ErrorKind>, R: Fn(Kernel, M, u32) -> (Result<u32, ErrorKind>, Kernel)
    requires
        pre.machine.tree.lookup_id(addr) == Some(id),
        resolve_rel(pre, addr, loader, runner, first, mid),
        resolve_rel(mid, addr, loader, runner, second, post),
    ensures
        first == Ok::<ActorID, ErrorKind>(id),
        second == first,
        post == pre,
{
}

/// What holds of a runner that leaves the address index to the call
/// manager: an address that resolved when it was started resolves to the
/// same id when it comes back.
pub open spec fn runner_keeps_resolved<M, R>(runner: R) -> bool where
    R: Fn(Kernel, M, u32) -> (Result<u32, ErrorKind>, Kernel),
 {
    forall|
        k: Kernel,
        module: M,
        handle: u32,
        out: (Result<u32, ErrorKind>, Kernel),
        addr: AddressView,
    |
        k@.wf() && #[trigger] call_ensures(runner, (k, module, handle), out)
            && (#[trigger] k@.manager->0.machine.tree.lookup_id(addr)) is Some ==> {
            &&& out.1@.wf()
            &&& out.1@.manager->0.machine.tree.lookup_id(addr) == k@.manager->0.machine.tree.lookup_id(
                addr,
            )
        }
}

/// Resolving the same address twice gives the same id both times, and the
/// second time changes nothing: no account is created and no constructor
/// runs again. This holds with a runner that leaves the address index to
/// the call manager.
pub proof fn lemma_resolving_twice_gives_the_same_id<M, L, R>(
    pre: InnerView,
    addr: AddressView,
    loader: L,
    runner: R,
    first: Result<ActorID, ErrorKind>,
    mid: InnerView,
    second: Result<ActorID, ErrorKind>,
    post: InnerView,
) where L: Fn(Vec<u8>) -> Result<M, ErrorKind>, R: Fn(Kernel, M, u32) -> (Result<u32, ErrorKind>, Kernel)
    requires
        pre.wf(),
        runner_keeps_resolved(runner),
        resolve_rel(pre, addr, loader, runner, first, mid),
        first is Ok,
        resolve_rel(mid, addr, loader, runner, second, post),
    ensures
        second == first,
        post == mid,
{
    if pre.machine.tree.lookup_id(addr) is None {
        let id = pre.machine.tree.next_id;
        let charged = pre.charge(pre.machine.prices.create_actor_charge());
        let entered = account_entered(charged.1, addr);
        lemma_created_address_resolves(
            charged.1.machine.tree,
            addr,
            charged.1.machine.account_zero_state(),
        );
        let built: Result<BlockView, ErrorKind> = choose|built: Result<BlockView, ErrorKind>| #[trigger]
            send_resolved_rel(
                entered,
                SYSTEM_ACTOR_ID,
                id,
                METHOD_CONSTRUCTOR,
                addr.key_bytes(),
                0,
                loader,
                runner,
                built,
                mid,
            ) && first == match built {
                Err(e) => Err::<ActorID, ErrorKind>(e),
                Ok(_) => Ok::<ActorID, ErrorKind>(id),
            };
        let prepared = prepare_spec(entered, SYSTEM_ACTOR_ID, id, METHOD_CONSTRUCTOR, 0);
        assert(prepared.1.machine.tree == entered.machine.tree);
        assert(prepared.1.machine.tree.lookup_id(addr) == Some(id));
        if let Ok(Some(code)) = prepared.0 {
            let loaded: Result<M, ErrorKind> = choose|loaded: Result<M, ErrorKind>| #[trigger]
                load_rel(prepared.1, code, loader, loaded) && match loaded {
                    Err(e) => built == Err::<BlockView, ErrorKind>(e) && mid == prepared.1,
                    Ok(module) => invoke_rel(
                        prepared.1,
                        SYSTEM_ACTOR_ID,
                        id,
                        METHOD_CONSTRUCTOR,
                        0,
                        addr.key_bytes(),
                        module,
                        runner,
                        built,
                        Some(mid),
                    ),
                };
            if let Ok(module) = loaded {
                let (k0, out): (Kernel, (Result<u32, ErrorKind>, Kernel)) = choose|
                    k0: Kernel,
                    out: (Result<u32, ErrorKind>, Kernel),
                |
                    k0@ == kernel_start(
                        prepared.1,
                        SYSTEM_ACTOR_ID,
                        id,
                        METHOD_CONSTRUCTOR,
                        0,
                        addr.key_bytes(),
                    ) && #[trigger] call_ensures(runner, (k0, module, FIRST_HANDLE), out) && built
                        == conclude_spec(out.0, out.1@) && Some(mid) == out.1@.manager;
                assert(k0@.wf());
                assert(k0@.manager->0.machine.tree.lookup_id(addr) == Some(id));
            }
        }
        assert(mid.machine.tree.lookup_id(addr) == Some(id));
    }
}

/// The parameters and the result cross the sandbox boundary unchanged. The
/// kernel that the runner is started on gives, under the handle it is
/// handed, the parameters with the canonical codec; and where the runner
/// returns a handle, the result of the invocation is the block, bytes and
/// codec, that the returned kernel holds under that handle.
pub proof fn lemma_invocation_round_trip<M, R>(
    pre: InnerView,
    from: ActorID,
    to: ActorID,
    method: MethodNum,
    value: TokenAmount,
    params: Seq<u8>,
    module: M,
    runner: R,
    result: Result<BlockView, ErrorKind>,
    post: Option<InnerView>,
) where R: Fn(Kernel, M, u32) -> (Result<u32, ErrorKind>, Kernel)
    requires
        invoke_rel(pre, from, to, method, value, params, module, runner, result, post),
    ensures
        exists|k0: Kernel, out: (Result<u32, ErrorKind>, Kernel)|
            {
                &&& #[trigger] call_ensures(runner, (k0, module, FIRST_HANDLE), out)
                &&& k0@.block_get(FIRST_HANDLE) == Ok::<BlockView, ErrorKind>(
                    BlockView { codec: DAG_CBOR, data: params },
                )
                &&& out.0 is Ok ==> result == out.1@.block_get(out.0->Ok_0)
                &&& out.0 is Err ==> result == Err::<BlockView, ErrorKind>(out.0->Err_0)
            },
{
    let (k0, out): (Kernel, (Result<u32, ErrorKind>, Kernel)) = choose|
        k0: Kernel,
        out: (Result<u32, ErrorKind>, Kernel),
    |
        k0@ == kernel_start(pre, from, to, method, value, params) && #[trigger] call_ensures(
            runner,
            (k0, module, FIRST_HANDLE),
            out,
        ) && result == conclude_spec(out.0, out.1@) && post == out.1@.manager;
    assert(k0@.blocks[0] == BlockView { codec: DAG_CBOR, data: params });
    assert(call_ensures(runner, (k0, module, FIRST_HANDLE), out));
}

/// A send to a resolved receiver forgets no address: what resolved before
/// it resolves to the same id after it, with a runner that leaves the
/// address index to the call manager.
pub proof fn lemma_send_resolved_keeps_resolved<M, L, R>(
    pre: InnerView,
    from: ActorID,
    to: ActorID,
    method: MethodNum,
    params: Seq<u8>,
    value: TokenAmount,
    loader: L,
    runner: R,
    result: Result<BlockView, ErrorKind>,
    post: InnerView,
    addr: AddressView,
) where L: Fn(Vec<u8>) -> Result<M, ErrorKind>, R: Fn(Kernel, M, u32) -> (Result<u32, ErrorKind>, Kernel)
    requires
        pre.wf(),
        runner_keeps_resolved(runner),
        send_resolved_rel(pre, from, to, method, params, value, loader, runner, result, post),
        pre.machine.tree.lookup_id(addr) is Some,
    ensures
        post.machine.tree.lookup_id(addr) == pre.machine.tree.lookup_id(addr),
{
    let prepared = prepare_spec(pre, from, to, method, value);
    assert(prepared.1.machine.tree.index == pre.machine.tree.index);
    assert(prepared.1.wf());
    if let Ok(Some(code)) = prepared.0 {
        let loaded: Result<M, ErrorKind> = choose|loaded: Result<M, ErrorKind>| #[trigger]
            load_rel(prepared.1, code, loader, loaded) && match loaded {
                Err(e) => result == Err::<BlockView, ErrorKind>(e) && post == prepared.1,
                Ok(module) => invoke_rel(
                    prepared.1,
                    from,
                    to,
                    method,
                    value,
                    params,
                    module,
                    runner,
                    result,
                    Some(post),
                ),
            };
        if let Ok(module) = loaded {
            let (k0, out): (Kernel, (Result<u32, ErrorKind>, Kernel)) = choose|
                k0: Kernel,
                out: (Result<u32, ErrorKind>, Kernel),
            |
                k0@ == kernel_start(prepared.1, from, to, method, value, params)
                    && #[trigger] call_ensures(runner, (k0, module, FIRST_HANDLE), out) && result
                    == conclude_spec(out.0, out.1@) && Some(post) == out.1@.manager;
            assert(k0@.wf());
            assert(k0@.manager->0.machine.tree.lookup_id(addr) is Some);
        }
    }
}

/// A send forgets no address, whether or not it creates an account on its
/// way: what resolved before it resolves to the same id after it, with a
/// runner that leaves the address index to the call manager.
pub proof fn lemma_send_keeps_resolved<M, L, R>(
    pre: InnerView,
    from: ActorID,
    to: AddressView,
    method: MethodNum,
    params: Seq<u8>,
    value: TokenAmount,
    loader: L,
    runner: R,
    result: Result<BlockView, ErrorKind>,
    post: InnerView,
    addr: AddressView,
) where L: Fn(Vec<u8>) -> Result<M, ErrorKind>, R: Fn(Kernel, M, u32) -> (Result<u32, ErrorKind>, Kernel)
    requires
        pre.wf(),
        runner_keeps_resolved(runner),
        send_rel(pre, from, to, method, params, value, loader, runner, result, post),
        pre.machine.tree.lookup_id(addr) is Some,
    ensures
        post.machine.tree.lookup_id(addr) == pre.machine.tree.lookup_id(addr),
{
    match pre.machine.tree.lookup_id(to) {
        Some(id) => {
            lemma_send_resolved_keeps_resolved(
                pre,
                from,
                id,
                method,
                params,
                value,
                loader,
                runner,
                result,
                post,
                addr,
            );
        },
        None => {
            if to.is_key() {
                let (created, mid): (Result<ActorID, ErrorKind>, InnerView) = choose|
                    created: Result<ActorID, ErrorKind>,
                    mid: InnerView,
                |
                    #[trigger] create_account_rel(pre, to, loader, runner, created, mid)
                        && match created {
                        Err(e) => result == Err::<BlockView, ErrorKind>(e) && post == mid,
                        Ok(id) => send_resolved_rel(
                            mid,
                            from,
                            id,
                            method,
                            params,
                            value,
                            loader,
                            runner,
                            result,
                            post,
                        ),
                    };
                let charged = pre.charge(pre.machine.prices.create_actor_charge());
                assert(mid.machine.tree.lookup_id(addr) == pre.machine.tree.lookup_id(addr)
                    && mid.wf()) by {
                    if charged.0 is Ok && !((to.protocol == Protocol::Bls && is_zero_key(
                        to.payload,
                    )) || pre.machine.tree.next_id == u64::MAX) {
                        let entered = account_entered(charged.1, to);
                        assert(entered.machine.tree.index.drop_last()
                            =~= pre.machine.tree.index);
                        assert(entered.machine.tree.lookup_id(addr)
                            == pre.machine.tree.lookup_id(addr));
                        let built: Result<BlockView, ErrorKind> = choose|
                            built: Result<BlockView, ErrorKind>,
                        | #[trigger]
                            send_resolved_rel(
                                entered,
                                SYSTEM_ACTOR_ID,
                                pre.machine.tree.next_id,
                                METHOD_CONSTRUCTOR,
                                to.key_bytes(),
                                0,
                                loader,
                                runner,
                                built,
                                mid,
                            ) && created == match built {
                                Err(e) => Err::<ActorID, ErrorKind>(e),
                                Ok(_) => Ok::<ActorID, ErrorKind>(pre.machine.tree.next_id),
                            };
                        lemma_send_resolved_keeps_resolved(
                            entered,
                            SYSTEM_ACTOR_ID,
                            pre.machine.tree.next_id,
                            METHOD_CONSTRUCTOR,
                            to.key_bytes(),
                            0,
                            loader,
                            runner,
                            built,
                            mid,
                            addr,
                        );
                        // The runner hands back a kernel in working order.
                        let prepared = prepare_spec(
                            entered,
                            SYSTEM_ACTOR_ID,
                            pre.machine.tree.next_id,
                            METHOD_CONSTRUCTOR,
                            0,
                        );
                        if let Ok(Some(code)) = prepared.0 {
                            let loaded: Result<M, ErrorKind> = choose|loaded: Result<M, ErrorKind>| #[trigger]
                                load_rel(prepared.1, code, loader, loaded) && match loaded {
                                    Err(e) => built == Err::<BlockView, ErrorKind>(e) && mid
                                        == prepared.1,
                                    Ok(module) => invoke_rel(
                                        prepared.1,
                                        SYSTEM_ACTOR_ID,
                                        pre.machine.tree.next_id,
                                        METHOD_CONSTRUCTOR,
                                        0,
                                        to.key_bytes(),
                                        module,
                                        runner,
                                        built,
                                        Some(mid),
                                    ),
                                };
                            if let Ok(module) = loaded {
                                let (k0, out): (Kernel, (Result<u32, ErrorKind>, Kernel)) = choose|
                                    k0: Kernel,
                                    out: (Result<u32, ErrorKind>, Kernel),
                                |
                                    k0@ == kernel_start(
                                        prepared.1,
                                        SYSTEM_ACTOR_ID,
                                        pre.machine.tree.next_id,
                                        METHOD_CONSTRUCTOR,
                                        0,
                                        to.key_bytes(),
                                    ) && #[trigger] call_ensures(
                                        runner,
                                        (k0, module, FIRST_HANDLE),
                                        out,
                                    ) && built == conclude_spec(out.0, out.1@) && Some(mid)
                                        == out.1@.manager;
                                assert(k0@.wf());
                                assert(k0@.manager->0.machine.tree.lookup_id(addr) is Some);
                            }
                        }
                    }
                }
                if let Ok(id) = created {
                    lemma_send_resolved_keeps_resolved(
                        mid,
                        from,
                        id,
                        method,
                        params,
                        value,
                        loader,
                        runner,
                        result,
                        post,
                        addr,
                    );
                }
            }
        },
    }
}

} // verus!

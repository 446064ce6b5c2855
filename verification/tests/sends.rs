use std::cell::Cell;

use callstack::address::Address;
use callstack::error::ErrorKind;
use callstack::gas::GasCharge;
use callstack::kernel::{Kernel, DAG_CBOR};
use callstack::machine::{BlockStore, Machine, PriceList, METHOD_CONSTRUCTOR, METHOD_SEND};
use callstack::manager::{conclude, invoke, CallManager, SYSTEM_ACTOR_ID};
use callstack::state_tree::{ActorState, Cid, StateTree};

const ACCOUNT_CODE: Cid = Cid(500);
const EMPTY_STATE: Cid = Cid(501);
const SENDER: u64 = 100;
const OTHER: u64 = 200;
const FIRST_NEW_ID: u64 = 1000;

fn prices() -> PriceList {
    PriceList {
        create_actor_compute: 100,
        create_actor_storage: 50,
        send_base: 10,
        send_transfer_funds: 5,
        send_transfer_only_premium: 3,
        send_invoke_method: 20,
    }
}

fn actor(code: u64, balance: u128) -> ActorState {
    ActorState { code: Cid(code), balance, sequence: 0, state_root: EMPTY_STATE }
}

fn code_bytes(code: Cid) -> Vec<u8> {
    code.0.to_le_bytes().to_vec()
}

fn manager(gas_limit: i64) -> CallManager {
    let mut tree = StateTree::new(FIRST_NEW_ID);
    tree.set_actor_id(SYSTEM_ACTOR_ID, actor(1, 0));
    tree.set_actor_id(SENDER, actor(7, 100));
    tree.set_actor_id(OTHER, actor(8, 5));
    let mut blocks = BlockStore::new();
    for code in [Cid(1), Cid(7), Cid(8), ACCOUNT_CODE] {
        blocks.put(code, &code_bytes(code));
    }
    CallManager::new(Machine::new(tree, blocks, prices(), ACCOUNT_CODE, EMPTY_STATE), gas_limit)
}

fn bare_manager(gas_limit: i64) -> CallManager {
    let mut tree = StateTree::new(FIRST_NEW_ID);
    tree.set_actor_id(SENDER, actor(7, 100));
    tree.set_actor_id(OTHER, actor(8, 5));
    let machine = Machine::new(tree, BlockStore::new(), prices(), ACCOUNT_CODE, EMPTY_STATE);
    CallManager::new(machine, gas_limit)
}

fn key() -> Address {
    Address::new_secp256k1(vec![7; 20])
}

fn load(bytes: Vec<u8>) -> Result<Cid, ErrorKind> {
    let mut number = [0u8; 8];
    number.copy_from_slice(&bytes);
    Ok(Cid(u64::from_le_bytes(number)))
}

fn never_load(bytes: Vec<u8>) -> Result<Cid, ErrorKind> {
    panic!("no code may be loaded: {:?}", bytes);
}

fn never_run(k: Kernel, _module: Cid, _params: u32) -> (Result<u32, ErrorKind>, Kernel) {
    panic!("no code may run for {:?}", k.method_number());
}

fn echo(mut k: Kernel, _module: Cid, params: u32) -> (Result<u32, ErrorKind>, Kernel) {
    let block = k.block_get(params).unwrap();
    let mut data = block.data;
    data.push(k.method_number() as u8);
    let handle = k.block_create(block.codec, &data);
    (handle, k)
}

#[test]
fn new_manager_has_used_nothing() {
    let cm = manager(1000);
    assert_eq!(cm.gas_used(), 0);
    assert_eq!(cm.gas_available(), 1000);
    let (used, machine) = cm.finish();
    assert_eq!(used, 0);
    assert_eq!(machine.state_tree.get_actor_id(SENDER), Some(actor(7, 100)));
}

#[test]
fn manager_charges_the_shared_budget() {
    let mut cm = manager(100);
    assert_eq!(cm.charge_gas(GasCharge::new(60, 10).unwrap()), Ok(()));
    assert_eq!(cm.gas_used(), 70);
    assert_eq!(cm.gas_available(), 30);
    assert_eq!(cm.charge_gas(GasCharge::new(31, 0).unwrap()), Err(ErrorKind::OutOfGas));
    assert_eq!(cm.gas_used(), 70);
    assert_eq!(cm.finish().0, 70);
}

#[test]
fn plain_send_without_value_runs_no_code() {
    let mut cm = manager(1000);
    let r = cm.send(SENDER, Address::new_id(OTHER), METHOD_SEND, &vec![1, 2], 0, &load, &never_run);
    let block = r.unwrap();
    assert_eq!(block.codec, DAG_CBOR);
    assert_eq!(block.data, Vec::<u8>::new());
    assert_eq!(cm.gas_used(), 10);
    let (_, machine) = cm.finish();
    assert_eq!(machine.state_tree.get_actor_id(SENDER), Some(actor(7, 100)));
    assert_eq!(machine.state_tree.get_actor_id(OTHER), Some(actor(8, 5)));
}

#[test]
fn plain_send_with_value_moves_it() {
    let mut cm = manager(1000);
    let r = cm.send(SENDER, Address::new_id(OTHER), METHOD_SEND, &vec![], 40, &load, &never_run);
    assert_eq!(r.unwrap().data, Vec::<u8>::new());
    assert_eq!(cm.gas_used(), 18);
    let (_, machine) = cm.finish();
    assert_eq!(machine.state_tree.get_actor_id(SENDER), Some(actor(7, 60)));
    assert_eq!(machine.state_tree.get_actor_id(OTHER), Some(actor(8, 45)));
}

#[test]
fn send_to_missing_actor_is_refused_before_any_charge() {
    let mut cm = manager(1000);
    let r = cm.send(SENDER, Address::new_id(4242), 2, &vec![], 0, &load, &never_run);
    assert_eq!(r.err(), Some(ErrorKind::InvalidReceiver));
    assert_eq!(cm.gas_used(), 0);
}

#[test]
fn send_to_unresolvable_actor_address_is_refused() {
    let mut cm = manager(1000);
    let r = cm.send(SENDER, Address::new_actor(vec![3; 20]), 2, &vec![], 0, &load, &never_run);
    assert_eq!(r.err(), Some(ErrorKind::InvalidReceiver));
    assert_eq!(cm.gas_used(), 0);
    let (_, machine) = cm.finish();
    assert_eq!(machine.state_tree.get_actor_id(FIRST_NEW_ID), None);
}

#[test]
fn send_without_gas_for_the_invocation_fails() {
    let mut cm = manager(29);
    let r = cm.send(SENDER, Address::new_id(OTHER), 2, &vec![], 0, &load, &never_run);
    assert_eq!(r.err(), Some(ErrorKind::OutOfGas));
    assert_eq!(cm.gas_used(), 0);
    assert_eq!(cm.gas_available(), 29);
}

#[test]
fn overdrawn_send_fails_after_the_charge_and_moves_nothing() {
    let mut cm = manager(1000);
    let r = cm.send(SENDER, Address::new_id(OTHER), 2, &vec![], 101, &load, &never_run);
    assert_eq!(r.err(), Some(ErrorKind::InsufficientFunds));
    assert_eq!(cm.gas_used(), 35);
    let (_, machine) = cm.finish();
    assert_eq!(machine.state_tree.get_actor_id(SENDER), Some(actor(7, 100)));
    assert_eq!(machine.state_tree.get_actor_id(OTHER), Some(actor(8, 5)));
}

#[test]
fn method_runs_the_receivers_code() {
    let loaded = Cell::new(None);
    let loader = |bytes: Vec<u8>| -> Result<Cid, ErrorKind> {
        let code = load(bytes)?;
        loaded.set(Some(code));
        Ok(code)
    };
    let mut cm = manager(1000);
    let r = cm.send(SENDER, Address::new_id(OTHER), 9, &vec![1, 2, 3], 0, &loader, &echo);
    let block = r.unwrap();
    assert_eq!(block.codec, DAG_CBOR);
    assert_eq!(block.data, vec![1, 2, 3, 9]);
    assert_eq!(loaded.get(), Some(Cid(8)));
    assert_eq!(cm.gas_used(), 30);
}

#[test]
fn code_that_cannot_be_loaded_fails_the_send() {
    let broken = |_code: Vec<u8>| -> Result<Cid, ErrorKind> { Err(ErrorKind::Serialization) };
    let mut cm = manager(1000);
    let r = cm.send(SENDER, Address::new_id(OTHER), 9, &vec![], 10, &broken, &never_run);
    assert_eq!(r.err(), Some(ErrorKind::Serialization));
    assert_eq!(cm.gas_used(), 35);
    let (_, machine) = cm.finish();
    assert_eq!(machine.state_tree.get_actor_id(SENDER), Some(actor(7, 90)));
    assert_eq!(machine.state_tree.get_actor_id(OTHER), Some(actor(8, 15)));
}

#[test]
fn code_that_the_store_lacks_fails_the_send() {
    let mut cm = bare_manager(1000);
    let r = cm.send(SENDER, Address::new_id(OTHER), 9, &vec![], 10, &never_load, &never_run);
    assert_eq!(r.err(), Some(ErrorKind::InvalidReceiver));
    assert_eq!(cm.gas_used(), 35);
    let (_, machine) = cm.finish();
    assert_eq!(machine.state_tree.get_actor_id(SENDER), Some(actor(7, 90)));
    assert_eq!(machine.state_tree.get_actor_id(OTHER), Some(actor(8, 15)));
}

#[test]
fn failing_code_fails_the_send_and_the_manager_is_back() {
    let failing = |k: Kernel, _m: Cid, _p: u32| -> (Result<u32, ErrorKind>, Kernel) {
        (Err(ErrorKind::Serialization), k)
    };
    let mut cm = manager(1000);
    let r = cm.send(SENDER, Address::new_id(OTHER), 9, &vec![], 0, &load, &failing);
    assert_eq!(r.err(), Some(ErrorKind::Serialization));
    assert!(cm.0.is_some());
    assert_eq!(cm.gas_used(), 30);
}

#[test]
fn code_that_returns_an_unknown_handle_fails_the_send() {
    let wrong = |k: Kernel, _m: Cid, _p: u32| -> (Result<u32, ErrorKind>, Kernel) { (Ok(17), k) };
    let mut cm = manager(1000);
    let r = cm.send(SENDER, Address::new_id(OTHER), 9, &vec![], 0, &load, &wrong);
    assert_eq!(r.err(), Some(ErrorKind::IllegalArgument));
    assert!(cm.0.is_some());
}

#[test]
fn code_may_return_its_parameters() {
    let same = |k: Kernel, _m: Cid, p: u32| -> (Result<u32, ErrorKind>, Kernel) { (Ok(p), k) };
    let mut cm = manager(1000);
    let r = cm.send(SENDER, Address::new_id(OTHER), 9, &vec![8, 8], 0, &load, &same);
    let block = r.unwrap();
    assert_eq!(block.codec, DAG_CBOR);
    assert_eq!(block.data, vec![8, 8]);
}

fn nesting(mut k: Kernel, _module: Cid, _params: u32) -> (Result<u32, ErrorKind>, Kernel) {
    assert_eq!(k.caller(), SENDER);
    assert_eq!(k.receiver(), OTHER);
    let gone = k.send(Address::new_id(4242), METHOD_SEND, &vec![], 0, &load, &nesting);
    assert_eq!(gone.err(), Some(ErrorKind::InvalidReceiver));
    let poor = k.send(Address::new_id(SENDER), METHOD_SEND, &vec![], 6, &load, &nesting);
    assert_eq!(poor.err(), Some(ErrorKind::InsufficientFunds));
    assert_eq!(k.gas_used(), 48);
    let handle = k.block_create(DAG_CBOR, &vec![1]);
    (handle, k)
}

#[test]
fn failed_nested_send_keeps_its_gas_and_the_manager_returns() {
    let mut cm = manager(1000);
    let r = cm.send(SENDER, Address::new_id(OTHER), 7, &vec![], 0, &load, &nesting);
    assert_eq!(r.unwrap().data, vec![1]);
    assert!(cm.0.is_some());
    assert_eq!(cm.gas_used(), 48);
    assert_eq!(cm.gas_available(), 952);
    let (used, machine) = cm.finish();
    assert_eq!(used, 48);
    assert_eq!(machine.state_tree.get_actor_id(SENDER), Some(actor(7, 100)));
    assert_eq!(machine.state_tree.get_actor_id(OTHER), Some(actor(8, 5)));
}

fn forwarding(mut k: Kernel, _module: Cid, params: u32) -> (Result<u32, ErrorKind>, Kernel) {
    if k.receiver() == OTHER {
        let inner = k.send(Address::new_id(SENDER), 3, &vec![4], 2, &load, &forwarding);
        let block = inner.unwrap();
        let handle = k.block_create(block.codec, &block.data);
        (handle, k)
    } else {
        assert_eq!(k.caller(), OTHER);
        assert_eq!(k.value_received(), 2);
        echo(k, Cid(0), params)
    }
}

#[test]
fn nested_send_shares_the_budget_and_the_state() {
    let mut cm = manager(1000);
    let r = cm.send(SENDER, Address::new_id(OTHER), 7, &vec![], 0, &load, &forwarding);
    assert_eq!(r.unwrap().data, vec![4, 3]);
    assert_eq!(cm.gas_used(), 30 + 35);
    let (_, machine) = cm.finish();
    assert_eq!(machine.state_tree.get_actor_id(SENDER), Some(actor(7, 102)));
    assert_eq!(machine.state_tree.get_actor_id(OTHER), Some(actor(8, 3)));
}

#[test]
fn kernel_charges_the_managers_budget() {
    let mut k = Kernel::new(manager(100), SENDER, OTHER, 2, 0);
    assert_eq!(k.charge_gas(GasCharge::new(40, 0).unwrap()), Ok(()));
    assert_eq!(k.gas_used(), 40);
    assert_eq!(k.gas_available(), 60);
    assert_eq!(k.charge_gas(GasCharge::new(61, 0).unwrap()), Err(ErrorKind::OutOfGas));
    let cm = k.take();
    assert_eq!(cm.gas_used(), 40);
}

#[test]
fn send_to_new_key_address_creates_the_account_first() {
    let constructed = Cell::new(0u32);
    let runner = |mut k: Kernel, module: Cid, params: u32| -> (Result<u32, ErrorKind>, Kernel) {
        assert_eq!(module, ACCOUNT_CODE);
        assert_eq!(k.receiver(), FIRST_NEW_ID);
        let block = k.block_get(params).unwrap();
        assert_eq!(block.codec, DAG_CBOR);
        if k.method_number() == METHOD_CONSTRUCTOR {
            constructed.set(constructed.get() + 1);
            assert_eq!(k.caller(), SYSTEM_ACTOR_ID);
            assert_eq!(k.value_received(), 0);
            assert_eq!(block.data, key().key_bytes());
            let handle = k.block_create(DAG_CBOR, &vec![]);
            (handle, k)
        } else {
            assert_eq!(k.method_number(), 2);
            assert_eq!(k.caller(), SENDER);
            assert_eq!(k.value_received(), 30);
            assert_eq!(block.data, vec![1, 2, 3]);
            let handle = k.block_create(DAG_CBOR, &vec![9, 9]);
            (handle, k)
        }
    };
    let mut cm = manager(1000);
    let r = cm.send(SENDER, key(), 2, &vec![1, 2, 3], 30, &load, &runner);
    let block = r.unwrap();
    assert_eq!(block.codec, DAG_CBOR);
    assert_eq!(block.data, vec![9, 9]);
    assert_eq!(constructed.get(), 1);
    assert_eq!(cm.gas_used(), 150 + 30 + 35);
    let (used, machine) = cm.finish();
    assert_eq!(used, 215);
    assert_eq!(machine.state_tree.lookup_id(&key()), Some(FIRST_NEW_ID));
    assert_eq!(machine.state_tree.get_actor_id(SENDER), Some(actor(7, 70)));
    assert_eq!(
        machine.state_tree.get_actor_id(FIRST_NEW_ID),
        Some(ActorState { code: ACCOUNT_CODE, balance: 30, sequence: 0, state_root: EMPTY_STATE })
    );
}

#[test]
fn second_send_to_a_key_address_finds_the_account() {
    let constructed = Cell::new(0u32);
    let runner = |mut k: Kernel, _m: Cid, _p: u32| -> (Result<u32, ErrorKind>, Kernel) {
        if k.method_number() == METHOD_CONSTRUCTOR {
            constructed.set(constructed.get() + 1);
        }
        let handle = k.block_create(DAG_CBOR, &vec![k.receiver() as u8]);
        (handle, k)
    };
    let mut cm = manager(1000);
    let first = cm.send(SENDER, key(), 2, &vec![], 0, &load, &runner).unwrap();
    assert_eq!(cm.gas_used(), 150 + 30 + 30);
    let second = cm.send(SENDER, key(), 2, &vec![], 0, &load, &runner).unwrap();
    assert_eq!(first.data, vec![FIRST_NEW_ID as u8]);
    assert_eq!(second.data, vec![FIRST_NEW_ID as u8]);
    assert_eq!(constructed.get(), 1);
    assert_eq!(cm.gas_used(), 150 + 30 + 30 + 30);
    let (_, machine) = cm.finish();
    assert_eq!(machine.state_tree.get_actor_id(FIRST_NEW_ID + 1), None);
}

#[test]
fn account_whose_code_is_absent_fails_the_send() {
    let mut cm = bare_manager(1000);
    let r = cm.send(SENDER, key(), 2, &vec![], 30, &never_load, &never_run);
    assert_eq!(r.err(), Some(ErrorKind::InvalidReceiver));
    assert_eq!(cm.gas_used(), 150 + 30);
    let (_, machine) = cm.finish();
    assert_eq!(machine.state_tree.get_actor_id(SENDER), Some(actor(7, 100)));
    assert_eq!(machine.state_tree.lookup_id(&key()), Some(FIRST_NEW_ID));
}

#[test]
fn zero_key_address_gets_no_account() {
    let mut zero = vec![0u8; 48];
    zero[0] = 192;
    let mut cm = manager(1000);
    let r = cm.send(SENDER, Address::new_bls(zero), 2, &vec![], 0, &load, &never_run);
    assert_eq!(r.err(), Some(ErrorKind::IllegalArgument));
    assert_eq!(cm.gas_used(), 150);
    let (_, machine) = cm.finish();
    assert_eq!(machine.state_tree.get_actor_id(FIRST_NEW_ID), None);
}

#[test]
fn account_creation_without_gas_fails_first() {
    let mut cm = manager(149);
    let r = cm.create_account_actor(&key(), &load, &never_run);
    assert_eq!(r, Err(ErrorKind::OutOfGas));
    assert_eq!(cm.gas_used(), 0);
    let (_, machine) = cm.finish();
    assert_eq!(machine.state_tree.lookup_id(&key()), None);
}

#[test]
fn account_creation_gives_the_new_id() {
    let mut cm = manager(1000);
    let r = cm.create_account_actor(&Address::new_bls(vec![5; 48]), &load, &echo);
    assert_eq!(r, Ok(FIRST_NEW_ID));
    assert_eq!(cm.gas_used(), 180);
}

#[test]
fn send_resolved_to_missing_actor_is_refused() {
    let mut cm = manager(1000);
    let r = cm.send_resolved(SENDER, 4242, METHOD_SEND, &vec![], 0, &load, &never_run);
    assert_eq!(r.err(), Some(ErrorKind::InvalidReceiver));
}

#[test]
fn map_mut_puts_back_what_the_closure_returns() {
    let mut cm = manager(1000);
    let seen = cm.map_mut(|mut taken: CallManager| {
        taken.charge_gas(GasCharge::new(5, 0).unwrap()).unwrap();
        (taken.gas_used(), taken)
    });
    assert_eq!(seen, 5);
    assert!(cm.0.is_some());
    assert_eq!(cm.gas_used(), 5);
}

#[test]
fn absent_manager_holds_nothing() {
    assert!(CallManager::absent().0.is_none());
}

#[test]
fn invoke_hands_the_parameters_over_as_first_block() {
    let (r, cm) = invoke(manager(1000), SENDER, OTHER, 5, 0, &vec![6], Cid(8), &echo);
    assert_eq!(r.unwrap().data, vec![6, 5]);
    assert_eq!(cm.gas_used(), 0);
}

#[test]
fn conclude_reads_the_result_block() {
    let mut k = Kernel::new(manager(1000), SENDER, OTHER, 5, 0);
    let h = k.block_create(0x55, &vec![3]).unwrap();
    let (r, cm) = conclude(Ok(h), k);
    let block = r.unwrap();
    assert_eq!(block.codec, 0x55);
    assert_eq!(block.data, vec![3]);
    assert!(cm.0.is_some());
    let k2 = Kernel::new(cm, SENDER, OTHER, 5, 0);
    let (r2, cm2) = conclude(Err(ErrorKind::OutOfGas), k2);
    assert_eq!(r2.err(), Some(ErrorKind::OutOfGas));
    assert!(cm2.0.is_some());
}

#[test]
fn resolve_gives_the_same_id_twice() {
    let constructed = Cell::new(0u32);
    let runner = |mut k: Kernel, _m: Cid, _p: u32| -> (Result<u32, ErrorKind>, Kernel) {
        constructed.set(constructed.get() + 1);
        let handle = k.block_create(DAG_CBOR, &vec![]);
        (handle, k)
    };
    let mut cm = manager(1000);
    assert_eq!(cm.resolve(&key(), &load, &runner), Ok(FIRST_NEW_ID));
    assert_eq!(cm.gas_used(), 180);
    assert_eq!(cm.resolve(&key(), &load, &runner), Ok(FIRST_NEW_ID));
    assert_eq!(cm.gas_used(), 180);
    assert_eq!(constructed.get(), 1);
    assert_eq!(cm.resolve(&Address::new_id(77), &load, &runner), Ok(77));
    assert_eq!(
        cm.resolve(&Address::new_actor(vec![1; 20]), &load, &runner),
        Err(ErrorKind::InvalidReceiver)
    );
    assert_eq!(cm.gas_used(), 180);
}

#[test]
fn send_without_value_asks_nothing_of_the_sender() {
    let mut cm = manager(1000);
    let r = cm.send(4242, Address::new_id(OTHER), METHOD_SEND, &vec![], 0, &load, &never_run);
    assert!(r.is_ok());
    assert_eq!(cm.gas_used(), 10);
    let r = cm.send(4242, Address::new_id(OTHER), METHOD_SEND, &vec![], 1, &load, &never_run);
    assert_eq!(r.err(), Some(ErrorKind::IllegalArgument));
    assert_eq!(cm.gas_used(), 28);
}

#[test]
fn load_module_hands_the_stored_bytes_to_the_loader() {
    let cm = manager(1000);
    let whole = |bytes: Vec<u8>| -> Result<Vec<u8>, ErrorKind> { Ok(bytes) };
    assert_eq!(cm.load_module(Cid(8), &whole), Ok(vec![8, 0, 0, 0, 0, 0, 0, 0]));
    assert_eq!(cm.load_module(Cid(9), &whole), Err(ErrorKind::InvalidReceiver));
    assert_eq!(cm.load_module(ACCOUNT_CODE, &load), Ok(ACCOUNT_CODE));
}

#[test]
fn block_store_gives_what_was_put_last() {
    let mut blocks = BlockStore::new();
    assert_eq!(blocks.get(Cid(1)), None);
    blocks.put(Cid(1), &vec![1, 2]);
    blocks.put(Cid(2), &vec![3]);
    assert_eq!(blocks.get(Cid(1)), Some(vec![1, 2]));
    assert_eq!(blocks.get(Cid(2)), Some(vec![3]));
    blocks.put(Cid(1), &vec![]);
    assert_eq!(blocks.get(Cid(1)), Some(vec![]));
    assert_eq!(blocks.get(Cid(3)), None);
}

#[test]
fn manager_shows_its_machine() {
    let cm = manager(1000);
    assert_eq!(cm.machine().state_tree.get_actor_id(OTHER), Some(actor(8, 5)));
    assert_eq!(cm.machine().prices, prices());
    assert_eq!(cm.machine().account_zero_state(), actor(500, 0));
}

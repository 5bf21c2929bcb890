//! Approval events.
use marketplace_storage::events::{
    emit_approval_for_all_set, emit_approval_revoked, emit_approval_set,
};
use soroban_sdk::testutils::{Address as _, ContractFunctionSet, EnvTestConfig, Events as _};
use soroban_sdk::{Address, Env, IntoVal, Symbol, Val};

/// A contract without functions of its own.
struct Empty;

impl ContractFunctionSet for Empty {
    fn call(&self, _func: &str, _env: Env, _args: &[Val]) -> Option<Val> {
        None
    }
}

/// An `Env` with a contract in it, and the contract's address.
fn deployed() -> (Env, Address) {
    let env = Env::new_with_config(EnvTestConfig {
        capture_snapshot_at_drop: false,
    });
    let id = env.register(Empty, ());
    (env, id)
}

/// The events of the last invocation as a list of contract, topics and data.
fn expect(env: &Env, events: &[(Address, soroban_sdk::Vec<Val>, Val)]) {
    let mut want = soroban_sdk::Vec::new(env);
    for event in events {
        want.push_back(event.clone());
    }
    assert_eq!(env.events().all(), want);
}

fn topics(env: &Env, name: &str, owner: &Address) -> soroban_sdk::Vec<Val> {
    (Symbol::new(env, name), owner.clone()).into_val(env)
}

#[test]
fn a_token_approval_is_published() {
    let (env, id) = deployed();
    let owner = Address::generate(&env);
    let approved = Address::generate(&env);
    let mut handle = env.clone();
    env.as_contract(&id, || emit_approval_set(&mut handle, &owner, &approved, 7, 1000));
    expect(
        &env,
        &[(
            id.clone(),
            topics(&env, "approval_set", &owner),
            (approved.clone(), 7u64, 1000u32).into_val(&env),
        )],
    );
}

#[test]
fn an_operator_grant_is_published() {
    let (env, id) = deployed();
    let owner = Address::generate(&env);
    let operator = Address::generate(&env);
    let mut handle = env.clone();
    env.as_contract(&id, || {
        emit_approval_for_all_set(&mut handle, &owner, &operator, true, 44)
    });
    expect(
        &env,
        &[(
            id.clone(),
            topics(&env, "appr_all_set", &owner),
            (operator.clone(), true, 44u32).into_val(&env),
        )],
    );
}

#[test]
fn an_operator_revocation_has_no_expiry() {
    let (env, id) = deployed();
    let owner = Address::generate(&env);
    let operator = Address::generate(&env);
    let mut handle = env.clone();
    env.as_contract(&id, || {
        emit_approval_for_all_set(&mut handle, &owner, &operator, false, 0);
        emit_approval_for_all_set(&mut handle, &owner, &operator, false, 9);
    });
    let event = (
        id.clone(),
        topics(&env, "appr_all_set", &owner),
        (operator.clone(), false, 0u32).into_val(&env),
    );
    expect(&env, &[event.clone(), event]);
}

#[test]
fn a_revocation_of_all_approvals_is_published() {
    let (env, id) = deployed();
    let owner = Address::generate(&env);
    let mut handle = env.clone();
    env.as_contract(&id, || emit_approval_revoked(&mut handle, &owner, u64::MAX));
    expect(
        &env,
        &[(
            id.clone(),
            topics(&env, "aprvl_rvkd", &owner),
            u64::MAX.into_val(&env),
        )],
    );
}

#[test]
fn events_come_in_the_order_of_the_calls() {
    let (env, id) = deployed();
    let owner = Address::generate(&env);
    let approved = Address::generate(&env);
    let mut handle = env.clone();
    env.as_contract(&id, || {
        emit_approval_set(&mut handle, &owner, &approved, 1, 0);
        emit_approval_revoked(&mut handle, &owner, 1);
    });
    expect(
        &env,
        &[
            (
                id.clone(),
                topics(&env, "approval_set", &owner),
                (approved.clone(), 1u64, 0u32).into_val(&env),
            ),
            (id.clone(), topics(&env, "aprvl_rvkd", &owner), 1u64.into_val(&env)),
        ],
    );
}

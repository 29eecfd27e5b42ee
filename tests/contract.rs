use credit::{
    execute_operation, AgeAmount, ApplicationCall, ApplicationId, ChainId, ContractError, Credit,
    CryptoHash, InitialState, Message, MessageContext, MessageId, Operation, Outcome, Owner,
    StateError,
};

const LIFETIME: u64 = 1_000;
const SUPPLY: u128 = 1_000_000;

fn hash(n: u128) -> CryptoHash {
    CryptoHash { high: 7, low: n }
}

fn owner(n: u128) -> Owner {
    Owner { hash: hash(n) }
}

fn chain(n: u128) -> ChainId {
    ChainId { hash: hash(n) }
}

fn app(n: u128) -> ApplicationId {
    let id = MessageId { chain_id: chain(n), height: 1, index: 0 };
    ApplicationId { bytecode_id: id, creation: id }
}

fn ledger() -> Credit {
    Credit::new(InitialState { initial_supply: SUPPLY, amount_alive_ms: LIFETIME })
}

fn from_creation(now: u64) -> MessageContext {
    MessageContext {
        origin_chain_id: chain(0),
        authenticated_signer: None,
        creation_chain_id: chain(0),
        now,
    }
}

fn from_chain(n: u128, signer: Option<Owner>, now: u64) -> MessageContext {
    MessageContext {
        origin_chain_id: chain(n),
        authenticated_signer: signer,
        creation_chain_id: chain(0),
        now,
    }
}

#[test]
fn reward_call_needs_registered_caller() {
    let mut c = ledger();
    let call = ApplicationCall::Reward { owner: owner(1), amount: 10 };
    assert!(matches!(c.handle_application_call(app(5), call), Err(ContractError::CallerNotAllowed)));
    let set = Message::SetRewardCallers { application_ids: vec![app(5)] };
    assert!(matches!(
        c.execute_message(&from_creation(0), set),
        Ok(Outcome::Broadcast(Message::SetRewardCallers { .. }))
    ));
    assert!(c.is_reward_caller(app(5)));
    let message = c.handle_application_call(app(5), call).unwrap();
    assert!(matches!(message, Message::Reward { owner: o, amount: 10 } if o == owner(1)));
    assert!(c.execute_message(&from_creation(0), message).is_ok());
    assert_eq!(c.balance(Some(owner(1))), 10);
    assert_eq!(c.balance(None), SUPPLY - 10);
}

#[test]
fn transfer_call_needs_registered_caller() {
    let mut c = ledger();
    let call = ApplicationCall::Transfer { from: owner(1), to: owner(2), amount: 3 };
    assert!(matches!(c.handle_application_call(app(6), call), Err(ContractError::CallerNotAllowed)));
    c.set_transfer_callers(&vec![app(6), app(7)]);
    assert!(c.is_transfer_caller(app(7)));
    assert!(!c.is_reward_caller(app(6)));
    assert!(matches!(
        c.handle_application_call(app(6), call),
        Ok(Message::Transfer { amount: 3, .. })
    ));
}

#[test]
fn callers_accumulate() {
    let mut c = ledger();
    c.set_reward_callers(&vec![app(1)]);
    c.set_reward_callers(&vec![app(2), app(1)]);
    assert!(c.is_reward_caller(app(1)));
    assert!(c.is_reward_caller(app(2)));
    assert!(!c.is_reward_caller(app(3)));
}

#[test]
fn set_callers_from_other_chain_is_refused() {
    let mut c = ledger();
    let set = Message::SetRewardCallers { application_ids: vec![app(5)] };
    assert!(matches!(
        c.execute_message(&from_chain(3, None, 0), set),
        Err(ContractError::OperationNotAllowed)
    ));
    assert!(!c.is_reward_caller(app(5)));
    let set = Message::SetTransferCallers { application_ids: vec![app(5)] };
    assert!(matches!(
        c.execute_message(&from_chain(3, None, 0), set),
        Err(ContractError::OperationNotAllowed)
    ));
    assert!(!c.is_transfer_caller(app(5)));
}

#[test]
fn transfer_message_moves_credit() {
    let mut c = ledger();
    c.reward(owner(1), 10, 0).unwrap();
    let m = Message::Transfer { from: owner(1), to: owner(2), amount: 4 };
    assert!(matches!(
        c.execute_message(&from_chain(3, None, 50), m),
        Ok(Outcome::Broadcast(Message::Transfer { amount: 4, .. }))
    ));
    assert_eq!(c.lots(owner(1)), vec![AgeAmount { amount: 6, expired: 1_050 }]);
    assert_eq!(c.lots(owner(2)), vec![AgeAmount { amount: 4, expired: 1_050 }]);
    let m = Message::Transfer { from: owner(1), to: owner(2), amount: 7 };
    assert!(matches!(
        c.execute_message(&from_chain(3, None, 50), m),
        Err(ContractError::StateError(StateError::InsufficientAccountBalance))
    ));
}

#[test]
fn transfer_ext_pays_from_signer() {
    let mut c = ledger();
    c.reward(owner(1), 10, 0).unwrap();
    let m = Message::TransferExt { to: owner(2), amount: 4 };
    assert!(matches!(
        c.execute_message(&from_chain(3, Some(owner(1)), 0), m),
        Ok(Outcome::Broadcast(Message::TransferExt { amount: 4, .. }))
    ));
    assert_eq!(c.balance(Some(owner(1))), 6);
    assert_eq!(c.balance(Some(owner(2))), 4);
}

#[test]
fn transfer_ext_without_signer_is_refused() {
    let mut c = ledger();
    c.reward(owner(1), 10, 0).unwrap();
    let m = Message::TransferExt { to: owner(2), amount: 4 };
    assert!(matches!(
        c.execute_message(&from_chain(3, None, 0), m),
        Err(ContractError::CallerNotAllowed)
    ));
    assert_eq!(c.balance(Some(owner(1))), 10);
}

#[test]
fn reward_message_overflow_is_refused() {
    let mut c = ledger();
    c.reward(owner(1), u128::MAX, 0).unwrap();
    let m = Message::Reward { owner: owner(1), amount: 1 };
    assert!(matches!(
        c.execute_message(&from_creation(0), m),
        Err(ContractError::StateError(StateError::AmountOverflow))
    ));
}

#[test]
fn liquidate_message_sweeps() {
    let mut c = ledger();
    c.reward(owner(1), 10, 0).unwrap();
    assert!(matches!(
        c.execute_message(&from_chain(4, None, LIFETIME + 1), Message::Liquidate),
        Ok(Outcome::Broadcast(Message::Liquidate))
    ));
    assert_eq!(c.balance(None), SUPPLY);
    assert_eq!(c.spendable(owner(1)), 0);
}

#[test]
fn subscribe_from_other_chain_gets_parameters() {
    let mut c = ledger();
    match c.execute_message(&from_chain(4, None, 0), Message::RequestSubscribe) {
        Ok(Outcome::Subscribe { chain_id, state }) => {
            assert_eq!(chain_id, chain(4));
            assert_eq!(state, InitialState { initial_supply: SUPPLY, amount_alive_ms: LIFETIME });
        },
        _ => panic!("expected a subscription"),
    }
    assert!(matches!(c.execute_message(&from_creation(0), Message::RequestSubscribe), Ok(Outcome::Done)));
}

#[test]
fn initial_state_message_sets_parameters() {
    let mut c = ledger();
    let state = InitialState { initial_supply: 77, amount_alive_ms: 9 };
    assert!(matches!(
        c.execute_message(&from_creation(0), Message::InitialState { state }),
        Ok(Outcome::Done)
    ));
    assert_eq!(c.initial_supply(), 77);
    assert_eq!(c.balance(None), 77);
    c.reward(owner(1), 1, 10).unwrap();
    assert_eq!(c.lots(owner(1)), vec![AgeAmount { amount: 1, expired: 19 }]);
}

#[test]
fn operations_become_messages() {
    assert!(matches!(execute_operation(Operation::Liquidate), Message::Liquidate));
    assert!(matches!(execute_operation(Operation::RequestSubscribe), Message::RequestSubscribe));
    assert!(matches!(
        execute_operation(Operation::Transfer { from: owner(1), to: owner(2), amount: 3 }),
        Message::Transfer { amount: 3, .. }
    ));
    assert!(matches!(
        execute_operation(Operation::TransferExt { to: owner(2), amount: 8 }),
        Message::TransferExt { amount: 8, .. }
    ));
    match execute_operation(Operation::SetTransferCallers { application_ids: vec![app(1)] }) {
        Message::SetTransferCallers { application_ids } => assert_eq!(application_ids, vec![app(1)]),
        _ => panic!("expected SetTransferCallers"),
    }
    match execute_operation(Operation::SetRewardCallers { application_ids: vec![app(2)] }) {
        Message::SetRewardCallers { application_ids } => assert_eq!(application_ids, vec![app(2)]),
        _ => panic!("expected SetRewardCallers"),
    }
}

use vstd::prelude::*;

use crate::state::{CreditModel, Credit, InitialState, StateError};
use crate::types::{Amount, ApplicationId, ChainId, Owner, Timestamp};

verus! {

/// What a user asks of the ledger on the chain it works on.
#[derive(Debug)]
pub enum Operation {
    Liquidate,
    Transfer { from: Owner, to: Owner, amount: Amount },
    /// A transfer out of the signer's own account.
    TransferExt { to: Owner, amount: Amount },
    SetRewardCallers { application_ids: Vec<ApplicationId> },
    SetTransferCallers { application_ids: Vec<ApplicationId> },
    RequestSubscribe,
}

/// What another application asks of the ledger.
#[derive(Clone, Copy, Debug, PartialEq, Eq, Structural)]
pub enum ApplicationCall {
    Reward { owner: Owner, amount: Amount },
    Transfer { from: Owner, to: Owner, amount: Amount },
}

/// What one ledger instance sends another.
#[derive(Debug)]
pub enum Message {
    InitialState { state: InitialState },
    Liquidate,
    Reward { owner: Owner, amount: Amount },
    Transfer { from: Owner, to: Owner, amount: Amount },
    TransferExt { to: Owner, amount: Amount },
    SetRewardCallers { application_ids: Vec<ApplicationId> },
    SetTransferCallers { application_ids: Vec<ApplicationId> },
    RequestSubscribe,
}

/// Why a request was refused. A refused request changes nothing.
#[derive(Clone, Copy, Debug, PartialEq, Eq, Structural)]
pub enum ContractError {
    StateError(StateError),
    /// The calling application is not among those allowed to ask for this.
    CallerNotAllowed,
    /// Only the chain the ledger was created on may ask for this.
    OperationNotAllowed,
    SessionsNotSupported,
}

/// Where a message comes from and when it is handled.
#[derive(Clone, Copy, Debug)]
pub struct MessageContext {
    /// The chain that sent the message.
    pub origin_chain_id: ChainId,
    /// The user who signed the request that led to the message, if any.
    pub authenticated_signer: Option<Owner>,
    /// The chain on which the ledger was created.
    pub creation_chain_id: ChainId,
    pub now: Timestamp,
}

/// What is left to do once a message has been handled.
#[derive(Debug)]
pub enum Outcome {
    Done,
    /// Pass the message on to the subscribed replicas.
    Broadcast(Message),
    /// Subscribe `chain_id` to the replicas and send it the ledger's parameters.
    Subscribe { chain_id: ChainId, state: InitialState },
}

/// Every operation becomes the message of the same name, sent to the chain
/// the ledger was created on.
pub fn execute_operation(operation: Operation) -> (r: Message)
    ensures
        r == match operation {
            Operation::Liquidate => Message::Liquidate,
            Operation::Transfer { from, to, amount } => Message::Transfer { from, to, amount },
            Operation::TransferExt { to, amount } => Message::TransferExt { to, amount },
            Operation::SetRewardCallers { application_ids } => Message::SetRewardCallers {
                application_ids,
            },
            Operation::SetTransferCallers { application_ids } => Message::SetTransferCallers {
                application_ids,
            },
            Operation::RequestSubscribe => Message::RequestSubscribe,
        },
{
    match operation {
        Operation::Liquidate => Message::Liquidate,
        Operation::Transfer { from, to, amount } => Message::Transfer { from, to, amount },
        Operation::TransferExt { to, amount } => Message::TransferExt { to, amount },
        Operation::SetRewardCallers { application_ids } => Message::SetRewardCallers {
            application_ids,
        },
        Operation::SetTransferCallers { application_ids } => Message::SetTransferCallers {
            application_ids,
        },
        Operation::RequestSubscribe => Message::RequestSubscribe,
    }
}

/// The answer to `call` from application `caller`: the message to send to
/// the creation chain where the caller is allowed to ask for it.
pub open spec fn call_outcome(s: CreditModel, caller: ApplicationId, call: ApplicationCall) -> Result<
    Message,
    ContractError,
> {
    match call {
        ApplicationCall::Reward { owner, amount } => if s.reward_callers.contains(caller) {
            Ok(Message::Reward { owner, amount })
        } else {
            Err(ContractError::CallerNotAllowed)
        },
        ApplicationCall::Transfer { from, to, amount } => if s.transfer_callers.contains(caller) {
            Ok(Message::Transfer { from, to, amount })
        } else {
            Err(ContractError::CallerNotAllowed)
        },
    }
}

impl Credit {
    /// Checks that `caller` may ask for `call`, and turns it into the message
    /// for the creation chain.
    pub fn handle_application_call(&self, caller: ApplicationId, call: ApplicationCall) -> (r:
        Result<Message, ContractError>)
        ensures
            r == call_outcome(self@, caller, call),
    {
        match call {
            ApplicationCall::Reward { owner, amount } => {
                if self.is_reward_caller(caller) {
                    Ok(Message::Reward { owner, amount })
                } else {
                    Err(ContractError::CallerNotAllowed)
                }
            },
            ApplicationCall::Transfer { from, to, amount } => {
                if self.is_transfer_caller(caller) {
                    Ok(Message::Transfer { from, to, amount })
                } else {
                    Err(ContractError::CallerNotAllowed)
                }
            },
        }
    }

    /// Carries out `message`. Rewards, transfers and sweeps are passed on to
    /// the replicas once done; changes to the callers are accepted from the
    /// creation chain only; a subscription request from another chain is
    /// answered with the ledger's parameters.
    pub fn execute_message(&mut self, context: &MessageContext, message: Message) -> (r: Result<
        Outcome,
        ContractError,
    >)
        requires
            old(self).wf(),
        ensures
            final(self).wf(),
            match message {
                Message::InitialState { state } => r == Ok::<Outcome, ContractError>(Outcome::Done)
                    && final(self)@ == old(self)@.initialized(state),
                Message::Liquidate => r == Ok::<Outcome, ContractError>(
                    Outcome::Broadcast(Message::Liquidate),
                ) && final(self)@ == old(self)@.liquidated(context.now),
                Message::Reward { owner, amount } => if old(self)@.can_reward(owner, amount) {
                    r == Ok::<Outcome, ContractError>(
                        Outcome::Broadcast(Message::Reward { owner, amount }),
                    ) && final(self)@ == old(self)@.rewarded(owner, amount, context.now)
                } else {
                    r == Err::<Outcome, ContractError>(
                        ContractError::StateError(StateError::AmountOverflow),
                    ) && final(self)@ == old(self)@
                },
                Message::Transfer { from, to, amount } => match old(self)@.transfer_error(
                    from,
                    to,
                    amount,
                ) {
                    None => r == Ok::<Outcome, ContractError>(
                        Outcome::Broadcast(Message::Transfer { from, to, amount }),
                    ) && final(self)@ == old(self)@.transferred(from, to, amount, context.now),
                    Some(e) => r == Err::<Outcome, ContractError>(ContractError::StateError(e))
                        && final(self)@ == old(self)@,
                },
                Message::TransferExt { to, amount } => match context.authenticated_signer {
                    None => r == Err::<Outcome, ContractError>(ContractError::CallerNotAllowed)
                        && final(self)@ == old(self)@,
                    Some(from) => match old(self)@.transfer_error(from, to, amount) {
                        None => r == Ok::<Outcome, ContractError>(
                            Outcome::Broadcast(Message::TransferExt { to, amount }),
                        ) && final(self)@ == old(self)@.transferred(from, to, amount, context.now),
                        Some(e) => r == Err::<Outcome, ContractError>(ContractError::StateError(e))
                            && final(self)@ == old(self)@,
                    },
                },
                Message::SetRewardCallers { application_ids } => if context.origin_chain_id
                    != context.creation_chain_id {
                    r == Err::<Outcome, ContractError>(ContractError::OperationNotAllowed)
                        && final(self)@ == old(self)@
                } else {
                    r == Ok::<Outcome, ContractError>(
                        Outcome::Broadcast(Message::SetRewardCallers { application_ids }),
                    ) && final(self)@ == old(self)@.with_reward_callers(application_ids@.to_set())
                },
                Message::SetTransferCallers { application_ids } => if context.origin_chain_id
                    != context.creation_chain_id {
                    r == Err::<Outcome, ContractError>(ContractError::OperationNotAllowed)
                        && final(self)@ == old(self)@
                } else {
                    r == Ok::<Outcome, ContractError>(
                        Outcome::Broadcast(Message::SetTransferCallers { application_ids }),
                    ) && final(self)@ == old(self)@.with_transfer_callers(
                        application_ids@.to_set(),
                    )
                },
                Message::RequestSubscribe => final(self)@ == old(self)@ && if context.origin_chain_id
                    == context.creation_chain_id {
                    r == Ok::<Outcome, ContractError>(Outcome::Done)
                } else {
                    r == Ok::<Outcome, ContractError>(
                        Outcome::Subscribe {
                            chain_id: context.origin_chain_id,
                            state: InitialState {
                                initial_supply: old(self)@.initial_supply as Amount,
                                amount_alive_ms: old(self)@.amount_alive_ms,
                            },
                        },
                    )
                },
            },
    {
        match message {
            Message::InitialState { state } => {
                self.initialize_credit(state);
                Ok(Outcome::Done)
            },
            Message::Liquidate => {
                self.liquidate(context.now);
                Ok(Outcome::Broadcast(Message::Liquidate))
            },
            Message::Reward { owner, amount } => match self.reward(owner, amount, context.now) {
                Ok(()) => Ok(Outcome::Broadcast(Message::Reward { owner, amount })),
                Err(e) => Err(ContractError::StateError(e)),
            },
            Message::Transfer { from, to, amount } => match self.transfer(
                from,
                to,
                amount,
                context.now,
            ) {
                Ok(()) => Ok(Outcome::Broadcast(Message::Transfer { from, to, amount })),
                Err(e) => Err(ContractError::StateError(e)),
            },
            Message::TransferExt { to, amount } => match context.authenticated_signer {
                None => Err(ContractError::CallerNotAllowed),
                Some(from) => match self.transfer(from, to, amount, context.now) {
                    Ok(()) => Ok(Outcome::Broadcast(Message::TransferExt { to, amount })),
                    Err(e) => Err(ContractError::StateError(e)),
                },
            },
            Message::SetRewardCallers { application_ids } => {
                if context.origin_chain_id != context.creation_chain_id {
                    return Err(ContractError::OperationNotAllowed);
                }
                self.set_reward_callers(&application_ids);
                Ok(Outcome::Broadcast(Message::SetRewardCallers { application_ids }))
            },
            Message::SetTransferCallers { application_ids } => {
                if context.origin_chain_id != context.creation_chain_id {
                    return Err(ContractError::OperationNotAllowed);
                }
                self.set_transfer_callers(&application_ids);
                Ok(Outcome::Broadcast(Message::SetTransferCallers { application_ids }))
            },
            Message::RequestSubscribe => {
                if context.origin_chain_id == context.creation_chain_id {
                    return Ok(Outcome::Done);
                }
                Ok(Outcome::Subscribe { chain_id: context.origin_chain_id, state: self.initial_state() })
            },
        }
    }
}

} // verus!

pub mod contract;
pub mod laws;
pub mod lots;
pub mod platform;
pub mod state;
pub mod types;

pub use contract::{
    execute_operation, ApplicationCall, ContractError, Message, MessageContext, Operation, Outcome,
};
pub use lots::{AgeAmount, AgeAmounts};
pub use state::{Credit, InitialState, StateError, DEFAULT_INITIAL_SUPPLY};
pub use types::{Amount, ApplicationId, ChainId, CryptoHash, MessageId, Owner, Timestamp};

//! A wizard-style source-code generator core.
//!
//! A finite state machine gates which user inputs are legal at each point;
//! every accepted input is recorded in an append-only transition log; and a
//! pure fold over that log splices text templates together, substituting
//! placeholder tokens, to produce the generated source file.

pub mod engine;
pub mod fsm;
pub mod snippets;
pub mod text;

//! An in-process bridge that lets a test harness call a natively compiled
//! on-chain program function as if the ledger runtime had dispatched it
//! through its bytecode virtual machine.
//!
//! The library owns the verified core of that bridge: the error-taxonomy
//! translation between the runtime's internal failure codes and the
//! program-facing ones, the account model with its mutation guards, the
//! bidirectional account-state reconciliation, the flat parameter buffer
//! codec, the capability table a program calls during execution, and the
//! decision logic of the invocation trampoline and of cross-program
//! invocation.  The host glue that actually runs a program function under a
//! recoverable failure boundary is ordinary unverified code built on top of
//! these pieces.

pub mod account;
pub mod bridge;
pub mod context;
pub mod cpi;
pub mod errors;
pub mod reconcile;
pub mod stubs;
pub mod trampoline;

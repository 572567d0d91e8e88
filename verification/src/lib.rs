//! Convergence protocol for composable, versioned state.
//!
//! A piece of state may depend on other, related pieces of state owned
//! elsewhere.  This library defines the capability a domain state type must
//! offer (`ComposableState`), the registry through which a verification pass
//! discovers and requests related state (`RelatedContracts`), and the adapter
//! (`Contract`) that decodes raw payloads, drives the capability, and encodes
//! the results, with exact contracts on every operation.

pub mod adapter;
pub mod bytes;
pub mod composable;
pub mod counter;
pub mod error;
pub mod registry;

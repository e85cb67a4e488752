//! An ownership-indexed registry of uniquely identified records ("kitties").
//!
//! A [`Pallet`] mints records, keeps track of the principal who owns each,
//! and hands records from one principal to another, never letting anyone
//! own more than a configured maximum. Its state is two stores that must
//! agree, the records by identifier and the identifiers by owner, and a
//! counter that issues the identifiers.
//!
//! - [`model`] says what the state is, what each operation makes of it, and
//!   which invariant every reachable state satisfies;
//! - [`pallet`] holds the registry, whose operations are proved to do what
//!   the model says;
//! - [`history`] proves what holds after any sequence of calls;
//! - [`store`], [`allocator`], [`gender`] and [`origin`] are the parts that
//!   the registry is made of.

pub mod allocator;
pub mod error;
pub mod event;
pub mod gender;
pub mod history;
pub mod kitty;
pub mod model;
pub mod origin;
pub mod pallet;
pub mod store;

pub use crate::error::Error;
pub use crate::event::Event;
pub use crate::gender::Gender;
pub use crate::kitty::{Balance, Id, Kitties, PrincipalId};
pub use crate::origin::Origin;
pub use crate::pallet::{Config, Pallet};

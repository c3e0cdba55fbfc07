//! A verified model of a minimal blog: posts with store-assigned
//! identifiers, a post store with create / find / update / delete
//! operations, and the request-handler decisions that map each route
//! to a store operation and a response.
//!
//! The store is modelled as the single table it is: a sequence of
//! rows with pairwise-distinct identifiers, assigned from a counter.
//! Identifiers travel as text in the canonical hyphenated form; the
//! grammar, its parser and its formatter are verified, including the
//! round trip between them.

pub mod error;
pub mod handlers;
pub mod ident;
pub mod laws;
pub mod post;
pub mod store;

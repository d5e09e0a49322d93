//! A small computer-algebra kernel: expression trees with symbolic
//! differentiation, canonicalizing simplification, numeric evaluation,
//! partial integration and rendering.
//!
//! Numeric leaves carry 64-bit payloads the kernel never interprets
//! beyond equality with a few distinguished constants. Arithmetic on
//! payloads is the caller's: a pass that needs a combination returns a
//! request for it instead of a result, the caller computes the answer,
//! records it in a [`numeric::NumTable`], and calls the pass again. A
//! pass only requests answers the table lacks, so a caller that
//! records each reported request reaches a result after finitely many
//! rounds. Everything else (the dispatch, the rewrite rules and their
//! order, the error cases, the shape of every tree built) is decided
//! here and verified.
//!
//! [`laws`] states the properties the passes obey (idempotence of
//! simplification, the algebraic identities, the soft handling of
//! unbound variables) and proves them once for all inputs.

pub mod expr;
pub mod numeric;
pub mod differentiate;
pub mod simplify;
pub mod eval;
pub mod integrate;
pub mod laws;

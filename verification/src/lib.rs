//! A `try_let` expander: given a pattern, a scrutinee expression and a
//! fallback, it decides which identifiers in the pattern are value bindings
//! (as opposed to nullary constructor references), collects them in a stable
//! pre-order, and builds the replacement statement: a destructuring of a
//! tuple of those bindings from a match over the scrutinee, whose success arm
//! is the original pattern and whose failure arms run the fallback.
//!
//! Only lexical information is available when the construct is expanded, so a
//! bare identifier is classified by the case of its first character: an
//! ASCII-uppercase first letter marks a constructor reference, anything else
//! a binding. This is a deliberate, documented approximation.
//!
//! The surrounding token plumbing (parsing the construct's source text and
//! printing the replacement back out) is the host toolchain's affair and
//! lives outside this crate; the modules here hold the analysis, the
//! synthesis, and a small value model on which the behaviour of the
//! synthesized statement is stated and proved.

pub mod analyze;
pub mod expand;
pub mod matching;
pub mod pattern;
pub mod value;

//! A trace-based front end that records typed compute-kernel expressions into
//! an append-only instruction graph.
//!
//! Host code holds lightweight handles over graph nodes and builds kernels by
//! calling ordinary-looking operations on them. Every operation checks its
//! operand types while tracing, interns the result type, and appends one
//! instruction to the builder that is current in the [`context::Context`].
//!
//! * [`types`] interns structural type descriptors: equal descriptors share
//!   one identity.
//! * [`graph`] holds the instruction records and the sealed graphs they
//!   form. Nodes only refer to nodes recorded before them, so a graph has
//!   no cycle.
//! * [`context`] is the recording context: the registry, the stack of
//!   builders under construction and the scopes open in each.
//! * [`policy`] states which operand types each operation accepts and the
//!   type of what it yields.
//! * [`expr`], [`ops`], [`var`] and [`math`] are the handles and their
//!   operations.
//! * [`value`] says what a node denotes, and that a component read back
//!   after it was replaced is the new value.
//! * [`dispatch`] turns a call on an object of a type that is only known
//!   when the kernel runs into a switch over the registered types.
//! * [`callable`] traces a generic body once per signature of argument
//!   types and caches the result.
//!
//! The context is passed explicitly. An operation that records needs a
//! current builder; calling one without is a programming error, which the
//! contracts rule out by `requires`. Every other failure is an
//! [`error::Error`], found while tracing.
pub mod error;
pub mod types;
pub mod graph;
pub mod context;
pub mod policy;
pub mod expr;
pub mod ops;
pub mod math;
pub mod var;
pub mod value;
pub mod dispatch;
pub mod callable;

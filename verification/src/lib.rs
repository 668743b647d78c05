//! A minimal arithmetic expression engine for resource-constrained hosts.
//!
//! The crate has two cooperating components:
//!
//! - an immutable expression tree ([`expr::Expr`]) evaluated against a
//!   pluggable variable lookup ([`context::Context`]), and
//! - a linear-form recognizer ([`linear::parse_linear`]) that matches the one
//!   surface syntax `a * t + b` and extracts the two coefficient tokens.
//!
//! Numeric values are carried everywhere as IEEE 754 bit patterns (`u32` for
//! single precision): the engine decides *what* to compute and in which order,
//! while the caller owns the floating-point unit and supplies each arithmetic
//! result through an [`expr::OpTable`].

pub mod context;
pub mod expr;
pub mod linear;
pub mod protocol;

pub use context::Context;
pub use context::SimpleContext;
pub use expr::EvalError;
pub use expr::EvalStep;
pub use expr::Expr;
pub use expr::Op;
pub use expr::OpTable;
pub use linear::parse_linear;
pub use protocol::ControlCommand;
pub use protocol::HardwareError;

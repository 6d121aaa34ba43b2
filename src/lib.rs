//! A small embeddable transformation engine: a keyed byte mask applied in
//! fixed-width lanes, and a handler-driven streaming HTML rewriter.
pub mod html;
pub mod ident;
pub mod mask;
pub mod registry;
pub mod session;

pub use session::IgnitionRewriter;

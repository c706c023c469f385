//! Rules engine for merging chess: a chess variant in which two friendly
//! unitary pieces can fuse into a composite piece that moves like both of its
//! components, and a composite can later send one component away while the
//! other stays behind.
//!
//! Every function is verified against a mathematical model of the board; the
//! contracts describe the generator, the applier and the legality filter over
//! that model.

pub mod square;

pub mod pieces;
pub mod position;
pub mod generation;
pub mod board_repr;
pub mod application;
pub mod legality;
pub mod soundness;
pub mod strategy;
pub mod engine;
pub mod termination;

//! Arena-allocated expression trees and the float-free parts of an
//! interval constraint propagation (branch-and-prune) solver.
pub mod ast;
pub mod interval;
pub mod solver;

//! The replicated data types: clocks, registers, the update-wins map and the
//! document built on them, with the laws that hold of them.
pub mod ancestry;
pub mod assoc;
pub mod document;
pub mod frac_index;
pub mod lex;
pub mod lww_reg;
pub mod moves;
pub mod moves_laws;
pub mod node;
pub mod order;
pub mod replay_laws;
pub mod tree;
pub mod tree_laws;
pub mod uw_map;
pub mod vtime;

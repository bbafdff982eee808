//! Recognition of functional groups in molecules.
//!
//! A molecule is a list of atoms with a symmetric matrix of bond orders. The
//! crate holds a fixed catalogue of small pattern molecules and a greedy,
//! wildcard-aware matcher that decides which of them occur in a given molecule.
//!
//! Beside that it reads molecules from the text of mol files, and the header
//! and the numbers, as text, of JCAMP-DX spectrum files.

pub mod common;
pub mod funct_groups;
pub mod get_res;
pub mod jdx;
pub mod mol_parser;
pub mod molecule;
pub mod recognizer;

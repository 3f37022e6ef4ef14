//! A minimal generic-search library: binary search over a sorted slice of
//! any orderable element type, plus a simple maximum-element scan.

pub mod largest;
pub mod order;
pub mod search;

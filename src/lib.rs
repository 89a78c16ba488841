//! Terminal cards: fixed-width, box-drawn blocks of text for records, and a
//! ranked lookup of records by a search pattern.
//!
//! Widths are display widths: style sequences count for nothing and each
//! character for its terminal columns.
use vstd::prelude::*;

pub mod border;
pub mod card;
pub mod completion;
pub mod data;
pub mod layout;
pub mod pattern;
pub mod records;
pub mod render;
pub mod search;
pub mod text;
pub mod width;

verus! {

} // verus!

//! The emulated xHCI USB host controller: its register values, its register
//! layout and the handlers behind the registers.

pub mod bits;
pub mod controller;
pub mod registers;

//! Register spaces for emulated devices.
//!
//! A guest reaches a device through byte-addressed registers: it reads or
//! writes some bytes at some offset of a memory window, an I/O port range or
//! a function's PCI configuration space. Nothing makes it respect register
//! boundaries. This crate is what stands between such an access and the
//! device logic:
//!
//! - [`bitfield`] packs and unpacks named bit ranges of a register value;
//! - [`common`] holds one access in flight, with its cursor;
//! - [`regmap`] lays registers out without gaps and splits an access into
//!   the parts that fall into each register, in address order;
//! - [`pci`] decodes the configuration address register and routes the
//!   configuration data port to the function it names;
//! - [`xhci`] and [`uart`] are device models on top of these;
//! - [`config`] decides what a configured block device means.
//!
//! The functions here are verified against their contracts: none panics on
//! an input that its `requires` admits, and each returns what its `ensures`
//! says. The two exceptions are thin wrappers round functions of the
//! standard library in [`config`], whose contracts are taken on trust.

pub mod bitfield;
pub mod common;
pub mod config;
pub mod ids;
pub mod pci;
pub mod regmap;
pub mod uart;
pub mod xhci;

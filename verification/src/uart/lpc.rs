//! The front end of a UART on the LPC bus: eight one-byte registers behind
//! an I/O port range, an interrupt pin, and the two notifications that tell
//! the other side of the line that the UART became readable or writable.
//!
//! The UART core, the pin and the notifications live outside this module.
//! What is here are the decisions round them: which register an access
//! means, what level the pin is driven to, and which notifications an
//! access gives rise to. The caller looks at the core, performs what is
//! decided, and issues the notifications last, after it has let go of
//! whatever guards the core: a notified party may turn round and use the
//! UART at once.

use crate::common::{RWOp, ReadOp};
use vstd::prelude::*;

verus! {

/// The number of registers, and of bytes of port space, of the UART.
pub const REGISTER_LEN: usize = 8;

/// What the front end sees of the UART core at one moment.
#[derive(Copy, Clone, Debug, PartialEq, Eq, Structural)]
pub struct UartStatus {
    /// The core has an interrupt pending.
    pub intr: bool,
    /// The core holds data for the other side of the line to read.
    pub readable: bool,
    /// The core can take data from the other side of the line.
    pub writable: bool,
}

/// What to do with the interrupt pin.
#[derive(Copy, Clone, Debug, PartialEq, Eq, Structural)]
pub enum PinAction {
    Assert,
    Deassert,
}

/// What the front end asks of the I/O port bus when it attaches.
#[derive(Copy, Clone, Debug, PartialEq, Eq, Structural)]
pub struct PortClaim {
    /// The first port.
    pub port: u16,
    /// The number of ports.
    pub len: u16,
    /// The number under which the bus hands accesses back.
    pub ident: usize,
}

/// What a guest access asks of the UART core.
#[derive(Copy, Clone, Debug, PartialEq, Eq, Structural)]
pub enum UartAccess {
    /// Read register `reg`.
    Read { reg: u8 },
    /// Write `value` to register `reg`.
    Write { reg: u8, value: u8 },
}

/// Which notifications to issue.
#[derive(Copy, Clone, Debug, PartialEq, Eq, Structural)]
pub struct Notify {
    /// Tell the reader of the line that there is data.
    pub readable: bool,
    /// Tell the writer of the line that there is room.
    pub writable: bool,
}

/// What the front end keeps of the UART.
pub struct UartState {
    /// The level last driven on the interrupt pin.
    irq_asserted: bool,
    /// Whether what the guest sends is thrown away as it comes.
    auto_discard: bool,
}

impl UartState {
    /// The level last driven on the interrupt pin.
    pub closed spec fn irq(&self) -> bool {
        self.irq_asserted
    }

    /// Whether what the guest sends is thrown away as it comes.
    pub closed spec fn discards(&self) -> bool {
        self.auto_discard
    }

    /// Makes the interrupt pin follow the core: asserted while the core has
    /// an interrupt pending, deasserted while it has none.
    pub fn sync_intr_pin(&mut self, intr_state: bool) -> (action: PinAction)
        ensures
            final(self).irq() == intr_state,
            final(self).discards() == old(self).discards(),
            action == if intr_state {
                PinAction::Assert
            } else {
                PinAction::Deassert
            },
    {
        self.irq_asserted = intr_state;
        if intr_state {
            PinAction::Assert
        } else {
            PinAction::Deassert
        }
    }
}

/// A UART on the LPC bus.
pub struct LpcUart {
    state: UartState,
}

impl LpcUart {
    /// The level last driven on the interrupt pin.
    pub closed spec fn irq(&self) -> bool {
        self.state.irq()
    }

    /// Whether what the guest sends is thrown away as it comes.
    pub closed spec fn discards(&self) -> bool {
        self.state.discards()
    }

    /// What the guest access `rwo` asks of the core: the register is the
    /// offset of the access, and a write carries its first byte.
    pub open spec fn access_of(rwo: RWOp<'_, '_>) -> UartAccess {
        match rwo {
            RWOp::Read(ro) => UartAccess::Read { reg: ro@.offset as u8 },
            RWOp::Write(wo) => UartAccess::Write {
                reg: wo@.offset as u8,
                value: wo@.bytes[wo@.consumed as int],
            },
        }
    }

    /// Which notifications an access gives rise to that found the core as
    /// `before` and left it as `after`: one for each side that was not ready
    /// and now is. A side that was ready before is not told again.
    pub open spec fn notify_of(before: UartStatus, after: UartStatus) -> Notify {
        Notify {
            readable: !before.readable && after.readable,
            writable: !before.writable && after.writable,
        }
    }

    /// A UART with its interrupt pin low, that throws away what the guest
    /// sends until a reader shows up.
    pub fn new() -> (uart: LpcUart)
        ensures
            !uart.irq(),
            uart.discards(),
    {
        LpcUart { state: UartState { irq_asserted: false, auto_discard: true } }
    }

    /// What to claim of the I/O port bus to put the UART at `port`: the
    /// eight ports from there.
    pub fn attach(&self, port: u16) -> (claim: PortClaim)
        ensures
            claim == (PortClaim { port, len: REGISTER_LEN as u16, ident: 0 }),
    {
        PortClaim { port, len: REGISTER_LEN as u16, ident: 0 }
    }

    /// After the core was reset and shows `intr_state`: what to do with the
    /// interrupt pin.
    pub fn reset(&mut self, intr_state: bool) -> (action: PinAction)
        ensures
            final(self).irq() == intr_state,
            final(self).discards() == old(self).discards(),
            action == if intr_state {
                PinAction::Assert
            } else {
                PinAction::Deassert
            },
    {
        self.state.sync_intr_pin(intr_state)
    }

    /// After the core took or gave a byte on the line and shows
    /// `intr_state`: what to do with the interrupt pin.
    pub fn sync_intr_pin(&mut self, intr_state: bool) -> (action: PinAction)
        ensures
            final(self).irq() == intr_state,
            final(self).discards() == old(self).discards(),
            action == if intr_state {
                PinAction::Assert
            } else {
                PinAction::Deassert
            },
    {
        self.state.sync_intr_pin(intr_state)
    }

    /// Whether what the guest sends is thrown away as it comes.
    pub fn auto_discard(&self) -> (r: bool)
        ensures
            r == self.discards(),
    {
        self.state.auto_discard
    }

    /// Turns throwing away what the guest sends on or off.
    pub fn set_autodiscard(&mut self, active: bool)
        ensures
            final(self).discards() == active,
            final(self).irq() == old(self).irq(),
    {
        self.state.auto_discard = active;
    }

    /// The first half of a guest access: says what the access asks of the
    /// core. A write gives up its first byte for that.
    ///
    /// The access must start at one of the eight registers and must not be
    /// empty.
    pub fn pio_rw(&self, rwo: RWOp<'_, '_>) -> (access: UartAccess)
        requires
            rwo matches RWOp::Read(ro) ==> ro.wf() && ro@.fresh() && ro@.offset < REGISTER_LEN
                && ro@.len() != 0,
            rwo matches RWOp::Write(wo) ==> wo.wf() && wo@.fresh() && wo@.offset < REGISTER_LEN
                && wo@.len() != 0,
        ensures
            access == Self::access_of(rwo),
            rwo matches RWOp::Read(ro) ==> final(ro)@ == ro@,
            rwo matches RWOp::Write(wo) ==> final(wo).wf() && final(wo)@ == wo@.advanced(1),
    {
        match rwo {
            RWOp::Read(ro) => UartAccess::Read { reg: ro.offset() as u8 },
            RWOp::Write(wo) => {
                let reg = wo.offset() as u8;
                UartAccess::Write { reg, value: wo.read_u8() }
            },
        }
    }

    /// Hands the guest the byte that the core gave for a register read.
    pub fn pio_read_done(&self, ro: &mut ReadOp, value: u8)
        requires
            old(ro).wf(),
            old(ro)@.avail() >= 1,
        ensures
            final(ro).wf(),
            final(ro)@ == old(ro)@.put(seq![value]),
    {
        ro.write_u8(value);
    }

    /// The second half of a guest access, after the core did what was
    /// asked, and after what the guest sent was thrown away if that is
    /// turned on: the core was found as `before` and is left as `after`.
    /// Drives the interrupt pin after the core, and says which
    /// notifications to issue.
    pub fn pio_done(&mut self, before: UartStatus, after: UartStatus) -> (r: (PinAction, Notify))
        ensures
            final(self).irq() == after.intr,
            final(self).discards() == old(self).discards(),
            r.0 == if after.intr {
                PinAction::Assert
            } else {
                PinAction::Deassert
            },
            r.1 == Self::notify_of(before, after),
    {
        let action = self.state.sync_intr_pin(after.intr);
        let read_notify = !before.readable && after.readable;
        let write_notify = !before.writable && after.writable;
        (action, Notify { readable: read_notify, writable: write_notify })
    }
}

} // verus!

//! The PCI configuration mechanism: function addresses, the standard
//! configuration header, and the bus that routes accesses of the
//! address/data port pair to the functions registered on it.

pub mod bits;
pub mod device;
pub mod header;

use crate::bitfield::{field_of, flag_of, get_field, get_flag};
use crate::common::{copy_bytes, le_bytes, le_u32, u32_to_le, WriteOp};
use header::PciDev;
use vstd::prelude::*;

verus! {

/// The I/O port of the configuration address register.
pub const PORT_PCI_CONFIG_ADDR: u16 = 0xcf8;

/// The I/O port of the configuration data register.
pub const PORT_PCI_CONFIG_DATA: u16 = 0xcfc;

/// The largest function number: three bits.
pub const MASK_FUNC: u8 = 0b111;

/// The largest device number: four bits.
pub const MASK_DEV: u8 = 0b1111;

/// What a [`PciBDF`] is, as plain values.
pub struct BdfView {
    pub bus: u8,
    pub dev: u8,
    pub func: u8,
}

/// The address of one function on the bus: bus, device and function number.
#[derive(Copy, Clone, Debug, Eq, PartialEq, Structural)]
pub struct PciBDF {
    bus: u8,
    dev: u8,
    func: u8,
}

impl View for PciBDF {
    type V = BdfView;

    closed spec fn view(&self) -> BdfView {
        BdfView { bus: self.bus, dev: self.dev, func: self.func }
    }
}

impl PciBDF {
    /// The device number fits four bits and the function number three.
    pub open spec fn wf(&self) -> bool {
        self@.dev <= MASK_DEV && self@.func <= MASK_FUNC
    }

    /// Two addresses are the same where their three numbers are.
    pub proof fn lemma_eq(a: PciBDF, b: PciBDF)
        ensures
            (a == b) <==> (a@ == b@),
    {
    }

    /// The address of function `func` of device `dev` on bus `bus`. The
    /// device number must fit four bits and the function number three.
    pub fn new(bus: u8, dev: u8, func: u8) -> (bdf: PciBDF)
        requires
            dev <= MASK_DEV,
            func <= MASK_FUNC,
        ensures
            bdf.wf(),
            bdf@ == (BdfView { bus, dev, func }),
    {
        PciBDF { bus, dev, func }
    }

    /// The address of function `func` of device `dev` on bus `bus`, or
    /// `None` where the device number does not fit four bits or the function
    /// number does not fit three.
    pub fn try_new(bus: u8, dev: u8, func: u8) -> (r: Option<PciBDF>)
        ensures
            r.is_some() == (dev <= MASK_DEV && func <= MASK_FUNC),
            r matches Some(bdf) ==> bdf.wf() && bdf@ == (BdfView { bus, dev, func }),
    {
        if dev <= MASK_DEV && func <= MASK_FUNC {
            Some(PciBDF::new(bus, dev, func))
        } else {
            None
        }
    }

    /// The bus number.
    pub fn bus(&self) -> (r: u8)
        ensures
            r == self@.bus,
    {
        self.bus
    }

    /// The device number.
    pub fn dev(&self) -> (r: u8)
        ensures
            r == self@.dev,
    {
        self.dev
    }

    /// The function number.
    pub fn func(&self) -> (r: u8)
        ensures
            r == self@.func,
    {
        self.func
    }
}

/// What a value of the configuration address register names: nothing where
/// bit 31, the enable bit, is clear; else the function whose bus number is
/// bits 16 to 23, whose device number is bits 11 to 14 and whose function
/// number is bits 8 to 10, and the register offset in bits 0 to 7.
///
/// Bit 15, the fifth bit of the device field, is not looked at: a function
/// address holds device numbers of four bits only.
pub open spec fn cfg_addr_decode(addr: u32) -> Option<(BdfView, u8)> {
    if flag_of(addr as u64, 31) {
        Some(
            (
                BdfView {
                    bus: field_of(addr as u64, 16, 24) as u8,
                    dev: field_of(addr as u64, 11, 15) as u8,
                    func: field_of(addr as u64, 8, 11) as u8,
                },
                field_of(addr as u64, 0, 8) as u8,
            ),
        )
    } else {
        None
    }
}

/// Decodes a value of the configuration address register into the function
/// it names and the register offset within that function's configuration
/// space, or `None` where the enable bit is clear.
pub fn cfg_addr_parse(addr: u32) -> (r: Option<(PciBDF, u8)>)
    ensures
        match r {
            Some((bdf, offset)) => bdf.wf() && cfg_addr_decode(addr) == Some((bdf@, offset)),
            None => cfg_addr_decode(addr).is_none(),
        },
{
    if !get_flag(addr as u64, 31) {
        None
    } else {
        let offset = get_field(addr as u64, 0, 8) as u8;
        let func = get_field(addr as u64, 8, 11) as u8;
        let device = get_field(addr as u64, 11, 15) as u8;
        let bus = get_field(addr as u64, 16, 24) as u8;
        proof {
            let a = addr as u64;
            assert(field_of(a, 8, 11) <= 0b111 && field_of(a, 11, 15) <= 0b1111) by (bit_vector);
        }
        Some((PciBDF::new(bus, device, func), offset))
    }
}

/// Answers a read that reaches nothing: every byte `0xff`, as a bus reads
/// where no device drives it.
pub fn read_inval(data: &mut [u8])
    ensures
        final(data)@ == Seq::new(old(data)@.len(), |i: int| 0xffu8),
{
    let n = data.len();
    let mut i: usize = 0;
    while i < n
        invariant
            n == data@.len(),
            n == old(data)@.len(),
            i <= n,
            forall|k: int| 0 <= k < i ==> data@[k] == 0xffu8,
        decreases n - i,
    {
        data[i] = 0xffu8;
        i += 1;
    }
    assert(data@ =~= Seq::new(old(data)@.len(), |i: int| 0xffu8));
}

/// What the bus holds: the value latched in the configuration address
/// register, and the functions registered, each under its address.
pub struct PciBusState {
    pio_cfg_addr: u32,
    devices: Vec<(PciBDF, PciDev)>,
}

impl PciBusState {
    /// The value latched in the configuration address register.
    pub closed spec fn addr(&self) -> u32 {
        self.pio_cfg_addr
    }

    /// The functions registered, in the order of their registration.
    pub closed spec fn devices(&self) -> Seq<(PciBDF, PciDev)> {
        self.devices@
    }

    /// Every function registered is well formed, and no address holds two
    /// functions.
    pub open spec fn wf(&self) -> bool {
        &&& forall|i: int| 0 <= i < self.devices().len() ==> (#[trigger] self.devices()[i]).1.wf()
        &&& forall|i: int, j: int|
            0 <= i < j < self.devices().len() ==> (#[trigger] self.devices()[i]).0@ != (
            #[trigger] self.devices()[j]).0@
    }

    /// Whether a function is registered at `bdf`.
    pub open spec fn registered(&self, bdf: BdfView) -> bool {
        exists|i: int| 0 <= i < self.devices().len() && (#[trigger] self.devices()[i]).0@ == bdf
    }

    /// The place in the registry of the function registered at `bdf`.
    pub open spec fn slot(&self, bdf: BdfView) -> int {
        choose|i: int| 0 <= i < self.devices().len() && (#[trigger] self.devices()[i]).0@ == bdf
    }

    /// What a read of `len` bytes at `offset` of the configuration space of
    /// the function at `bdf` gives: what that function gives, or `0xff`
    /// throughout where no function is registered there.
    pub open spec fn cfg_read_result(&self, bdf: BdfView, offset: u8, len: nat) -> Seq<u8> {
        if self.registered(bdf) {
            self.devices()[self.slot(bdf)].1.read_result(offset, len)
        } else {
            Seq::new(len, |i: int| 0xffu8)
        }
    }

    /// Looks `bdf` up in the registry.
    fn find(&self, bdf: &PciBDF) -> (r: Option<usize>)
        requires
            self.wf(),
        ensures
            match r {
                Some(i) => self.registered(bdf@) && i == self.slot(bdf@) && i
                    < self.devices().len(),
                None => !self.registered(bdf@),
            },
    {
        let n = self.devices.len();
        let mut i: usize = 0;
        while i < n
            invariant
                self.wf(),
                n == self.devices@.len(),
                i <= n,
                forall|k: int| 0 <= k < i ==> (#[trigger] self.devices@[k]).0@ != bdf@,
            decreases n - i,
        {
            if self.devices[i].0 == *bdf {
                proof {
                    assert(self.devices()[i as int].0@ == bdf@);
                    let k = self.slot(bdf@);
                    if i < k {
                        assert(self.devices()[i as int].0@ != self.devices()[k].0@);
                    }
                }
                return Some(i);
            }
            i += 1;
        }
        None
    }

    /// Whether a function is registered at `bdf`.
    pub fn is_registered(&self, bdf: &PciBDF) -> (r: bool)
        requires
            self.wf(),
        ensures
            r == self.registered(bdf@),
    {
        self.find(bdf).is_some()
    }

    /// Reads configuration space of the function at `bdf`: forwards the read
    /// to the function registered there, and answers `0xff` throughout for
    /// an address without a function.
    pub fn cfg_read(&self, bdf: &PciBDF, offset: u8, data: &mut [u8])
        requires
            self.wf(),
        ensures
            final(data)@ == self.cfg_read_result(bdf@, offset, old(data)@.len()),
    {
        match self.find(bdf) {
            Some(i) => {
                self.devices[i].1.cfg_read(offset, data);
            },
            None => {
                read_inval(data);
            },
        }
    }

    /// Writes configuration space of the function at `bdf`: forwards the
    /// write to the function registered there, and drops it for an address
    /// without a function. The bus is left as it was, since no function of
    /// this model has a writable register.
    pub fn cfg_write(&mut self, bdf: &PciBDF, offset: u8, data: &[u8])
        requires
            old(self).wf(),
        ensures
            final(self).wf(),
            final(self).addr() == old(self).addr(),
            final(self).devices() == old(self).devices(),
    {
        match self.find(bdf) {
            Some(i) => {
                self.devices[i].1.cfg_write(offset, data);
                assert(self.devices@ =~= old(self).devices@);
            },
            None => {},
        }
    }

    /// Registers `dev` at `bdf`, which must be free: two functions never
    /// share an address.
    pub fn register(&mut self, bdf: PciBDF, dev: PciDev)
        requires
            old(self).wf(),
            dev.wf(),
            !old(self).registered(bdf@),
        ensures
            final(self).wf(),
            final(self).addr() == old(self).addr(),
            final(self).devices() == old(self).devices().push((bdf, dev)),
            final(self).registered(bdf@),
            final(self).devices()[final(self).slot(bdf@)].1 == dev,
            forall|other: BdfView|
                old(self).registered(other) ==> #[trigger] final(self).registered(other)
                    && final(self).slot(other) == old(self).slot(other),
    {
        self.devices.push((bdf, dev));
        proof {
            assert forall|other: BdfView| old(self).registered(other) implies #[trigger] self.registered(
                other,
            ) && self.slot(other) == old(self).slot(other) by {
                let k = old(self).slot(other);
                assert(self.devices()[k].0@ == other);
                let m = self.slot(other);
                if m < k {
                    assert(self.devices()[m].0@ != self.devices()[k].0@);
                } else if k < m {
                    assert(self.devices()[k].0@ != self.devices()[m].0@);
                }
            }
            let n = old(self).devices().len() as int;
            assert(self.devices()[n].0@ == bdf@);
            assert forall|i: int, j: int| 0 <= i < j < self.devices().len() implies (
            #[trigger] self.devices()[i]).0@ != (#[trigger] self.devices()[j]).0@ by {
                if j == n {
                    assert(old(self).devices()[i].0@ != bdf@);
                } else {
                    assert(old(self).devices()[i].0@ != old(self).devices()[j].0@);
                }
            }
            let k = self.slot(bdf@);
            if k != n {
                if k < n {
                    assert(self.devices()[k].0@ != self.devices()[n].0@);
                }
            }
        }
    }
}

/// The bus as the guest sees it: the configuration address port and the
/// configuration data port, each four bytes wide and taken only by accesses
/// of exactly four bytes at offset 0.
pub struct PciBus {
    state: PciBusState,
}

impl PciBus {
    /// What the bus holds.
    pub closed spec fn state(&self) -> PciBusState {
        self.state
    }

    /// The registry is well formed.
    pub open spec fn wf(&self) -> bool {
        self.state().wf()
    }

    /// Whether `port` is one of the two ports of the bus.
    pub open spec fn is_port(port: u16) -> bool {
        port == PORT_PCI_CONFIG_ADDR || port == PORT_PCI_CONFIG_DATA
    }

    /// Whether an access at offset `off` of `len` bytes is one the ports
    /// take: four bytes at offset 0.
    pub open spec fn well_sized(off: u16, len: nat) -> bool {
        off == 0 && len == 4
    }

    /// What a read of `len` bytes at offset `off` of `port` gives. An access
    /// the ports do not take reads `0xff` throughout. The address port gives
    /// the latched value, low byte first. The data port gives four bytes of
    /// the configuration space of the function that the latched value
    /// names, from the offset it names; and `0xff` throughout where the
    /// latched value has its enable bit clear or names a function that is
    /// not registered.
    pub open spec fn pio_in_result(&self, port: u16, off: u16, len: nat) -> Seq<u8> {
        if !Self::well_sized(off, len) {
            Seq::new(len, |i: int| 0xffu8)
        } else if port == PORT_PCI_CONFIG_ADDR {
            le_bytes(self.state().addr() as u64, 4)
        } else {
            match cfg_addr_decode(self.state().addr()) {
                Some((bdf, offset)) => self.state().cfg_read_result(bdf, offset, len),
                None => Seq::new(len, |i: int| 0xffu8),
            }
        }
    }

    /// A bus without functions, with zero latched in the address register.
    pub fn new() -> (bus: PciBus)
        ensures
            bus.wf(),
            bus.state().addr() == 0,
            bus.state().devices() == Seq::<(PciBDF, PciDev)>::empty(),
    {
        PciBus { state: PciBusState { pio_cfg_addr: 0, devices: Vec::new() } }
    }

    /// Whether a function is registered at `bdf`.
    pub fn is_registered(&self, bdf: &PciBDF) -> (r: bool)
        requires
            self.wf(),
        ensures
            r == self.state().registered(bdf@),
    {
        self.state.is_registered(bdf)
    }

    /// Registers `dev` at `bdf`, which must be free: two functions never
    /// share an address. Use [`PciBus::try_register`] where the address may
    /// be taken.
    pub fn register(&mut self, bdf: PciBDF, dev: PciDev)
        requires
            old(self).wf(),
            dev.wf(),
            !old(self).state().registered(bdf@),
        ensures
            final(self).wf(),
            final(self).state().addr() == old(self).state().addr(),
            final(self).state().devices() == old(self).state().devices().push((bdf, dev)),
            final(self).state().registered(bdf@),
            final(self).state().devices()[final(self).state().slot(bdf@)].1 == dev,
            forall|other: BdfView|
                old(self).state().registered(other) ==> #[trigger] final(self).state().registered(
                    other,
                ) && final(self).state().slot(other) == old(self).state().slot(other),
    {
        self.state.register(bdf, dev);
    }

    /// Registers `dev` at `bdf` if that address is free. Where it is taken
    /// the registration fails: `dev` comes back and the bus is left as it
    /// was, the function registered earlier still in its place.
    pub fn try_register(&mut self, bdf: PciBDF, dev: PciDev) -> (r: Result<(), PciDev>)
        requires
            old(self).wf(),
            dev.wf(),
        ensures
            final(self).wf(),
            final(self).state().addr() == old(self).state().addr(),
            match r {
                Ok(()) => {
                    &&& !old(self).state().registered(bdf@)
                    &&& final(self).state().devices() == old(self).state().devices().push(
                        (bdf, dev),
                    )
                },
                Err(back) => {
                    &&& old(self).state().registered(bdf@)
                    &&& back == dev
                    &&& final(self).state().devices() == old(self).state().devices()
                },
            },
    {
        if self.state.is_registered(&bdf) {
            Err(dev)
        } else {
            self.state.register(bdf, dev);
            Ok(())
        }
    }

    /// A guest write to `port`, which must be one of the two ports of the
    /// bus. A write that is not four bytes at offset 0 is dropped. A write
    /// to the address port latches the value written, as it is. A write to
    /// the data port is forwarded to the function that the latched value
    /// names, and dropped where it names none; no function of this model
    /// has a writable register, so it changes nothing either way.
    pub fn pio_out(&mut self, port: u16, off: u16, data: &[u8])
        requires
            old(self).wf(),
            Self::is_port(port),
        ensures
            final(self).wf(),
            final(self).state().devices() == old(self).state().devices(),
            final(self).state().addr() == if Self::well_sized(off, data@.len()) && port
                == PORT_PCI_CONFIG_ADDR {
                le_u32(data@)
            } else {
                old(self).state().addr()
            },
    {
        if off != 0 || data.len() != 4 {
            return ;
        }
        if port == PORT_PCI_CONFIG_ADDR {
            let mut wo = WriteOp::from_buf(0, data);
            let value = wo.read_u32();
            assert(data@.subrange(0, 4) =~= data@);
            self.state.pio_cfg_addr = value;
            assert(self.state.devices() == old(self).state.devices());
        } else {
            match cfg_addr_parse(self.state.pio_cfg_addr) {
                Some((bdf, offset)) => {
                    self.state.cfg_write(&bdf, offset, data);
                },
                None => {},
            }
        }
    }

    /// A guest read of `port`, which must be one of the two ports of the
    /// bus, into `data`.
    pub fn pio_in(&self, port: u16, off: u16, data: &mut [u8])
        requires
            self.wf(),
            Self::is_port(port),
        ensures
            final(data)@ == self.pio_in_result(port, off, old(data)@.len()),
    {
        if off != 0 || data.len() != 4 {
            read_inval(data);
            return ;
        }
        if port == PORT_PCI_CONFIG_ADDR {
            let buf = u32_to_le(self.state.pio_cfg_addr);
            copy_bytes(data, buf.as_slice());
        } else {
            match cfg_addr_parse(self.state.pio_cfg_addr) {
                Some((bdf, offset)) => {
                    self.state.cfg_read(&bdf, offset, data);
                },
                None => {
                    read_inval(data);
                },
            }
        }
    }
}

/// A read of the data port reads `0xff` throughout while the address
/// register names a function that is not registered, and while it has its
/// enable bit clear, whatever else the bus holds.
pub proof fn lemma_unmapped_read(bus: PciBus)
    requires
        match cfg_addr_decode(bus.state().addr()) {
            Some((bdf, offset)) => !bus.state().registered(bdf),
            None => true,
        },
    ensures
        bus.pio_in_result(PORT_PCI_CONFIG_DATA, 0, 4) == Seq::new(4, |i: int| 0xffu8),
{
}

/// A function that is registered answers the data port with four bytes of
/// its configuration space, from the offset that the address register
/// names.
pub proof fn lemma_mapped_read(bus: PciBus, bdf: BdfView, offset: u8)
    requires
        bus.wf(),
        cfg_addr_decode(bus.state().addr()) == Some((bdf, offset)),
        bus.state().registered(bdf),
        offset + 4 <= bits::LEN_CFG,
    ensures
        bus.pio_in_result(PORT_PCI_CONFIG_DATA, 0, 4) == bus.state().devices()[bus.state().slot(
            bdf,
        )].1.image().subrange(offset as int, offset + 4),
{
}

/// A value of the address register with the enable bit clear names
/// nothing, whatever its other bits are.
pub proof fn lemma_disabled_address(addr: u32)
    requires
        addr < 0x8000_0000,
    ensures
        cfg_addr_decode(addr).is_none(),
{
    let a = addr as u64;
    assert(!flag_of(a, 31)) by (bit_vector)
        requires
            a < 0x8000_0000,
    ;
}

} // verus!

//! The standard configuration header of a function, the layout of its
//! configuration space, and the function as the bus holds it.

use super::bits;
use super::read_inval;
use crate::common::{
    copy_bytes, le_byte, le_bytes, le_window, u16_to_le, u32_to_le, RWOp, ReadOp, WriteOp,
};
use crate::regmap::{laid_out, lemma_writes_run_keeps, offset_of, RegHandler, RegLayout, RegMap};
use vstd::prelude::*;

verus! {

/// The registers of a function's configuration space.
#[derive(Copy, Clone, Debug, Eq, PartialEq, Structural)]
pub enum CfgReg {
    VendorId,
    DeviceId,
    Command,
    Status,
    RevisionId,
    Class,
    Subclass,
    ProgIf,
    CacheLineSize,
    LatencyTimer,
    HeaderType,
    Bist,
    /// The base address register with the given number, 0 to 5.
    Bar(u8),
    CardbusPtr,
    SubVendorId,
    SubDeviceId,
    ExpansionRomAddr,
    CapPtr,
    /// A stretch without a register: it reads as zero and ignores writes.
    Reserved,
    IntrLine,
    IntrPin,
    MinGrant,
    MaxLatency,
}

/// The standard header of a function: the values of its registers.
#[derive(Copy, Clone, Debug)]
pub struct PciHeader {
    pub vendor_id: u16,
    pub device_id: u16,
    pub command: u16,
    pub status: u16,
    pub revision_id: u8,
    pub class: u8,
    pub subclass: u8,
    pub prog_if: u8,
    pub cache_line_size: u8,
    pub latency_timer: u8,
    pub header_type: u8,
    pub bist: u8,
    pub bars: [u32; 6],
    pub cardbus_ptr: u32,
    pub sub_vendor_id: u16,
    pub sub_device_id: u16,
    pub expansion_rom_addr: u32,
    pub cap_ptr: u8,
    pub intr_line: u8,
    pub intr_pin: u8,
    pub min_grant: u8,
    pub max_latency: u8,
}

impl Default for PciHeader {
    /// The header with every register zero.
    fn default() -> (h: PciHeader)
        ensures
            h.identifies(0, 0, 0, 0),
    {
        let h = PciHeader {
            vendor_id: 0,
            device_id: 0,
            command: 0,
            status: 0,
            revision_id: 0,
            class: 0,
            subclass: 0,
            prog_if: 0,
            cache_line_size: 0,
            latency_timer: 0,
            header_type: 0,
            bist: 0,
            bars: [0u32; 6],
            cardbus_ptr: 0,
            sub_vendor_id: 0,
            sub_device_id: 0,
            expansion_rom_addr: 0,
            cap_ptr: 0,
            intr_line: 0,
            intr_pin: 0,
            min_grant: 0,
            max_latency: 0,
        };
        assert(h.bars@ =~= Seq::new(6, |i: int| 0u32));
        h
    }
}

impl PciHeader {
    /// Every register is zero but the four that identify the function,
    /// which hold the values given.
    pub open spec fn identifies(self, vendor_id: u16, device_id: u16, class: u8, subclass: u8) -> bool {
        &&& self.vendor_id == vendor_id
        &&& self.device_id == device_id
        &&& self.class == class
        &&& self.subclass == subclass
        &&& self.command == 0
        &&& self.status == 0
        &&& self.revision_id == 0
        &&& self.prog_if == 0
        &&& self.cache_line_size == 0
        &&& self.latency_timer == 0
        &&& self.header_type == 0
        &&& self.bist == 0
        &&& self.bars@ == Seq::new(6, |i: int| 0u32)
        &&& self.cardbus_ptr == 0
        &&& self.sub_vendor_id == 0
        &&& self.sub_device_id == 0
        &&& self.expansion_rom_addr == 0
        &&& self.cap_ptr == 0
        &&& self.intr_line == 0
        &&& self.intr_pin == 0
        &&& self.min_grant == 0
        &&& self.max_latency == 0
    }

    /// The value that register `id` holds. A reserved stretch, and a base
    /// address register that does not exist, hold zero.
    pub open spec fn reg_value(self, id: CfgReg) -> u64 {
        match id {
            CfgReg::VendorId => self.vendor_id as u64,
            CfgReg::DeviceId => self.device_id as u64,
            CfgReg::Command => self.command as u64,
            CfgReg::Status => self.status as u64,
            CfgReg::RevisionId => self.revision_id as u64,
            CfgReg::Class => self.class as u64,
            CfgReg::Subclass => self.subclass as u64,
            CfgReg::ProgIf => self.prog_if as u64,
            CfgReg::CacheLineSize => self.cache_line_size as u64,
            CfgReg::LatencyTimer => self.latency_timer as u64,
            CfgReg::HeaderType => self.header_type as u64,
            CfgReg::Bist => self.bist as u64,
            CfgReg::Bar(n) => if n < 6 {
                self.bars@[n as int] as u64
            } else {
                0
            },
            CfgReg::CardbusPtr => self.cardbus_ptr as u64,
            CfgReg::SubVendorId => self.sub_vendor_id as u64,
            CfgReg::SubDeviceId => self.sub_device_id as u64,
            CfgReg::ExpansionRomAddr => self.expansion_rom_addr as u64,
            CfgReg::CapPtr => self.cap_ptr as u64,
            CfgReg::Reserved => 0,
            CfgReg::IntrLine => self.intr_line as u64,
            CfgReg::IntrPin => self.intr_pin as u64,
            CfgReg::MinGrant => self.min_grant as u64,
            CfgReg::MaxLatency => self.max_latency as u64,
        }
    }

    /// The header as the 64 bytes that configuration space shows of it.
    pub fn as_bytes(&self) -> (r: Vec<u8>)
        ensures
            r@ == self.bytes(),
    {
        let mut r: Vec<u8> = Vec::new();
        r.extend_from_slice(u16_to_le(self.vendor_id).as_slice());
        r.extend_from_slice(u16_to_le(self.device_id).as_slice());
        r.extend_from_slice(u16_to_le(self.command).as_slice());
        r.extend_from_slice(u16_to_le(self.status).as_slice());
        r.push(self.revision_id);
        r.push(self.class);
        r.push(self.subclass);
        r.push(self.prog_if);
        r.push(self.cache_line_size);
        r.push(self.latency_timer);
        r.push(self.header_type);
        r.push(self.bist);
        r.extend_from_slice(u32_to_le(self.bars[0]).as_slice());
        r.extend_from_slice(u32_to_le(self.bars[1]).as_slice());
        r.extend_from_slice(u32_to_le(self.bars[2]).as_slice());
        r.extend_from_slice(u32_to_le(self.bars[3]).as_slice());
        r.extend_from_slice(u32_to_le(self.bars[4]).as_slice());
        r.extend_from_slice(u32_to_le(self.bars[5]).as_slice());
        r.extend_from_slice(u32_to_le(self.cardbus_ptr).as_slice());
        r.extend_from_slice(u16_to_le(self.sub_vendor_id).as_slice());
        r.extend_from_slice(u16_to_le(self.sub_device_id).as_slice());
        r.extend_from_slice(u32_to_le(self.expansion_rom_addr).as_slice());
        r.push(self.cap_ptr);
        let mut i: usize = 0;
        while i < 7
            invariant
                i <= 7,
                r@ == le_bytes(self.vendor_id as u64, 2) + le_bytes(self.device_id as u64, 2)
                    + le_bytes(self.command as u64, 2) + le_bytes(self.status as u64, 2) + seq![
                    self.revision_id,
                    self.class,
                    self.subclass,
                    self.prog_if,
                    self.cache_line_size,
                    self.latency_timer,
                    self.header_type,
                    self.bist,
                ] + le_bytes(self.bars@[0] as u64, 4) + le_bytes(self.bars@[1] as u64, 4)
                    + le_bytes(self.bars@[2] as u64, 4) + le_bytes(self.bars@[3] as u64, 4)
                    + le_bytes(self.bars@[4] as u64, 4) + le_bytes(self.bars@[5] as u64, 4)
                    + le_bytes(self.cardbus_ptr as u64, 4) + le_bytes(self.sub_vendor_id as u64, 2)
                    + le_bytes(self.sub_device_id as u64, 2) + le_bytes(
                    self.expansion_rom_addr as u64,
                    4,
                ) + seq![self.cap_ptr] + Seq::new(i as nat, |k: int| 0u8),
            decreases 7 - i,
        {
            r.push(0);
            i += 1;
        }
        r.push(self.intr_line);
        r.push(self.intr_pin);
        r.push(self.min_grant);
        r.push(self.max_latency);
        assert(r@ =~= self.bytes());
        r
    }

    /// The value that register `id` holds.
    pub fn reg(&self, id: CfgReg) -> (value: u64)
        ensures
            value == self.reg_value(id),
    {
        match id {
            CfgReg::VendorId => self.vendor_id as u64,
            CfgReg::DeviceId => self.device_id as u64,
            CfgReg::Command => self.command as u64,
            CfgReg::Status => self.status as u64,
            CfgReg::RevisionId => self.revision_id as u64,
            CfgReg::Class => self.class as u64,
            CfgReg::Subclass => self.subclass as u64,
            CfgReg::ProgIf => self.prog_if as u64,
            CfgReg::CacheLineSize => self.cache_line_size as u64,
            CfgReg::LatencyTimer => self.latency_timer as u64,
            CfgReg::HeaderType => self.header_type as u64,
            CfgReg::Bist => self.bist as u64,
            CfgReg::Bar(n) => if n < 6 {
                self.bars[n as usize] as u64
            } else {
                0
            },
            CfgReg::CardbusPtr => self.cardbus_ptr as u64,
            CfgReg::SubVendorId => self.sub_vendor_id as u64,
            CfgReg::SubDeviceId => self.sub_device_id as u64,
            CfgReg::ExpansionRomAddr => self.expansion_rom_addr as u64,
            CfgReg::CapPtr => self.cap_ptr as u64,
            CfgReg::Reserved => 0,
            CfgReg::IntrLine => self.intr_line as u64,
            CfgReg::IntrPin => self.intr_pin as u64,
            CfgReg::MinGrant => self.min_grant as u64,
            CfgReg::MaxLatency => self.max_latency as u64,
        }
    }
}

/// The header answers a read of a register with the bytes of the register's
/// value that the access covers, and ignores every write: the model has no
/// writable configuration register.
impl RegHandler<CfgReg> for PciHeader {
    open spec fn inv(&self) -> bool {
        true
    }

    open spec fn reads(
        pre: Self,
        id: CfgReg,
        offset: nat,
        len: nat,
        post: Self,
        bytes: Seq<u8>,
    ) -> bool {
        post == pre && bytes == le_window(pre.reg_value(id), offset, len)
    }

    open spec fn writes(pre: Self, id: CfgReg, offset: nat, data: Seq<u8>, post: Self) -> bool {
        post == pre
    }

    fn handle(&mut self, id: &CfgReg, rwo: RWOp<'_, '_>) {
        match rwo {
            RWOp::Read(ro) => {
                let ghost before = ro@;
                ro.write_value(self.reg(*id));
                assert(ro@.bytes =~= le_window(self.reg_value(*id), before.offset, before.len()));
            },
            RWOp::Write(_) => {},
        }
    }
}

/// The layout of the first registers of configuration space, up to the
/// base address registers: 16 bytes.
pub open spec fn cfg_head_layout() -> Seq<(CfgReg, usize)> {
    seq![
        (CfgReg::VendorId, 2usize),
        (CfgReg::DeviceId, 2usize),
        (CfgReg::Command, 2usize),
        (CfgReg::Status, 2usize),
        (CfgReg::RevisionId, 1usize),
        (CfgReg::Class, 1usize),
        (CfgReg::Subclass, 1usize),
        (CfgReg::ProgIf, 1usize),
        (CfgReg::CacheLineSize, 1usize),
        (CfgReg::LatencyTimer, 1usize),
        (CfgReg::HeaderType, 1usize),
        (CfgReg::Bist, 1usize),
    ]
}

/// The layout of the base address registers `0..count`: four bytes each.
pub open spec fn bars_layout(count: nat) -> Seq<(CfgReg, usize)>
    decreases count,
{
    if count == 0 {
        Seq::empty()
    } else {
        bars_layout((count - 1) as nat).push((CfgReg::Bar((count - 1) as u8), 4usize))
    }
}

/// The layout of configuration space behind the base address registers: the
/// rest of the standard header, 24 bytes, and the reserved stretch up to the
/// end of the space.
pub open spec fn cfg_tail_layout() -> Seq<(CfgReg, usize)> {
    seq![
        (CfgReg::CardbusPtr, 4usize),
        (CfgReg::SubVendorId, 2usize),
        (CfgReg::SubDeviceId, 2usize),
        (CfgReg::ExpansionRomAddr, 4usize),
        (CfgReg::CapPtr, 1usize),
        (CfgReg::Reserved, 3usize),
        (CfgReg::Reserved, 4usize),
        (CfgReg::IntrLine, 1usize),
        (CfgReg::IntrPin, 1usize),
        (CfgReg::MinGrant, 1usize),
        (CfgReg::MaxLatency, 1usize),
        (CfgReg::Reserved, 192usize),
    ]
}

/// The layout of a function's configuration space: 256 bytes, of which the
/// standard header takes the first 64.
pub open spec fn cfg_layout() -> Seq<(CfgReg, usize)> {
    cfg_head_layout() + bars_layout(6) + cfg_tail_layout()
}

/// Builds the map of a function's configuration space.
pub fn cfg_regs() -> (map: RegMap<CfgReg>)
    ensures
        map.wf(),
        map.size() == bits::LEN_CFG,
        map.entries() == laid_out(cfg_layout()),
        map.reserved() == Some(CfgReg::Reserved),
{
    let mut layout: RegLayout<CfgReg> = RegLayout::new();
    layout.push(CfgReg::VendorId, 2);
    layout.push(CfgReg::DeviceId, 2);
    layout.push(CfgReg::Command, 2);
    layout.push(CfgReg::Status, 2);
    layout.push(CfgReg::RevisionId, 1);
    layout.push(CfgReg::Class, 1);
    layout.push(CfgReg::Subclass, 1);
    layout.push(CfgReg::ProgIf, 1);
    layout.push(CfgReg::CacheLineSize, 1);
    layout.push(CfgReg::LatencyTimer, 1);
    layout.push(CfgReg::HeaderType, 1);
    layout.push(CfgReg::Bist, 1);
    assert(layout@ =~= cfg_head_layout() + bars_layout(0));
    let mut n: u8 = 0;
    while n < 6
        invariant
            n <= 6,
            layout.wf(),
            layout.total() == 16 + 4 * n,
            layout@ == cfg_head_layout() + bars_layout(n as nat),
        decreases 6 - n,
    {
        layout.push(CfgReg::Bar(n), 4);
        assert(layout@ =~= cfg_head_layout() + bars_layout((n + 1) as nat));
        n += 1;
    }
    layout.push(CfgReg::CardbusPtr, 4);
    layout.push(CfgReg::SubVendorId, 2);
    layout.push(CfgReg::SubDeviceId, 2);
    layout.push(CfgReg::ExpansionRomAddr, 4);
    layout.push(CfgReg::CapPtr, 1);
    layout.push(CfgReg::Reserved, 3);
    layout.push(CfgReg::Reserved, 4);
    layout.push(CfgReg::IntrLine, 1);
    layout.push(CfgReg::IntrPin, 1);
    layout.push(CfgReg::MinGrant, 1);
    layout.push(CfgReg::MaxLatency, 1);
    layout.push(CfgReg::Reserved, bits::LEN_CFG - bits::LEN_CFG_STD);
    assert(layout@ =~= cfg_layout());
    layout.pack(Some(CfgReg::Reserved))
}

/// One function on the bus: its header and the map of its configuration
/// space.
pub struct PciDev {
    header: PciHeader,
    cfg: RegMap<CfgReg>,
}

impl PciDev {
    /// The function's header.
    pub closed spec fn header(&self) -> PciHeader {
        self.header
    }

    /// The map of the function's configuration space.
    pub closed spec fn cfg_map(&self) -> RegMap<CfgReg> {
        self.cfg
    }

    /// The configuration space is laid out as [`cfg_layout`] says.
    pub open spec fn wf(&self) -> bool {
        &&& self.cfg_map().wf()
        &&& self.cfg_map().size() == bits::LEN_CFG
        &&& self.cfg_map().entries() == laid_out(cfg_layout())
    }

    /// The configuration space as one flat run of 256 bytes: the header,
    /// and zero behind it.
    pub open spec fn image(&self) -> Seq<u8> {
        self.header().bytes() + Seq::new(
            (bits::LEN_CFG - bits::LEN_CFG_STD) as nat,
            |i: int| 0u8,
        )
    }

    /// The configuration space as the map shows it: each byte is the byte
    /// of the register that holds it.
    spec fn map_image(&self) -> Seq<u8> {
        self.cfg_map().image(|id: CfgReg, i: int| le_byte(self.header().reg_value(id), i as nat))
    }

    /// What a read of `len` bytes at `offset` gives: the bytes of the image
    /// that it covers, or `0xff` throughout where it runs past the end of
    /// configuration space.
    pub open spec fn read_result(&self, offset: u8, len: nat) -> Seq<u8> {
        if offset + len <= bits::LEN_CFG {
            self.image().subrange(offset as int, offset + len)
        } else {
            Seq::new(len, |i: int| 0xffu8)
        }
    }

    /// A function with the given identity; every other register of its
    /// header is zero.
    pub fn new(vendor_id: u16, device_id: u16, class: u8, subclass: u8) -> (dev: PciDev)
        ensures
            dev.wf(),
            dev.header().identifies(vendor_id, device_id, class, subclass),
    {
        let mut header = PciHeader::default();
        header.vendor_id = vendor_id;
        header.device_id = device_id;
        header.class = class;
        header.subclass = subclass;
        PciDev { header, cfg: cfg_regs() }
    }

    /// The function's header.
    pub fn get_header(&self) -> (h: &PciHeader)
        ensures
            *h == self.header(),
    {
        &self.header
    }

    /// Reads `data.len()` bytes of configuration space at `offset` into
    /// `data`. The read is resolved through the map, register by register;
    /// one that runs past the end of the space reaches nothing and reads
    /// `0xff` throughout. No read changes a register of the header, so the
    /// registers answer from a copy of it.
    pub fn cfg_read(&self, offset: u8, data: &mut [u8])
        requires
            self.wf(),
        ensures
            final(data)@ == self.read_result(offset, old(data)@.len()),
    {
        let len = data.len();
        if len > bits::LEN_CFG - offset as usize {
            read_inval(data);
            return ;
        }
        let mut ro = ReadOp::new(offset as usize, len);
        let mut header = self.header;
        self.cfg.process(RWOp::Read(&mut ro), &mut header);
        proof {
            let before = self.header;
            let content = |id: CfgReg, i: int| le_byte(before.reg_value(id), i as nat);
            assert forall|id: CfgReg, at: nat, n: nat, next: PciHeader, bytes: Seq<u8>| #[trigger]
                PciHeader::reads(before, id, at, n, next, bytes) implies next == before && bytes
                == Seq::new(n, |i: int| content(id, at + i)) by {
                assert(bytes =~= Seq::new(n, |i: int| content(id, at + i)));
            }
            self.cfg.lemma_image_read(before, content, offset as int, len as int, header, ro@.bytes);
            self.lemma_map_image();
        }
        copy_bytes(data, ro.bytes());
    }

    /// Writes `data` to configuration space at `offset`. The write is
    /// resolved through the map, register by register, and every register
    /// ignores it; one that runs past the end of the space is dropped. The
    /// function is left as it was.
    pub fn cfg_write(&mut self, offset: u8, data: &[u8])
        requires
            old(self).wf(),
        ensures
            *final(self) == *old(self),
    {
        let len = data.len();
        if len > bits::LEN_CFG - offset as usize {
            return ;
        }
        let mut wo = WriteOp::from_buf(offset as usize, data);
        let ghost before = self.header;
        self.cfg.process(RWOp::Write(&mut wo), &mut self.header);
        proof {
            lemma_writes_run_keeps(
                before,
                self.cfg.plan(offset as int, len as int),
                data@,
                self.header,
            );
        }
    }
}

impl PciHeader {
    /// The 64 bytes of the header as they lie in configuration space: the
    /// registers in their order, each with its low byte first, the reserved
    /// stretch zero.
    pub open spec fn bytes(self) -> Seq<u8> {
        le_bytes(self.vendor_id as u64, 2) + le_bytes(self.device_id as u64, 2) + le_bytes(
            self.command as u64,
            2,
        ) + le_bytes(self.status as u64, 2) + seq![
            self.revision_id,
            self.class,
            self.subclass,
            self.prog_if,
            self.cache_line_size,
            self.latency_timer,
            self.header_type,
            self.bist,
        ] + le_bytes(self.bars@[0] as u64, 4) + le_bytes(self.bars@[1] as u64, 4) + le_bytes(
            self.bars@[2] as u64,
            4,
        ) + le_bytes(self.bars@[3] as u64, 4) + le_bytes(self.bars@[4] as u64, 4) + le_bytes(
            self.bars@[5] as u64,
            4,
        ) + le_bytes(self.cardbus_ptr as u64, 4) + le_bytes(self.sub_vendor_id as u64, 2)
            + le_bytes(self.sub_device_id as u64, 2) + le_bytes(self.expansion_rom_addr as u64, 4)
            + seq![self.cap_ptr, 0u8, 0u8, 0u8, 0u8, 0u8, 0u8, 0u8] + seq![
            self.intr_line,
            self.intr_pin,
            self.min_grant,
            self.max_latency,
        ]
    }
}

/// The layout of configuration space, register by register.
proof fn lemma_cfg_layout()
    ensures
        cfg_layout() == seq![
            (CfgReg::VendorId, 2usize),
            (CfgReg::DeviceId, 2usize),
            (CfgReg::Command, 2usize),
            (CfgReg::Status, 2usize),
            (CfgReg::RevisionId, 1usize),
            (CfgReg::Class, 1usize),
            (CfgReg::Subclass, 1usize),
            (CfgReg::ProgIf, 1usize),
            (CfgReg::CacheLineSize, 1usize),
            (CfgReg::LatencyTimer, 1usize),
            (CfgReg::HeaderType, 1usize),
            (CfgReg::Bist, 1usize),
            (CfgReg::Bar(0), 4usize),
            (CfgReg::Bar(1), 4usize),
            (CfgReg::Bar(2), 4usize),
            (CfgReg::Bar(3), 4usize),
            (CfgReg::Bar(4), 4usize),
            (CfgReg::Bar(5), 4usize),
            (CfgReg::CardbusPtr, 4usize),
            (CfgReg::SubVendorId, 2usize),
            (CfgReg::SubDeviceId, 2usize),
            (CfgReg::ExpansionRomAddr, 4usize),
            (CfgReg::CapPtr, 1usize),
            (CfgReg::Reserved, 3usize),
            (CfgReg::Reserved, 4usize),
            (CfgReg::IntrLine, 1usize),
            (CfgReg::IntrPin, 1usize),
            (CfgReg::MinGrant, 1usize),
            (CfgReg::MaxLatency, 1usize),
            (CfgReg::Reserved, 192usize),
        ],
{
    reveal_with_fuel(bars_layout, 7);
    assert(bars_layout(6) =~= seq![
        (CfgReg::Bar(0), 4usize),
        (CfgReg::Bar(1), 4usize),
        (CfgReg::Bar(2), 4usize),
        (CfgReg::Bar(3), 4usize),
        (CfgReg::Bar(4), 4usize),
        (CfgReg::Bar(5), 4usize),
    ]);
    assert(cfg_layout() =~= seq![
        (CfgReg::VendorId, 2usize),
        (CfgReg::DeviceId, 2usize),
        (CfgReg::Command, 2usize),
        (CfgReg::Status, 2usize),
        (CfgReg::RevisionId, 1usize),
        (CfgReg::Class, 1usize),
        (CfgReg::Subclass, 1usize),
        (CfgReg::ProgIf, 1usize),
        (CfgReg::CacheLineSize, 1usize),
        (CfgReg::LatencyTimer, 1usize),
        (CfgReg::HeaderType, 1usize),
        (CfgReg::Bist, 1usize),
        (CfgReg::Bar(0), 4usize),
        (CfgReg::Bar(1), 4usize),
        (CfgReg::Bar(2), 4usize),
        (CfgReg::Bar(3), 4usize),
        (CfgReg::Bar(4), 4usize),
        (CfgReg::Bar(5), 4usize),
        (CfgReg::CardbusPtr, 4usize),
        (CfgReg::SubVendorId, 2usize),
        (CfgReg::SubDeviceId, 2usize),
        (CfgReg::ExpansionRomAddr, 4usize),
        (CfgReg::CapPtr, 1usize),
        (CfgReg::Reserved, 3usize),
        (CfgReg::Reserved, 4usize),
        (CfgReg::IntrLine, 1usize),
        (CfgReg::IntrPin, 1usize),
        (CfgReg::MinGrant, 1usize),
        (CfgReg::MaxLatency, 1usize),
        (CfgReg::Reserved, 192usize),
    ]);
}

/// Where each register of configuration space starts.
proof fn lemma_cfg_starts()
    ensures
        cfg_layout().len() == 30,
        offset_of(cfg_layout(), 0) == 0,
        offset_of(cfg_layout(), 1) == 2,
        offset_of(cfg_layout(), 2) == 4,
        offset_of(cfg_layout(), 3) == 6,
        offset_of(cfg_layout(), 4) == 8,
        offset_of(cfg_layout(), 5) == 9,
        offset_of(cfg_layout(), 6) == 10,
        offset_of(cfg_layout(), 7) == 11,
        offset_of(cfg_layout(), 8) == 12,
        offset_of(cfg_layout(), 9) == 13,
        offset_of(cfg_layout(), 10) == 14,
        offset_of(cfg_layout(), 11) == 15,
        offset_of(cfg_layout(), 12) == 16,
        offset_of(cfg_layout(), 13) == 20,
        offset_of(cfg_layout(), 14) == 24,
        offset_of(cfg_layout(), 15) == 28,
        offset_of(cfg_layout(), 16) == 32,
        offset_of(cfg_layout(), 17) == 36,
        offset_of(cfg_layout(), 18) == 40,
        offset_of(cfg_layout(), 19) == 44,
        offset_of(cfg_layout(), 20) == 46,
        offset_of(cfg_layout(), 21) == 48,
        offset_of(cfg_layout(), 22) == 52,
        offset_of(cfg_layout(), 23) == 53,
        offset_of(cfg_layout(), 24) == 56,
        offset_of(cfg_layout(), 25) == 60,
        offset_of(cfg_layout(), 26) == 61,
        offset_of(cfg_layout(), 27) == 62,
        offset_of(cfg_layout(), 28) == 63,
        offset_of(cfg_layout(), 29) == 64,
{
    lemma_cfg_layout();
    let l = cfg_layout();
    assert(offset_of(l, 0) == 0);
    assert(offset_of(l, 1) == 2);
    assert(offset_of(l, 2) == 4);
    assert(offset_of(l, 3) == 6);
    assert(offset_of(l, 4) == 8);
    assert(offset_of(l, 5) == 9);
    assert(offset_of(l, 6) == 10);
    assert(offset_of(l, 7) == 11);
    assert(offset_of(l, 8) == 12);
    assert(offset_of(l, 9) == 13);
    assert(offset_of(l, 10) == 14);
    assert(offset_of(l, 11) == 15);
    assert(offset_of(l, 12) == 16);
    assert(offset_of(l, 13) == 20);
    assert(offset_of(l, 14) == 24);
    assert(offset_of(l, 15) == 28);
    assert(offset_of(l, 16) == 32);
    assert(offset_of(l, 17) == 36);
    assert(offset_of(l, 18) == 40);
    assert(offset_of(l, 19) == 44);
    assert(offset_of(l, 20) == 46);
    assert(offset_of(l, 21) == 48);
    assert(offset_of(l, 22) == 52);
    assert(offset_of(l, 23) == 53);
    assert(offset_of(l, 24) == 56);
    assert(offset_of(l, 25) == 60);
    assert(offset_of(l, 26) == 61);
    assert(offset_of(l, 27) == 62);
    assert(offset_of(l, 28) == 63);
    assert(offset_of(l, 29) == 64);
}

/// The lowest byte of a value that fits one byte is the value, and every
/// byte of zero is zero.
proof fn lemma_le_byte_small()
    ensures
        forall|v: u8| #[trigger] le_byte(v as u64, 0) == v,
        forall|i: nat| #[trigger] le_byte(0, i) == 0,
{
    assert forall|v: u8| #[trigger] le_byte(v as u64, 0) == v by {
        let w = v as u64;
        assert((w >> 0u64) & 0xff == w) by (bit_vector)
            requires
                w <= 0xff,
        ;
    }
    assert forall|i: nat| #[trigger] le_byte(0, i) == 0 by {
        if i < 8 {
            let sh = (8 * i) as u64;
            assert((0u64 >> sh) & 0xff == 0) by (bit_vector);
        }
    }
}

impl PciDev {
    /// The bytes of register `k` stand in the image where the register lies.
    proof fn lemma_reg_bytes(&self, k: int)
        requires
            self.wf(),
            0 <= k < self.cfg_map().entries().len(),
        ensures
            forall|a: int|
                self.cfg_map().entries()[k].start <= a < self.cfg_map().entries()[k].end()
                    ==> #[trigger] self.map_image()[a] == le_byte(
                    self.header().reg_value(self.cfg_map().entries()[k].id),
                    (a - self.cfg_map().entries()[k].start) as nat,
                ),
    {
        let map = self.cfg_map();
        let e = map.entries()[k];
        let content = |id: CfgReg, i: int| le_byte(self.header().reg_value(id), i as nat);
        assert forall|a: int| e.start <= a < e.end() implies #[trigger] self.map_image()[a] == le_byte(
            self.header().reg_value(e.id),
            (a - e.start) as nat,
        ) by {
            map.lemma_image_at(content, k, a - e.start);
        }
    }

    /// What the map shows of configuration space is the header, byte for
    /// byte, and zero behind it.
    proof fn lemma_map_image(&self)
        requires
            self.wf(),
        ensures
            self.map_image() == self.image(),
    {
        lemma_cfg_layout();
        lemma_cfg_starts();
        lemma_le_byte_small();
        let h = self.header();
        let image = self.map_image();
        assert(self.cfg_map().entries().len() == 30);
        assert(image.len() == 256);
        let run0 = Seq::<u8>::empty();
        assert(image.take(0) =~= run0);
        let seg0 = le_bytes(h.vendor_id as u64, 2);
        let run1 = run0 + seg0;
        assert(image.take(2) == run1) by {
            self.lemma_reg_bytes(0);
            assert forall|i: int| 0 <= i < 2 implies image[0 + i] == #[trigger] seg0[i] by {}
            lemma_extend(image, run0, seg0);
        }
        let seg1 = le_bytes(h.device_id as u64, 2);
        let run2 = run1 + seg1;
        assert(image.take(4) == run2) by {
            self.lemma_reg_bytes(1);
            assert forall|i: int| 0 <= i < 2 implies image[2 + i] == #[trigger] seg1[i] by {}
            lemma_extend(image, run1, seg1);
        }
        let seg2 = le_bytes(h.command as u64, 2);
        let run3 = run2 + seg2;
        assert(image.take(6) == run3) by {
            self.lemma_reg_bytes(2);
            assert forall|i: int| 0 <= i < 2 implies image[4 + i] == #[trigger] seg2[i] by {}
            lemma_extend(image, run2, seg2);
        }
        let seg3 = le_bytes(h.status as u64, 2);
        let run4 = run3 + seg3;
        assert(image.take(8) == run4) by {
            self.lemma_reg_bytes(3);
            assert forall|i: int| 0 <= i < 2 implies image[6 + i] == #[trigger] seg3[i] by {}
            lemma_extend(image, run3, seg3);
        }
        let seg4 = seq![
            h.revision_id,
            h.class,
            h.subclass,
            h.prog_if,
            h.cache_line_size,
            h.latency_timer,
            h.header_type,
            h.bist,
        ];
        let run5 = run4 + seg4;
        assert(image.take(16) == run5) by {
            self.lemma_reg_bytes(4);
            self.lemma_reg_bytes(5);
            self.lemma_reg_bytes(6);
            self.lemma_reg_bytes(7);
            self.lemma_reg_bytes(8);
            self.lemma_reg_bytes(9);
            self.lemma_reg_bytes(10);
            self.lemma_reg_bytes(11);
            assert forall|i: int| 0 <= i < 8 implies image[8 + i] == #[trigger] seg4[i] by {}
            lemma_extend(image, run4, seg4);
        }
        let seg5 = le_bytes(h.bars@[0] as u64, 4);
        let run6 = run5 + seg5;
        assert(image.take(20) == run6) by {
            self.lemma_reg_bytes(12);
            assert forall|i: int| 0 <= i < 4 implies image[16 + i] == #[trigger] seg5[i] by {}
            lemma_extend(image, run5, seg5);
        }
        let seg6 = le_bytes(h.bars@[1] as u64, 4);
        let run7 = run6 + seg6;
        assert(image.take(24) == run7) by {
            self.lemma_reg_bytes(13);
            assert forall|i: int| 0 <= i < 4 implies image[20 + i] == #[trigger] seg6[i] by {}
            lemma_extend(image, run6, seg6);
        }
        let seg7 = le_bytes(h.bars@[2] as u64, 4);
        let run8 = run7 + seg7;
        assert(image.take(28) == run8) by {
            self.lemma_reg_bytes(14);
            assert forall|i: int| 0 <= i < 4 implies image[24 + i] == #[trigger] seg7[i] by {}
            lemma_extend(image, run7, seg7);
        }
        let seg8 = le_bytes(h.bars@[3] as u64, 4);
        let run9 = run8 + seg8;
        assert(image.take(32) == run9) by {
            self.lemma_reg_bytes(15);
            assert forall|i: int| 0 <= i < 4 implies image[28 + i] == #[trigger] seg8[i] by {}
            lemma_extend(image, run8, seg8);
        }
        let seg9 = le_bytes(h.bars@[4] as u64, 4);
        let run10 = run9 + seg9;
        assert(image.take(36) == run10) by {
            self.lemma_reg_bytes(16);
            assert forall|i: int| 0 <= i < 4 implies image[32 + i] == #[trigger] seg9[i] by {}
            lemma_extend(image, run9, seg9);
        }
        let seg10 = le_bytes(h.bars@[5] as u64, 4);
        let run11 = run10 + seg10;
        assert(image.take(40) == run11) by {
            self.lemma_reg_bytes(17);
            assert forall|i: int| 0 <= i < 4 implies image[36 + i] == #[trigger] seg10[i] by {}
            lemma_extend(image, run10, seg10);
        }
        let seg11 = le_bytes(h.cardbus_ptr as u64, 4);
        let run12 = run11 + seg11;
        assert(image.take(44) == run12) by {
            self.lemma_reg_bytes(18);
            assert forall|i: int| 0 <= i < 4 implies image[40 + i] == #[trigger] seg11[i] by {}
            lemma_extend(image, run11, seg11);
        }
        let seg12 = le_bytes(h.sub_vendor_id as u64, 2);
        let run13 = run12 + seg12;
        assert(image.take(46) == run13) by {
            self.lemma_reg_bytes(19);
            assert forall|i: int| 0 <= i < 2 implies image[44 + i] == #[trigger] seg12[i] by {}
            lemma_extend(image, run12, seg12);
        }
        let seg13 = le_bytes(h.sub_device_id as u64, 2);
        let run14 = run13 + seg13;
        assert(image.take(48) == run14) by {
            self.lemma_reg_bytes(20);
            assert forall|i: int| 0 <= i < 2 implies image[46 + i] == #[trigger] seg13[i] by {}
            lemma_extend(image, run13, seg13);
        }
        let seg14 = le_bytes(h.expansion_rom_addr as u64, 4);
        let run15 = run14 + seg14;
        assert(image.take(52) == run15) by {
            self.lemma_reg_bytes(21);
            assert forall|i: int| 0 <= i < 4 implies image[48 + i] == #[trigger] seg14[i] by {}
            lemma_extend(image, run14, seg14);
        }
        let seg15 = seq![h.cap_ptr, 0u8, 0u8, 0u8, 0u8, 0u8, 0u8, 0u8];
        let run16 = run15 + seg15;
        assert(image.take(60) == run16) by {
            self.lemma_reg_bytes(22);
            self.lemma_reg_bytes(23);
            self.lemma_reg_bytes(24);
            assert forall|i: int| 0 <= i < 8 implies image[52 + i] == #[trigger] seg15[i] by {}
            lemma_extend(image, run15, seg15);
        }
        let seg16 = seq![h.intr_line, h.intr_pin, h.min_grant, h.max_latency];
        let run17 = run16 + seg16;
        assert(image.take(64) == run17) by {
            self.lemma_reg_bytes(25);
            self.lemma_reg_bytes(26);
            self.lemma_reg_bytes(27);
            self.lemma_reg_bytes(28);
            assert forall|i: int| 0 <= i < 4 implies image[60 + i] == #[trigger] seg16[i] by {}
            lemma_extend(image, run16, seg16);
        }
        let seg17 = Seq::new((bits::LEN_CFG - bits::LEN_CFG_STD) as nat, |i: int| 0u8);
        let run18 = run17 + seg17;
        assert(image.take(256) == run18) by {
            self.lemma_reg_bytes(29);
            assert forall|i: int| 0 <= i < 192 implies image[64 + i] == #[trigger] seg17[i] by {}
            lemma_extend(image, run17, seg17);
        }
        assert(image.take(256) =~= image);
        assert(run0 + seg0 =~= seg0);
    }
}

/// A run of bytes whose front is known grows by the piece that follows.
proof fn lemma_extend(image: Seq<u8>, done: Seq<u8>, piece: Seq<u8>)
    requires
        done.len() + piece.len() <= image.len(),
        image.take(done.len() as int) == done,
        forall|i: int| 0 <= i < piece.len() ==> image[done.len() + i] == #[trigger] piece[i],
    ensures
        image.take((done.len() + piece.len()) as int) == done + piece,
{
    assert(image.take((done.len() + piece.len()) as int) =~= done + piece);
}

} // verus!

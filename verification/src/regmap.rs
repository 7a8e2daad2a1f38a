//! Packed register maps.
//!
//! A register file is declared as an ordered layout of `(identifier, length)`
//! pairs. The map lays the registers out back to back from offset 0, so that
//! every byte of the space belongs to exactly one register, and resolves an
//! access of any offset and length into the registers it touches.

use crate::common::{RWOp, ReadOp, WriteOp};
use vstd::prelude::*;

verus! {

/// One register of a map: its identifier and the bytes `[start, start + len)`
/// that it occupies.
pub struct RegEntry<ID> {
    pub id: ID,
    pub start: usize,
    pub len: usize,
}

impl<ID> RegEntry<ID> {
    /// The offset just past the register.
    pub open spec fn end(self) -> int {
        self.start + self.len
    }

    /// Whether the register holds the byte at `offset`.
    pub open spec fn holds(self, offset: int) -> bool {
        self.start <= offset < self.end()
    }
}

/// Where register `i` of `layout` starts: the sum of the lengths before it.
pub open spec fn offset_of<ID>(layout: Seq<(ID, usize)>, i: int) -> int
    decreases i,
{
    if i <= 0 {
        0
    } else {
        offset_of(layout, i - 1) + layout[i - 1].1
    }
}

/// A layout that can be packed into a space of `size` bytes: no register is
/// empty, and the lengths add up to `size`.
pub open spec fn valid_layout<ID>(size: int, layout: Seq<(ID, usize)>) -> bool {
    &&& forall|i: int| 0 <= i < layout.len() ==> (#[trigger] layout[i]).1 >= 1
    &&& offset_of(layout, layout.len() as int) == size
}

/// The registers of `layout`, each at its place.
pub open spec fn laid_out<ID>(layout: Seq<(ID, usize)>) -> Seq<RegEntry<ID>> {
    Seq::new(
        layout.len(),
        |i: int| RegEntry { id: layout[i].0, start: offset_of(layout, i) as usize, len: layout[i].1 },
    )
}

/// Register `i` starts where register `i - 1` ends.
pub open spec fn abuts<ID>(entries: Seq<RegEntry<ID>>, i: int) -> bool {
    entries[i].start == entries[i - 1].end()
}

/// Registers that tile `[0, size)`: none is empty, the first starts at 0,
/// each starts where the one before it ends, and the last ends at `size`.
pub open spec fn packed<ID>(entries: Seq<RegEntry<ID>>, size: int) -> bool {
    &&& entries.len() == 0 ==> size == 0
    &&& entries.len() > 0 ==> entries[0].start == 0 && entries.last().end() == size
    &&& forall|i: int| 0 <= i < entries.len() ==> (#[trigger] entries[i]).len >= 1
    &&& forall|i: int| 0 < i < entries.len() ==> #[trigger] abuts(entries, i)
}

/// The start offsets of a layout never decrease.
pub proof fn lemma_offset_of_monotone<ID>(layout: Seq<(ID, usize)>, i: int, j: int)
    requires
        0 <= i <= j,
    ensures
        0 <= offset_of(layout, i) <= offset_of(layout, j),
    decreases j,
{
    if i < j {
        lemma_offset_of_monotone(layout, i, j - 1);
    } else if i > 0 {
        lemma_offset_of_monotone(layout, i - 1, j - 1);
    }
}

/// Laying out a valid layout tiles the space.
pub proof fn lemma_laid_out_is_packed<ID>(size: int, layout: Seq<(ID, usize)>)
    requires
        valid_layout(size, layout),
        size <= usize::MAX,
    ensures
        packed(laid_out(layout), size),
{
    let entries = laid_out(layout);
    let n = layout.len() as int;
    assert forall|i: int| 0 <= i <= n implies 0 <= #[trigger] offset_of(layout, i) <= size by {
        lemma_offset_of_monotone(layout, i, n);
    }
    assert forall|i: int| 0 < i < entries.len() implies #[trigger] abuts(entries, i) by {
        assert(offset_of(layout, i) == offset_of(layout, i - 1) + layout[i - 1].1);
        assert(0 <= offset_of(layout, i - 1) <= size);
        assert(0 <= offset_of(layout, i) <= size);
    }
    if n > 0 {
        assert(offset_of(layout, n) == offset_of(layout, n - 1) + layout[n - 1].1);
        assert(0 <= offset_of(layout, n - 1) <= size);
        assert(offset_of(layout, 0) == 0);
    }
}

/// In a packed map an earlier register ends no later than a later one starts.
pub proof fn lemma_packed_ordered<ID>(entries: Seq<RegEntry<ID>>, size: int, i: int, j: int)
    requires
        packed(entries, size),
        0 <= i < j < entries.len(),
    ensures
        entries[i].end() <= entries[j].start,
    decreases j - i,
{
    if i + 1 < j {
        lemma_packed_ordered(entries, size, i, j - 1);
        assert(abuts(entries, j));
        assert(entries[j - 1].len >= 1);
    } else {
        assert(abuts(entries, j));
    }
}

/// In a packed map register `i` starts at offset `i` or later, since no
/// register before it is empty.
pub proof fn lemma_packed_start<ID>(entries: Seq<RegEntry<ID>>, size: int, i: int)
    requires
        packed(entries, size),
        0 <= i < entries.len(),
    ensures
        i <= entries[i].start,
    decreases i,
{
    if i > 0 {
        lemma_packed_start(entries, size, i - 1);
        assert(abuts(entries, i));
        assert(entries[i - 1].len >= 1);
    }
}

/// In a packed map every register lies inside the space.
pub proof fn lemma_packed_bounds<ID>(entries: Seq<RegEntry<ID>>, size: int, i: int)
    requires
        packed(entries, size),
        0 <= i < entries.len(),
    ensures
        0 <= entries[i].start < entries[i].end() <= size,
{
    let n = entries.len() as int;
    assert(entries[i].len >= 1);
    if i < n - 1 {
        lemma_packed_ordered(entries, size, i, n - 1);
        assert(entries[n - 1].len >= 1);
    }
}

/// Every offset of the space lies in exactly one register of a packed map.
pub proof fn lemma_coverage<ID>(entries: Seq<RegEntry<ID>>, size: int, offset: int)
    requires
        packed(entries, size),
        0 <= offset < size,
    ensures
        exists|i: int| 0 <= i < entries.len() && (#[trigger] entries[i]).holds(offset),
        forall|i: int, j: int|
            0 <= i < entries.len() && 0 <= j < entries.len() && (#[trigger] entries[i]).holds(
                offset,
            ) && (#[trigger] entries[j]).holds(offset) ==> i == j,
{
    lemma_covered_below(entries, size, offset, entries.len() as int - 1);
    assert forall|i: int, j: int|
        0 <= i < entries.len() && 0 <= j < entries.len() && (#[trigger] entries[i]).holds(offset)
            && (#[trigger] entries[j]).holds(offset) implies i == j by {
        if i < j {
            lemma_packed_ordered(entries, size, i, j);
        } else if j < i {
            lemma_packed_ordered(entries, size, j, i);
        }
    }
}

/// In the map of a valid layout every offset of the space lies in exactly
/// one register: the registers leave no gap and do not overlap.
pub proof fn lemma_layout_coverage<ID>(size: int, layout: Seq<(ID, usize)>, offset: int)
    requires
        valid_layout(size, layout),
        size <= usize::MAX,
        0 <= offset < size,
    ensures
        exists|i: int| 0 <= i < layout.len() && (#[trigger] laid_out(layout)[i]).holds(offset),
        forall|i: int, j: int|
            0 <= i < layout.len() && 0 <= j < layout.len() && (#[trigger] laid_out(layout)[i]).holds(
                offset,
            ) && (#[trigger] laid_out(layout)[j]).holds(offset) ==> i == j,
{
    lemma_laid_out_is_packed(size, layout);
    lemma_coverage(laid_out(layout), size, offset);
}

/// An offset below the end of register `k` lies in one of the registers `0..=k`.
proof fn lemma_covered_below<ID>(entries: Seq<RegEntry<ID>>, size: int, offset: int, k: int)
    requires
        packed(entries, size),
        0 <= k < entries.len(),
        0 <= offset < entries[k].end(),
    ensures
        exists|i: int| 0 <= i <= k && (#[trigger] entries[i]).holds(offset),
    decreases k,
{
    if entries[k].start <= offset {
        assert(entries[k].holds(offset));
    } else {
        assert(k > 0);
        assert(abuts(entries, k));
        lemma_covered_below(entries, size, offset, k - 1);
    }
}

/// A packed register map: the registers of one layout, laid out back to back.
///
/// The map is built once and never changes afterwards; it can be shared by
/// every instance of a device type.
pub struct RegMap<ID> {
    size: usize,
    regs: Vec<RegEntry<ID>>,
    resv: Option<ID>,
}

impl<ID> RegMap<ID> {
    /// The size of the space in bytes.
    pub closed spec fn size(&self) -> nat {
        self.size as nat
    }

    /// The registers, in address order.
    pub closed spec fn entries(&self) -> Seq<RegEntry<ID>> {
        self.regs@
    }

    /// The identifier that marks reserved stretches, if the layout has one.
    pub closed spec fn reserved(&self) -> Option<ID> {
        self.resv
    }

    /// The registers tile the space.
    pub open spec fn wf(&self) -> bool {
        packed(self.entries(), self.size() as int)
    }

    /// The index of the register that holds `offset`.
    pub open spec fn index_of(&self, offset: int) -> int {
        choose|i: int| 0 <= i < self.entries().len() && (#[trigger] self.entries()[i]).holds(offset)
    }

    /// `index_of` names the one register that holds `offset`.
    pub proof fn lemma_index_of(&self, offset: int)
        requires
            self.wf(),
            0 <= offset < self.size(),
        ensures
            0 <= self.index_of(offset) < self.entries().len(),
            self.entries()[self.index_of(offset)].holds(offset),
            forall|i: int|
                0 <= i < self.entries().len() && (#[trigger] self.entries()[i]).holds(offset) ==> i
                    == self.index_of(offset),
    {
        lemma_coverage(self.entries(), self.size() as int, offset);
    }

    /// The size of the space in bytes.
    pub fn len(&self) -> (r: usize)
        ensures
            r == self.size(),
    {
        self.size
    }

    /// The number of registers.
    pub fn count(&self) -> (r: usize)
        ensures
            r == self.entries().len(),
    {
        self.regs.len()
    }

    /// Register `index` of the map.
    pub fn entry(&self, index: usize) -> (r: &RegEntry<ID>)
        requires
            index < self.entries().len(),
        ensures
            *r == self.entries()[index as int],
    {
        &self.regs[index]
    }

    /// The identifier that marks reserved stretches, if the layout has one.
    pub fn reserved_id(&self) -> (r: &Option<ID>)
        ensures
            *r == self.reserved(),
    {
        &self.resv
    }

    /// Whether the access `[offset, offset + len)` lies within the space.
    pub fn covers(&self, offset: usize, len: usize) -> (r: bool)
        ensures
            r == (offset + len <= self.size()),
    {
        offset <= self.size && len <= self.size - offset
    }

    /// Finds the register that holds `offset`, by binary search over the
    /// start offsets.
    pub fn find(&self, offset: usize) -> (index: usize)
        requires
            self.wf(),
            offset < self.size(),
        ensures
            index == self.index_of(offset as int),
            index < self.entries().len(),
            self.entries()[index as int].holds(offset as int),
    {
        let mut lo: usize = 0;
        let mut hi: usize = self.regs.len() - 1;
        while lo < hi
            invariant
                self.wf(),
                lo <= hi < self.regs@.len(),
                self.regs@[lo as int].start <= offset,
                offset < self.regs@[hi as int].end(),
            decreases hi - lo,
        {
            let mid = hi - (hi - lo) / 2;
            if self.regs[mid].start <= offset {
                lo = mid;
            } else {
                assert(abuts(self.regs@, mid as int));
                hi = mid - 1;
            }
        }
        proof {
            assert(self.entries()[lo as int].holds(offset as int));
            self.lemma_index_of(offset as int);
        }
        lo
    }
}

impl<ID: Copy> RegMap<ID> {
    /// Whether `layout` can be packed into `size` bytes: no register is
    /// empty and the lengths add up to `size`.
    pub fn check_layout(size: usize, layout: &[(ID, usize)]) -> (ok: bool)
        ensures
            ok == valid_layout(size as int, layout@),
    {
        let n = layout.len();
        let mut off: usize = 0;
        let mut i: usize = 0;
        while i < n
            invariant
                n == layout@.len(),
                i <= n,
                off == offset_of(layout@, i as int),
                off <= size,
                forall|k: int| 0 <= k < i ==> (#[trigger] layout@[k]).1 >= 1,
            decreases n - i,
        {
            let reg_len = layout[i].1;
            if reg_len == 0 {
                return false;
            }
            if reg_len > size - off {
                proof {
                    lemma_offset_of_monotone(layout@, i + 1, n as int);
                }
                return false;
            }
            off = off + reg_len;
            i += 1;
        }
        off == size
    }

    /// Builds the map of `layout` over a space of `size` bytes. `resv` names
    /// the identifier that the layout uses for reserved stretches; it is
    /// kept for handlers to ask for and changes nothing in how accesses are
    /// resolved.
    ///
    /// The layout must fit the space exactly; see [`RegMap::check_layout`].
    pub fn create_packed(size: usize, layout: &[(ID, usize)], resv: Option<ID>) -> (map: RegMap<ID>)
        requires
            valid_layout(size as int, layout@),
        ensures
            map.wf(),
            map.size() == size,
            map.entries() == laid_out(layout@),
            map.reserved() == resv,
    {
        let n = layout.len();
        let mut regs: Vec<RegEntry<ID>> = Vec::new();
        let mut off: usize = 0;
        let mut i: usize = 0;
        while i < n
            invariant
                n == layout@.len(),
                i <= n,
                valid_layout(size as int, layout@),
                off == offset_of(layout@, i as int),
                regs@ == laid_out(layout@).take(i as int),
            decreases n - i,
        {
            let (id, reg_len) = layout[i];
            proof {
                lemma_offset_of_monotone(layout@, i + 1, n as int);
            }
            regs.push(RegEntry { id, start: off, len: reg_len });
            off = off + reg_len;
            i += 1;
            assert(regs@ =~= laid_out(layout@).take(i as int));
        }
        proof {
            assert(regs@ =~= laid_out(layout@));
            lemma_laid_out_is_packed(size as int, layout@);
        }
        RegMap { size, regs, resv }
    }

    /// Builds the map of `layout` over a space of `size` bytes if the layout
    /// fits the space exactly, and gives `None` if it does not.
    pub fn try_create_packed(size: usize, layout: &[(ID, usize)], resv: Option<ID>) -> (r: Option<
        RegMap<ID>,
    >)
        ensures
            r.is_some() == valid_layout(size as int, layout@),
            r matches Some(map) ==> {
                &&& map.wf()
                &&& map.size() == size
                &&& map.entries() == laid_out(layout@)
                &&& map.reserved() == resv
            },
    {
        if Self::check_layout(size, layout) {
            Some(Self::create_packed(size, layout, resv))
        } else {
            None
        }
    }
}

/// The part of one access that falls into one register.
pub struct Piece<ID> {
    /// The register's identifier.
    pub id: ID,
    /// The register's place in the map.
    pub index: usize,
    /// Where the part starts, relative to the start of the register.
    pub offset: usize,
    /// The length of the part in bytes.
    pub len: usize,
}

/// The part of the access `[offset, offset + len)` that falls into register
/// `k` of `entries`.
pub open spec fn piece_of<ID>(entries: Seq<RegEntry<ID>>, k: int, offset: int, len: int) -> Piece<
    ID,
> {
    let e = entries[k];
    let lo = if offset > e.start { offset } else { e.start as int };
    let hi = if offset + len < e.end() { offset + len } else { e.end() };
    Piece { id: e.id, index: k as usize, offset: (lo - e.start) as usize, len: (hi - lo) as usize }
}

impl<ID> RegMap<ID> {
    /// The parts into which the access `[offset, offset + len)` falls: one
    /// for each register from the one that holds the first byte to the one
    /// that holds the last, in address order. An empty access has no parts.
    pub open spec fn plan(&self, offset: int, len: int) -> Seq<Piece<ID>> {
        if len <= 0 {
            Seq::empty()
        } else {
            let first = self.index_of(offset);
            let last = self.index_of(offset + len - 1);
            Seq::new(
                (last - first + 1) as nat,
                |j: int| piece_of(self.entries(), first + j, offset, len),
            )
        }
    }

    /// Where a part of an access starts in the space.
    pub open spec fn piece_start(&self, piece: Piece<ID>) -> int {
        self.entries()[piece.index as int].start + piece.offset
    }

    /// The parts of an access tile it: each is a non-empty stretch of its
    /// own register, the registers are consecutive, the first part starts at
    /// `offset`, each later part starts where the one before it ends, and the
    /// last part ends at `offset + len`.
    pub proof fn lemma_plan(&self, offset: int, len: int)
        requires
            self.wf(),
            0 <= offset,
            0 < len,
            offset + len <= self.size(),
        ensures
            self.plan(offset, len).len() == self.index_of(offset + len - 1) - self.index_of(offset)
                + 1,
            self.plan(offset, len).len() >= 1,
            forall|j: int|
                #![trigger self.plan(offset, len)[j]]
                0 <= j < self.plan(offset, len).len() ==> {
                    let p = self.plan(offset, len)[j];
                    &&& p.index == self.index_of(offset) + j
                    &&& p.index < self.entries().len()
                    &&& p.id == self.entries()[p.index as int].id
                    &&& 1 <= p.len
                    &&& p.offset + p.len <= self.entries()[p.index as int].len
                    &&& offset <= self.piece_start(p)
                    &&& self.piece_start(p) + p.len <= offset + len
                },
            self.piece_start(self.plan(offset, len)[0]) == offset,
            self.piece_start(self.plan(offset, len).last()) + self.plan(offset, len).last().len
                == offset + len,
    {
        let entries = self.entries();
        let size = self.size() as int;
        let first = self.index_of(offset);
        let last = self.index_of(offset + len - 1);
        let plan = self.plan(offset, len);
        self.lemma_index_of(offset);
        self.lemma_index_of(offset + len - 1);
        if last < first {
            lemma_packed_ordered(entries, size, last, first);
        }
        assert forall|j: int| 0 <= j < plan.len() implies {
            let p = #[trigger] plan[j];
            &&& p.index == first + j
            &&& p.index < entries.len()
            &&& p.id == entries[p.index as int].id
            &&& 1 <= p.len
            &&& p.offset + p.len <= entries[p.index as int].len
            &&& offset <= self.piece_start(p)
            &&& self.piece_start(p) + p.len <= offset + len
        } by {
            let k = first + j;
            lemma_packed_bounds(entries, size, k);
            lemma_packed_start(entries, size, k);
            if first < k {
                lemma_packed_ordered(entries, size, first, k);
            }
            if k < last {
                lemma_packed_ordered(entries, size, k, last);
            }
        }
    }

    /// No register gets two parts of one access: the parts go through the
    /// registers in rising order.
    pub proof fn lemma_plan_distinct(&self, offset: int, len: int, i: int, j: int)
        requires
            self.wf(),
            0 <= offset,
            0 < len,
            offset + len <= self.size(),
            0 <= i < j < self.plan(offset, len).len(),
        ensures
            self.plan(offset, len)[i].index < self.plan(offset, len)[j].index,
    {
        self.lemma_plan(offset, len);
    }

    /// Each part of an access after the first starts where the part before
    /// it ends.
    pub proof fn lemma_plan_step(&self, offset: int, len: int, j: int)
        requires
            self.wf(),
            0 <= offset,
            0 < len,
            offset + len <= self.size(),
            0 < j < self.plan(offset, len).len(),
        ensures
            self.piece_start(self.plan(offset, len)[j]) == self.piece_start(
                self.plan(offset, len)[j - 1],
            ) + self.plan(offset, len)[j - 1].len,
    {
        let entries = self.entries();
        let size = self.size() as int;
        let first = self.index_of(offset);
        let last = self.index_of(offset + len - 1);
        self.lemma_index_of(offset);
        self.lemma_index_of(offset + len - 1);
        self.lemma_plan(offset, len);
        let k = first + j;
        lemma_packed_bounds(entries, size, k);
        lemma_packed_bounds(entries, size, k - 1);
        lemma_packed_start(entries, size, k);
        lemma_packed_ordered(entries, size, first, k);
        if first < k - 1 {
            lemma_packed_ordered(entries, size, first, k - 1);
        }
        lemma_packed_ordered(entries, size, k - 1, last);
        if k < last {
            lemma_packed_ordered(entries, size, k, last);
        }
        assert(abuts(entries, k));
    }

    /// An access that lies within one register has exactly one part: the
    /// access itself, re-based to the start of that register.
    pub proof fn lemma_plan_single(&self, offset: int, len: int)
        requires
            self.wf(),
            0 <= offset,
            0 < len,
            offset + len <= self.entries()[self.index_of(offset)].end(),
            offset < self.size(),
        ensures
            self.plan(offset, len) == seq![
                Piece {
                    id: self.entries()[self.index_of(offset)].id,
                    index: self.index_of(offset) as usize,
                    offset: (offset - self.entries()[self.index_of(offset)].start) as usize,
                    len: len as usize,
                },
            ],
    {
        let entries = self.entries();
        let first = self.index_of(offset);
        self.lemma_index_of(offset);
        lemma_packed_bounds(entries, self.size() as int, first);
        assert(entries[first].holds(offset + len - 1));
        self.lemma_index_of(offset + len - 1);
        assert(self.plan(offset, len) =~= seq![
            Piece {
                id: entries[first].id,
                index: first as usize,
                offset: (offset - entries[first].start) as usize,
                len: len as usize,
            },
        ]);
    }
}

impl<ID: Copy> RegMap<ID> {
    /// Resolves the access `[offset, offset + len)` into its parts.
    pub fn split(&self, offset: usize, len: usize) -> (parts: Vec<Piece<ID>>)
        requires
            self.wf(),
            offset + len <= self.size(),
        ensures
            parts@ == self.plan(offset as int, len as int),
    {
        let mut parts: Vec<Piece<ID>> = Vec::new();
        if len == 0 {
            assert(parts@ =~= self.plan(offset as int, len as int));
            return parts;
        }
        let end = offset + len;
        let first = self.find(offset);
        let ghost last = self.index_of(end - 1);
        let ghost plan = self.plan(offset as int, len as int);
        proof {
            self.lemma_plan(offset as int, len as int);
            self.lemma_index_of(end - 1);
        }
        let n = self.regs.len();
        let mut k = first;
        let mut at = offset;
        while at < end
            invariant
                self.wf(),
                n == self.regs@.len(),
                end == offset + len,
                end <= self.size(),
                len > 0,
                first == self.index_of(offset as int),
                last == self.index_of(end - 1),
                plan == self.plan(offset as int, len as int),
                plan.len() == last - first + 1,
                0 <= last < self.regs@.len(),
                self.regs@[last].holds(end - 1),
                first <= k <= last + 1,
                offset <= at <= end,
                at < end ==> k <= last && self.regs@[k as int].holds(at as int),
                at < end ==> at == (if offset > self.regs@[k as int].start {
                    offset
                } else {
                    self.regs@[k as int].start
                }),
                at == end ==> k == last + 1,
                parts@ == plan.take(k - first),
            decreases end - at,
        {
            let e = &self.regs[k];
            proof {
                lemma_packed_bounds(self.entries(), self.size() as int, k as int);
            }
            let e_end = e.start + e.len;
            let stop = if end < e_end { end } else { e_end };
            let piece = Piece { id: e.id, index: k, offset: at - e.start, len: stop - at };
            assert(piece == piece_of(self.entries(), k as int, offset as int, len as int));
            assert(piece == plan[k - first]);
            parts.push(piece);
            proof {
                assert(parts@ =~= plan.take(k - first + 1));
                self.lemma_index_of(end - 1);
                if stop == end {
                    assert(self.entries()[k as int].holds(end - 1));
                } else {
                    assert(k < last);
                    assert(abuts(self.regs@, k + 1));
                    lemma_packed_bounds(self.entries(), self.size() as int, k + 1);
                    assert(self.regs@[k + 1].holds(stop as int));
                }
            }
            k = k + 1;
            at = stop;
        }
        assert(parts@ =~= plan);
        parts
    }
}

/// What a device does with the part of an access that falls into one of its
/// registers.
///
/// The two relations say what a callback may do, over the handler before and
/// after the call: which bytes a read leaves in the operation, and what a
/// write of given bytes leads to. A handler that computes a fixed result
/// states it as an equation; one that cannot say more leaves the relation
/// weak.
pub trait RegHandler<ID>: Sized {
    /// What the handler needs to hold of itself between callbacks. Nothing,
    /// unless the handler says otherwise.
    open spec fn inv(&self) -> bool {
        true
    }

    /// A read of register `id`, `len` bytes from `offset` within it, may take
    /// the handler from `pre` to `post` and leave `bytes` in the operation.
    /// Anything may happen, unless the handler says otherwise.
    open spec fn reads(pre: Self, id: ID, offset: nat, len: nat, post: Self, bytes: Seq<u8>) -> bool {
        true
    }

    /// A write of `data` to register `id`, from `offset` within it, may take
    /// the handler from `pre` to `post`. Anything may happen, unless the
    /// handler says otherwise.
    open spec fn writes(pre: Self, id: ID, offset: nat, data: Seq<u8>, post: Self) -> bool {
        true
    }

    /// Handles one access that lies within register `id`. A read arrives
    /// blank and leaves with the bytes for the guest, its offset and length
    /// as they were; a write arrives with the guest's bytes untouched.
    fn handle(&mut self, id: &ID, rwo: RWOp<'_, '_>)
        requires
            old(self).inv(),
            rwo matches RWOp::Read(ro) ==> ro.wf() && ro@.blank(),
            rwo matches RWOp::Write(wo) ==> wo.wf() && wo@.fresh(),
        ensures
            final(self).inv(),
            rwo matches RWOp::Read(ro) ==> {
                &&& final(ro).wf()
                &&& final(ro)@.offset == ro@.offset
                &&& final(ro)@.len() == ro@.len()
                &&& Self::reads(
                    *old(self),
                    *id,
                    ro@.offset,
                    ro@.len(),
                    *final(self),
                    final(ro)@.bytes,
                )
            },
            rwo matches RWOp::Write(wo) ==> Self::writes(
                *old(self),
                *id,
                wo@.offset,
                wo@.bytes,
                *final(self),
            ),
    ;
}

/// Reading the parts of `plan` one after the other, in order, may take the
/// handler from `pre` to `post` and produce `out`, the bytes of the parts
/// joined.
pub open spec fn reads_run<ID, H: RegHandler<ID>>(
    pre: H,
    plan: Seq<Piece<ID>>,
    post: H,
    out: Seq<u8>,
) -> bool
    decreases plan.len(),
{
    if plan.len() == 0 {
        post == pre && out.len() == 0
    } else {
        let last = plan.last();
        &&& out.len() >= last.len
        &&& exists|mid: H|
            {
                &&& reads_run(pre, plan.drop_last(), mid, out.take(out.len() - last.len))
                &&& #[trigger] H::reads(
                    mid,
                    last.id,
                    last.offset as nat,
                    last.len as nat,
                    post,
                    out.skip(out.len() - last.len),
                )
            }
    }
}

/// Writing `data` to the parts of `plan` one after the other, in order, each
/// part getting its own stretch of the bytes, may take the handler from `pre`
/// to `post`.
pub open spec fn writes_run<ID, H: RegHandler<ID>>(
    pre: H,
    plan: Seq<Piece<ID>>,
    data: Seq<u8>,
    post: H,
) -> bool
    decreases plan.len(),
{
    if plan.len() == 0 {
        post == pre && data.len() == 0
    } else {
        let last = plan.last();
        &&& data.len() >= last.len
        &&& exists|mid: H|
            {
                &&& writes_run(pre, plan.drop_last(), data.take(data.len() - last.len), mid)
                &&& #[trigger] H::writes(
                    mid,
                    last.id,
                    last.offset as nat,
                    data.skip(data.len() - last.len),
                    post,
                )
            }
    }
}

/// One more part read extends a run.
pub proof fn lemma_reads_run_extend<ID, H: RegHandler<ID>>(
    pre: H,
    plan: Seq<Piece<ID>>,
    mid: H,
    post: H,
    out: Seq<u8>,
)
    requires
        plan.len() > 0,
        out.len() >= plan.last().len,
        reads_run(pre, plan.drop_last(), mid, out.take(out.len() - plan.last().len)),
        H::reads(
            mid,
            plan.last().id,
            plan.last().offset as nat,
            plan.last().len as nat,
            post,
            out.skip(out.len() - plan.last().len),
        ),
    ensures
        reads_run(pre, plan, post, out),
{
}

/// One more part written extends a run.
pub proof fn lemma_writes_run_extend<ID, H: RegHandler<ID>>(
    pre: H,
    plan: Seq<Piece<ID>>,
    data: Seq<u8>,
    mid: H,
    post: H,
)
    requires
        plan.len() > 0,
        data.len() >= plan.last().len,
        writes_run(pre, plan.drop_last(), data.take(data.len() - plan.last().len), mid),
        H::writes(
            mid,
            plan.last().id,
            plan.last().offset as nat,
            data.skip(data.len() - plan.last().len),
            post,
        ),
    ensures
        writes_run(pre, plan, data, post),
{
}

/// A run over a single part is one callback.
pub proof fn lemma_reads_run_single<ID, H: RegHandler<ID>>(
    pre: H,
    piece: Piece<ID>,
    post: H,
    out: Seq<u8>,
)
    ensures
        reads_run(pre, seq![piece], post, out) <==> out.len() == piece.len && H::reads(
            pre,
            piece.id,
            piece.offset as nat,
            piece.len as nat,
            post,
            out,
        ),
{
    let plan = seq![piece];
    assert(plan.last() == piece);
    assert(plan.drop_last() =~= Seq::<Piece<ID>>::empty());
    if reads_run(pre, plan, post, out) {
        let head = out.take(out.len() - piece.len);
        let tail = out.skip(out.len() - piece.len);
        let mid = choose|mid: H|
            reads_run(pre, plan.drop_last(), mid, head) && #[trigger] H::reads(
                mid,
                piece.id,
                piece.offset as nat,
                piece.len as nat,
                post,
                tail,
            );
        assert(mid == pre && head.len() == 0);
        assert(tail =~= out);
    }
    if out.len() == piece.len && H::reads(
        pre,
        piece.id,
        piece.offset as nat,
        piece.len as nat,
        post,
        out,
    ) {
        assert(out.skip(0) =~= out);
        assert(out.take(0) =~= Seq::<u8>::empty());
        lemma_reads_run_extend(pre, plan, pre, post, out);
    }
}

/// A run of writes over a single part is one callback.
pub proof fn lemma_writes_run_single<ID, H: RegHandler<ID>>(
    pre: H,
    piece: Piece<ID>,
    data: Seq<u8>,
    post: H,
)
    ensures
        writes_run(pre, seq![piece], data, post) <==> data.len() == piece.len && H::writes(
            pre,
            piece.id,
            piece.offset as nat,
            data,
            post,
        ),
{
    let plan = seq![piece];
    assert(plan.last() == piece);
    assert(plan.drop_last() =~= Seq::<Piece<ID>>::empty());
    if writes_run(pre, plan, data, post) {
        let head = data.take(data.len() - piece.len);
        let tail = data.skip(data.len() - piece.len);
        let mid = choose|mid: H|
            writes_run(pre, plan.drop_last(), head, mid) && #[trigger] H::writes(
                mid,
                piece.id,
                piece.offset as nat,
                tail,
                post,
            );
        assert(mid == pre && head.len() == 0);
        assert(tail =~= data);
    }
    if data.len() == piece.len && H::writes(pre, piece.id, piece.offset as nat, data, post) {
        assert(data.skip(0) =~= data);
        assert(data.take(0) =~= Seq::<u8>::empty());
        lemma_writes_run_extend(pre, plan, data, pre, post);
    }
}

impl<ID> RegMap<ID> {
    /// Where the first `k` parts of the access `[offset, offset + len)` end.
    pub open spec fn plan_reach(&self, offset: int, len: int, k: int) -> int {
        if k >= self.plan(offset, len).len() {
            offset + len
        } else {
            self.piece_start(self.plan(offset, len)[k])
        }
    }

    /// Where a handler answers each part of a read from a flat image of the
    /// space, and is not changed by doing so, the first `k` parts joined are
    /// the image from `offset` up to where those parts end.
    proof fn lemma_flat_prefix<H: RegHandler<ID>>(
        &self,
        pre: H,
        offset: int,
        len: int,
        image: Seq<u8>,
        k: int,
        post: H,
        out: Seq<u8>,
    )
        requires
            self.wf(),
            0 <= offset,
            0 < len,
            offset + len <= self.size(),
            image.len() == self.size(),
            0 <= k <= self.plan(offset, len).len(),
            reads_run(pre, self.plan(offset, len).take(k), post, out),
            forall|j: int, next: H, bytes: Seq<u8>|
                #![trigger H::reads(
                    pre,
                    self.plan(offset, len)[j].id,
                    self.plan(offset, len)[j].offset as nat,
                    self.plan(offset, len)[j].len as nat,
                    next,
                    bytes,
                )]
                0 <= j < self.plan(offset, len).len() && H::reads(
                    pre,
                    self.plan(offset, len)[j].id,
                    self.plan(offset, len)[j].offset as nat,
                    self.plan(offset, len)[j].len as nat,
                    next,
                    bytes,
                ) ==> next == pre && bytes == image.subrange(
                    self.piece_start(self.plan(offset, len)[j]),
                    self.piece_start(self.plan(offset, len)[j]) + self.plan(offset, len)[j].len,
                ),
        ensures
            post == pre,
            out == image.subrange(offset, self.plan_reach(offset, len, k)),
        decreases k,
    {
        let plan = self.plan(offset, len);
        self.lemma_plan(offset, len);
        if k == 0 {
            assert(plan.take(0) =~= Seq::<Piece<ID>>::empty());
            assert(out =~= image.subrange(offset, offset));
        } else {
            let done = plan.take(k);
            let last = done.last();
            assert(last == plan[k - 1]);
            assert(done.drop_last() =~= plan.take(k - 1));
            let head = out.take(out.len() - last.len);
            let tail = out.skip(out.len() - last.len);
            let mid = choose|mid: H|
                reads_run(pre, done.drop_last(), mid, head) && #[trigger] H::reads(
                    mid,
                    last.id,
                    last.offset as nat,
                    last.len as nat,
                    post,
                    tail,
                );
            self.lemma_flat_prefix(pre, offset, len, image, k - 1, mid, head);
            let start = self.piece_start(plan[k - 1]);
            assert(self.plan_reach(offset, len, k - 1) == start);
            if k < plan.len() {
                self.lemma_plan_step(offset, len, k);
            }
            assert(self.plan_reach(offset, len, k) == start + last.len);
            assert(tail == image.subrange(start, start + last.len));
            assert(out =~= head + tail);
            assert(out =~= image.subrange(offset, start + last.len));
        }
    }

    /// A handler that answers each part of a read from a flat image of the
    /// space, and is not changed by doing so, makes a split read give what a
    /// direct read of the image gives: the bytes `[offset, offset + len)` of
    /// it, however many registers the access runs across.
    pub proof fn lemma_flat_read<H: RegHandler<ID>>(
        &self,
        pre: H,
        offset: int,
        len: int,
        image: Seq<u8>,
        post: H,
        out: Seq<u8>,
    )
        requires
            self.wf(),
            0 <= offset,
            0 <= len,
            offset + len <= self.size(),
            image.len() == self.size(),
            reads_run(pre, self.plan(offset, len), post, out),
            forall|j: int, next: H, bytes: Seq<u8>|
                #![trigger H::reads(
                    pre,
                    self.plan(offset, len)[j].id,
                    self.plan(offset, len)[j].offset as nat,
                    self.plan(offset, len)[j].len as nat,
                    next,
                    bytes,
                )]
                0 <= j < self.plan(offset, len).len() && H::reads(
                    pre,
                    self.plan(offset, len)[j].id,
                    self.plan(offset, len)[j].offset as nat,
                    self.plan(offset, len)[j].len as nat,
                    next,
                    bytes,
                ) ==> next == pre && bytes == image.subrange(
                    self.piece_start(self.plan(offset, len)[j]),
                    self.piece_start(self.plan(offset, len)[j]) + self.plan(offset, len)[j].len,
                ),
        ensures
            post == pre,
            out == image.subrange(offset, offset + len),
    {
        let plan = self.plan(offset, len);
        if len == 0 {
            assert(out =~= image.subrange(offset, offset + len));
        } else {
            assert(plan.take(plan.len() as int) =~= plan);
            self.lemma_flat_prefix(pre, offset, len, image, plan.len() as int, post, out);
        }
    }
}

impl<ID> RegMap<ID> {
    /// The space as one flat run of bytes, where `content(id, i)` is byte `i`
    /// of the register `id`: each byte of the space is the byte of the
    /// register that holds it.
    pub open spec fn image(&self, content: spec_fn(ID, int) -> u8) -> Seq<u8> {
        Seq::new(
            self.size(),
            |a: int|
                content(
                    self.entries()[self.index_of(a)].id,
                    a - self.entries()[self.index_of(a)].start,
                ),
        )
    }

    /// Byte `i` of register `k` stands in the image at `i` past the start of
    /// that register.
    pub proof fn lemma_image_at(&self, content: spec_fn(ID, int) -> u8, k: int, i: int)
        requires
            self.wf(),
            0 <= k < self.entries().len(),
            0 <= i < self.entries()[k].len,
        ensures
            self.entries()[k].start + i < self.size(),
            self.image(content).len() == self.size(),
            self.image(content)[self.entries()[k].start + i] == content(self.entries()[k].id, i),
    {
        let a = self.entries()[k].start + i;
        lemma_packed_bounds(self.entries(), self.size() as int, k);
        assert(self.entries()[k].holds(a));
        self.lemma_index_of(a);
    }

    /// A handler that answers every read with the bytes of the register
    /// asked for, and is not changed by doing so, makes a read of any offset
    /// and length give the bytes `[offset, offset + len)` of the flat image
    /// of the space: splitting the access across registers shows in nothing.
    pub proof fn lemma_image_read<H: RegHandler<ID>>(
        &self,
        pre: H,
        content: spec_fn(ID, int) -> u8,
        offset: int,
        len: int,
        post: H,
        out: Seq<u8>,
    )
        requires
            self.wf(),
            0 <= offset,
            0 <= len,
            offset + len <= self.size(),
            reads_run(pre, self.plan(offset, len), post, out),
            forall|id: ID, at: nat, n: nat, next: H, bytes: Seq<u8>|
                #[trigger] H::reads(pre, id, at, n, next, bytes) ==> next == pre && bytes
                    == Seq::new(n, |i: int| content(id, at + i)),
        ensures
            post == pre,
            out == self.image(content).subrange(offset, offset + len),
    {
        let plan = self.plan(offset, len);
        let image = self.image(content);
        if len > 0 {
            self.lemma_plan(offset, len);
        }
        assert forall|j: int, next: H, bytes: Seq<u8>|
            0 <= j < plan.len() && #[trigger] H::reads(
                pre,
                plan[j].id,
                plan[j].offset as nat,
                plan[j].len as nat,
                next,
                bytes,
            ) implies next == pre && bytes == image.subrange(
            self.piece_start(plan[j]),
            self.piece_start(plan[j]) + plan[j].len,
        ) by {
            let p = plan[j];
            let e = self.entries()[p.index as int];
            let start = self.piece_start(p);
            lemma_packed_bounds(self.entries(), self.size() as int, p.index as int);
            assert forall|i: int| 0 <= i < p.len implies bytes[i] == image[start + i] by {
                assert(e.holds(start + i));
                self.lemma_index_of(start + i);
            }
            assert(bytes =~= image.subrange(start, start + p.len));
        }
        self.lemma_flat_read(pre, offset, len, image, post, out);
    }
}

/// A handler that no write changes is not changed by a run of writes
/// either.
pub proof fn lemma_writes_run_keeps<ID, H: RegHandler<ID>>(
    pre: H,
    plan: Seq<Piece<ID>>,
    data: Seq<u8>,
    post: H,
)
    requires
        writes_run(pre, plan, data, post),
        forall|id: ID, at: nat, bytes: Seq<u8>, next: H| #[trigger]
            H::writes(pre, id, at, bytes, next) ==> next == pre,
    ensures
        post == pre,
    decreases plan.len(),
{
    if plan.len() > 0 {
        let last = plan.last();
        let head = data.take(data.len() - last.len);
        let tail = data.skip(data.len() - last.len);
        let mid = choose|mid: H|
            writes_run(pre, plan.drop_last(), head, mid) && #[trigger] H::writes(
                mid,
                last.id,
                last.offset as nat,
                tail,
                post,
            );
        lemma_writes_run_keeps(pre, plan.drop_last(), head, mid);
    }
}

impl<ID: Copy> RegMap<ID> {
    /// Resolves a read into its parts and has `handler` produce each, in
    /// address order, once per register touched. The bytes of the parts are
    /// joined in `ro`, which is complete afterwards.
    pub fn read<H: RegHandler<ID>>(&self, ro: &mut ReadOp, handler: &mut H)
        requires
            self.wf(),
            old(handler).inv(),
            old(ro).wf(),
            old(ro)@.fresh(),
            old(ro)@.offset + old(ro)@.len() <= self.size(),
        ensures
            final(handler).inv(),
            final(ro).wf(),
            final(ro)@.offset == old(ro)@.offset,
            final(ro)@.len() == old(ro)@.len(),
            final(ro)@.complete(),
            reads_run(
                *old(handler),
                self.plan(old(ro)@.offset as int, old(ro)@.len() as int),
                *final(handler),
                final(ro)@.bytes,
            ),
    {
        let offset = ro.offset();
        let len = ro.len();
        let parts = self.split(offset, len);
        let n = parts.len();
        let ghost plan = self.plan(offset as int, len as int);
        proof {
            if len > 0 {
                self.lemma_plan(offset as int, len as int);
            }
            assert(plan.take(0) =~= Seq::empty());
            assert(ro@.bytes.take(0) =~= Seq::empty());
        }
        let mut j: usize = 0;
        while j < n
            invariant
                self.wf(),
                n == plan.len(),
                parts@ == plan,
                plan == self.plan(offset as int, len as int),
                offset + len <= self.size(),
                len == 0 ==> n == 0,
                j <= n,
                handler.inv(),
                ro.wf(),
                ro@.offset == offset,
                ro@.len() == len,
                j < n ==> ro@.written == self.piece_start(plan[j as int]) - offset,
                j == n ==> ro@.written == len,
                reads_run(*old(handler), plan.take(j as int), *handler, ro@.bytes.take(ro@.written as int)),
            decreases n - j,
        {
            proof {
                self.lemma_plan(offset as int, len as int);
                if j + 1 < n {
                    self.lemma_plan_step(offset as int, len as int, j + 1);
                }
            }
            let piece = &parts[j];
            let ghost before = *handler;
            let ghost ro_before = ro@;
            let mut sub = ReadOp::new(piece.offset, piece.len);
            handler.handle(&piece.id, RWOp::Read(&mut sub));
            ro.write_bytes(sub.bytes());
            proof {
                let b = sub@.bytes;
                let w = ro_before.written as int;
                let out = ro@.bytes.take(ro@.written as int);
                assert(ro@ == ro_before.put(b));
                assert(out.len() == w + b.len());
                assert(out.take(out.len() - b.len()) =~= ro_before.bytes.take(w));
                assert(out.skip(out.len() - b.len()) =~= b);
                let done = plan.take(j + 1);
                assert(done.drop_last() =~= plan.take(j as int));
                lemma_reads_run_extend(*old(handler), done, before, *handler, out);
            }
            j += 1;
        }
        proof {
            assert(plan.take(n as int) =~= plan);
            assert(ro@.bytes.take(len as int) =~= ro@.bytes);
        }
    }

    /// Resolves a write into its parts and hands each to `handler`, in
    /// address order, once per register touched, with its own stretch of the
    /// guest's bytes. Afterwards every byte of `wo` is taken.
    pub fn write<H: RegHandler<ID>>(&self, wo: &mut WriteOp<'_>, handler: &mut H)
        requires
            self.wf(),
            old(handler).inv(),
            old(wo).wf(),
            old(wo)@.fresh(),
            old(wo)@.offset + old(wo)@.len() <= self.size(),
        ensures
            final(handler).inv(),
            final(wo).wf(),
            final(wo)@ == old(wo)@.advanced(old(wo)@.len()),
            writes_run(
                *old(handler),
                self.plan(old(wo)@.offset as int, old(wo)@.len() as int),
                old(wo)@.bytes,
                *final(handler),
            ),
    {
        let offset = wo.offset();
        let len = wo.len();
        let parts = self.split(offset, len);
        let n = parts.len();
        let ghost plan = self.plan(offset as int, len as int);
        let ghost data = wo@.bytes;
        proof {
            if len > 0 {
                self.lemma_plan(offset as int, len as int);
            }
            assert(plan.take(0) =~= Seq::empty());
            assert(data.take(0) =~= Seq::empty());
        }
        let mut j: usize = 0;
        while j < n
            invariant
                self.wf(),
                n == plan.len(),
                parts@ == plan,
                plan == self.plan(offset as int, len as int),
                offset + len <= self.size(),
                len == 0 ==> n == 0,
                j <= n,
                handler.inv(),
                wo.wf(),
                wo@ == old(wo)@.advanced(wo@.consumed),
                data == old(wo)@.bytes,
                data.len() == len,
                j < n ==> wo@.consumed == self.piece_start(plan[j as int]) - offset,
                j == n ==> wo@.consumed == len,
                writes_run(*old(handler), plan.take(j as int), data.take(wo@.consumed as int), *handler),
            decreases n - j,
        {
            proof {
                self.lemma_plan(offset as int, len as int);
                if j + 1 < n {
                    self.lemma_plan_step(offset as int, len as int, j + 1);
                }
            }
            let piece = &parts[j];
            let ghost before = *handler;
            let ghost taken = wo@.consumed as int;
            let mut sub = wo.take_child(piece.offset, piece.len);
            handler.handle(&piece.id, RWOp::Write(&mut sub));
            proof {
                let fed = data.take(wo@.consumed as int);
                let done = plan.take(j + 1);
                assert(done.drop_last() =~= plan.take(j as int));
                assert(fed.take(fed.len() - piece.len) =~= data.take(taken));
                assert(fed.skip(fed.len() - piece.len) =~= data.subrange(taken, taken + piece.len));
                lemma_writes_run_extend(*old(handler), done, fed, before, *handler);
            }
            j += 1;
        }
        proof {
            assert(plan.take(n as int) =~= plan);
            assert(data.take(len as int) =~= data);
        }
    }

    /// Resolves one guest access into the registers it touches and has
    /// `handler` deal with each part: in address order, once per register,
    /// each part re-based to the start of its register and confined to it,
    /// the parts together covering the access byte for byte. A register
    /// marked reserved gets its callback like any other. An empty access
    /// reaches no register.
    ///
    /// The access must lie within the space of the map.
    pub fn process<H: RegHandler<ID>>(&self, op: RWOp<'_, '_>, handler: &mut H)
        requires
            self.wf(),
            old(handler).inv(),
            op matches RWOp::Read(ro) ==> ro.wf() && ro@.fresh() && ro@.offset + ro@.len()
                <= self.size(),
            op matches RWOp::Write(wo) ==> wo.wf() && wo@.fresh() && wo@.offset + wo@.len()
                <= self.size(),
        ensures
            final(handler).inv(),
            op matches RWOp::Read(ro) ==> {
                &&& final(ro).wf()
                &&& final(ro)@.offset == ro@.offset
                &&& final(ro)@.len() == ro@.len()
                &&& final(ro)@.complete()
                &&& reads_run(
                    *old(handler),
                    self.plan(ro@.offset as int, ro@.len() as int),
                    *final(handler),
                    final(ro)@.bytes,
                )
            },
            op matches RWOp::Write(wo) ==> {
                &&& final(wo).wf()
                &&& final(wo)@ == wo@.advanced(wo@.len())
                &&& writes_run(
                    *old(handler),
                    self.plan(wo@.offset as int, wo@.len() as int),
                    wo@.bytes,
                    *final(handler),
                )
            },
    {
        match op {
            RWOp::Read(ro) => self.read(ro, handler),
            RWOp::Write(wo) => self.write(wo, handler),
        }
    }
}

/// Where a register starts does not depend on the registers after it.
pub proof fn lemma_offset_of_prefix<ID>(layout: Seq<(ID, usize)>, longer: Seq<(ID, usize)>, i: int)
    requires
        0 <= i <= layout.len() <= longer.len(),
        longer.take(layout.len() as int) == layout,
    ensures
        offset_of(longer, i) == offset_of(layout, i),
    decreases i,
{
    if i > 0 {
        lemma_offset_of_prefix(layout, longer, i - 1);
        assert(longer[i - 1] == longer.take(layout.len() as int)[i - 1]);
    }
}

/// A layout that is put together register by register, for layouts that are
/// computed rather than written down: the total length is kept as the
/// registers come, so that the finished layout fits its space by
/// construction.
pub struct RegLayout<ID> {
    regs: Vec<(ID, usize)>,
    total: usize,
}

impl<ID> View for RegLayout<ID> {
    type V = Seq<(ID, usize)>;

    closed spec fn view(&self) -> Seq<(ID, usize)> {
        self.regs@
    }
}

impl<ID: Copy> RegLayout<ID> {
    /// The sum of the lengths so far.
    pub closed spec fn total(&self) -> nat {
        self.total as nat
    }

    /// The registers so far fit a space of `total` bytes exactly.
    pub open spec fn wf(&self) -> bool {
        valid_layout(self.total() as int, self@)
    }

    /// A layout without registers.
    pub fn new() -> (layout: RegLayout<ID>)
        ensures
            layout.wf(),
            layout@ == Seq::<(ID, usize)>::empty(),
            layout.total() == 0,
    {
        RegLayout { regs: Vec::new(), total: 0 }
    }

    /// The sum of the lengths so far.
    pub fn total_len(&self) -> (r: usize)
        ensures
            r == self.total(),
    {
        self.total
    }

    /// Adds a register of `len` bytes behind the ones that are there.
    pub fn push(&mut self, id: ID, len: usize)
        requires
            old(self).wf(),
            len >= 1,
            old(self).total() + len <= usize::MAX,
        ensures
            final(self).wf(),
            final(self)@ == old(self)@.push((id, len)),
            final(self).total() == old(self).total() + len,
    {
        let ghost before = self.regs@;
        self.regs.push((id, len));
        self.total = self.total + len;
        proof {
            let now = self.regs@;
            let n = before.len() as int;
            assert(now.take(n) =~= before);
            lemma_offset_of_prefix(before, now, n);
            assert(offset_of(now, n + 1) == offset_of(now, n) + now[n].1);
        }
    }

    /// Packs the layout into a map over a space of its total length.
    pub fn pack(self, resv: Option<ID>) -> (map: RegMap<ID>)
        requires
            self.wf(),
        ensures
            map.wf(),
            map.size() == self.total(),
            map.entries() == laid_out(self@),
            map.reserved() == resv,
    {
        RegMap::create_packed(self.total, self.regs.as_slice(), resv)
    }
}

} // verus!

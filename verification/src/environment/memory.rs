use vstd::prelude::*;
use vstd::seq_lib::*;
use crate::environment::units::{Bytes, Cells, Pages, CELL_SIZE, PAGE_SIZE};
use crate::environment::value::{Value, ValueVariant};
use crate::environment::stack::Stack;
use crate::evaluate::{Error, ForthResult};

verus! {

broadcast use vstd::seq_lib::group_to_multiset_ensures;

/// Number of cells in one page.
pub const CELLS_PER_PAGE: u64 = 512;

/// A byte address in the (virtual) Forth address space.
#[derive(Copy, Clone, Debug, PartialEq, Eq, Structural, Hash)]
pub struct Address(pub Bytes);

impl Address {
    /// The raw number of the address.
    pub open spec fn raw(self) -> int {
        self.0.0 as int
    }

    pub open spec fn spec_from_raw(raw: int) -> Address {
        Address(Bytes(raw as u64))
    }

    pub open spec fn spec_from_u64(raw: u64) -> Address {
        Address(Bytes(raw))
    }

    pub fn from_raw(raw: Bytes) -> (r: Self)
        ensures r.0 == raw,
    {
        Self(raw)
    }

    pub fn get(self) -> (r: Bytes)
        ensures r == self.0,
    {
        self.0
    }

    /// The position of the address within its cell.
    pub fn get_cell_byte(self) -> (r: u64)
        ensures r == self.raw() % CELL_SIZE as int, r < 8,
    {
        self.0.0 % CELL_SIZE
    }

    pub fn less_than(self, other: Address) -> (r: bool)
        ensures r == (self.raw() < other.raw()),
    {
        self.0.0 < other.0.0
    }

    /// Whether `lower <= self < upper`.
    pub fn between(self, lower: Address, upper: Address) -> (r: bool)
        ensures r == (lower.raw() <= self.raw() && self.raw() < upper.raw()),
    {
        self.0.0 >= lower.0.0 && self.0.0 < upper.0.0
    }

    pub fn equals(self, other: Address) -> (r: bool)
        ensures r == (self == other),
    {
        self.0.0 == other.0.0
    }

    /// The distance from `base` up to this address.
    pub fn offset_from(self, base: Address) -> (r: Bytes)
        requires base.raw() <= self.raw(),
        ensures r.0 == self.raw() - base.raw(),
    {
        Bytes(self.0.0 - base.0.0)
    }

    /// The first cell-aligned address at or after this one.
    pub fn nearest_cell(&self) -> (r: Self)
        requires self.raw() + CELL_SIZE - 1 <= u64::MAX,
        ensures r.raw() == (self.raw() + CELL_SIZE - 1) / CELL_SIZE as int * CELL_SIZE,
    {
        let cells = (self.0.0 + (CELL_SIZE - 1)) / CELL_SIZE;
        assert(cells * 8 <= self.0.0 + 7) by (nonlinear_arith)
            requires cells == (self.0.0 + 7) / 8;
        Self(Bytes(cells * CELL_SIZE))
    }

    pub fn increment_cell(&mut self)
        requires old(self).raw() + CELL_SIZE <= u64::MAX,
        ensures final(self).raw() == old(self).raw() + CELL_SIZE,
    {
        self.0 = Bytes(self.0.0 + CELL_SIZE);
    }

    pub fn increment(&mut self)
        requires old(self).raw() + 1 <= u64::MAX,
        ensures final(self).raw() == old(self).raw() + 1,
    {
        self.0 = Bytes(self.0.0 + 1);
    }

    pub fn add(&mut self, n: Bytes)
        requires old(self).raw() + n.0 <= u64::MAX,
        ensures final(self).raw() == old(self).raw() + n.0,
    {
        self.0 = Bytes(self.0.0 + n.0);
    }

    pub fn subtract(&mut self, n: Bytes)
        requires old(self).raw() >= n.0,
        ensures final(self).raw() == old(self).raw() - n.0,
    {
        self.0 = Bytes(self.0.0 - n.0);
    }

    pub fn plus_cell(self, n: Cells) -> (r: Self)
        requires self.raw() + n.0 * CELL_SIZE <= u64::MAX,
        ensures r.raw() == self.raw() + n.0 * CELL_SIZE,
    {
        Address(Bytes(self.0.0 + n.0 * CELL_SIZE))
    }

    pub fn minus_cell(self, n: Cells) -> (r: Self)
        requires self.raw() >= n.0 * CELL_SIZE,
        ensures r.raw() == self.raw() - n.0 * CELL_SIZE,
    {
        Address(Bytes(self.0.0 - n.0 * CELL_SIZE))
    }

    pub fn plus(self, n: Bytes) -> (r: Self)
        requires self.raw() + n.0 <= u64::MAX,
        ensures r.raw() == self.raw() + n.0,
    {
        Address(Bytes(self.0.0 + n.0))
    }

    /// `self + n` bytes, or `InvalidAddress` past the end of the address space.
    pub fn checked_plus(self, n: Bytes) -> (r: Result<Self, Error>)
        ensures
            self.raw() + n.0 <= u64::MAX ==> r == Ok::<Address, Error>(Address(Bytes((self.raw() + n.0) as u64))),
            self.raw() + n.0 > u64::MAX ==> r == Err::<Address, Error>(Error::InvalidAddress),
    {
        match self.0.0.checked_add(n.0) {
            Some(raw) => Ok(Address(Bytes(raw))),
            None => Err(Error::InvalidAddress),
        }
    }

    /// `self + n` cells, or `InvalidAddress` past the end of the address space.
    pub fn checked_plus_cell(self, n: Cells) -> (r: Result<Self, Error>)
        ensures
            self.raw() + n.0 * CELL_SIZE <= u64::MAX ==> r == Ok::<Address, Error>(
                Address(Bytes((self.raw() + n.0 * CELL_SIZE) as u64)),
            ),
            self.raw() + n.0 * CELL_SIZE > u64::MAX ==> r == Err::<Address, Error>(Error::InvalidAddress),
    {
        match n.0.checked_mul(CELL_SIZE) {
            Some(bytes) => self.checked_plus(Bytes(bytes)),
            None => Err(Error::InvalidAddress),
        }
    }

    /// `self - n` cells, or `InvalidAddress` below address zero.
    pub fn checked_minus_cell(self, n: Cells) -> (r: Result<Self, Error>)
        ensures
            self.raw() >= n.0 * CELL_SIZE ==> r == Ok::<Address, Error>(
                Address(Bytes((self.raw() - n.0 * CELL_SIZE) as u64)),
            ),
            self.raw() < n.0 * CELL_SIZE ==> r == Err::<Address, Error>(Error::InvalidAddress),
    {
        match n.0.checked_mul(CELL_SIZE) {
            Some(bytes) => if bytes <= self.0.0 {
                Ok(Address(Bytes(self.0.0 - bytes)))
            } else {
                Err(Error::InvalidAddress)
            },
            None => Err(Error::InvalidAddress),
        }
    }

    /// The address as a signed number (two's complement of the raw value).
    pub fn to_number(self) -> (r: i64)
        ensures r == self.raw() as i64,
    {
        self.0.0 as i64
    }

    pub fn as_raw(self) -> (r: u64)
        ensures r == self.raw(),
    {
        self.0.0
    }

    /// Text form: the raw address in hexadecimal.
    pub fn to_string(&self) -> (r: String)
        ensures r@ == seq!['A', 'd', 'd', 'r', 'e', 's', 's', '('] + crate::io::format::hex_string(
            self.raw() as nat,
        ) + seq![')'],
    {
        crate::io::format::address_string(self.0.0)
    }
}

/// What may be done with a region of memory.
#[derive(Clone, Copy, Eq, PartialEq, Structural, Debug)]
pub struct MemoryPermissions {
    pub read: bool,
    pub write: bool,
    pub execute: bool,
}

impl MemoryPermissions {
    pub fn with(read: bool, write: bool, execute: bool) -> (r: Self)
        ensures r == (MemoryPermissions { read, write, execute }),
    {
        Self { read, write, execute }
    }

    pub fn readonly() -> (r: Self)
        ensures r == (MemoryPermissions { read: true, write: false, execute: false }),
    {
        Self::with(true, false, false)
    }

    pub fn readwrite() -> (r: Self)
        ensures r == (MemoryPermissions { read: true, write: true, execute: false }),
    {
        Self::with(true, true, false)
    }

    pub fn all() -> (r: Self)
        ensures r == (MemoryPermissions { read: true, write: true, execute: true }),
    {
        Self::with(true, true, true)
    }

    pub fn with_write(&self) -> (r: Self)
        ensures r == (MemoryPermissions { write: true, ..*self }),
    {
        Self::with(self.read, true, self.execute)
    }

    pub fn with_execute(&self) -> (r: Self)
        ensures r == (MemoryPermissions { execute: true, ..*self }),
    {
        Self::with(self.read, self.write, true)
    }

    /// Whether every right in `other` is also granted here.
    pub open spec fn spec_allows(self, other: MemoryPermissions) -> bool {
        (other.read ==> self.read) && (other.write ==> self.write) && (other.execute ==> self.execute)
    }

    pub fn allows(&self, other: &Self) -> (r: bool)
        ensures r == self.spec_allows(*other),
    {
        if other.read && !self.read {
            false
        } else if other.write && !self.write {
            false
        } else if other.execute && !self.execute {
            false
        } else {
            true
        }
    }

    /// Text form such as `rw_`.
    pub fn to_string(&self) -> (r: String)
        ensures
            r@ == seq![
                if self.read { 'r' } else { '_' },
                if self.write { 'w' } else { '_' },
                if self.execute { 'x' } else { '_' },
            ],
    {
        let mut s = String::new();
        crate::io::format::string_push(&mut s, if self.read { 'r' } else { '_' });
        crate::io::format::string_push(&mut s, if self.write { 'w' } else { '_' });
        crate::io::format::string_push(&mut s, if self.execute { 'x' } else { '_' });
        assert(s@ =~= seq![
            if self.read { 'r' } else { '_' },
            if self.write { 'w' } else { '_' },
            if self.execute { 'x' } else { '_' },
        ]);
        s
    }
}

/// The named memory segments that belong to the interpreter's state.
#[derive(Clone, Copy, PartialEq, Eq, Structural, Debug)]
pub enum SpecialSegment {
    DataSpace,
    Stack,
    ReturnStack,
    Pad,
    Heap,
    InternalState,
}

/// What backs a region of the address space.
#[derive(Clone, Copy, PartialEq, Eq, Structural, Debug)]
pub enum MappingType {
    Empty,
    Special { segment: SpecialSegment },
    Anonymous { index: usize },
}

/// A region of the address space starting at `base`.
#[derive(Clone, Copy, Debug)]
pub struct MemoryMapping {
    pub base: Address,
    pub permissions: MemoryPermissions,
    pub mapping_type: MappingType,
    pub name: Option<&'static str>,
}

impl MemoryMapping {
    fn new(base: Address, permissions: MemoryPermissions, mapping_type: MappingType) -> (r: Self)
        ensures
            r.base == base,
            r.permissions == permissions,
            r.mapping_type == mapping_type,
            r.name is None,
    {
        Self { base, permissions, mapping_type, name: None }
    }

    pub fn special(base: Address, permissions: MemoryPermissions, segment: SpecialSegment) -> (r: Self)
        ensures
            r.base == base,
            r.permissions == permissions,
            r.mapping_type == (MappingType::Special { segment }),
            r.name is None,
    {
        Self::new(base, permissions, MappingType::Special { segment })
    }

    pub fn anonymous(base: Address, permissions: MemoryPermissions, index: usize) -> (r: Self)
        ensures
            r.base == base,
            r.permissions == permissions,
            r.mapping_type == (MappingType::Anonymous { index }),
            r.name is None,
    {
        Self::new(base, permissions, MappingType::Anonymous { index })
    }

    pub fn empty(base: Address, permissions: MemoryPermissions) -> (r: Self)
        ensures
            r.base == base,
            r.permissions == permissions,
            r.mapping_type == MappingType::Empty,
            r.name is None,
    {
        Self::new(base, permissions, MappingType::Empty)
    }

    pub fn with_name(self, name: &'static str) -> (r: Self)
        ensures
            r.base == self.base,
            r.permissions == self.permissions,
            r.mapping_type == self.mapping_type,
            r.name == Some(name),
    {
        MemoryMapping { name: Some(name), ..self }
    }

    /// How far `address` lies past the start of this mapping.
    pub fn get_offset(&self, address: Address) -> (r: Result<Bytes, Error>)
        ensures
            address.raw() < self.base.raw() ==> r == Err::<Bytes, Error>(Error::InvalidAddress),
            address.raw() >= self.base.raw() ==> r == Ok::<Bytes, Error>(
                Bytes((address.raw() - self.base.raw()) as u64),
            ),
    {
        if address.less_than(self.base) {
            Err(Error::InvalidAddress)
        } else {
            Ok(address.offset_from(self.base))
        }
    }
}

/// Whether a sequence of mappings is ordered by base address.
pub open spec fn mappings_sorted(s: Seq<MemoryMapping>) -> bool {
    forall|i: int, j: int| 0 <= i < j < s.len() ==> s[i].base.raw() <= s[j].base.raw()
}

/// Whether the mapping `m` comes before a mapping based at `b` in a map ordered by base:
/// its base lies below `b`, or, with `inclusive`, at most at `b`.
pub open spec fn goes_before(m: MemoryMapping, b: int, inclusive: bool) -> bool {
    if inclusive {
        m.base.raw() <= b
    } else {
        m.base.raw() < b
    }
}

/// The number of mappings in `s` that come before a mapping based at `b`.
pub open spec fn count_before(s: Seq<MemoryMapping>, b: int, inclusive: bool) -> nat
    decreases s.len(),
{
    if s.len() == 0 {
        0
    } else {
        count_before(s.drop_last(), b, inclusive) + if goes_before(s.last(), b, inclusive) {
            1nat
        } else {
            0nat
        }
    }
}

/// `entries` ordered by base address, mappings with equal bases in the order they are given:
/// each is placed after all the earlier ones whose base is not above its own.
pub open spec fn sorted_by_base(entries: Seq<MemoryMapping>) -> Seq<MemoryMapping>
    decreases entries.len(),
{
    if entries.len() == 0 {
        Seq::empty()
    } else {
        let s = sorted_by_base(entries.drop_last());
        s.insert(count_before(s, entries.last().base.raw(), true) as int, entries.last())
    }
}

/// Where the mappings before position `p` come before `b` and the rest do not, `p` of them
/// come before it.
proof fn lemma_count_before(s: Seq<MemoryMapping>, b: int, inclusive: bool, p: int)
    requires
        0 <= p <= s.len(),
        forall|k: int| 0 <= k < p ==> goes_before(#[trigger] s[k], b, inclusive),
        forall|k: int| p <= k < s.len() ==> !goes_before(#[trigger] s[k], b, inclusive),
    ensures
        count_before(s, b, inclusive) == p,
    decreases s.len(),
{
    if s.len() > 0 {
        let t = s.drop_last();
        if p == s.len() {
            assert forall|k: int| 0 <= k < p - 1 implies goes_before(#[trigger] t[k], b, inclusive) by {
                assert(t[k] == s[k]);
            }
            lemma_count_before(t, b, inclusive, p - 1);
            assert(goes_before(s[s.len() - 1], b, inclusive));
        } else {
            assert forall|k: int| 0 <= k < p implies goes_before(#[trigger] t[k], b, inclusive) by {
                assert(t[k] == s[k]);
            }
            assert forall|k: int| p <= k < t.len() implies !goes_before(#[trigger] t[k], b, inclusive) by {
                assert(t[k] == s[k]);
            }
            lemma_count_before(t, b, inclusive, p);
            assert(!goes_before(s[s.len() - 1], b, inclusive));
        }
    }
}

/// The index of the mapping that covers `address`: the last one whose base is at or below it.
pub open spec fn covering_index(s: Seq<MemoryMapping>, address: Address) -> int {
    choose|i: int|
        #![trigger s[i]]
        0 <= i < s.len() && s[i].base.raw() <= address.raw() && (i == s.len() - 1 || address.raw()
            < s[i + 1].base.raw())
}

/// Whether some mapping covers `address`.
pub open spec fn is_covered(s: Seq<MemoryMapping>, address: Address) -> bool {
    s.len() > 0 && s[0].base.raw() <= address.raw()
}

/// The mappings of the address space, ordered by their base addresses.
pub struct MemoryMap {
    entries: Vec<MemoryMapping>,
}

impl MemoryMap {
    pub closed spec fn view(&self) -> Seq<MemoryMapping> {
        self.entries@
    }

    pub closed spec fn wf(&self) -> bool {
        mappings_sorted(self.entries@)
    }

    /// A map of the given mappings, sorted by base address (equal bases keep their order).
    pub fn new(entries: Vec<MemoryMapping>) -> (r: Self)
        ensures
            r.wf(),
            mappings_sorted(r.view()),
            r.view().to_multiset() == entries@.to_multiset(),
            r.view() == sorted_by_base(entries@),
    {
        let mut sorted: Vec<MemoryMapping> = Vec::new();
        let mut i: usize = 0;
        assert(entries@.subrange(0, 0) =~= Seq::<MemoryMapping>::empty());
        while i < entries.len()
            invariant
                0 <= i <= entries.len(),
                mappings_sorted(sorted@),
                sorted@.to_multiset() == entries@.subrange(0, i as int).to_multiset(),
                sorted@ == sorted_by_base(entries@.subrange(0, i as int)),
            decreases entries.len() - i,
        {
            let entry = entries[i];
            // position after every entry whose base is not larger
            let mut pos: usize = 0;
            while pos < sorted.len() && sorted[pos].base.0.0 <= entry.base.0.0
                invariant
                    0 <= pos <= sorted.len(),
                    mappings_sorted(sorted@),
                    forall|k: int| 0 <= k < pos ==> sorted@[k].base.raw() <= entry.base.raw(),
                decreases sorted.len() - pos,
            {
                pos = pos + 1;
            }
            let ghost before = sorted@;
            sorted.insert(pos, entry);
            proof {
                assert(sorted@ == before.insert(pos as int, entry));
                assert forall|k: int| pos <= k < before.len() implies !goes_before(
                    #[trigger] before[k],
                    entry.base.raw() as int,
                    true,
                ) by {
                    assert(before[pos as int].base.raw() <= before[k].base.raw());
                }
                lemma_count_before(before, entry.base.raw() as int, true, pos as int);
                let taken = entries@.subrange(0, i + 1);
                assert(taken.drop_last() =~= entries@.subrange(0, i as int));
                assert(taken.last() == entry);
                assert(pos < before.len() ==> before[pos as int].base.raw() > entry.base.raw());
                assert forall|a: int, b: int| 0 <= a < b < sorted@.len() implies sorted@[a].base.raw()
                    <= sorted@[b].base.raw() by {
                    if b < pos {
                    } else if a > pos {
                    } else if a == pos {
                        assert(sorted@[b] == before[b - 1]);
                        assert(before[pos as int].base.raw() <= before[b - 1].base.raw());
                    } else {
                        assert(sorted@[a] == before[a]);
                    }
                }
                to_multiset_insert(before, pos as int, entry);
                assert(entries@.subrange(0, i + 1) == entries@.subrange(0, i as int).push(entry));
                to_multiset_build(entries@.subrange(0, i as int), entry);
            }
            i = i + 1;
        }
        assert(entries@.subrange(0, entries.len() as int) == entries@);
        Self { entries: sorted }
    }

    pub fn get_entries(&self) -> (r: &Vec<MemoryMapping>)
        ensures r@ == self.view(),
    {
        &self.entries
    }

    pub fn entry_count(&self) -> (r: usize)
        ensures r == self.view().len(),
    {
        self.entries.len()
    }

    /// The mapping that covers `address`: the one with the largest base at or below it.
    pub fn get(&self, address: Address) -> (r: Result<MemoryMapping, Error>)
        requires self.wf(),
        ensures
            !is_covered(self.view(), address) ==> r is Err && r == Err::<MemoryMapping, Error>(
                Error::InvalidAddress,
            ),
            is_covered(self.view(), address) ==> r is Ok && r == Ok::<MemoryMapping, Error>(
                self.view()[covering_index(self.view(), address)],
            ),
    {
        let n = self.entries.len();
        if n == 0 || address.less_than(self.entries[0].base) {
            return Err(Error::InvalidAddress);
        }
        let ghost s = self.entries@;
        // the covering entry is the last one whose base is at or below the address
        let ghost ans: int = choose|k: int|
            #![trigger s[k]]
            0 <= k < s.len() && s[k].base.raw() <= address.raw() && (k == s.len() - 1
                || address.raw() < s[k + 1].base.raw());
        proof {
            lemma_covering_exists(s, address);
        }
        let mut start: usize = 0;
        let mut end: usize = n;
        loop
            invariant
                n == s.len(),
                s == self.entries@,
                mappings_sorted(s),
                0 <= ans < s.len(),
                s[ans].base.raw() <= address.raw(),
                ans == s.len() - 1 || address.raw() < s[ans + 1].base.raw(),
                start <= ans,
                ans < end,
                end <= n,
                s[start as int].base.raw() <= address.raw(),
            decreases end - start,
        {
            let middle = start + (end - start) / 2;
            if address.less_than(self.entries[middle].base) {
                proof {
                    if ans >= middle {
                        assert(s[middle as int].base.raw() <= s[ans].base.raw());
                    }
                }
                end = middle;
            } else if middle == n - 1 || address.less_than(self.entries[middle + 1].base) {
                proof {
                    lemma_covering_unique(s, address, middle as int, ans);
                }
                return Ok(self.entries[middle]);
            } else {
                proof {
                    if ans <= middle {
                        if ans < middle {
                            assert(s[ans + 1].base.raw() <= s[middle as int].base.raw());
                        }
                    }
                }
                start = middle + 1;
            }
        }
    }

    /// Inserts a mapping in order; refused when a mapping with the same base exists.
    pub fn add(&mut self, mapping: MemoryMapping) -> (r: ForthResult)
        requires old(self).wf(),
        ensures
            final(self).wf(),
            (exists|k: int| 0 <= k < old(self).view().len() && old(self).view()[k].base == mapping.base)
                ==> r is Err && r == Err::<(), Error>(Error::InvalidAddress) && final(self).view()
                == old(self).view(),
            !(exists|k: int| 0 <= k < old(self).view().len() && old(self).view()[k].base == mapping.base)
                ==> r is Ok && final(self).view().to_multiset() == old(self).view().to_multiset().insert(
                mapping,
            ) && final(self).view().contains(mapping) && final(self).view() == old(self).view().insert(
                count_before(old(self).view(), mapping.base.raw() as int, false) as int,
                mapping,
            ),
    {
        let mut pos: usize = 0;
        while pos < self.entries.len() && self.entries[pos].base.0.0 < mapping.base.0.0
            invariant
                0 <= pos <= self.entries.len(),
                forall|k: int| 0 <= k < pos ==> self.entries@[k].base.raw() < mapping.base.raw(),
            decreases self.entries.len() - pos,
        {
            pos = pos + 1;
        }
        if pos < self.entries.len() && self.entries[pos].base.0.0 == mapping.base.0.0 {
            proof {
                assert(self.entries@[pos as int].base == mapping.base);
            }
            return Err(Error::InvalidAddress);
        }
        let ghost before = self.entries@;
        proof {
            assert forall|k: int| 0 <= k < before.len() implies before[k].base != mapping.base by {
                if k >= pos {
                    assert(before[pos as int].base.raw() <= before[k].base.raw());
                }
            }
        }
        self.entries.insert(pos, mapping);
        proof {
            assert(self.entries@ == before.insert(pos as int, mapping));
            assert forall|a: int, b: int| 0 <= a < b < self.entries@.len() implies self.entries@[a].base.raw()
                <= self.entries@[b].base.raw() by {
                if b < pos {
                } else if a > pos {
                } else if a == pos {
                    assert(self.entries@[b] == before[b - 1]);
                    assert(before[pos as int].base.raw() <= before[b - 1].base.raw());
                } else {
                    assert(self.entries@[a] == before[a]);
                }
            }
            to_multiset_insert(before, pos as int, mapping);
            assert(self.entries@[pos as int] == mapping);
            assert forall|k: int| pos <= k < before.len() implies !goes_before(
                #[trigger] before[k],
                mapping.base.raw() as int,
                false,
            ) by {
                assert(before[pos as int].base.raw() <= before[k].base.raw());
            }
            lemma_count_before(before, mapping.base.raw() as int, false, pos as int);
        }
        Ok(())
    }
}

/// When the first mapping starts at or below `address`, a covering mapping exists.
pub proof fn lemma_covering_exists(s: Seq<MemoryMapping>, address: Address)
    requires
        s.len() > 0,
        s[0].base.raw() <= address.raw(),
    ensures
        exists|k: int|
            #![trigger s[k]]
            0 <= k < s.len() && s[k].base.raw() <= address.raw() && (k == s.len() - 1 || address.raw()
                < s[k + 1].base.raw()),
    decreases s.len(),
{
    if s.len() == 1 {
        assert(0 == s.len() - 1);
    } else if address.raw() < s[1].base.raw() {
        assert(0 < s.len());
    } else {
        lemma_covering_exists(s.subrange(1, s.len() as int), address);
        let k = choose|k: int|
            #![trigger s.subrange(1, s.len() as int)[k]]
            0 <= k < s.len() - 1 && s.subrange(1, s.len() as int)[k].base.raw() <= address.raw() && (k
                == s.len() - 2 || address.raw() < s.subrange(1, s.len() as int)[k + 1].base.raw());
        assert(s[k + 1].base.raw() <= address.raw());
    }
}

/// The covering mapping of an ordered map is unique.
pub proof fn lemma_covering_unique(s: Seq<MemoryMapping>, address: Address, i: int, j: int)
    requires
        mappings_sorted(s),
        0 <= i < s.len(),
        0 <= j < s.len(),
        s[i].base.raw() <= address.raw(),
        i == s.len() - 1 || address.raw() < s[i + 1].base.raw(),
        s[j].base.raw() <= address.raw(),
        j == s.len() - 1 || address.raw() < s[j + 1].base.raw(),
    ensures
        i == j,
{
    if i < j {
        assert(s[i + 1].base.raw() <= s[j].base.raw());
    } else if j < i {
        assert(s[j + 1].base.raw() <= s[i].base.raw());
    }
}

/// A contiguous region of memory, counted in cells from `spec_base`.
pub trait MemorySegment: Sized {
    /// Whether the segment's internal representation is consistent.
    spec fn wf(&self) -> bool;

    spec fn spec_base(&self) -> Address;

    /// The number of cells the segment holds; writing cells does not change it.
    spec fn spec_extent(&self) -> nat;

    /// Whether two segments differ at most in the contents of their cells.
    spec fn spec_same_shape(&self, other: &Self) -> bool;

    spec fn spec_end(&self) -> Address;

    /// Whether `address` can be read and written in this segment.
    spec fn spec_contains(&self, address: Address) -> bool;

    /// The cell an address refers to; addresses of one cell share it.
    spec fn spec_cell_index(&self, address: Address) -> int;

    /// The value stored in the cell that `address` refers to.
    spec fn spec_read(&self, address: Address) -> Value;

    /// A segment has its own shape.
    proof fn lemma_same_shape_refl(&self)
        ensures self.spec_same_shape(self),
    ;

    /// Having the same shape is transitive.
    proof fn lemma_same_shape_trans(&self, b: &Self, c: &Self)
        requires
            self.spec_same_shape(b),
            b.spec_same_shape(c),
        ensures self.spec_same_shape(c),
    ;

    /// Consecutive cells follow each other: the cell 8 bytes further on is the next one.
    proof fn lemma_next_cell(&self, a: Address)
        requires a.raw() + 8 <= u64::MAX,
        ensures self.spec_cell_index(Address::spec_from_raw(a.raw() + 8)) == self.spec_cell_index(a) + 1,
    ;

    fn get_base(&self) -> (r: Address)
        ensures r == self.spec_base(),
    ;

    fn get_end(&self) -> (r: Address)
        requires self.wf(),
        ensures r == self.spec_end(),
    ;

    fn check_address(&self, address: Address) -> (r: ForthResult)
        requires self.wf(),
        ensures
            self.spec_contains(address) ==> r is Ok,
            !self.spec_contains(address) ==> r == Err::<(), Error>(Error::InvalidAddress),
    ;

    fn write_value(&mut self, address: Address, value: Value) -> (r: ForthResult)
        requires old(self).wf(),
        ensures
            final(self).wf(),
            old(self).spec_contains(address) ==> r is Ok,
            !old(self).spec_contains(address) ==> r == Err::<(), Error>(Error::InvalidAddress),
            r is Err ==> *final(self) == *old(self),
            final(self).spec_base() == old(self).spec_base(),
            final(self).spec_extent() == old(self).spec_extent(),
            final(self).spec_same_shape(old(self)),
            final(self).spec_end() == old(self).spec_end(),
            forall|a: Address| #[trigger]
                final(self).spec_contains(a) == old(self).spec_contains(a),
            forall|a: Address| #[trigger]
                final(self).spec_cell_index(a) == old(self).spec_cell_index(a),
            forall|a: Address|
                old(self).spec_contains(a) ==> #[trigger] final(self).spec_read(a) == if r is Ok
                    && old(self).spec_cell_index(a) == old(self).spec_cell_index(address) {
                    value
                } else {
                    old(self).spec_read(a)
                },
    ;

    fn read_value(&self, address: Address) -> (r: Result<Value, Error>)
        requires self.wf(),
        ensures
            self.spec_contains(address) ==> r == Ok::<Value, Error>(self.spec_read(address)),
            !self.spec_contains(address) ==> r == Err::<Value, Error>(Error::InvalidAddress),
    ;
}

/// The result of reading one cell of a segment.
pub open spec fn read_result<M: MemorySegment>(m: &M, address: Address) -> Result<Value, Error> {
    if m.spec_contains(address) {
        Ok(m.spec_read(address))
    } else {
        Err(Error::InvalidAddress)
    }
}

/// The address 8 bytes (one cell) past `address`, when it exists.
pub open spec fn next_cell_address(address: Address) -> Option<Address> {
    if address.raw() + 8 <= u64::MAX {
        Some(Address::spec_from_raw(address.raw() + 8))
    } else {
        None
    }
}

/// The result of reading the cell after the one `address` refers to.
pub open spec fn second_read<M: MemorySegment>(m: &M, address: Address) -> Result<Value, Error> {
    match next_cell_address(address) {
        Some(b) => read_result(m, b),
        None => Err(Error::InvalidAddress),
    }
}

/// Whether both the cell at `address` and the following one are in the segment.
pub open spec fn pair_fits<M: MemorySegment>(m: &M, address: Address) -> bool {
    m.spec_contains(address) && (next_cell_address(address) matches Some(b) && m.spec_contains(b))
}

/// Whether a value of type `T` fits at `address` of the segment.
pub open spec fn write_fits<M: MemorySegment>(m: &M, address: Address, size: nat) -> bool {
    &&& m.spec_contains(address)
    &&& size == 2 ==> (next_cell_address(address) matches Some(b) && m.spec_contains(b))
}

/// The content of the cell at `a` after a value of `size` cells, whose cells are
/// `first` and `second`, has (or, when `ok` is false, has not) been written at `address`.
pub open spec fn read_after_write<M: MemorySegment>(m: &M, address: Address, first: Value, second: Value, size: nat, ok: bool, a: Address) -> Value {
    if ok && m.spec_cell_index(a) == m.spec_cell_index(address) {
        first
    } else if ok && size == 2 && (next_cell_address(address) matches Some(b)
        && m.spec_cell_index(a) == m.spec_cell_index(b)) {
        second
    } else {
        m.spec_read(a)
    }
}

/// Reads the cell at `address` and the one after it.
pub fn read_two<M: MemorySegment>(memory: &M, address: Address) -> (r: (Result<Value, Error>, Result<Value, Error>))
    requires memory.wf(),
    ensures
        r.0 == read_result(memory, address),
        r.1 == second_read(memory, address),
{
    let first = memory.read_value(address);
    let second = match address.checked_plus(Bytes(CELL_SIZE)) {
        Ok(next) => memory.read_value(next),
        Err(e) => Err(e),
    };
    (first, second)
}

/// Writes `first` at `address` and `second` in the following cell, when both fit.
pub fn write_two<M: MemorySegment>(memory: &mut M, address: Address, first: Value, second: Value) -> (r: ForthResult)
    requires old(memory).wf(),
    ensures
        final(memory).wf(),
        final(memory).spec_base() == old(memory).spec_base(),
        final(memory).spec_end() == old(memory).spec_end(),
        forall|a: Address| #[trigger] final(memory).spec_contains(a) == old(memory).spec_contains(a),
        forall|a: Address| #[trigger] final(memory).spec_cell_index(a) == old(memory).spec_cell_index(a),
        pair_fits(old(memory), address) ==> r is Ok,
        !pair_fits(old(memory), address) ==> r == Err::<(), Error>(Error::InvalidAddress),
        r is Err ==> *final(memory) == *old(memory),
        final(memory).spec_extent() == old(memory).spec_extent(),
        final(memory).spec_same_shape(old(memory)),
        forall|a: Address|
            old(memory).spec_contains(a) ==> #[trigger] final(memory).spec_read(a) == if r is Ok
                && old(memory).spec_cell_index(a) == old(memory).spec_cell_index(address) {
                first
            } else if r is Ok && (next_cell_address(address) matches Some(b) && old(memory).spec_cell_index(a)
                == old(memory).spec_cell_index(b)) {
                second
            } else {
                old(memory).spec_read(a)
            },
{
    let next = match address.checked_plus(Bytes(CELL_SIZE)) {
        Ok(next) => next,
        Err(e) => {
            proof { memory.lemma_same_shape_refl(); }
            return Err(e);
        },
    };
    if memory.check_address(address).is_err() || memory.check_address(next).is_err() {
        proof { memory.lemma_same_shape_refl(); }
        return Err(Error::InvalidAddress);
    }
    proof { old(memory).lemma_next_cell(address); }
    let ghost mid_mem = *memory;
    let r1 = memory.write_value(address, first);
    let ghost mid2 = *memory;
    let r2 = memory.write_value(next, second);
    proof {
        assert(next == Address::spec_from_raw(address.raw() + 8));
        memory.lemma_same_shape_trans(&mid2, &mid_mem);
    }
    Ok(())
}

/// A growable region of cells; cells past the written part read as zero.
pub struct Memory {
    base: Address,
    length: Cells,
    memory: Vec<Value>,
}

impl Memory {
    /// The contents of the memory, one value per cell.
    pub closed spec fn view(&self) -> Seq<Value> {
        Seq::new(
            self.length.0 as nat,
            |i: int|
                if i < self.memory@.len() {
                    self.memory@[i]
                } else {
                    Value::Number(0)
                },
        )
    }

    /// A memory holds one value for each of its cells.
    pub proof fn lemma_view_len(&self)
        ensures self.view().len() == self.spec_length(),
    {
    }

    /// The cells that have actually been stored.
    pub closed spec fn spec_written(&self) -> Seq<Value> {
        self.memory@
    }

    pub closed spec fn spec_length(&self) -> nat {
        self.length.0 as nat
    }

    pub closed spec fn spec_base_address(&self) -> Address {
        self.base
    }

    pub closed spec fn inv(&self) -> bool {
        &&& self.memory@.len() <= self.length.0
        &&& self.base.raw() + self.length.0 * CELL_SIZE <= u64::MAX
    }

    pub fn new(base: u64) -> (r: Self)
        ensures
            r.inv(),
            r.spec_length() == 0,
            r.view() == Seq::<Value>::empty(),
            r.spec_base_address().raw() == base,
    {
        let r = Self { base: Address::from_raw(Bytes::bytes(base)), length: Cells::zero(), memory: Vec::new() };
        assert(r.view() =~= Seq::<Value>::empty());
        r
    }

    /// The same memory, sized to `num_cells` cells.
    pub fn with_num_cells(self, num_cells: Cells) -> (r: Self)
        requires
            self.inv(),
            self.spec_length() <= num_cells.0,
            self.spec_base_address().raw() + num_cells.0 * CELL_SIZE <= u64::MAX,
        ensures
            r.inv(),
            r.spec_base_address() == self.spec_base_address(),
            r.spec_length() == num_cells.0,
            r.view() == Seq::new(
                num_cells.0 as nat,
                |i: int|
                    if i < self.view().len() {
                        self.view()[i]
                    } else {
                        Value::Number(0)
                    },
            ),
    {
        let r = Memory { length: num_cells, ..self };
        assert(r.view() =~= Seq::new(
            num_cells.0 as nat,
            |i: int|
                if i < self.view().len() {
                    self.view()[i]
                } else {
                    Value::Number(0)
                },
        ));
        r
    }

    /// The address just past the last cell.
    pub fn top(&self) -> (r: Address)
        requires self.inv(),
        ensures r.raw() == self.spec_base_address().raw() + self.spec_length() * CELL_SIZE,
    {
        self.base.plus_cell(self.length)
    }

    /// Grows the memory by `amount` zero cells.
    pub fn expand(&mut self, amount: Cells)
        requires
            old(self).inv(),
            old(self).spec_base_address().raw() + (old(self).spec_length() + amount.0) * CELL_SIZE
                <= u64::MAX,
        ensures
            final(self).inv(),
            final(self).spec_base_address() == old(self).spec_base_address(),
            final(self).spec_length() == old(self).spec_length() + amount.0,
            final(self).view() == old(self).view() + Seq::new(amount.0 as nat, |i: int| Value::Number(0)),
    {
        self.length = Cells(self.length.0 + amount.0);
        assert(self.view() =~= old(self).view() + Seq::new(amount.0 as nat, |i: int| Value::Number(0)));
    }

    /// Appends one value after the last cell.
    pub fn push_value(&mut self, value: Value)
        requires
            old(self).inv(),
            old(self).spec_base_address().raw() + (old(self).spec_length() + 1) * CELL_SIZE <= u64::MAX,
        ensures
            final(self).inv(),
            final(self).spec_base_address() == old(self).spec_base_address(),
            final(self).spec_length() == old(self).spec_length() + 1,
            final(self).view() == old(self).view().push(value),
    {
        while (self.memory.len() as u64) < self.length.0
            invariant
                self.base == old(self).base,
                self.length == old(self).length,
                self.memory@.len() <= self.length.0,
                self.view() == old(self).view(),
            decreases self.length.0 - self.memory@.len(),
        {
            let ghost before = self.view();
            self.memory.push(Value::Number(0));
            assert(self.view() =~= before);
        }
        self.length = Cells(self.length.0 + 1);
        self.memory.push(value);
        assert(self.view() =~= old(self).view().push(value));
    }

    /// Appends a value of any kind after the last cell.
    pub fn push<T: ValueVariant>(&mut self, value: T)
        requires
            old(self).inv(),
            old(self).spec_base_address().raw() + (old(self).spec_length() + 2) * CELL_SIZE <= u64::MAX,
        ensures
            final(self).inv(),
            final(self).spec_base_address() == old(self).spec_base_address(),
            final(self).spec_length() == old(self).spec_length() + T::spec_size(),
            final(self).view() == old(self).view() + value.spec_memory_cells(),
    {
        value.push_to_memory(self)
    }

    /// Appends the zero cells that a value of type `T` takes.
    pub fn push_none<T: ValueVariant>(&mut self)
        requires
            old(self).inv(),
            old(self).spec_base_address().raw() + (old(self).spec_length() + 2) * CELL_SIZE <= u64::MAX,
        ensures
            final(self).inv(),
            final(self).spec_base_address() == old(self).spec_base_address(),
            final(self).spec_length() == old(self).spec_length() + T::spec_size(),
            final(self).view() == old(self).view() + Seq::new(T::spec_size(), |i: int| Value::Number(0)),
    {
        let size = T::size();
        let mut i: u64 = 0;
        while i < size
            invariant
                0 <= i <= size,
                size == T::spec_size(),
                size <= 2,
                old(self).spec_base_address().raw() + (old(self).spec_length() + 2) * CELL_SIZE <= u64::MAX,
                self.inv(),
                self.spec_base_address() == old(self).spec_base_address(),
                self.spec_length() == old(self).spec_length() + i,
                self.view() == old(self).view() + Seq::new(i as nat, |k: int| Value::Number(0)),
            decreases size - i,
        {
            let ghost b = old(self).spec_base_address().raw();
            let ghost l = old(self).spec_length();
            assert(b + (l + i + 1) * 8 <= u64::MAX) by (nonlinear_arith)
                requires
                    i < 2,
                    b + (l + 2) * 8 <= u64::MAX;
            self.push_value(Value::Number(0));
            i = i + 1;
            assert(self.view() =~= old(self).view() + Seq::new(i as nat, |k: int| Value::Number(0)));
        }
    }

    /// The cells that have been written so far (later cells read as zero).
    pub fn debug_only_get_vec(&self) -> (r: &Vec<Value>)
        ensures r@ == self.spec_written(),
    {
        &self.memory
    }
}

impl MemorySegment for Memory {
    open spec fn wf(&self) -> bool {
        self.inv()
    }

    open spec fn spec_base(&self) -> Address {
        self.spec_base_address()
    }

    open spec fn spec_extent(&self) -> nat {
        self.spec_length()
    }

    open spec fn spec_same_shape(&self, other: &Self) -> bool {
        self.spec_base_address() == other.spec_base_address() && self.spec_length() == other.spec_length()
    }

    open spec fn spec_end(&self) -> Address {
        Address::spec_from_raw(self.spec_base_address().raw() + self.spec_length() * CELL_SIZE)
    }

    open spec fn spec_contains(&self, address: Address) -> bool {
        self.spec_base_address().raw() <= address.raw() && address.raw() < self.spec_base_address().raw()
            + self.spec_length() * CELL_SIZE
    }

    open spec fn spec_cell_index(&self, address: Address) -> int {
        (address.raw() - self.spec_base_address().raw()) / CELL_SIZE as int
    }

    open spec fn spec_read(&self, address: Address) -> Value {
        self.view()[self.spec_cell_index(address)]
    }

    proof fn lemma_same_shape_refl(&self) {
    }

    proof fn lemma_same_shape_trans(&self, b: &Self, c: &Self) {
    }

    proof fn lemma_next_cell(&self, a: Address) {
        let o = a.raw() - self.base.raw();
        assert((o + 8) / 8 == o / 8 + 1) by (nonlinear_arith);
    }

    fn get_base(&self) -> (r: Address) {
        self.base
    }

    fn get_end(&self) -> (r: Address) {
        proof { lemma_top_fits(self); }
        self.top()
    }

    fn check_address(&self, address: Address) -> (r: ForthResult) {
        if address.0.0 >= self.base.0.0 && (address.0.0 - self.base.0.0) / CELL_SIZE < self.length.0 {
            proof { lemma_cell_bound(address.raw() - self.base.raw(), self.length.0 as int); }
            Ok(())
        } else {
            proof {
                if address.raw() >= self.base.raw() {
                    lemma_cell_bound(address.raw() - self.base.raw(), self.length.0 as int);
                }
            }
            Err(Error::InvalidAddress)
        }
    }

    fn write_value(&mut self, address: Address, value: Value) -> (r: ForthResult) {
        if self.check_address(address).is_err() {
            return Err(Error::InvalidAddress);
        }
        let index = address.offset_from(self.base).containing_cells().0;
        proof { lemma_cell_bound(address.raw() - self.base.raw(), self.length.0 as int); }
        let ghost before = self.view();
        while (self.memory.len() as u64) <= index
            invariant
                self.base == old(self).base,
                self.length == old(self).length,
                self.memory@.len() <= self.length.0,
                index < self.length.0,
                self.view() == before,
            decreases self.length.0 - self.memory@.len(),
        {
            let ghost b = self.view();
            self.memory.push(Value::Number(0));
            assert(self.view() =~= b);
        }
        self.memory.set(index as usize, value);
        proof {
            assert(self.view() =~= before.update(index as int, value));
            assert forall|a: Address| old(self).spec_contains(a) implies #[trigger] self.spec_read(a)
                == if old(self).spec_cell_index(a) == old(self).spec_cell_index(address) {
                value
            } else {
                old(self).spec_read(a)
            } by {
                lemma_cell_bound(a.raw() - self.base.raw(), self.length.0 as int);
            }
        }
        Ok(())
    }

    fn read_value(&self, address: Address) -> (r: Result<Value, Error>) {
        if self.check_address(address).is_err() {
            return Err(Error::InvalidAddress);
        }
        let index = address.offset_from(self.base).containing_cells().0;
        proof { lemma_cell_bound(address.raw() - self.base.raw(), self.length.0 as int); }
        if index >= self.memory.len() as u64 {
            Ok(Value::Number(0))
        } else {
            Ok(self.memory[index as usize])
        }
    }
}

/// The end of a well-formed memory fits in the address space.
proof fn lemma_top_fits(m: &Memory)
    requires m.inv(),
    ensures m.base.raw() + m.length.0 * CELL_SIZE <= u64::MAX,
{
}

/// After a one-cell write of `value` at `address` that succeeded, a memory holds its old
/// cells with the one at `address` replaced.
pub proof fn lemma_one_cell_written(old: &Memory, new: &Memory, address: Address, value: Value, second: Value)
    requires
        old.inv(),
        new.inv(),
        new.spec_same_shape(old),
        old.spec_contains(address),
        forall|a: Address|
            old.spec_contains(a) ==> #[trigger] new.spec_read(a) == read_after_write(
                old,
                address,
                value,
                second,
                1,
                true,
                a,
            ),
    ensures
        new.view() == old.view().update(old.spec_cell_index(address), value),
{
    let index = old.spec_cell_index(address);
    assert(0 <= index < old.view().len()) by {
        lemma_cell_bound(address.raw() - old.base.raw(), old.length.0 as int);
    }
    assert forall|j: int| 0 <= j < old.view().len() implies #[trigger] new.view()[j] == old.view().update(
        index,
        value,
    )[j] by {
        let a = Address::spec_from_raw(old.base.raw() + j * CELL_SIZE);
        assert(j * 8 < old.length.0 * 8) by (nonlinear_arith)
            requires 0 <= j < old.length.0;
        assert((j * 8) / 8 == j) by (nonlinear_arith);
        assert(a.raw() == old.base.raw() + j * CELL_SIZE);
        assert(old.spec_contains(a));
        assert(old.spec_cell_index(a) == j);
        assert(new.spec_cell_index(a) == j);
        assert(new.spec_read(a) == read_after_write(old, address, value, second, 1, true, a));
        assert(new.spec_read(a) == new.view()[j]);
        assert(old.spec_read(a) == old.view()[j]);
    }
    assert(new.view() =~= old.view().update(index, value));
}

/// An offset lies below `len` cells exactly when its cell index does.
pub proof fn lemma_cell_bound(offset: int, len: int)
    requires offset >= 0, len >= 0,
    ensures (offset < len * CELL_SIZE) == (offset / (CELL_SIZE as int) < len),
{
    assert((offset < len * 8) == (offset / 8 < len)) by (nonlinear_arith)
        requires offset >= 0, len >= 0;
}


impl ValueVariant for Address {
    open spec fn spec_size() -> nat {
        1
    }

    open spec fn spec_stack_cells(self) -> Seq<Value> {
        seq![Value::Number(self.0.0 as i64)]
    }

    open spec fn spec_from_stack(cells: Seq<Value>) -> Result<Self, Error> {
        Ok(Address::spec_from_u64(cells[0].spec_to_number() as u64))
    }

    open spec fn spec_memory_cells(self) -> Seq<Value> {
        seq![Value::Number(self.0.0 as i64)]
    }

    open spec fn spec_from_memory(first: Result<Value, Error>, second: Result<Value, Error>, address: Address) -> Result<Self, Error> {
        match first {
            Ok(v) => Ok(Address::spec_from_u64(v.spec_to_number() as u64)),
            Err(e) => Err(e),
        }
    }

    open spec fn spec_write_first(self, old_first: Value, address: Address) -> Value {
        Value::Number(self.0.0 as i64)
    }

    open spec fn spec_write_second(self) -> Value {
        Value::Number(self.0.0 as i64)
    }

    fn size() -> (r: u64) {
        1
    }

    fn push_to_stack(self, stack: &mut Stack) {
        (self.0.0).push_to_stack(stack)
    }

    fn pop_from_stack(stack: &mut Stack) -> (r: Result<Self, Error>) {
        match u64::pop_from_stack(stack) {
            Ok(n) => Ok(Address(Bytes(n))),
            Err(e) => Err(e),
        }
    }

    fn write_to_memory<M: MemorySegment>(self, memory: &mut M, address: Address) -> (r: ForthResult) {
        (self.0.0).write_to_memory(memory, address)
    }

    fn read_from_memory<M: MemorySegment>(memory: &M, address: Address) -> (r: Result<Self, Error>) {
        match u64::read_from_memory(memory, address) {
            Ok(n) => Ok(Address(Bytes(n))),
            Err(e) => Err(e),
        }
    }

    fn push_to_memory(self, memory: &mut Memory) {
        (self.0.0).push_to_memory(memory)
    }
}

} // verus!

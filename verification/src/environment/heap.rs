use vstd::prelude::*;
use vstd::string::*;
use crate::environment::memory::{Address, MemorySegment};
use crate::environment::units::{div_ceil, Bytes, Cells, CELL_SIZE};
use crate::environment::value::Value;
use crate::evaluate::{Error, ForthResult};

verus! {

/// Cells in one page range (16 pages of 0x1000 bytes).
pub const RANGE_CELLS: u64 = 8192;
/// Bytes in one page range.
pub const RANGE_BYTES: u64 = 0x10000;
/// Chunk sizes below this many cells are served by the small bin.
pub const SMALLBIN_SIZE: u64 = 64;
/// Chunk sizes of the small bin are multiples of this many cells.
pub const SMALLBIN_STEP: u64 = 2;
/// Chunk sizes below this many cells (and not in the small bin) are served by the large bin.
pub const LARGEBIN_SIZE: u64 = 512;
/// Chunk sizes of the large bin are multiples of this many cells.
pub const LARGEBIN_STEP: u64 = 16;
/// Number of size classes of both bins together.
pub const NUM_CLASSES: usize = 60;

/// The chunk size (in cells) that serves a request for `size` cells, with the index of its
/// size class; `None` where no bin serves the request.
pub open spec fn size_class(size: nat) -> Option<(nat, nat)> {
    if size < SMALLBIN_SIZE {
        let adjusted = div_ceil(size as int, 2) * 2;
        if adjusted < SMALLBIN_SIZE {
            Some((adjusted as nat, (adjusted / 2) as nat))
        } else {
            None
        }
    } else if size < LARGEBIN_SIZE {
        let adjusted = div_ceil(size as int, 16) * 16;
        if adjusted < LARGEBIN_SIZE {
            Some((adjusted as nat, (32 + (adjusted - 64) / 16) as nat))
        } else {
            None
        }
    } else {
        None
    }
}

/// The chunk size, in cells, of the runs of size class `class`.
pub open spec fn class_chunk(class: int) -> int {
    if class < 32 {
        2 * class
    } else {
        64 + 16 * (class - 32)
    }
}

fn lookup_class(size: Cells) -> (r: Result<(Cells, usize), Error>)
    ensures
        match size_class(size.0 as nat) {
            Some((adjusted, class)) => r == Ok::<(Cells, usize), Error>((Cells(adjusted as u64), class as usize)),
            None => r == Err::<(Cells, usize), Error>(Error::InvalidSize),
        },
        r matches Ok((c, i)) ==> c.0 < LARGEBIN_SIZE && i < NUM_CLASSES && c.0 == class_chunk(i as int),
{
    if size.0 < SMALLBIN_SIZE {
        let adjusted = (size.0 + 1) / 2 * 2;
        if adjusted < SMALLBIN_SIZE {
            Ok((Cells(adjusted), (adjusted / 2) as usize))
        } else {
            Err(Error::InvalidSize)
        }
    } else if size.0 < LARGEBIN_SIZE {
        let adjusted = (size.0 + 15) / 16 * 16;
        if adjusted < LARGEBIN_SIZE {
            Ok((Cells(adjusted), (32 + (adjusted - 64) / 16) as usize))
        } else {
            Err(Error::InvalidSize)
        }
    } else {
        Err(Error::InvalidSize)
    }
}

/// A run of 16 pages handing out chunks of one size.
struct PageRange {
    base: Address,
    memory: Vec<Value>,
    chunk_size: Cells,
    available: Vec<Address>,
}

/// Whether a range takes no more allocations: it reaches into its last page and no freed
/// chunk waits for reuse.
pub open spec fn range_full(cells: nat, available: nat) -> bool {
    div_ceil(cells * CELL_SIZE, 0x1000) == 16 && available == 0
}

impl PageRange {
    fn new(base: Address, chunk_size: Cells) -> (r: Self)
        ensures
            r.base == base,
            r.chunk_size == chunk_size,
            r.memory@.len() == 0,
            r.available@.len() == 0,
    {
        PageRange { base, memory: Vec::new(), chunk_size, available: Vec::new() }
    }

    fn num_cells(&self) -> (r: Cells)
        ensures r.0 == self.memory@.len(),
    {
        Cells(self.memory.len() as u64)
    }

    fn is_full(&self) -> (r: bool)
        requires self.memory@.len() <= RANGE_CELLS,
        ensures r == range_full(self.memory@.len(), self.available@.len()),
    {
        let pages = (self.num_cells().0 * CELL_SIZE + 0xfff) / 0x1000;
        pages == 16 && self.available.len() == 0
    }

    fn allocate_next(&mut self) -> (r: Result<Address, Error>)
        requires
            old(self).memory@.len() <= RANGE_CELLS,
            old(self).chunk_size.0 <= RANGE_CELLS,
            old(self).base.raw() + RANGE_BYTES <= u64::MAX,
        ensures
            final(self).base == old(self).base,
            final(self).chunk_size == old(self).chunk_size,
            final(self).memory@.len() <= RANGE_CELLS,
            old(self).available@.len() > 0 ==> {
                &&& r == Ok::<Address, Error>(old(self).available@.last())
                &&& final(self).available@ == old(self).available@.drop_last()
                &&& final(self).memory@ == old(self).memory@
            },
            old(self).available@.len() == 0 && RANGE_CELLS - old(self).memory@.len() >= old(self).chunk_size.0 ==> {
                &&& r == Ok::<Address, Error>(Address::spec_from_raw(old(self).base.raw() + CELL_SIZE * old(self).memory@.len()))
                &&& final(self).available@ == old(self).available@
                &&& final(self).memory@ == old(self).memory@ + Seq::new(old(self).chunk_size.0 as nat, |i: int| Value::Number(0))
            },
            old(self).available@.len() == 0 && RANGE_CELLS - old(self).memory@.len() < old(self).chunk_size.0 ==> {
                &&& r == Err::<Address, Error>(Error::InsufficientMemory)
                &&& *final(self) == *old(self)
            },
    {
        if self.available.len() > 0 {
            Ok(self.available.pop().unwrap())
        } else if RANGE_CELLS - self.num_cells().0 >= self.chunk_size.0 {
            let n = self.num_cells();
            let address = self.base.plus_cell(n);
            let target = n.0 + self.chunk_size.0;
            let ghost before = self.memory@;
            while (self.memory.len() as u64) < target
                invariant
                    before.len() <= self.memory@.len() <= target,
                    before == old(self).memory@,
                    self.base == old(self).base,
                    self.chunk_size == old(self).chunk_size,
                    self.available == old(self).available,
                    target == before.len() + self.chunk_size.0,
                    target <= RANGE_CELLS,
                    self.memory@ == before + Seq::new((self.memory@.len() - before.len()) as nat, |i: int| Value::Number(0)),
                decreases target - self.memory@.len(),
            {
                self.memory.push(Value::Number(0));
                assert(self.memory@ =~= before + Seq::new((self.memory@.len() - before.len()) as nat, |i: int| Value::Number(0)));
            }
            Ok(address)
        } else {
            Err(Error::InsufficientMemory)
        }
    }

    fn in_range(&self, address: Address) -> (r: bool)
        requires self.base.raw() + CELL_SIZE * self.memory@.len() <= u64::MAX,
        ensures r == (self.base.raw() <= address.raw() < self.base.raw() + CELL_SIZE * self.memory@.len()),
    {
        address.between(self.base, self.base.plus_cell(self.num_cells()))
    }

    fn cell_offset(&self, address: Address) -> (r: Cells)
        requires self.base.raw() <= address.raw() < self.base.raw() + RANGE_BYTES,
        ensures r.0 == div_ceil(address.raw() - self.base.raw(), CELL_SIZE as int),
    {
        address.offset_from(self.base).to_cells()
    }

    fn free(&mut self, address: Address)
        requires
            old(self).base.raw() <= address.raw() < old(self).base.raw() + CELL_SIZE * old(self).memory@.len(),
            old(self).memory@.len() <= RANGE_CELLS,
            old(self).chunk_size.0 <= RANGE_CELLS,
        ensures
            final(self).base == old(self).base,
            final(self).chunk_size == old(self).chunk_size,
            div_ceil(address.raw() - old(self).base.raw(), CELL_SIZE as int) + old(self).chunk_size.0
                == old(self).memory@.len() ==> {
                &&& final(self).memory@ == old(self).memory@.subrange(0, old(self).memory@.len() - old(self).chunk_size.0)
                &&& final(self).available@ == old(self).available@
            },
            div_ceil(address.raw() - old(self).base.raw(), CELL_SIZE as int) + old(self).chunk_size.0
                != old(self).memory@.len() ==> {
                &&& final(self).memory@ == old(self).memory@
                &&& final(self).available@ == old(self).available@.push(address)
            },
    {
        let offset = self.cell_offset(address);
        if offset.0 + self.chunk_size.0 == self.num_cells().0 {
            self.memory.truncate(offset.0 as usize);
        } else {
            self.available.push(address);
        }
    }
}

/// Memory handed out in chunks from size-classed runs of pages.
///
/// Run number `k` starts `k * RANGE_BYTES` bytes above the heap's base and only holds chunks
/// of the size `size_lookup[k]`; `sections` lists, for each size class, the runs serving it
/// in the order in which they are searched (the last one first).
pub struct Heap {
    base: Address,
    sections: Vec<Vec<usize>>,
    size_lookup: Vec<Cells>,
    ranges: Vec<PageRange>,
}

/// The last position of `t` (below `n`) whose run is not full, or `-1`.
spec fn last_open(ranges: Seq<PageRange>, t: Seq<usize>, n: nat) -> int
    decreases n,
{
    if n == 0 {
        -1
    } else if !range_full(ranges[t[n - 1] as int].memory@.len(), ranges[t[n - 1] as int].available@.len()) {
        n - 1
    } else {
        last_open(ranges, t, (n - 1) as nat)
    }
}

proof fn lemma_last_open_bounds(ranges: Seq<PageRange>, t: Seq<usize>, n: nat)
    ensures
        -1 <= last_open(ranges, t, n) < n,
        last_open(ranges, t, n) >= 0 ==> !range_full(
            ranges[t[last_open(ranges, t, n)] as int].memory@.len(),
            ranges[t[last_open(ranges, t, n)] as int].available@.len(),
        ),
    decreases n,
{
    if n > 0 {
        lemma_last_open_bounds(ranges, t, (n - 1) as nat);
    }
}

/// Number of size classes of the small bin.
pub const SMALLBIN_CLASSES: usize = 32;

/// The text of an amount of cells.
pub open spec fn cells_text(n: nat) -> Seq<char> {
    crate::io::format::decimal_string(n as int) + seq![' '] + "Cells"@
}

/// The chunks waiting for reuse, the first `n` of `available`, each followed by a comma.
spec fn available_text(available: Seq<Address>, n: nat) -> Seq<char>
    decreases n,
{
    if n == 0 {
        Seq::empty()
    } else {
        available_text(available, (n - 1) as nat) + crate::io::format::address_text(available[n - 1].raw() as nat)
            + ", "@
    }
}

/// The first `n` cells of a run, one line each with its address and content; the first
/// cell of each chunk is marked.
spec fn cell_lines(range: PageRange, n: nat) -> Seq<char>
    decreases n,
{
    if n == 0 {
        Seq::empty()
    } else {
        let i = n - 1;
        cell_lines(range, (n - 1) as nat) + (if range.chunk_size.0 > 0 && i % (range.chunk_size.0 as int) == 0 {
            "new_chunk: "@
        } else {
            "           "@
        }) + crate::io::format::address_text((range.base.raw() + CELL_SIZE * i) as nat) + ": "@
            + crate::environment::value::value_text(range.memory@[i])
            + "\n"@
    }
}

/// A run: its address, the chunks waiting for reuse, and its cells.
spec fn range_text(range: PageRange) -> Seq<char> {
    "\n"@ + crate::io::format::address_text(range.base.raw() as nat) + "\n"@ + "available: "@ + available_text(
        range.available@,
        range.available@.len(),
    ) + "\n"@ + cell_lines(range, range.memory@.len())
}

/// The first `n` runs of a size class, the class listing run indices `t`.
spec fn section_text(ranges: Seq<PageRange>, t: Seq<usize>, n: nat) -> Seq<char>
    decreases n,
{
    if n == 0 {
        Seq::empty()
    } else {
        section_text(ranges, t, (n - 1) as nat) + range_text(ranges[t[n - 1] as int])
    }
}

/// The first `n` size classes of the small bin, each with its size and its runs.
spec fn bins_text(ranges: Seq<PageRange>, sections: Seq<Vec<usize>>, n: nat) -> Seq<char>
    decreases n,
{
    if n == 0 {
        Seq::empty()
    } else {
        bins_text(ranges, sections, (n - 1) as nat) + "\nsize: "@ + cells_text((SMALLBIN_STEP * (n - 1)) as nat)
            + ":\n"@ + section_text(ranges, sections[n - 1]@, sections[n - 1]@.len())
    }
}

impl PageRange {
    /// Writes out this run as `range_text` says.
    fn describe(&self, s: &mut String)
        requires
            self.memory@.len() <= RANGE_CELLS,
            self.base.raw() + RANGE_BYTES <= u64::MAX,
        ensures
            final(s)@ == old(s)@ + range_text(*self),
    {
        s.append("\n");
        s.append(self.base.to_string().as_str());
        s.append("\n");
        s.append("available: ");
        let ghost start = s@;
        let mut a: usize = 0;
        while a < self.available.len()
            invariant
                a <= self.available@.len(),
                s@ == start + available_text(self.available@, a as nat),
            decreases self.available@.len() - a,
        {
            s.append(self.available[a].to_string().as_str());
            s.append(", ");
            a = a + 1;
            proof {
                reveal_strlit(", ");
            }
            assert(s@ =~= start + available_text(self.available@, a as nat));
        }
        s.append("\n");
        let ghost middle = s@;
        let mut i: usize = 0;
        while i < self.memory.len()
            invariant
                i <= self.memory@.len(),
                self.memory@.len() <= RANGE_CELLS,
                self.base.raw() + RANGE_BYTES <= u64::MAX,
                s@ == middle + cell_lines(*self, i as nat),
            decreases self.memory@.len() - i,
        {
            if self.chunk_size.0 > 0 && (i as u64) % self.chunk_size.0 == 0 {
                s.append("new_chunk: ");
            } else {
                s.append("           ");
            }
            let cell = Address(Bytes(self.base.0.0 + CELL_SIZE * (i as u64)));
            s.append(cell.to_string().as_str());
            s.append(": ");
            s.append(self.memory[i].to_string().as_str());
            s.append("\n");
            i = i + 1;
            proof {
                reveal_strlit("new_chunk: ");
                reveal_strlit("           ");
                reveal_strlit(": ");
                reveal_strlit("\n");
            }
            assert(s@ =~= middle + cell_lines(*self, i as nat));
        }
        proof {
            reveal_strlit("\n");
            reveal_strlit("available: ");
        }
        assert(s@ =~= old(s)@ + range_text(*self));
    }
}

/// The cell `i` cells past `a`.
pub open spec fn cell_at(a: Address, i: int) -> Address {
    Address::spec_from_raw(a.raw() + CELL_SIZE * i)
}

/// Whether the cell at `c` lies in the first fifteen pages of its run (counting runs from
/// `heap_base`), where the size table finds the run; a cell in a run's last page is looked
/// up in the next run's entry.
pub open spec fn in_sized_pages(heap_base: Address, c: Address) -> bool {
    heap_base.raw() <= c.raw() && (c.raw() - heap_base.raw()) % (RANGE_BYTES as int) <= 15 * 0x1000
}

/// Whether the cells at `c` and `a` lie in the same run (counting runs from `heap_base`).
pub open spec fn same_run(heap_base: Address, c: Address, a: Address) -> bool {
    &&& heap_base.raw() <= c.raw()
    &&& heap_base.raw() <= a.raw()
    &&& (c.raw() - heap_base.raw()) / (RANGE_BYTES as int) == (a.raw() - heap_base.raw()) / (RANGE_BYTES as int)
}

/// Whether `new` hands out at `a` a chunk of `size` cells that `old` did not have in use:
/// the size table gives `a` that chunk size; `a` lies a whole number of cells past the
/// heap's base, right after a cell in use unless it starts its run; every cell `old` had
/// in use in `a`'s run lies below `a`; no cell in the sized pages of a run but the chunk's
/// comes into use; none of the chunk's cells was in use in `old`; and each of its cells in
/// the sized pages of its run is in use in `new` and holds 0.
pub open spec fn fresh_chunk(old: &Heap, new: &Heap, a: Address, size: nat) -> bool {
    &&& new.spec_lookup_size(a) == Some(size)
    &&& new.spec_heap_base().raw() <= a.raw()
    &&& (a.raw() - new.spec_heap_base().raw()) % (CELL_SIZE as int) == 0
    &&& (a.raw() - new.spec_heap_base().raw()) % (RANGE_BYTES as int) != 0 ==> old.spec_contains(cell_at(a, -1))
    &&& forall|c: Address|
        old.spec_contains(c) && #[trigger] same_run(new.spec_heap_base(), c, a) ==> old.spec_cell_index(c)
            < old.spec_cell_index(a)
    &&& in_sized_pages(new.spec_heap_base(), a)
    &&& forall|c: Address|
        #[trigger] new.spec_contains(c) && in_sized_pages(new.spec_heap_base(), c) ==> old.spec_contains(c) || (
        same_run(new.spec_heap_base(), c, a) && new.spec_cell_index(a) <= new.spec_cell_index(c)
            < new.spec_cell_index(a) + size)
    &&& forall|i: int| 0 <= i < size ==> !old.spec_contains(#[trigger] cell_at(a, i))
    &&& forall|i: int|
        0 <= i < size && in_sized_pages(new.spec_heap_base(), #[trigger] cell_at(a, i)) ==> new.spec_contains(
            cell_at(a, i),
        ) && new.spec_read(cell_at(a, i)) == Value::Number(0)
}

/// Every cell `old` has in use, `new` has in use too, holding the same value.
pub open spec fn kept_in_use(old: &Heap, new: &Heap) -> bool {
    forall|a: Address| #[trigger] old.spec_contains(a) ==> new.spec_contains(a) && new.spec_read(a) == old.spec_read(a)
}

/// `new` is `old` with the chunk at `address` given back to its run: only that run changes,
/// losing its top cells where the chunk is its topmost and otherwise keeping the chunk for
/// reuse.
pub closed spec fn freed_from(old: &Heap, new: &Heap, address: Address) -> bool {
    match old.spec_range_of(address) {
        None => false,
        Some(k) => {
            let o = old.ranges@[k];
            let n = new.ranges@[k];
            &&& new.base == old.base
            &&& new.sections@ == old.sections@
            &&& new.ranges@.len() == old.ranges@.len()
            &&& forall|j: int| 0 <= j < old.ranges@.len() && j != k ==> #[trigger] new.ranges@[j] == old.ranges@[j]
            &&& n.base == o.base
            &&& n.chunk_size == o.chunk_size
            &&& if div_ceil(address.raw() - o.base.raw(), CELL_SIZE as int) + o.chunk_size.0 == o.memory@.len() {
                &&& n.memory@ == o.memory@.subrange(0, o.memory@.len() - o.chunk_size.0)
                &&& n.available@ == o.available@
            } else {
                &&& n.memory@ == o.memory@
                &&& n.available@ == o.available@.push(address)
            }
        },
    }
}

/// Whether two sequences of runs agree on everything an allocation looks at.
spec fn same_runs(r1: Seq<PageRange>, r2: Seq<PageRange>) -> bool {
    &&& r1.len() == r2.len()
    &&& forall|j: int| 0 <= j < r1.len() ==> {
        &&& (#[trigger] r1[j]).base == r2[j].base
        &&& r1[j].chunk_size == r2[j].chunk_size
        &&& r1[j].memory@ == r2[j].memory@
        &&& r1[j].available@ == r2[j].available@
    }
}

/// Runs that agree on what an allocation looks at have the same last open run.
proof fn lemma_last_open_same(r1: Seq<PageRange>, r2: Seq<PageRange>, t: Seq<usize>, n: nat)
    requires
        same_runs(r1, r2),
        n <= t.len(),
        forall|i: int| 0 <= i < t.len() ==> #[trigger] t[i] < r1.len(),
    ensures
        last_open(r1, t, n) == last_open(r2, t, n),
    decreases n,
{
    if n > 0 {
        lemma_last_open_same(r1, r2, t, (n - 1) as nat);
    }
}

/// What freeing the chunk at `address` does: an address outside every run's used part is
/// refused; otherwise no cell comes into use and none changes; where the chunk is its run's
/// topmost, the cells of the run from it on go out of use, else nothing goes out of use.
pub open spec fn freed(old: &Heap, new: &Heap, address: Address, r: ForthResult) -> bool {
    &&& new.spec_heap_base() == old.spec_heap_base()
    &&& old.spec_range_of(address) is Some ==> r is Ok
    &&& old.spec_range_of(address) is None ==> r == Err::<(), Error>(Error::InvalidAddress)
    &&& forall|a: Address| #[trigger] new.spec_contains(a) ==> old.spec_contains(a) && new.spec_read(a) == old.spec_read(a)
    &&& forall|a: Address| #[trigger] old.spec_lookup_size(a) == new.spec_lookup_size(a)
    &&& !old.spec_frees_top(address) ==> forall|a: Address| #[trigger] new.spec_contains(a) == old.spec_contains(a)
    &&& old.spec_frees_top(address) ==> forall|c: Address| #[trigger] new.spec_contains(c) == (old.spec_contains(c)
        && !(same_run(old.spec_heap_base(), c, address) && old.spec_cell_index(c) >= old.spec_cell_index(address)))
}

/// Where a byte offset `x` lies inside run `k`, the run and the page index are found.
proof fn lemma_run_offset(k: int, x: int)
    requires
        0 <= k,
        0 <= x < 0x10000,
    ensures
        (0x10000 * k + x) / 0x10000 == k,
        (0x10000 * k + x) % 0x10000 == x,
        div_ceil(0x10000 * k + x, 8) == 0x2000 * k + div_ceil(x, 8),
        x <= 15 * 0x1000 ==> div_ceil(0x10000 * k + x, 0x1000) / 16 == k,
{
    assert((0x10000 * k + x) / 0x10000 == k) by (nonlinear_arith)
        requires 0 <= k, 0 <= x < 0x10000;
    assert((0x10000 * k + x) % 0x10000 == x) by (nonlinear_arith)
        requires 0 <= k, 0 <= x < 0x10000;
    assert((0x10000 * k + x + 7) / 8 == 0x2000 * k + (x + 7) / 8) by (nonlinear_arith)
        requires 0 <= k, 0 <= x < 0x10000;
    if x <= 15 * 0x1000 {
        assert((0x10000 * k + x + 0xfff) / 0x1000 / 16 == k) by (nonlinear_arith)
            requires 0 <= k, 0 <= x <= 15 * 0x1000;
    }
}

impl Heap {
    /// The heap's internal consistency.
    pub closed spec fn wf(&self) -> bool {
        &&& self.ranges@.len() == self.size_lookup@.len()
        &&& self.base.raw() + RANGE_BYTES * self.ranges@.len() <= u64::MAX
        &&& self.sections@.len() == NUM_CLASSES
        &&& forall|c: int, j: int| 0 <= c < self.sections@.len() && 0 <= j < self.sections@[c]@.len()
            ==> #[trigger] self.sections@[c]@[j] < self.ranges@.len()
        &&& forall|c: int, j: int| 0 <= c < self.sections@.len() && 0 <= j < self.sections@[c]@.len()
            ==> self.ranges@[#[trigger] self.sections@[c]@[j] as int].chunk_size.0 == class_chunk(c)
        &&& forall|k: int| 0 <= k < self.ranges@.len() ==> {
            &&& (#[trigger] self.ranges@[k]).base.raw() == self.base.raw() + RANGE_BYTES * k
            &&& self.ranges@[k].memory@.len() <= RANGE_CELLS
            &&& self.ranges@[k].chunk_size == self.size_lookup@[k]
            &&& self.size_lookup@[k].0 < LARGEBIN_SIZE
        }
    }

    /// The address the heap starts at.
    pub closed spec fn spec_heap_base(&self) -> Address {
        self.base
    }

    /// The number of page runs made so far.
    pub closed spec fn spec_num_ranges(&self) -> nat {
        self.ranges@.len()
    }

    /// The chunk size of the run that `address` falls in by the size table, where there is one.
    pub closed spec fn spec_lookup_size(&self, address: Address) -> Option<nat> {
        if address.raw() < self.base.raw() {
            None
        } else {
            let index = div_ceil(address.raw() - self.base.raw(), 0x1000) / 16;
            if index < self.size_lookup@.len() {
                Some(self.size_lookup@[index].0 as nat)
            } else {
                None
            }
        }
    }

    /// The run whose used part holds `address`, when the size table leads to it.
    pub closed spec fn spec_range_of(&self, address: Address) -> Option<int> {
        if address.raw() < self.base.raw() {
            None
        } else {
            let offset = address.raw() - self.base.raw();
            let index = div_ceil(offset, 0x1000) / 16;
            let k = offset / RANGE_BYTES as int;
            if index < self.size_lookup@.len() && k < self.ranges@.len()
                && self.size_lookup@[index] == self.size_lookup@[k]
                && offset - RANGE_BYTES * k < CELL_SIZE * self.ranges@[k].memory@.len() {
                Some(k)
            } else {
                None
            }
        }
    }

    /// The cell of run `k` that `address` refers to.
    pub closed spec fn spec_offset_in(&self, address: Address, k: int) -> int {
        div_ceil(address.raw() - self.base.raw() - RANGE_BYTES * k, CELL_SIZE as int)
    }

    /// The result `allocate` gives for a request of `size` cells.
    pub closed spec fn spec_allocation(&self, size: nat) -> Result<Address, Error> {
        match size_class(size) {
            None => Err(Error::InvalidSize),
            Some((adjusted, class)) => {
                let t = self.sections@[class as int]@;
                let p = last_open(self.ranges@, t, t.len());
                if p >= 0 {
                    let r = self.ranges@[t[p] as int];
                    if r.available@.len() > 0 {
                        Ok(r.available@.last())
                    } else if RANGE_CELLS - r.memory@.len() >= r.chunk_size.0 {
                        Ok(Address::spec_from_raw(r.base.raw() + CELL_SIZE * r.memory@.len()))
                    } else {
                        Err(Error::InsufficientMemory)
                    }
                } else if self.base.raw() + RANGE_BYTES * (self.ranges@.len() + 1) <= u64::MAX {
                    Ok(Address::spec_from_raw(self.base.raw() + RANGE_BYTES * self.ranges@.len()))
                } else {
                    Err(Error::InsufficientMemory)
                }
            },
        }
    }

    /// Whether `free(address)` releases the topmost chunk of its run, shrinking it.
    pub closed spec fn spec_frees_top(&self, address: Address) -> bool {
        match self.spec_range_of(address) {
            Some(k) => self.spec_offset_in(address, k) + self.ranges@[k].chunk_size.0
                == self.ranges@[k].memory@.len(),
            None => false,
        }
    }

    /// What `allocate` gives for a request of `size` cells once the chunk at `address` is
    /// given back to its run.
    pub closed spec fn spec_allocation_after_free(&self, address: Address, size: nat) -> Result<Address, Error> {
        let freed_heap = choose|h: Heap| freed_from(self, &h, address);
        freed_heap.spec_allocation(size)
    }

    /// What `resize` gives for the chunk at `address` and a request of `size` cells: an
    /// address outside the size table is refused; a chunk already that large stays; else
    /// the chunk is given back (an address outside every run's used part is refused there)
    /// and a new one is allocated.
    pub open spec fn spec_resize_result(&self, address: Address, size: nat) -> Result<Address, Error> {
        match self.spec_lookup_size(address) {
            None => Err(Error::InvalidAddress),
            Some(s) => if s >= size {
                Ok(address)
            } else if self.spec_range_of(address) is None {
                Err(Error::InvalidAddress)
            } else {
                self.spec_allocation_after_free(address, size)
            },
        }
    }

    /// Any two ways of giving the chunk at `address` back allocate alike afterwards.
    proof fn lemma_freed_from_allocates_alike(&self, h1: &Heap, h2: &Heap, address: Address, size: nat)
        requires
            self.wf(),
            freed_from(self, h1, address),
            freed_from(self, h2, address),
        ensures
            h1.spec_allocation(size) == h2.spec_allocation(size),
    {
        let k = self.spec_range_of(address).unwrap();
        assert(same_runs(h1.ranges@, h2.ranges@)) by {
            assert forall|j: int| 0 <= j < h1.ranges@.len() implies {
                &&& (#[trigger] h1.ranges@[j]).base == h2.ranges@[j].base
                &&& h1.ranges@[j].chunk_size == h2.ranges@[j].chunk_size
                &&& h1.ranges@[j].memory@ == h2.ranges@[j].memory@
                &&& h1.ranges@[j].available@ == h2.ranges@[j].available@
            } by {
                if j != k {
                    assert(h1.ranges@[j] == self.ranges@[j]);
                    assert(h2.ranges@[j] == self.ranges@[j]);
                }
            }
        }
        if let Some((adjusted, class)) = size_class(size) {
            assert(class < NUM_CLASSES);
            let t = h1.sections@[class as int]@;
            assert(t == h2.sections@[class as int]@);
            assert(t == self.sections@[class as int]@);
            assert forall|i: int| 0 <= i < t.len() implies #[trigger] t[i] < h1.ranges@.len() by {
                assert(self.sections@[class as int]@[i] < self.ranges@.len());
            }
            lemma_last_open_same(h1.ranges@, h2.ranges@, t, t.len());
            lemma_last_open_bounds(h1.ranges@, t, t.len());
            let p = last_open(h1.ranges@, t, t.len());
            if p >= 0 {
                let j = t[p] as int;
                assert(h1.ranges@[j].available@ == h2.ranges@[j].available@);
                assert(h1.ranges@[j].memory@ == h2.ranges@[j].memory@);
            }
        }
    }

    /// Whether no freed chunk waits for reuse in any run.
    pub closed spec fn spec_nothing_pending(&self) -> bool {
        forall|k: int| 0 <= k < self.ranges@.len() ==> (#[trigger] self.ranges@[k]).available@.len() == 0
    }

    /// The chunk whose freeing shrinks its run is its run's topmost: every cell in use in
    /// the run at or past it lies within it.
    pub proof fn lemma_topmost(&self, a: Address, c: Address)
        requires
            self.wf(),
            self.spec_frees_top(a),
            self.spec_contains(c),
            same_run(self.spec_heap_base(), c, a),
            self.spec_cell_index(c) >= self.spec_cell_index(a),
        ensures
            self.spec_lookup_size(a) matches Some(s) && self.spec_cell_index(c) < self.spec_cell_index(a) + s,
    {
        self.lemma_range_of(a);
        self.lemma_range_of(c);
        let base = self.base.raw();
        let k = self.spec_range_of(a).unwrap();
        let kc = self.spec_range_of(c).unwrap();
        lemma_run_offset(k, a.raw() - base - RANGE_BYTES * k);
        lemma_run_offset(kc, c.raw() - base - RANGE_BYTES * kc);
    }

    /// Freeing a chunk keeps in use a chunk handed out after it: where `a` was handed out
    /// fresh (`h0` to `h1`), what was in use then stayed in use (to `hb`), `b` was handed out
    /// fresh (`hb` to `h2`) with what was in use kept, freeing `a` succeeds and leaves `b` in
    /// use.
    pub proof fn law_free_keeps_later_chunk(
        h0: &Heap,
        h1: &Heap,
        hb: &Heap,
        h2: &Heap,
        h3: &Heap,
        a: Address,
        s: nat,
        b: Address,
        t: nat,
        r: ForthResult,
    )
        requires
            h2.wf(),
            fresh_chunk(h0, h1, a, s),
            s > 0,
            kept_in_use(h1, hb),
            fresh_chunk(hb, h2, b, t),
            t > 0,
            kept_in_use(hb, h2),
            h1.spec_heap_base() == h2.spec_heap_base(),
            h2.spec_lookup_size(a) == Some(s),
            freed(h2, h3, a, r),
        ensures
            r is Ok,
            h3.spec_contains(b),
    {
        assert(cell_at(a, 0) == a);
        assert(cell_at(b, 0) == b);
        assert(h1.spec_contains(a));
        assert(hb.spec_contains(a));
        assert(h2.spec_contains(a));
        assert(h2.spec_contains(b));
        h2.lemma_in_use_in_run(a);
        if h2.spec_frees_top(a) && same_run(h2.spec_heap_base(), b, a) && h2.spec_cell_index(b) >= h2.spec_cell_index(a) {
            h2.lemma_topmost(a, b);
            assert(same_run(h2.spec_heap_base(), a, b));
            assert(hb.spec_cell_index(a) < hb.spec_cell_index(b));
            let base = h2.base.raw();
            let j = h2.spec_cell_index(b) - h2.spec_cell_index(a);
            assert(b.raw() == a.raw() + CELL_SIZE * j) by (nonlinear_arith)
                requires
                    (a.raw() - base) % 8 == 0,
                    (b.raw() - base) % 8 == 0,
                    a.raw() >= base,
                    b.raw() >= base,
                    j == (b.raw() - base + 7) / 8 - (a.raw() - base + 7) / 8;
            assert(cell_at(a, j) == b);
            assert(h1.spec_contains(cell_at(a, j)));
            assert(hb.spec_contains(b));
            assert(!hb.spec_contains(cell_at(b, 0)));
        }
    }

    /// A cell in use lies in a run.
    pub proof fn lemma_in_use_in_run(&self, a: Address)
        requires self.spec_contains(a),
        ensures self.spec_range_of(a) is Some,
    {
    }

    /// Run `k` of `new` is run `k` of `old` (or a new run) grown by `size` zero cells, the rest
    /// being the same: the cells it grew by make a fresh chunk.
    proof fn lemma_grown_run(old: &Heap, new: &Heap, k: int, size: nat)
        requires
            old.wf(),
            new.wf(),
            new.base == old.base,
            0 <= k < new.ranges@.len(),
            new.ranges@.len() == old.ranges@.len() || (new.ranges@.len() == old.ranges@.len() + 1 && k
                == old.ranges@.len()),
            forall|kk: int| 0 <= kk < old.ranges@.len() && kk != k ==> #[trigger] new.ranges@[kk] == old.ranges@[kk]
                && new.size_lookup@[kk] == old.size_lookup@[kk],
            k < old.ranges@.len() ==> new.size_lookup@[k] == old.size_lookup@[k],
            new.size_lookup@[k].0 == size,
            ({
                let before = if k < old.ranges@.len() {
                    old.ranges@[k].memory@
                } else {
                    Seq::<Value>::empty()
                };
                &&& new.ranges@[k].memory@ == before + Seq::new(size, |i: int| Value::Number(0))
                &&& CELL_SIZE * before.len() <= 15 * 0x1000
            }),
        ensures
            ({
                let before_len = if k < old.ranges@.len() {
                    old.ranges@[k].memory@.len()
                } else {
                    0
                };
                fresh_chunk(
                    old,
                    new,
                    Address::spec_from_raw(new.base.raw() + RANGE_BYTES * k + CELL_SIZE * before_len),
                    size,
                )
            }),
    {
        let before_len: int = if k < old.ranges@.len() {
            old.ranges@[k].memory@.len() as int
        } else {
            0
        };
        let base = new.base.raw();
        let a = Address::spec_from_raw(base + RANGE_BYTES * k + CELL_SIZE * before_len);
        assert(new.ranges@[k].memory@.len() == before_len + size);
        assert(base + RANGE_BYTES * (k + 1) <= u64::MAX) by (nonlinear_arith)
            requires base + RANGE_BYTES * new.ranges@.len() <= u64::MAX, k + 1 <= new.ranges@.len(), base >= 0;
        assert(size < LARGEBIN_SIZE);
        assert(CELL_SIZE * (before_len + size) < 0x10000);
        lemma_run_offset(k, CELL_SIZE * before_len);
        assert(a.raw() == base + RANGE_BYTES * k + CELL_SIZE * before_len);
        assert(new.spec_lookup_size(a) == Some(size));
        assert forall|c: Address|
            old.spec_contains(c) && #[trigger] same_run(new.spec_heap_base(), c, a) implies old.spec_cell_index(c)
            < old.spec_cell_index(a) by {
            old.lemma_range_of(c);
            let kc = old.spec_range_of(c).unwrap();
            let xc = c.raw() - base - RANGE_BYTES * kc;
            lemma_run_offset(kc, xc);
            assert(kc == k);
        }
        assert forall|c: Address|
            #[trigger] new.spec_contains(c) && in_sized_pages(new.spec_heap_base(), c) implies old.spec_contains(c)
            || (same_run(new.spec_heap_base(), c, a) && new.spec_cell_index(a) <= new.spec_cell_index(c)
            < new.spec_cell_index(a) + size) by {
            new.lemma_range_of(c);
            let kc = new.spec_range_of(c).unwrap();
            let xc = c.raw() - base - RANGE_BYTES * kc;
            lemma_run_offset(kc, xc);
            if kc != k {
                assert(new.ranges@[kc] == old.ranges@[kc]);
                assert(old.spec_range_of(c) == Some(kc));
            } else if new.spec_offset_in(c, k) < before_len {
                assert(old.spec_range_of(c) == Some(k));
            }
        }
        if before_len > 0 {
            let x = CELL_SIZE * (before_len - 1);
            lemma_run_offset(k, x);
            let c = cell_at(a, -1);
            assert(c.raw() == base + RANGE_BYTES * k + x);
            assert(old.spec_range_of(c) == Some(k));
            assert(old.spec_offset_in(c, k) == before_len - 1);
        }
        assert forall|i: int| 0 <= i < size implies !old.spec_contains(#[trigger] cell_at(a, i)) by {
            let x = CELL_SIZE * (before_len + i);
            lemma_run_offset(k, x);
            assert(cell_at(a, i).raw() == base + RANGE_BYTES * k + x);
        }
        assert forall|i: int|
            0 <= i < size && in_sized_pages(new.spec_heap_base(), #[trigger] cell_at(a, i)) implies new.spec_contains(
            cell_at(a, i),
        ) && new.spec_read(cell_at(a, i)) == Value::Number(0) by {
            let x = CELL_SIZE * (before_len + i);
            lemma_run_offset(k, x);
            let c = cell_at(a, i);
            assert(c.raw() == base + RANGE_BYTES * k + x);
            assert(x <= 15 * 0x1000);
            assert(new.spec_range_of(c) == Some(k));
            assert(new.spec_offset_in(c, k) == before_len + i);
            assert(new.ranges@[k].memory@[before_len + i] == Value::Number(0));
        }
    }

    /// On a heap with no runs yet, a request that some size class serves gets the heap's
    /// base address (the first chunk of a new run), and any other is refused.
    pub proof fn lemma_fresh_allocation(&self, size: nat)
        requires
            self.wf(),
            self.spec_num_ranges() == 0,
            self.spec_heap_base().raw() + RANGE_BYTES <= u64::MAX,
        ensures
            self.spec_allocation(size) == match size_class(size) {
                Some(_) => Ok::<Address, Error>(Address::spec_from_raw(self.spec_heap_base().raw() as int)),
                None => Err::<Address, Error>(Error::InvalidSize),
            },
    {
        match size_class(size) {
            Some((adjusted, class)) => {
                let t = self.sections@[class as int]@;
                assert(t.len() == 0) by {
                    if t.len() > 0 {
                        assert(self.sections@[class as int]@[0] < self.ranges@.len());
                    }
                }
                assert(last_open(self.ranges@, t, t.len()) == -1);
            },
            None => {},
        }
    }

    /// Creates an empty heap whose runs start at `base`.
    pub fn new(base: u64) -> (r: Self)
        ensures
            r.wf(),
            r.spec_nothing_pending(),
            r.spec_end() == r.spec_base(),
            r.spec_heap_base().raw() == base,
            r.spec_base().raw() == base,
            r.spec_num_ranges() == 0,
            forall|a: Address| !r.spec_contains(a),
            forall|a: Address| #[trigger] r.spec_range_of(a) is None && r.spec_lookup_size(a) is None,
    {
        let mut sections: Vec<Vec<usize>> = Vec::new();
        let mut i: usize = 0;
        while i < NUM_CLASSES
            invariant
                i <= NUM_CLASSES,
                sections@.len() == i,
                forall|c: int| 0 <= c < i ==> (#[trigger] sections@[c])@.len() == 0,
            decreases NUM_CLASSES - i,
        {
            sections.push(Vec::new());
            i = i + 1;
        }
        Heap { base: Address(Bytes(base)), sections, size_lookup: Vec::new(), ranges: Vec::new() }
    }

    /// Hands out a chunk of at least `size` bytes.
    ///
    /// The request is rounded up to its size class; the runs of that class are searched
    /// from the last one for one that is not full, which is moved to the end of the search
    /// order and serves the request from its freed chunks or its unused tail; without such
    /// a run, a new run is made.
    pub fn allocate(&mut self, size: Bytes) -> (r: Result<Address, Error>)
        requires
            old(self).wf(),
            size.0 + CELL_SIZE - 1 <= u64::MAX,
        ensures
            final(self).wf(),
            final(self).spec_heap_base() == old(self).spec_heap_base(),
            r == old(self).spec_allocation(div_ceil(size.0 as int, CELL_SIZE as int) as nat),
            kept_in_use(old(self), final(self)),
            r is Err ==> forall|a: Address| #[trigger] final(self).spec_contains(a) == old(self).spec_contains(a),
            size_class(div_ceil(size.0 as int, CELL_SIZE as int) as nat) is None ==> r == Err::<Address, Error>(
                Error::InvalidSize,
            ),
            size_class(div_ceil(size.0 as int, CELL_SIZE as int) as nat) is Some && old(self).spec_heap_base().raw()
                + RANGE_BYTES * (old(self).spec_num_ranges() + 1) <= u64::MAX ==> r is Ok,
            final(self).spec_num_ranges() <= old(self).spec_num_ranges() + 1,
            forall|a: Address| #[trigger] old(self).spec_lookup_size(a) is Some ==> final(self).spec_lookup_size(a)
                == old(self).spec_lookup_size(a),
            old(self).spec_nothing_pending() ==> final(self).spec_nothing_pending(),
            old(self).spec_nothing_pending() ==> (r matches Ok(a) ==> size_class(
                div_ceil(size.0 as int, CELL_SIZE as int) as nat,
            ) matches Some((adjusted, _)) && fresh_chunk(old(self), final(self), a, adjusted)),
    {
        let cells = size.to_cells();
        let (adjusted, class) = match lookup_class(cells) {
            Ok(c) => c,
            Err(e) => {
                return Err(e);
            },
        };
        let n = self.sections[class].len();
        let mut i = n;
        let mut found = false;
        while i > 0
            invariant_except_break
                !found,
            invariant
                self.wf(),
                n == self.sections@[class as int]@.len(),
                class < NUM_CLASSES,
                i <= n,
                last_open(self.ranges@, self.sections@[class as int]@, n as nat) == last_open(
                    self.ranges@,
                    self.sections@[class as int]@,
                    i as nat,
                ),
            ensures
                found ==> i > 0 && last_open(self.ranges@, self.sections@[class as int]@, n as nat) == i - 1,
                !found ==> last_open(self.ranges@, self.sections@[class as int]@, n as nat) == -1,
            decreases i,
        {
            let k = self.sections[class][i - 1];
            if !self.ranges[k].is_full() {
                found = true;
                break;
            }
            i = i - 1;
        }
        let ghost old_heap = *self;
        proof {
            lemma_last_open_bounds(self.ranges@, self.sections@[class as int]@, n as nat);
        }
        if found {
            let p = i - 1;
            let k = self.sections[class][p];
            if p < n - 1 {
                let last = self.sections[class][n - 1];
                self.sections[class].set(p, last);
                self.sections[class].set(n - 1, k);
            }
            assert(self.ranges@ == old_heap.ranges@);
            let ghost swapped = *self;
            let r = self.ranges[k].allocate_next();
            proof {
                let t = old_heap.sections@[class as int]@;
                assert(t[p as int] == k);
                assert(old_heap.ranges@[k as int].chunk_size.0 == adjusted.0);
                let len_k = old_heap.ranges@[k as int].memory@.len();
                if old_heap.spec_nothing_pending() {
                    assert(old_heap.ranges@[k as int].available@.len() == 0);
                    assert(!range_full(len_k, 0));
                    assert(CELL_SIZE * len_k <= 15 * 0x1000) by (nonlinear_arith)
                        requires div_ceil(len_k * CELL_SIZE, 0x1000) != 16, len_k <= RANGE_CELLS;
                    assert(self.spec_nothing_pending()) by {
                        assert forall|kk: int| 0 <= kk < self.ranges@.len() implies (#[trigger] self.ranges@[kk]).available@.len()
                            == 0 by {
                            if kk != k as int {
                                assert(self.ranges@[kk] == old_heap.ranges@[kk]);
                            }
                        }
                    }
                    Heap::lemma_grown_run(&old_heap, self, k as int, adjusted.0 as nat);
                }
            }
            proof {
                assert forall|c: int, j: int| 0 <= c < self.sections@.len() && 0 <= j < self.sections@[c]@.len()
                    implies #[trigger] self.sections@[c]@[j] < self.ranges@.len() by {
                    if c != class as int {
                        assert(self.sections@[c] == old_heap.sections@[c]);
                    } else {
                        assert(self.sections@[c]@.len() == n);
                        assert(self.sections@[c]@[j] < self.ranges@.len());
                    }
                }
                assert forall|a: Address| #[trigger] old_heap.spec_contains(a) implies self.spec_contains(a)
                    && self.spec_read(a) == old_heap.spec_read(a) by {
                    old_heap.lemma_range_of(a);
                    let ka = old_heap.spec_range_of(a).unwrap();
                    assert(self.ranges@[ka].memory@.len() >= old_heap.ranges@[ka].memory@.len());
                }
            }
            r
        } else {
            let len = self.ranges.len();
            assert((len + 1) * RANGE_BYTES <= u64::MAX - self.base.raw() <==> len + 1 <= (u64::MAX
                - self.base.raw()) / RANGE_BYTES as int) by (nonlinear_arith);
            if (len as u64) + 1 > (u64::MAX - self.base.0.0) / RANGE_BYTES {
                return Err(Error::InsufficientMemory);
            }
            let base = self.base.plus(Bytes(RANGE_BYTES * (len as u64)));
            self.size_lookup.push(adjusted);
            self.ranges.push(PageRange::new(base, adjusted));
            self.sections[class].push(len);
            let r = self.ranges[len].allocate_next();
            proof {
                if old_heap.spec_nothing_pending() {
                    assert(self.spec_nothing_pending()) by {
                        assert forall|kk: int| 0 <= kk < self.ranges@.len() implies (#[trigger] self.ranges@[kk]).available@.len()
                            == 0 by {
                            if kk < len as int {
                                assert(self.ranges@[kk] == old_heap.ranges@[kk]);
                            }
                        }
                    }
                    assert(self.ranges@[len as int].memory@ =~= Seq::<Value>::empty() + Seq::new(
                        adjusted.0 as nat,
                        |i: int| Value::Number(0),
                    ));
                    Heap::lemma_grown_run(&old_heap, self, len as int, adjusted.0 as nat);
                }
            }
            proof {
                assert forall|c: int, j: int| 0 <= c < self.sections@.len() && 0 <= j < self.sections@[c]@.len()
                    implies #[trigger] self.sections@[c]@[j] < self.ranges@.len() by {
                    if c != class as int {
                        assert(self.sections@[c] == old_heap.sections@[c]);
                    } else if j < old_heap.sections@[c]@.len() {
                        assert(self.sections@[c]@[j] == old_heap.sections@[c]@[j]);
                    }
                }
                assert forall|kk: int| 0 <= kk < self.ranges@.len() implies {
                    &&& (#[trigger] self.ranges@[kk]).base.raw() == self.base.raw() + RANGE_BYTES * kk
                    &&& self.ranges@[kk].memory@.len() <= RANGE_CELLS
                    &&& self.ranges@[kk].chunk_size == self.size_lookup@[kk]
                    &&& self.size_lookup@[kk].0 < LARGEBIN_SIZE
                } by {
                    if kk < len as int {
                        assert(self.ranges@[kk] == old_heap.ranges@[kk]);
                        assert(self.size_lookup@[kk] == old_heap.size_lookup@[kk]);
                    }
                }
                assert forall|a: Address| #[trigger] old_heap.spec_contains(a) implies self.spec_contains(a)
                    && self.spec_read(a) == old_heap.spec_read(a) by {
                    old_heap.lemma_range_of(a);
                }
            }
            r
        }
    }

    /// Gives the chunk at `address` back to its run: the run shrinks where it is its topmost
    /// chunk, else the chunk waits for reuse.
    pub fn free(&mut self, address: Address) -> (r: ForthResult)
        requires old(self).wf(),
        ensures
            final(self).wf(),
            freed(old(self), final(self), address, r),
            old(self).spec_range_of(address) is Some ==> freed_from(old(self), final(self), address),
    {
        match self.locate_range(address) {
            None => Err(Error::InvalidAddress),
            Some(k) => {
                let ghost before = *self;
                self.ranges[k].free(address);
                proof {
                    if before.spec_frees_top(address) {
                        before.lemma_range_of(address);
                        let base = before.base.raw();
                        let xa = address.raw() - base - RANGE_BYTES * k;
                        lemma_run_offset(k as int, xa);
                        assert forall|c: Address| #[trigger] self.spec_contains(c) == (before.spec_contains(c)
                            && !(same_run(before.spec_heap_base(), c, address) && before.spec_cell_index(c)
                            >= before.spec_cell_index(address))) by {
                            before.lemma_range_of(c);
                            self.lemma_range_of(c);
                            if c.raw() >= base {
                                let kc = (c.raw() - base) / RANGE_BYTES as int;
                                assert(RANGE_BYTES * kc <= c.raw() - base < RANGE_BYTES * kc + RANGE_BYTES) by (nonlinear_arith)
                                    requires kc == (c.raw() - base) / 0x10000, c.raw() - base >= 0;
                                let xc = c.raw() - base - RANGE_BYTES * kc;
                                lemma_run_offset(kc, xc);
                            }
                        }
                    }
                }
                Ok(())
            },
        }
    }

    /// Moves the chunk at `address` to one of at least `size` bytes: a chunk already that
    /// large stays where it is; else it is freed and a new one is allocated (its contents
    /// are not copied).
    pub fn resize(&mut self, address: Address, size: Bytes) -> (r: Result<Address, Error>)
        requires
            old(self).wf(),
            size.0 + CELL_SIZE - 1 <= u64::MAX,
        ensures
            final(self).wf(),
            r == old(self).spec_resize_result(address, div_ceil(size.0 as int, CELL_SIZE as int) as nat),
            old(self).spec_lookup_size(address) is None ==> r == Err::<Address, Error>(Error::InvalidAddress),
            old(self).spec_lookup_size(address) matches Some(s) && s >= div_ceil(size.0 as int, CELL_SIZE as int)
                ==> r == Ok::<Address, Error>(address) && *final(self) == *old(self),
            old(self).spec_lookup_size(address) matches Some(s) && s < div_ceil(size.0 as int, CELL_SIZE as int)
                && old(self).spec_range_of(address) is None ==> r == Err::<Address, Error>(Error::InvalidAddress),
    {
        let old_size = match self.lookup_size(address) {
            Ok(s) => s,
            Err(e) => {
                return Err(e);
            },
        };
        if old_size.0 < size.to_cells().0 {
            let ghost before = *self;
            match self.free(address) {
                Ok(()) => {},
                Err(e) => {
                    return Err(e);
                },
            }
            proof {
                let cells = div_ceil(size.0 as int, CELL_SIZE as int) as nat;
                let chosen = choose|h: Heap| freed_from(&before, &h, address);
                assert(freed_from(&before, self, address));
                before.lemma_freed_from_allocates_alike(&chosen, self, address, cells);
            }
            self.allocate(size)
        } else {
            Ok(address)
        }
    }

    /// The description of the small bin: a heading with its first size, its end size and
    /// its step, then for each of its sizes the runs of that size, in the order they are
    /// searched, each with its address, the chunks that wait for reuse and every cell it
    /// uses.
    pub closed spec fn spec_description(&self) -> Seq<char> {
        "smallbin ["@ + cells_text(0) + " "@ + cells_text(SMALLBIN_SIZE as nat) + " "@ + cells_text(
            SMALLBIN_STEP as nat,
        ) + "]:\n"@ + bins_text(self.ranges@, self.sections@, SMALLBIN_CLASSES as nat)
    }

    /// Writes out the small bin as `spec_description` says.
    pub fn to_string(&self) -> (r: String)
        requires self.wf(),
        ensures r@ == self.spec_description(),
    {
        let mut s = String::from_str("smallbin [");
        s.append(Cells(0).to_string().as_str());
        s.append(" ");
        s.append(Cells(SMALLBIN_SIZE).to_string().as_str());
        s.append(" ");
        s.append(Cells(SMALLBIN_STEP).to_string().as_str());
        s.append("]:\n");
        let ghost heading = s@;
        proof {
            reveal_strlit("smallbin [");
            reveal_strlit(" ");
            reveal_strlit("]:\n");
        }
        let mut class: usize = 0;
        while class < SMALLBIN_CLASSES
            invariant
                self.wf(),
                class <= SMALLBIN_CLASSES,
                s@ == heading + bins_text(self.ranges@, self.sections@, class as nat),
            decreases SMALLBIN_CLASSES - class,
        {
            s.append("\nsize: ");
            s.append(Cells(SMALLBIN_STEP * (class as u64)).to_string().as_str());
            s.append(":\n");
            let ghost before = s@;
            let section = &self.sections[class];
            let mut j: usize = 0;
            while j < section.len()
                invariant
                    self.wf(),
                    class < SMALLBIN_CLASSES,
                    *section == self.sections@[class as int],
                    j <= section@.len(),
                    s@ == before + section_text(self.ranges@, section@, j as nat),
                decreases section@.len() - j,
            {
                let k = section[j];
                assert(self.sections@[class as int]@[j as int] < self.ranges@.len());
                self.ranges[k].describe(&mut s);
                j = j + 1;
                assert(s@ =~= before + section_text(self.ranges@, section@, j as nat));
            }
            class = class + 1;
            proof {
                reveal_strlit("\nsize: ");
                reveal_strlit(":\n");
            }
            assert(s@ =~= heading + bins_text(self.ranges@, self.sections@, class as nat));
        }
        s
    }

    /// The chunk size of the run that `address` falls in, by the size table.
    fn lookup_size(&self, address: Address) -> (r: Result<Cells, Error>)
        requires self.wf(),
        ensures
            match self.spec_lookup_size(address) {
                Some(s) => r == Ok::<Cells, Error>(Cells(s as u64)),
                None => r == Err::<Cells, Error>(Error::InvalidAddress),
            },
    {
        if address.0.0 < self.base.0.0 {
            return Err(Error::InvalidAddress);
        }
        let offset = address.0.0 - self.base.0.0;
        let index = (offset / 0x1000 + if offset % 0x1000 == 0 { 0 } else { 1 }) / 16;
        assert(index == div_ceil(offset as int, 0x1000) / 16) by (nonlinear_arith)
            requires index == (offset / 0x1000 + if offset % 0x1000 == 0 { 0int } else { 1int }) / 16;
        if index >= self.size_lookup.len() as u64 {
            return Err(Error::InvalidAddress);
        }
        Ok(self.size_lookup[index as usize])
    }

    /// Where `spec_range_of` finds a run, the address lies in that run's used part.
    proof fn lemma_range_of(&self, address: Address)
        requires self.wf(),
        ensures
            self.spec_range_of(address) matches Some(k) ==> {
                &&& 0 <= k < self.ranges@.len()
                &&& self.ranges@[k].base.raw() == self.base.raw() + RANGE_BYTES * k
                &&& self.ranges@[k].base.raw() <= address.raw()
                &&& address.raw() < self.ranges@[k].base.raw() + CELL_SIZE * self.ranges@[k].memory@.len()
                &&& self.spec_offset_in(address, k) <= self.ranges@[k].memory@.len()
                &&& self.spec_offset_in(address, k) >= 0
                &&& self.ranges@[k].memory@.len() <= RANGE_CELLS
            },
    {
        if address.raw() >= self.base.raw() {
            let off = address.raw() - self.base.raw();
            let k = off / RANGE_BYTES as int;
            assert(RANGE_BYTES * k <= off) by (nonlinear_arith)
                requires k == off / 0x10000, off >= 0;
            if let Some(kk) = self.spec_range_of(address) {
                let x = off - RANGE_BYTES * k;
                let n = self.ranges@[k].memory@.len();
                assert((x + 7) / 8 <= n) by (nonlinear_arith)
                    requires x < 8 * n, x >= 0;
                assert((x + 7) / 8 >= 0) by (nonlinear_arith)
                    requires x >= 0;
            }
        }
    }

    /// The run whose used part holds `address`, when the size table leads to it.
    fn locate_range(&self, address: Address) -> (r: Option<usize>)
        requires self.wf(),
        ensures
            r matches Some(k) ==> self.spec_range_of(address) == Some(k as int),
            r is None <==> self.spec_range_of(address) is None,
    {
        let size = match self.lookup_size(address) {
            Ok(s) => s,
            Err(_) => {
                return None;
            },
        };
        let offset = address.0.0 - self.base.0.0;
        let k = offset / RANGE_BYTES;
        if k >= self.ranges.len() as u64 {
            return None;
        }
        let k = k as usize;
        proof {
            assert(self.ranges@[k as int].base.raw() == self.base.raw() + RANGE_BYTES * k);
        }
        if self.size_lookup[k].0 == size.0 && self.ranges[k].in_range(address) {
            Some(k)
        } else {
            None
        }
    }

    /// The run and cell that `address` refers to, when it is in use.
    fn locate_cell(&self, address: Address) -> (r: Option<(usize, usize)>)
        requires self.wf(),
        ensures
            r matches Some((k, o)) ==> self.spec_range_of(address) == Some(k as int)
                && o == self.spec_offset_in(address, k as int) && o < self.ranges@[k as int].memory@.len(),
            r is None <==> !self.spec_contains(address),
    {
        proof { self.lemma_range_of(address); }
        match self.locate_range(address) {
            None => None,
            Some(k) => {
                let o = self.ranges[k].cell_offset(address);
                if o.0 < self.ranges[k].memory.len() as u64 {
                    Some((k, o.0 as usize))
                } else {
                    None
                }
            },
        }
    }
}

impl MemorySegment for Heap {
    open spec fn wf(&self) -> bool {
        Heap::wf(self)
    }

    closed spec fn spec_base(&self) -> Address {
        self.base
    }

    closed spec fn spec_extent(&self) -> nat {
        (self.ranges@.len() * RANGE_CELLS) as nat
    }

    closed spec fn spec_same_shape(&self, other: &Self) -> bool {
        &&& self.base == other.base
        &&& self.size_lookup@ == other.size_lookup@
        &&& self.sections@ == other.sections@
        &&& self.ranges@.len() == other.ranges@.len()
        &&& forall|k: int| 0 <= k < self.ranges@.len() ==> {
            &&& (#[trigger] self.ranges@[k]).base == other.ranges@[k].base
            &&& self.ranges@[k].chunk_size == other.ranges@[k].chunk_size
            &&& self.ranges@[k].memory@.len() == other.ranges@[k].memory@.len()
        }
    }

    closed spec fn spec_end(&self) -> Address {
        Address::spec_from_raw(self.base.raw() + RANGE_BYTES * self.ranges@.len())
    }

    closed spec fn spec_contains(&self, address: Address) -> bool {
        match self.spec_range_of(address) {
            Some(k) => self.spec_offset_in(address, k) < self.ranges@[k].memory@.len(),
            None => false,
        }
    }

    closed spec fn spec_cell_index(&self, address: Address) -> int {
        div_ceil(address.raw() - self.base.raw(), CELL_SIZE as int)
    }

    closed spec fn spec_read(&self, address: Address) -> Value {
        let k = self.spec_range_of(address).unwrap();
        self.ranges@[k].memory@[self.spec_offset_in(address, k)]
    }

    proof fn lemma_same_shape_refl(&self) {
    }

    proof fn lemma_same_shape_trans(&self, b: &Self, c: &Self) {
    }

    proof fn lemma_next_cell(&self, a: Address) {
        let x = a.raw() - self.base.raw();
        assert((x + 8 + 7) / 8 == (x + 7) / 8 + 1) by (nonlinear_arith);
    }

    fn get_base(&self) -> (r: Address) {
        self.base
    }

    fn get_end(&self) -> (r: Address) {
        self.base.plus(Bytes(RANGE_BYTES * (self.ranges.len() as u64)))
    }

    fn check_address(&self, address: Address) -> (r: ForthResult) {
        match self.locate_cell(address) {
            Some(_) => Ok(()),
            None => Err(Error::InvalidAddress),
        }
    }

    fn write_value(&mut self, address: Address, value: Value) -> (r: ForthResult) {
        match self.locate_cell(address) {
            None => Err(Error::InvalidAddress),
            Some((k, o)) => {
                let ghost before = *self;
                self.ranges[k].memory.set(o, value);
                proof {
                    assert forall|a: Address| before.spec_contains(a) implies #[trigger] self.spec_read(a)
                        == if before.spec_cell_index(a) == before.spec_cell_index(address) {
                        value
                    } else {
                        before.spec_read(a)
                    } by {
                        let ka = before.spec_range_of(a).unwrap();
                        lemma_cell_split(before.base.raw(), a.raw(), ka, address.raw(), k as int);
                    }
                }
                Ok(())
            },
        }
    }

    fn read_value(&self, address: Address) -> (r: Result<Value, Error>) {
        match self.locate_cell(address) {
            None => Err(Error::InvalidAddress),
            Some((k, o)) => Ok(self.ranges[k].memory[o]),
        }
    }
}

/// Two addresses in use in runs `ka` and `kb` refer to the same heap cell exactly when they
/// refer to the same cell of the same run.
proof fn lemma_cell_split(base: int, a: int, ka: int, b: int, kb: int)
    requires
        base + RANGE_BYTES * ka <= a,
        a - base - RANGE_BYTES * ka < RANGE_BYTES,
        base + RANGE_BYTES * kb <= b,
        b - base - RANGE_BYTES * kb < RANGE_BYTES,
        div_ceil(a - base - RANGE_BYTES * ka, CELL_SIZE as int) < RANGE_CELLS,
        div_ceil(b - base - RANGE_BYTES * kb, CELL_SIZE as int) < RANGE_CELLS,
    ensures
        div_ceil(a - base, CELL_SIZE as int) == div_ceil(a - base - RANGE_BYTES * ka, CELL_SIZE as int)
            + RANGE_CELLS * ka,
        (div_ceil(a - base, CELL_SIZE as int) == div_ceil(b - base, CELL_SIZE as int)) == (ka == kb
            && div_ceil(a - base - RANGE_BYTES * ka, CELL_SIZE as int) == div_ceil(
            b - base - RANGE_BYTES * kb,
            CELL_SIZE as int,
        )),
{
    let xa = a - base - RANGE_BYTES * ka;
    let xb = b - base - RANGE_BYTES * kb;
    assert((xa + 0x10000 * ka + 7) / 8 == (xa + 7) / 8 + 8192 * ka) by (nonlinear_arith);
    assert((xb + 0x10000 * kb + 7) / 8 == (xb + 7) / 8 + 8192 * kb) by (nonlinear_arith);
}

} // verus!

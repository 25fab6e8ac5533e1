use vstd::prelude::*;

use crate::bytes::copy_bytes;
use crate::error::ErrorKind;

verus! {

/// A descriptor of a buffer inside one instance's linear memory: where it starts,
/// how much room it has, and how many of those bytes are in use.
#[derive(Clone, Copy, Debug, PartialEq, Eq, Structural)]
pub struct Region {
    pub offset: u32,
    pub capacity: u32,
    pub length: u32,
}

/// The linear memory of one instance. Buffers are handed out upwards from
/// `heap_top`; nothing below it is ever written again.
#[derive(Debug)]
pub struct LinearMemory {
    pub bytes: Vec<u8>,
    pub heap_top: usize,
}

impl LinearMemory {
    pub open spec fn wf(&self) -> bool {
        self.heap_top <= self.bytes@.len()
    }

    /// A zeroed memory of `size` bytes with nothing allocated.
    pub fn new(size: usize) -> (r: LinearMemory)
        ensures
            r.wf(),
            r.bytes@ == Seq::new(size as nat, |i: int| 0u8),
            r.heap_top == 0,
    {
        let bytes = vec![0u8; size];
        assert(bytes@ =~= Seq::new(size as nat, |i: int| 0u8));
        LinearMemory { bytes, heap_top: 0 }
    }

    /// A memory with the given contents, allocated up to `heap_top`.
    pub fn from_bytes(bytes: Vec<u8>, heap_top: usize) -> (r: Option<LinearMemory>)
        ensures
            r is Some <==> heap_top <= bytes@.len(),
            r is Some ==> r->Some_0.wf() && r->Some_0.bytes@ == bytes@ && r->Some_0.heap_top == heap_top,
    {
        if heap_top <= bytes.len() {
            Some(LinearMemory { bytes, heap_top })
        } else {
            None
        }
    }
}

/// The region lies inside the memory and uses no more than its capacity.
pub open spec fn region_in_bounds(mem: Seq<u8>, r: Region) -> bool {
    r.length <= r.capacity && r.offset + r.capacity <= mem.len()
}

/// The bytes that a region in bounds holds.
pub open spec fn region_bytes(mem: Seq<u8>, r: Region) -> Seq<u8> {
    mem.subrange(r.offset as int, r.offset + r.length)
}

/// The sum of the lengths of the regions.
pub open spec fn total_length(rs: Seq<Region>) -> int
    decreases rs.len(),
{
    if rs.len() == 0 {
        0
    } else {
        total_length(rs.drop_last()) + rs.last().length
    }
}

/// The sum of the lengths of the values.
pub open spec fn values_length(vs: Seq<Vec<u8>>) -> int
    decreases vs.len(),
{
    if vs.len() == 0 {
        0
    } else {
        values_length(vs.drop_last()) + vs.last()@.len()
    }
}

/// The memory after `data` was copied in at `at`.
pub open spec fn written(mem: Seq<u8>, at: int, data: Seq<u8>) -> Seq<u8> {
    mem.subrange(0, at) + data + mem.subrange(at + data.len(), mem.len() as int)
}

/// Whether `len` more bytes can be allocated: they fit below the memory's end,
/// and a region can still describe them.
pub open spec fn can_allocate(mem: LinearMemory, len: int) -> bool {
    mem.heap_top + len <= mem.bytes@.len() && mem.heap_top + len <= u32::MAX
}

proof fn lemma_total_length_monotone(rs: Seq<Region>, i: int)
    requires
        0 <= i <= rs.len(),
    ensures
        total_length(rs.subrange(0, i)) <= total_length(rs),
    decreases rs.len() - i,
{
    if i < rs.len() {
        lemma_total_length_monotone(rs, i + 1);
        assert(rs.subrange(0, i + 1).drop_last() =~= rs.subrange(0, i));
    } else {
        assert(rs.subrange(0, i) =~= rs);
    }
}

proof fn lemma_values_length_nonneg(vs: Seq<Vec<u8>>)
    ensures
        values_length(vs) >= 0,
    decreases vs.len(),
{
    if vs.len() > 0 {
        lemma_values_length_nonneg(vs.drop_last());
    }
}

proof fn lemma_values_length_step(vs: Seq<Vec<u8>>, i: int)
    requires
        0 <= i < vs.len(),
    ensures
        values_length(vs.subrange(0, i + 1)) == values_length(vs.subrange(0, i)) + vs[i]@.len(),
{
    assert(vs.subrange(0, i + 1).drop_last() =~= vs.subrange(0, i));
}

proof fn lemma_values_length_monotone(vs: Seq<Vec<u8>>, i: int)
    requires
        0 <= i <= vs.len(),
    ensures
        values_length(vs.subrange(0, i)) <= values_length(vs),
    decreases vs.len() - i,
{
    if i < vs.len() {
        lemma_values_length_monotone(vs, i + 1);
        lemma_values_length_step(vs, i);
    } else {
        assert(vs.subrange(0, i) =~= vs);
    }
}

/// Writing at `at` leaves every range below `at` as it was.
proof fn lemma_written_keeps_below(mem: Seq<u8>, at: int, data: Seq<u8>, o: int, l: int)
    requires
        0 <= o,
        0 <= l,
        o + l <= at,
        at + data.len() <= mem.len(),
    ensures
        written(mem, at, data).subrange(o, o + l) == mem.subrange(o, o + l),
{
    let w = written(mem, at, data);
    assert forall|j: int| o <= j < o + l implies #[trigger] w[j] == mem[j] by {
        assert(mem.subrange(0, at)[j] == mem[j]);
    }
    assert(w.subrange(o, o + l) =~= mem.subrange(o, o + l));
}

/// Reads the bytes of one region out of a memory.
pub fn read_region(mem: &LinearMemory, region: &Region) -> (r: Result<Vec<u8>, ErrorKind>)
    ensures
        region_in_bounds(mem.bytes@, *region) ==> r is Ok && r->Ok_0@ == region_bytes(mem.bytes@, *region),
        !region_in_bounds(mem.bytes@, *region) ==> r == Err::<Vec<u8>, ErrorKind>(ErrorKind::RegionOutOfBounds),
{
    if region.length > region.capacity {
        return Err(ErrorKind::RegionOutOfBounds);
    }
    let offset = region.offset as usize;
    let capacity = region.capacity as usize;
    if capacity > mem.bytes.len() || offset > mem.bytes.len() - capacity {
        return Err(ErrorKind::RegionOutOfBounds);
    }
    let end = offset + region.length as usize;
    let part = vstd::slice::slice_subrange(mem.bytes.as_slice(), offset, end);
    Ok(vstd::slice::slice_to_vec(part))
}

/// Copies the values that `regions` describe out of `mem`. The sum of their lengths
/// may not exceed `max_total`; that is checked before any byte is read.
pub fn copy_values(mem: &LinearMemory, regions: &Vec<Region>, max_total: usize) -> (r: Result<Vec<Vec<u8>>, ErrorKind>)
    ensures
        total_length(regions@) > max_total ==> r == Err::<Vec<Vec<u8>>, ErrorKind>(ErrorKind::RegionOverflow),
        total_length(regions@) <= max_total && (exists|i: int| 0 <= i < regions@.len() && !region_in_bounds(mem.bytes@, #[trigger] regions@[i]))
            ==> r == Err::<Vec<Vec<u8>>, ErrorKind>(ErrorKind::RegionOutOfBounds),
        total_length(regions@) <= max_total && (forall|i: int| 0 <= i < regions@.len() ==> region_in_bounds(mem.bytes@, #[trigger] regions@[i]))
            ==> r is Ok,
        r is Ok ==> r->Ok_0@.len() == regions@.len()
            && forall|i: int| 0 <= i < regions@.len() ==> (#[trigger] r->Ok_0@[i])@ == region_bytes(mem.bytes@, regions@[i]),
{
    // the budget first
    let mut total: u64 = 0;
    let mut i: usize = 0;
    assert(regions@.subrange(0, 0) =~= Seq::<Region>::empty());
    while i < regions.len()
        invariant
            0 <= i <= regions@.len(),
            total == total_length(regions@.subrange(0, i as int)),
            total <= max_total,
        decreases regions@.len() - i,
    {
        assert(regions@.subrange(0, i + 1).drop_last() =~= regions@.subrange(0, i as int));
        let len = regions[i].length as u64;
        if len > max_total as u64 - total {
            proof {
                lemma_total_length_monotone(regions@, i + 1);
            }
            return Err(ErrorKind::RegionOverflow);
        }
        total = total + len;
        i = i + 1;
    }
    assert(regions@.subrange(0, regions@.len() as int) =~= regions@);
    // then the bytes
    let mut out: Vec<Vec<u8>> = Vec::new();
    let mut k: usize = 0;
    while k < regions.len()
        invariant
            0 <= k <= regions@.len(),
            total_length(regions@) <= max_total,
            out@.len() == k,
            forall|j: int| 0 <= j < k ==> region_in_bounds(mem.bytes@, #[trigger] regions@[j]),
            forall|j: int| 0 <= j < k ==> (#[trigger] out@[j])@ == region_bytes(mem.bytes@, regions@[j]),
        decreases regions@.len() - k,
    {
        match read_region(mem, &regions[k]) {
            Ok(value) => {
                out.push(value);
            },
            Err(e) => {
                return Err(e);
            },
        }
        k = k + 1;
    }
    Ok(out)
}

/// Allocates room for `data` at the top of the heap and copies it in.
/// Where there is no room, nothing is written.
pub fn write_value(dest: &mut LinearMemory, data: &[u8]) -> (r: Result<Region, ErrorKind>)
    requires
        old(dest).wf(),
    ensures
        final(dest).wf(),
        r is Ok <==> can_allocate(*old(dest), data@.len() as int),
        r is Err ==> r == Err::<Region, ErrorKind>(ErrorKind::AllocationFailure) && *final(dest) == *old(dest),
        r is Ok ==> {
            &&& r->Ok_0 == (Region { offset: old(dest).heap_top as u32, capacity: data@.len() as u32, length: data@.len() as u32 })
            &&& final(dest).bytes@ == written(old(dest).bytes@, old(dest).heap_top as int, data@)
            &&& final(dest).heap_top == old(dest).heap_top + data@.len()
            &&& region_bytes(final(dest).bytes@, r->Ok_0) == data@
        },
{
    let top = dest.heap_top;
    let len = data.len();
    if top > 0xffff_ffffusize || len > dest.bytes.len() - top || len > 0xffff_ffffusize - top {
        return Err(ErrorKind::AllocationFailure);
    }
    let ghost before = dest.bytes@;
    let mut k: usize = 0;
    while k < len
        invariant
            0 <= k <= len,
            len == data@.len(),
            top + len <= before.len(),
            top + len <= usize::MAX,
            dest.bytes@.len() == before.len(),
            forall|j: int| 0 <= j < before.len() ==> #[trigger] dest.bytes@[j] == (
                if top <= j < top + k { data@[j - top] } else { before[j] }),
        decreases len - k,
    {
        dest.bytes.set(top + k, data[k]);
        k = k + 1;
    }
    assert(dest.bytes@ =~= written(before, top as int, data@));
    dest.heap_top = top + len;
    let region = Region { offset: top as u32, capacity: len as u32, length: len as u32 };
    assert(region_bytes(dest.bytes@, region) =~= data@);
    Ok(region)
}

/// Copies all `values` into `dest`, one region each, one after the other.
/// Either all of them are written or, where they do not fit together, none is.
pub fn write_values(dest: &mut LinearMemory, values: &Vec<Vec<u8>>) -> (r: Result<Vec<Region>, ErrorKind>)
    requires
        old(dest).wf(),
    ensures
        final(dest).wf(),
        r is Ok <==> can_allocate(*old(dest), values_length(values@)),
        r is Err ==> r == Err::<Vec<Region>, ErrorKind>(ErrorKind::AllocationFailure) && *final(dest) == *old(dest),
        r is Ok ==> {
            &&& r->Ok_0@.len() == values@.len()
            &&& final(dest).heap_top == old(dest).heap_top + values_length(values@)
            &&& final(dest).bytes@.len() == old(dest).bytes@.len()
            &&& final(dest).bytes@.subrange(0, old(dest).heap_top as int)
                == old(dest).bytes@.subrange(0, old(dest).heap_top as int)
            &&& forall|i: int| 0 <= i < values@.len() ==> {
                &&& (#[trigger] r->Ok_0@[i]).offset == old(dest).heap_top + values_length(values@.subrange(0, i))
                &&& r->Ok_0@[i].length == values@[i]@.len()
                &&& r->Ok_0@[i].capacity == values@[i]@.len()
                &&& region_bytes(final(dest).bytes@, r->Ok_0@[i]) == values@[i]@
            }
        },
{
    let top = dest.heap_top;
    let room: usize = if top > 0xffff_ffffusize {
        0
    } else if dest.bytes.len() - top < 0xffff_ffffusize - top {
        dest.bytes.len() - top
    } else {
        0xffff_ffffusize - top
    };
    let mut total: usize = 0;
    let mut i: usize = 0;
    assert(values@.subrange(0, 0) =~= Seq::<Vec<u8>>::empty());
    while i < values.len()
        invariant
            0 <= i <= values@.len(),
            total == values_length(values@.subrange(0, i as int)),
            total <= room,
            *dest == *old(dest),
            dest.wf(),
            top == dest.heap_top,
            room as int == if top > u32::MAX { 0 } else if dest.bytes@.len() - top < u32::MAX - top {
                dest.bytes@.len() - top } else { u32::MAX - top },
        decreases values@.len() - i,
    {
        proof {
            lemma_values_length_step(values@, i as int);
        }
        if values[i].len() > room - total {
            proof {
                lemma_values_length_monotone(values@, i + 1);
            }
            return Err(ErrorKind::AllocationFailure);
        }
        total = total + values[i].len();
        i = i + 1;
    }
    assert(values@.subrange(0, values@.len() as int) =~= values@);
    if top > 0xffff_ffffusize {
        assert(values_length(values@) == 0);
        assert(!can_allocate(*dest, 0));
        return Err(ErrorKind::AllocationFailure);
    }
    let ghost start = *dest;
    let mut regions: Vec<Region> = Vec::new();
    let mut k: usize = 0;
    assert(dest.bytes@.subrange(0, top as int) =~= start.bytes@.subrange(0, top as int));
    while k < values.len()
        invariant
            0 <= k <= values@.len(),
            dest.wf(),
            start.wf(),
            start.heap_top == top,
            can_allocate(start, values_length(values@)),
            dest.bytes@.len() == start.bytes@.len(),
            dest.heap_top == top + values_length(values@.subrange(0, k as int)),
            dest.bytes@.subrange(0, top as int) == start.bytes@.subrange(0, top as int),
            regions@.len() == k,
            forall|j: int| 0 <= j < k ==> {
                &&& (#[trigger] regions@[j]).offset == top + values_length(values@.subrange(0, j))
                &&& regions@[j].length == values@[j]@.len()
                &&& regions@[j].capacity == values@[j]@.len()
                &&& regions@[j].offset + regions@[j].length <= dest.heap_top
                &&& region_bytes(dest.bytes@, regions@[j]) == values@[j]@
            },
        decreases values@.len() - k,
    {
        proof {
            lemma_values_length_step(values@, k as int);
            lemma_values_length_monotone(values@, k + 1);
            lemma_values_length_nonneg(values@.subrange(0, k as int));
        }
        let ghost before = *dest;
        let written_at = write_value(dest, values[k].as_slice());
        match written_at {
            Ok(region) => {
                proof {
                    assert forall|j: int| 0 <= j < k implies
                        region_bytes(dest.bytes@, #[trigger] regions@[j]) == values@[j]@ by {
                        lemma_written_keeps_below(before.bytes@, before.heap_top as int, values@[k as int]@,
                            regions@[j].offset as int, regions@[j].length as int);
                    }
                    lemma_written_keeps_below(before.bytes@, before.heap_top as int, values@[k as int]@, 0, top as int);
                }
                regions.push(region);
            },
            Err(e) => {
                return Err(e);
            },
        }
        k = k + 1;
    }
    assert(values@.subrange(0, values@.len() as int) =~= values@);
    Ok(regions)
}

/// Two lists of equal byte strings have the same total length.
pub(crate) proof fn lemma_values_length_views(a: Seq<Vec<u8>>, b: Seq<Vec<u8>>)
    requires
        a.len() == b.len(),
        forall|i: int| 0 <= i < a.len() ==> (#[trigger] a[i])@ == b[i]@,
    ensures
        values_length(a) == values_length(b),
    decreases a.len(),
{
    if a.len() > 0 {
        lemma_values_length_views(a.drop_last(), b.drop_last());
    }
}

/// The total length of a list is that of its first value plus that of the rest.
proof fn lemma_values_length_first(vs: Seq<Vec<u8>>)
    requires
        vs.len() > 0,
    ensures
        values_length(vs) == vs[0]@.len() + values_length(vs.drop_first()),
    decreases vs.len(),
{
    if vs.len() > 1 {
        lemma_values_length_first(vs.drop_last());
        assert(vs.drop_first().drop_last() =~= vs.drop_last().drop_first());
        assert(vs.drop_first().last() == vs.last());
        assert(vs.drop_last()[0] == vs[0]);
    } else {
        assert(vs.drop_first() =~= Seq::<Vec<u8>>::empty());
        assert(vs.drop_last() =~= Seq::<Vec<u8>>::empty());
        assert(values_length(vs.drop_last()) == 0);
    }
}

/// Values read out of regions are as long, together, as the regions say.
proof fn lemma_values_length_of_regions(mem: Seq<u8>, vs: Seq<Vec<u8>>, rs: Seq<Region>)
    requires
        vs.len() == rs.len(),
        forall|i: int| 0 <= i < rs.len() ==> region_in_bounds(mem, #[trigger] rs[i]),
        forall|i: int| 0 <= i < rs.len() ==> (#[trigger] vs[i])@ == region_bytes(mem, rs[i]),
    ensures
        values_length(vs) == total_length(rs),
    decreases rs.len(),
{
    if rs.len() > 0 {
        let n = rs.len() - 1;
        assert(vs[n]@ == region_bytes(mem, rs[n]));
        assert(region_in_bounds(mem, rs[n]));
        lemma_values_length_of_regions(mem, vs.drop_last(), rs.drop_last());
    }
}

/// Copies the values that `regions` describe from `src` into fresh regions of `dest`,
/// under a budget on their total length. On any failure `dest` is left as it was.
pub fn copy_region_vals_between(src: &LinearMemory, regions: &Vec<Region>, max_total: usize, dest: &mut LinearMemory)
    -> (r: Result<Vec<Region>, ErrorKind>)
    requires
        old(dest).wf(),
    ensures
        final(dest).wf(),
        r is Err ==> *final(dest) == *old(dest),
        total_length(regions@) > max_total ==> r == Err::<Vec<Region>, ErrorKind>(ErrorKind::RegionOverflow),
        total_length(regions@) <= max_total && (exists|i: int| 0 <= i < regions@.len() && !region_in_bounds(src.bytes@, #[trigger] regions@[i]))
            ==> r == Err::<Vec<Region>, ErrorKind>(ErrorKind::RegionOutOfBounds),
        r is Ok <==> {
            &&& total_length(regions@) <= max_total
            &&& forall|i: int| 0 <= i < regions@.len() ==> region_in_bounds(src.bytes@, #[trigger] regions@[i])
            &&& can_allocate(*old(dest), total_length(regions@))
        },
        total_length(regions@) <= max_total && (forall|i: int| 0 <= i < regions@.len() ==> region_in_bounds(src.bytes@, #[trigger] regions@[i]))
            && !can_allocate(*old(dest), total_length(regions@)) ==> r == Err::<Vec<Region>, ErrorKind>(ErrorKind::AllocationFailure),
        r is Ok ==> {
            &&& r->Ok_0@.len() == regions@.len()
            &&& forall|i: int| 0 <= i < regions@.len() ==>
                region_bytes(final(dest).bytes@, #[trigger] r->Ok_0@[i]) == region_bytes(src.bytes@, regions@[i])
        },
{
    let values = copy_values(src, regions, max_total)?;
    proof {
        lemma_values_length_of_regions(src.bytes@, values@, regions@);
    }
    write_values(dest, &values)
}

/// Marshals the arguments of a call into the callee's memory: first the serialized
/// environment, then each value that `arg_regions` describe in the caller's memory.
/// The arguments may not exceed `max_total` bytes together. On any failure the
/// callee's memory is left as it was.
pub fn marshal_arguments(
    caller: &LinearMemory,
    arg_regions: &Vec<Region>,
    max_total: usize,
    env: &[u8],
    callee: &mut LinearMemory,
) -> (r: Result<Vec<Region>, ErrorKind>)
    requires
        old(callee).wf(),
    ensures
        final(callee).wf(),
        r is Err ==> *final(callee) == *old(callee),
        total_length(arg_regions@) > max_total ==> r == Err::<Vec<Region>, ErrorKind>(ErrorKind::RegionOverflow),
        total_length(arg_regions@) <= max_total && (exists|i: int| 0 <= i < arg_regions@.len() && !region_in_bounds(caller.bytes@, #[trigger] arg_regions@[i]))
            ==> r == Err::<Vec<Region>, ErrorKind>(ErrorKind::RegionOutOfBounds),
        r is Ok <==> {
            &&& total_length(arg_regions@) <= max_total
            &&& forall|i: int| 0 <= i < arg_regions@.len() ==> region_in_bounds(caller.bytes@, #[trigger] arg_regions@[i])
            &&& can_allocate(*old(callee), env@.len() + total_length(arg_regions@))
        },
        total_length(arg_regions@) <= max_total && (forall|i: int| 0 <= i < arg_regions@.len() ==> region_in_bounds(caller.bytes@, #[trigger] arg_regions@[i]))
            && !can_allocate(*old(callee), env@.len() + total_length(arg_regions@))
            ==> r == Err::<Vec<Region>, ErrorKind>(ErrorKind::AllocationFailure),
        r is Ok ==> {
            &&& r->Ok_0@.len() == arg_regions@.len() + 1
            &&& region_bytes(final(callee).bytes@, r->Ok_0@[0]) == env@
            &&& forall|i: int| 0 <= i < arg_regions@.len() ==>
                region_bytes(final(callee).bytes@, #[trigger] r->Ok_0@[i + 1]) == region_bytes(caller.bytes@, arg_regions@[i])
        },
{
    let values = copy_values(caller, arg_regions, max_total)?;
    let mut all: Vec<Vec<u8>> = Vec::new();
    all.push(copy_bytes(env));
    let mut i: usize = 0;
    while i < values.len()
        invariant
            0 <= i <= values@.len(),
            all@.len() == i + 1,
            all@[0]@ == env@,
            forall|j: int| 0 <= j < i ==> (#[trigger] all@[j + 1])@ == values@[j]@,
        decreases values@.len() - i,
    {
        all.push(copy_bytes(values[i].as_slice()));
        i = i + 1;
    }
    proof {
        lemma_values_length_of_regions(caller.bytes@, values@, arg_regions@);
        assert forall|j: int| 0 <= j < values@.len() implies (#[trigger] all@.drop_first()[j])@ == values@[j]@ by {
            assert(all@[j + 1]@ == values@[j]@);
        }
        lemma_values_length_views(all@.drop_first(), values@);
        lemma_values_length_first(all@);
    }
    let r = write_values(callee, &all);
    proof {
        if r is Ok {
            assert forall|i: int| 0 <= i < arg_regions@.len() implies
                region_bytes(callee.bytes@, #[trigger] r->Ok_0@[i + 1]) == region_bytes(caller.bytes@, arg_regions@[i]) by {
                assert(all@[i + 1]@ == values@[i]@);
            }
        }
    }
    r
}

} // verus!

//! Block bookkeeping of the compatibility heap handed to the closed-source
//! driver. Every block starts with an 8-byte header that holds the size the
//! caller asked for, and the caller gets the address just past that header.
//! The heap itself is `linked_list_allocator::Heap`, a first-fit list of free
//! holes; the contracts speak of that list. Writing and reading the header,
//! copying and zero-filling are memory accesses done by the caller.

use vstd::prelude::*;
use core::mem::MaybeUninit;
use linked_list_allocator::Heap;

verus! {

/// Bytes reserved in front of every block for its size header.
pub const HEADER_SIZE: usize = 8;

/// Alignment of every block the compatibility heap hands out.
pub const BLOCK_ALIGN: usize = 8;

/// Size of the memory region dedicated to the compatibility heap.
pub const COMPAT_HEAP_SIZE: usize = 16384;

/// Bytes of every queue or semaphore handle created for the driver.
pub const HANDLE_SIZE: usize = 8;

#[verifier::external_type_specification]
#[verifier::external_body]
pub struct ExHeap(linked_list_allocator::Heap);

/// The free holes of a heap, in the order of its free list (by address):
/// each is a start address and a size in bytes.
pub uninterp spec fn heap_holes(heap: Heap) -> Seq<(int, int)>;

/// The region a heap allocates from, as its bottom and top address; `(0, 0)`
/// for a heap that was given no memory yet.
pub uninterp spec fn heap_region(heap: Heap) -> (int, int);

/// `size` rounded up to a multiple of `align`.
pub open spec fn round_up(size: int, align: int) -> int {
    if size % align == 0 {
        size
    } else {
        size - size % align + align
    }
}

/// `size` rounded down to a multiple of `align`.
pub open spec fn round_down(size: int, align: int) -> int {
    size - size % align
}

/// Bytes of a machine word.
pub open spec fn word_bytes() -> int {
    if usize::BITS == 64 {
        8
    } else {
        4
    }
}

/// Bytes of the node the heap keeps at the start of every hole (a size and
/// a link): the smallest hole and the smallest block it deals in.
pub open spec fn hole_header() -> int {
    2 * word_bytes()
}

/// The number of bytes the heap takes for a request of `size` bytes: at least
/// a hole node, rounded up to a whole number of words.
pub open spec fn aligned_request(size: int) -> int {
    round_up(if size < hole_header() { hole_header() } else { size }, word_bytes())
}

/// Where a block aligned to `align` is placed in a hole starting at `start`:
/// at the start if it is aligned, otherwise at the first aligned address that
/// leaves room for a hole node in front.
pub open spec fn fit_start(start: int, align: int) -> int {
    if start % align == 0 {
        start
    } else {
        round_up(start + hole_header(), align)
    }
}

/// Whether the heap carves a block of `req` bytes aligned to `align` out of
/// `hole`: the block fits, and what is left behind it is either nothing or
/// room for a hole node.
pub open spec fn hole_fits(hole: (int, int), req: int, align: int) -> bool {
    let a = fit_start(hole.0, align);
    let end = hole.0 + hole.1;
    &&& req <= hole.1
    &&& a + req <= end
    &&& (a + req == end || a + req + hole_header() <= end)
}

/// Some hole of `holes` admits the request.
pub open spec fn some_hole_fits(holes: Seq<(int, int)>, req: int, align: int) -> bool {
    exists|i: int| 0 <= i < holes.len() && #[trigger] hole_fits(holes[i], req, align)
}

/// Hole `i` is the first of `holes` to admit the request.
pub open spec fn first_fit(holes: Seq<(int, int)>, req: int, align: int, i: int) -> bool {
    &&& 0 <= i < holes.len()
    &&& hole_fits(holes[i], req, align)
    &&& forall|j: int| 0 <= j < i ==> !#[trigger] hole_fits(holes[j], req, align)
}

/// What is left of `hole` once a block of `req` bytes at `a` is carved out:
/// the part in front of the block and the part behind it, where not empty.
pub open spec fn split_hole(hole: (int, int), a: int, req: int) -> Seq<(int, int)> {
    let end = hole.0 + hole.1;
    (if a > hole.0 { seq![(hole.0, a - hole.0)] } else { Seq::empty() })
        + (if a + req < end { seq![(a + req, end - (a + req))] } else { Seq::empty() })
}

/// The holes after hole `i` had a block of `req` bytes at `a` carved out.
pub open spec fn carve(holes: Seq<(int, int)>, i: int, a: int, req: int) -> Seq<(int, int)> {
    holes.take(i) + split_hole(holes[i], a, req) + holes.skip(i + 1)
}

/// The addresses `start .. start + len`.
pub open spec fn span(start: int, len: int) -> Set<int> {
    Set::new(|x: int| start <= x < start + len)
}

/// The free addresses: those in some hole.
pub open spec fn free_bytes(holes: Seq<(int, int)>) -> Set<int> {
    Set::new(|x: int| exists|i: int| 0 <= i < holes.len() && holes[i].0 <= x < #[trigger] (holes[i].0 + holes[i].1))
}

/// The holes lie in order, without overlapping, in the region `bottom .. top`,
/// which lies in the address space and above address 0 once it has memory.
pub open spec fn holes_wf(holes: Seq<(int, int)>, region: (int, int)) -> bool {
    &&& 0 <= region.0 <= region.1 <= usize::MAX
    &&& holes.len() > 0 ==> 0 < region.0
    &&& forall|i: int| 0 <= i < holes.len() ==> region.0 <= #[trigger] holes[i].0
        && holes[i].0 + holes[i].1 <= region.1 && 0 < holes[i].1
    &&& forall|i: int, j: int| 0 <= i < j < holes.len() ==> #[trigger] holes[i].0 + holes[i].1 <= #[trigger] holes[j].0
}

/// A heap's invariant, as its source keeps it.
pub open spec fn heap_wf(heap: Heap) -> bool {
    holes_wf(heap_holes(heap), heap_region(heap))
}

/// A heap just given `len` bytes of memory: one hole over the whole usable
/// region, which starts at the first word-aligned address of the memory and
/// ends at the last whole word.
pub open spec fn fresh_heap(heap: Heap, len: int) -> bool {
    let (bottom, top) = heap_region(heap);
    &&& heap_wf(heap)
    &&& 0 < bottom
    &&& bottom % word_bytes() == 0
    &&& heap_holes(heap) == seq![(bottom, top - bottom)]
    &&& exists|pad: int| 0 <= pad < word_bytes() && top - bottom == #[trigger] round_down(len - pad, word_bytes())
}

/// The layout of a block of `size` bytes aligned to `align` is valid: the
/// alignment is the blocks' alignment of 8, and `size` rounded up to it
/// does not exceed `isize::MAX`, which is when
/// `core::alloc::Layout::from_size_align(size, align)` succeeds, as its
/// documentation gives it.
pub open spec fn block_layout_ok(size: int, align: int) -> bool {
    &&& align == BLOCK_ALIGN
    &&& round_up(size, align) <= isize::MAX
}

/// The size of the block that holds a payload of `size` bytes.
pub open spec fn block_size_of(size: int) -> int {
    size + HEADER_SIZE
}

/// A payload of `size` bytes can be asked of the heap: its block size is a
/// valid layout. Larger requests are a caller error.
pub open spec fn request_ok(size: int) -> bool {
    block_layout_ok(block_size_of(size), BLOCK_ALIGN as int)
}

/// The address handed to the caller for a block starting at `block`.
pub open spec fn payload_of(block: int) -> int {
    block + HEADER_SIZE
}

/// The block start (and header address) of a payload address.
pub open spec fn block_of(ptr: int) -> int {
    ptr - HEADER_SIZE
}

/// Calls `linked_list_allocator::Heap::allocate_first_fit` with the layout of
/// `size` bytes aligned to `align`, and gives back the address of the block.
/// Claimed from the crate's source (`lib.rs`, `hole.rs`): the heap's holes
/// stay ordered and inside its region; the request is widened to
/// `aligned_request(size)`; a block is found exactly when some hole admits
/// it by `hole_fits`, and it is then placed by `fit_start` in the first such
/// hole, which is replaced by what is left in front of and behind the block;
/// when none admits it the heap is left as it was.
#[verifier::external_body]
fn heap_allocate_first_fit(heap: &mut Heap, size: usize, align: usize) -> (r: Option<usize>)
    requires
        block_layout_ok(size as int, align as int),
    ensures
        heap_wf(*old(heap)),
        heap_wf(*final(heap)),
        heap_region(*final(heap)) == heap_region(*old(heap)),
        r is Some <==> some_hole_fits(heap_holes(*old(heap)), aligned_request(size as int), align as int),
        r is None ==> *final(heap) == *old(heap),
        r matches Some(a) ==> exists|i: int| {
            &&& first_fit(heap_holes(*old(heap)), aligned_request(size as int), align as int, i)
            &&& a == fit_start(#[trigger] heap_holes(*old(heap))[i].0, align as int)
            &&& heap_holes(*final(heap)) == carve(heap_holes(*old(heap)), i, a as int, aligned_request(size as int))
        },
{
    let layout = core::alloc::Layout::from_size_align(size, align).unwrap();
    match heap.allocate_first_fit(layout) {
        Ok(block) => Some(block.addr().get()),
        Err(()) => None,
    }
}

/// Calls `linked_list_allocator::Heap::empty`. Claimed from the crate's
/// source: the heap has no holes and no memory.
#[verifier::external_body]
fn heap_empty() -> (h: Heap)
    ensures
        heap_holes(h) == Seq::<(int, int)>::empty(),
        heap_region(h) == (0int, 0int),
{
    Heap::empty()
}

/// Calls `linked_list_allocator::Heap::bottom` and tests it for null.
/// Claimed from the crate's source: the bottom is null exactly while the
/// heap has no memory.
#[verifier::external_body]
fn heap_has_memory(heap: &Heap) -> (r: bool)
    ensures
        r == (heap_region(*heap).0 != 0),
{
    !heap.bottom().is_null()
}

/// Calls `linked_list_allocator::Heap::init_from_slice`. Claimed from the
/// crate's source (`HoleList::new`): a heap with no memory, given a slice
/// large enough for a hole node whatever its alignment, becomes one hole
/// from the slice's first word-aligned address to its last whole word.
#[verifier::external_body]
fn heap_init_from_slice(heap: &mut Heap, mem: &'static mut [MaybeUninit<u8>])
    requires
        heap_region(*old(heap)).0 == 0,
        old(mem)@.len() >= 3 * word_bytes(),
    ensures
        fresh_heap(*final(heap), old(mem)@.len() as int),
{
    heap.init_from_slice(mem)
}

/// The block size for a payload of `size` bytes: the payload and its header.
/// It is the size `malloc` asks of the heap and the size a block is released
/// with, computed from the size stored in its header.
pub fn block_size(size: usize) -> (r: usize)
    requires
        request_ok(size as int),
    ensures
        r == block_size_of(size as int),
{
    size + HEADER_SIZE
}

/// The payload address for the block the heap handed out, or null (`None`)
/// when it handed out none: the payload starts just past the block's header.
pub fn place_payload(block: Option<usize>) -> (r: Option<usize>)
    requires
        block matches Some(b) ==> b + HEADER_SIZE <= usize::MAX,
    ensures
        block is None ==> r is None,
        block matches Some(b) ==> r == Some((payload_of(b as int)) as usize),
{
    match block {
        Some(b) => Some(b + HEADER_SIZE),
        None => None,
    }
}

/// What a successful allocation of a payload of `size` bytes at `p` did to
/// the heap: its block, starting at `p`'s header, was carved by first fit
/// from the free holes of `old`, lies in the heap's region, and is no longer
/// free in `new`; nothing else changed.
pub open spec fn carved(old: Heap, new: Heap, size: int, p: int) -> bool {
    let req = aligned_request(block_size_of(size));
    let block = block_of(p);
    &&& p % (BLOCK_ALIGN as int) == 0
    &&& block_size_of(size) <= req
    &&& 0 < block
    &&& heap_region(old).0 <= block
    &&& block + req <= heap_region(old).1
    &&& span(block, req).subset_of(free_bytes(heap_holes(old)))
    &&& free_bytes(heap_holes(new)) == free_bytes(heap_holes(old)).difference(span(block, req))
    &&& exists|i: int| {
        &&& first_fit(heap_holes(old), req, BLOCK_ALIGN as int, i)
        &&& block == fit_start(#[trigger] heap_holes(old)[i].0, BLOCK_ALIGN as int)
        &&& heap_holes(new) == carve(heap_holes(old), i, block, req)
    }
}

/// Carving a block out of the first hole that admits it: the block is
/// aligned, lies in that hole and so in the region, and exactly its bytes
/// stop being free.
proof fn lemma_carve(holes: Seq<(int, int)>, region: (int, int), i: int, req: int)
    requires
        holes_wf(holes, region),
        0 <= i < holes.len(),
        hole_fits(holes[i], req, BLOCK_ALIGN as int),
        req > 0,
    ensures
        ({
            let a = fit_start(holes[i].0, BLOCK_ALIGN as int);
            &&& a % (BLOCK_ALIGN as int) == 0
            &&& 0 < a
            &&& region.0 <= a
            &&& a + req <= region.1
            &&& span(a, req).subset_of(free_bytes(holes))
            &&& free_bytes(carve(holes, i, a, req)) == free_bytes(holes).difference(span(a, req))
        }),
{
    let h = holes[i];
    let a = fit_start(h.0, BLOCK_ALIGN as int);
    let e = h.0 + h.1;
    let front: Seq<(int, int)> = if a > h.0 { seq![(h.0, a - h.0)] } else { Seq::empty() };
    let back: Seq<(int, int)> = if a + req < e { seq![(a + req, e - (a + req))] } else { Seq::empty() };
    let split = split_hole(h, a, req);
    assert(split == front + back);
    let pre = holes.take(i);
    let post = holes.skip(i + 1);
    let new = carve(holes, i, a, req);
    assert(new == pre + split + post);
    assert(h.0 <= a);
    assert(region.0 <= h.0);
    assert(e <= region.1);
    assert forall|x: int| span(a, req).contains(x) implies free_bytes(holes).contains(x) by {
        assert(holes[i].0 <= x < holes[i].0 + holes[i].1);
    }
    assert forall|x: int| free_bytes(new).contains(x) implies
        free_bytes(holes).contains(x) && !span(a, req).contains(x) by {
        let k = choose|k: int| 0 <= k < new.len() && new[k].0 <= x < #[trigger] (new[k].0 + new[k].1);
        if k < i {
            assert(new[k] == holes[k]);
            assert(holes[k].0 + holes[k].1 <= holes[i].0);
            assert(holes[k].0 <= x < holes[k].0 + holes[k].1);
        } else if k < i + split.len() {
            assert(new[k] == split[k - i]);
            assert(holes[i].0 <= x < holes[i].0 + holes[i].1);
        } else {
            let m = k - split.len() + 1;
            assert(new[k] == post[k - i - split.len()]);
            assert(post[k - i - split.len()] == holes[m]);
            assert(holes[i].0 + holes[i].1 <= holes[m].0);
            assert(holes[m].0 <= x < holes[m].0 + holes[m].1);
        }
    }
    assert forall|x: int| free_bytes(holes).contains(x) && !span(a, req).contains(x) implies
        free_bytes(new).contains(x) by {
        let m = choose|m: int| 0 <= m < holes.len() && holes[m].0 <= x < #[trigger] (holes[m].0 + holes[m].1);
        if m < i {
            assert(new[m] == holes[m]);
            assert(new[m].0 <= x < new[m].0 + new[m].1);
        } else if m > i {
            let k = m - 1 + split.len();
            assert(new[k] == post[m - i - 1]);
            assert(post[m - i - 1] == holes[m]);
            assert(new[k].0 <= x < new[k].0 + new[k].1);
        } else if x < a {
            assert(new[i] == split[0]);
            assert(split[0] == front[0]);
            assert(new[i].0 <= x < new[i].0 + new[i].1);
        } else {
            let k = i + front.len();
            assert(new[k] == split[front.len() as int]);
            assert(split[front.len() as int] == back[0]);
            assert(new[k].0 <= x < new[k].0 + new[k].1);
        }
    }
    assert(free_bytes(new) =~= free_bytes(holes).difference(span(a, req)));
}

/// The whole behaviour of `malloc(size)` on a heap that went from `old` to
/// `new` and answered `r`: null (`None`) and the heap untouched for a zero
/// or unrepresentable size and whenever no hole admits the block; otherwise
/// a payload carved from the heap as `carved` says.
pub open spec fn malloc_outcome(old: Heap, new: Heap, size: int, r: Option<usize>) -> bool {
    &&& heap_region(new) == heap_region(old)
    &&& r is Some <==> (size > 0 && request_ok(size)
        && some_hole_fits(heap_holes(old), aligned_request(block_size_of(size)), BLOCK_ALIGN as int))
    &&& r is None ==> new == old
    &&& r matches Some(p) ==> carved(old, new, size, p as int)
}

/// A payload of `size` bytes can be asked of the heap, tested without
/// overflow: `size + 8` rounded up to 8 is at most `isize::MAX`.
pub fn request_fits(size: usize) -> (r: bool)
    ensures
        r == request_ok(size as int),
{
    let limit: usize = (isize::MAX as usize) - 15;
    assert(isize::MAX == 0x7fff_ffff || isize::MAX == 0x7fff_ffff_ffff_ffff);
    size <= limit
}

/// Allocates a payload of `size` bytes, as C's `malloc`. `None` stands for
/// the null pointer: for `size == 0`, for a size too large to describe, and
/// when no free hole admits the block of `block_size(size)` bytes; the heap
/// is then untouched. Otherwise the block is carved by first fit from the
/// heap's free holes and the payload lies just past its 8-byte header; the
/// caller writes `size` into that header.
pub fn malloc(heap: &mut Heap, size: usize) -> (r: Option<usize>)
    ensures
        malloc_outcome(*old(heap), *final(heap), size as int, r),
{
    if size == 0 || !request_fits(size) {
        return None;
    }
    let request = block_size(size);
    let block = heap_allocate_first_fit(heap, request, BLOCK_ALIGN);
    proof {
        if let Some(a) = block {
            let old_h = *old(heap);
            let req = aligned_request(request as int);
            let i = choose|i: int| {
                &&& first_fit(heap_holes(old_h), req, BLOCK_ALIGN as int, i)
                &&& a == fit_start(#[trigger] heap_holes(old_h)[i].0, BLOCK_ALIGN as int)
                &&& heap_holes(*heap) == carve(heap_holes(old_h), i, a as int, req)
            };
            lemma_carve(heap_holes(old_h), heap_region(old_h), i, req);
        }
    }
    place_payload(block)
}

/// The address of the size header of the payload at `ptr`, which is also
/// where its block starts.
pub fn header_address(ptr: usize) -> (r: usize)
    requires
        ptr >= HEADER_SIZE,
    ensures
        r == block_of(ptr as int),
{
    ptr - HEADER_SIZE
}

/// Where a payload's block starts: `None` for the null pointer, which is not
/// freed; otherwise the address of the header, from which the caller reads
/// the stored size and releases `block_size(stored)` bytes at that address.
pub fn free(ptr: usize) -> (r: Option<usize>)
    requires
        ptr == 0 || ptr >= HEADER_SIZE,
    ensures
        ptr == 0 ==> r is None,
        ptr != 0 ==> r == Some((block_of(ptr as int)) as usize),
{
    if ptr == 0 {
        None
    } else {
        Some(header_address(ptr))
    }
}

/// The payload address of an allocation answer that also carries a length.
pub open spec fn payload_part(r: Option<(usize, usize)>) -> Option<usize> {
    match r {
        Some((p, _)) => Some(p),
        None => None,
    }
}

/// Allocates `nmemb * size` bytes as C's `calloc`, and gives back the
/// payload address with the number of bytes the caller sets to zero. A
/// product that overflows answers null with the heap untouched; otherwise
/// the answer and the heap are those of `malloc(nmemb * size)`.
pub fn calloc(heap: &mut Heap, nmemb: usize, size: usize) -> (r: Option<(usize, usize)>)
    ensures
        nmemb * size > usize::MAX ==> r is None && *final(heap) == *old(heap),
        nmemb * size <= usize::MAX ==> malloc_outcome(*old(heap), *final(heap), nmemb * size, payload_part(r)),
        r matches Some((p, len)) ==> len == nmemb * size,
{
    match nmemb.checked_mul(size) {
        None => None,
        Some(total) => match malloc(heap, total) {
            Some(p) => Some((p, total)),
            None => None,
        },
    }
}

/// `calloc` of one element of `size` bytes: the answer and the heap are
/// those of `malloc(size)`, with `size` bytes to set to zero.
pub fn zalloc(heap: &mut Heap, size: usize) -> (r: Option<(usize, usize)>)
    ensures
        malloc_outcome(*old(heap), *final(heap), size as int, payload_part(r)),
        r matches Some((p, len)) ==> len == size,
{
    calloc(heap, 1, size)
}

/// What `realloc` does with its arguments, before the old size is read.
pub enum ReallocPlan {
    /// The pointer is null: allocate `size` bytes like `malloc`.
    Allocate,
    /// The new size is zero: free the old block and answer null.
    Release,
    /// Allocate a new block, copy, and free the old block.
    Resize,
}

/// Decides what `realloc(ptr, size)` does.
pub fn realloc_plan(ptr: usize, size: usize) -> (r: ReallocPlan)
    ensures
        ptr == 0 ==> r is Allocate,
        ptr != 0 && size == 0 ==> r is Release,
        ptr != 0 && size != 0 ==> r is Resize,
{
    if ptr == 0 {
        ReallocPlan::Allocate
    } else if size == 0 {
        ReallocPlan::Release
    } else {
        ReallocPlan::Resize
    }
}

/// A block that replaces an old one: its payload address, and how many bytes
/// of the old payload are copied into it.
pub struct Moved {
    pub new_ptr: usize,
    pub copy_len: usize,
}

/// The new payload address of a resize answer.
pub open spec fn moved_part(r: Option<Moved>) -> Option<usize> {
    match r {
        Some(m) => Some(m.new_ptr),
        None => None,
    }
}

/// The resizing step of `realloc`: allocates `size` bytes exactly as
/// `malloc(size)` does and, if that succeeds, copies the smaller of the old
/// and the new size. `None` means the allocation failed; the heap and the
/// old block are then left untouched and null answered.
pub fn realloc_resize(heap: &mut Heap, size: usize, old_size: usize) -> (r: Option<Moved>)
    ensures
        malloc_outcome(*old(heap), *final(heap), size as int, moved_part(r)),
        r matches Some(m) ==> {
            &&& m.copy_len == (if old_size <= size { old_size } else { size })
            &&& m.copy_len <= size
            &&& m.copy_len <= old_size
        },
{
    match malloc(heap, size) {
        Some(new_ptr) => {
            let copy_len = if old_size <= size { old_size } else { size };
            Some(Moved { new_ptr, copy_len })
        },
        None => None,
    }
}

/// The payload size of a driver queue of `len` items of `item_size` bytes:
/// the items and one handle's worth of bookkeeping.
pub open spec fn queue_bytes(len: int, item_size: int) -> int {
    len * item_size + HANDLE_SIZE
}

/// Allocates the storage of a driver queue of `len` items of `item_size`
/// bytes, and gives back the payload address with the size the caller
/// stores in its header: the answer and the heap are those of
/// `malloc(len * item_size + 8)`. The product is taken in 32 bits and the
/// sum in `usize`; neither may overflow.
#[allow(non_snake_case)]
pub fn __wifi_queue_create(heap: &mut Heap, len: u32, item_size: u32) -> (r: Option<(usize, usize)>)
    requires
        len * item_size <= u32::MAX,
        queue_bytes(len as int, item_size as int) <= usize::MAX,
    ensures
        malloc_outcome(*old(heap), *final(heap), queue_bytes(len as int, item_size as int), payload_part(r)),
        malloc_outcome(*old(heap), *final(heap), len * item_size + 8, payload_part(r)),
        r matches Some((p, size)) ==> size == queue_bytes(len as int, item_size as int),
        r matches Some((p, size)) ==> size == len * item_size + 8,
{
    let items: u32 = len * item_size;
    let bytes: usize = items as usize + HANDLE_SIZE;
    match malloc(heap, bytes) {
        Some(p) => Some((p, bytes)),
        None => None,
    }
}

/// The heap of the driver before it is given memory: no holes, so every
/// allocation answers null.
pub fn empty_compat_heap() -> (h: Heap)
    ensures
        heap_holes(h).len() == 0,
        heap_region(h) == (0int, 0int),
{
    heap_empty()
}

/// Gives the driver's heap its memory `mem`. A heap that already has memory
/// is left as it is and `false` answered; otherwise the heap becomes one hole
/// over the word-aligned part of `mem`.
pub fn init_compat_heap(heap: &mut Heap, mem: &'static mut [MaybeUninit<u8>]) -> (r: bool)
    requires
        old(mem)@.len() >= 3 * word_bytes(),
    ensures
        r == (heap_region(*old(heap)).0 == 0),
        !r ==> *final(heap) == *old(heap),
        r ==> fresh_heap(*final(heap), old(mem)@.len() as int),
{
    if heap_has_memory(heap) {
        false
    } else {
        heap_init_from_slice(heap, mem);
        true
    }
}

/// Freeing a payload that `malloc` handed out finds the start of the block
/// `malloc` carved, and the block size recomputed from the payload size (the
/// value the caller stores in the header) is widened by the heap to exactly
/// the bytes `malloc` carved: the bytes the release covers are the block.
pub proof fn lemma_free_releases_allocated_block(old: Heap, new: Heap, size: int, p: usize)
    requires
        malloc_outcome(old, new, size, Some(p)),
    ensures
        p >= HEADER_SIZE,
        block_of(p as int) > 0,
        span(block_of(p as int), aligned_request(block_size_of(size))).subset_of(free_bytes(heap_holes(old))),
        span(block_of(p as int), aligned_request(block_size_of(size))).disjoint(free_bytes(heap_holes(new))),
{
    let sp = span(block_of(p as int), aligned_request(block_size_of(size)));
    assert(sp.disjoint(free_bytes(heap_holes(new))));
}

/// A heap that was given no memory answers every allocation with null and
/// stays as it is.
pub proof fn lemma_uninitialised_heap_answers_null(old: Heap, new: Heap, size: int, r: Option<usize>)
    requires
        heap_holes(old).len() == 0,
        malloc_outcome(old, new, size, r),
    ensures
        r is None,
        new == old,
{
}

/// A block handed out never overlaps a live block: if no live byte is free
/// before the allocation, the new block shares no byte with the live ones,
/// and afterwards neither the old live bytes nor the new block are free.
pub proof fn lemma_block_avoids_live(old: Heap, new: Heap, size: int, p: usize, live: Set<int>)
    requires
        malloc_outcome(old, new, size, Some(p)),
        live.disjoint(free_bytes(heap_holes(old))),
    ensures
        span(block_of(p as int), aligned_request(block_size_of(size))).disjoint(live),
        free_bytes(heap_holes(new)).disjoint(
            live.union(span(block_of(p as int), aligned_request(block_size_of(size)))),
        ),
{
}

/// Two blocks handed out one after the other do not overlap.
pub proof fn lemma_successive_blocks_disjoint(
    h0: Heap,
    h1: Heap,
    h2: Heap,
    s1: int,
    s2: int,
    p: usize,
    q: usize,
)
    requires
        malloc_outcome(h0, h1, s1, Some(p)),
        malloc_outcome(h1, h2, s2, Some(q)),
    ensures
        span(block_of(p as int), aligned_request(block_size_of(s1))).disjoint(
            span(block_of(q as int), aligned_request(block_size_of(s2))),
        ),
{
    let a = span(block_of(p as int), aligned_request(block_size_of(s1)));
    let b = span(block_of(q as int), aligned_request(block_size_of(s2)));
    assert forall|x: int| a.contains(x) implies !b.contains(x) by {
        assert(!free_bytes(heap_holes(h1)).contains(x));
    }
}

/// A hole comfortably larger than a request admits it wherever it starts:
/// room for the request, for a hole node in front plus alignment, and for a
/// hole node behind.
proof fn lemma_large_hole_fits(hole: (int, int), req: int)
    requires
        0 < req,
        hole.1 >= req + 2 * hole_header() + BLOCK_ALIGN,
    ensures
        hole_fits(hole, req, BLOCK_ALIGN as int),
{
    let a = fit_start(hole.0, BLOCK_ALIGN as int);
    assert(a <= hole.0 + hole_header() + 7);
}

/// The bytes the heap takes for a payload of `size` bytes: at least its
/// block, at most 16 bytes more than the payload, and whole words.
proof fn lemma_request_bound(size: int)
    requires
        0 < size,
    ensures
        aligned_request(block_size_of(size)) <= size + HEADER_SIZE + 8,
        aligned_request(block_size_of(size)) >= block_size_of(size),
        aligned_request(block_size_of(size)) % word_bytes() == 0,
        aligned_request(block_size_of(size)) > 0,
{
}

/// A freshly initialised 16 KiB heap serves every request of 1 to 16256
/// bytes.
pub proof fn lemma_fresh_heap_serves(h: Heap, size: int)
    requires
        fresh_heap(h, COMPAT_HEAP_SIZE as int),
        0 < size <= 16256,
    ensures
        request_ok(size),
        some_hole_fits(heap_holes(h), aligned_request(block_size_of(size)), BLOCK_ALIGN as int),
{
    let (bottom, top) = heap_region(h);
    let pad = choose|pad: int| 0 <= pad < word_bytes() && top - bottom == #[trigger] round_down(COMPAT_HEAP_SIZE - pad, word_bytes());
    assert(top - bottom >= COMPAT_HEAP_SIZE - 2 * word_bytes());
    lemma_request_bound(size);
    let req = aligned_request(block_size_of(size));
    assert(heap_holes(h)[0] == (bottom, top - bottom));
    lemma_large_hole_fits(heap_holes(h)[0], req);
    assert(hole_fits(heap_holes(h)[0], req, BLOCK_ALIGN as int));
    assert(isize::MAX == 0x7fff_ffff || isize::MAX == 0x7fff_ffff_ffff_ffff);
}

/// A freshly initialised 16 KiB heap has no room for a request whose block
/// (the request and its header) exceeds 16 KiB: it answers null.
pub proof fn lemma_fresh_heap_refuses_oversized(h: Heap, size: int)
    requires
        fresh_heap(h, COMPAT_HEAP_SIZE as int),
        block_size_of(size) > COMPAT_HEAP_SIZE,
    ensures
        !some_hole_fits(heap_holes(h), aligned_request(block_size_of(size)), BLOCK_ALIGN as int),
{
    let (bottom, top) = heap_region(h);
    let pad = choose|pad: int| 0 <= pad < word_bytes() && top - bottom == #[trigger] round_down(COMPAT_HEAP_SIZE - pad, word_bytes());
    assert(top - bottom <= COMPAT_HEAP_SIZE);
    let req = aligned_request(block_size_of(size));
    assert(req >= block_size_of(size));
    assert forall|i: int| 0 <= i < heap_holes(h).len() implies !#[trigger] hole_fits(heap_holes(h)[i], req, BLOCK_ALIGN as int) by {
        assert(i == 0);
    }
}

/// On a freshly initialised 16 KiB heap, two allocations of 8 bytes both
/// succeed, and their blocks do not overlap.
pub proof fn lemma_fresh_heap_two_small_blocks(
    h0: Heap,
    h1: Heap,
    h2: Heap,
    r1: Option<usize>,
    r2: Option<usize>,
)
    requires
        fresh_heap(h0, COMPAT_HEAP_SIZE as int),
        malloc_outcome(h0, h1, 8, r1),
        malloc_outcome(h1, h2, 8, r2),
    ensures
        r1 is Some,
        r2 is Some,
        span(block_of(r1->0 as int), aligned_request(block_size_of(8))).disjoint(
            span(block_of(r2->0 as int), aligned_request(block_size_of(8))),
        ),
{
    lemma_fresh_heap_serves(h0, 8);
    let p = r1->0;
    let req = aligned_request(block_size_of(8));
    lemma_request_bound(8);
    let (bottom, top) = heap_region(h0);
    let holes = heap_holes(h0);
    let i = choose|i: int| {
        &&& first_fit(holes, req, BLOCK_ALIGN as int, i)
        &&& block_of(p as int) == fit_start(#[trigger] holes[i].0, BLOCK_ALIGN as int)
        &&& heap_holes(h1) == carve(holes, i, block_of(p as int), req)
    };
    assert(i == 0);
    let a = block_of(p as int);
    let e = bottom + (top - bottom);
    assert(a <= bottom + hole_header() + 7);
    assert(top - bottom >= COMPAT_HEAP_SIZE - 2 * word_bytes()) by {
        let pad = choose|pad: int| 0 <= pad < word_bytes() && top - bottom == #[trigger] round_down(COMPAT_HEAP_SIZE - pad, word_bytes());
    }
    let split = split_hole(holes[0], a, req);
    let front: Seq<(int, int)> = if a > bottom { seq![(bottom, a - bottom)] } else { Seq::empty() };
    let back: Seq<(int, int)> = seq![(a + req, e - (a + req))];
    assert(split == front + back);
    let h1_holes = heap_holes(h1);
    assert(h1_holes =~= holes.take(0) + split + holes.skip(1));
    let k = front.len() as int;
    assert(h1_holes[k] == (a + req, e - (a + req)));
    lemma_large_hole_fits(h1_holes[k], req);
    assert(hole_fits(h1_holes[k], req, BLOCK_ALIGN as int));
    lemma_successive_blocks_disjoint(h0, h1, h2, 8, 8, p, r2->0);
}

/// A driver queue's storage holds all its items, `len * item_size` bytes,
/// and 8 bytes for its handle; it grows by `item_size` for each item more.
pub proof fn lemma_queue_bytes_hold_items(len: int, item_size: int)
    ensures
        queue_bytes(len, item_size) == len * item_size + 8,
        queue_bytes(len + 1, item_size) == queue_bytes(len, item_size) + item_size,
{
    assert((len + 1) * item_size == len * item_size + item_size) by (nonlinear_arith);
}

} // verus!

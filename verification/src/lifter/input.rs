use vstd::prelude::*;

use arrayvec::ArrayVec;

use crate::lifter::context::ContextDatabase;
use crate::lifter::pcode::INVALID_HANDLE;

verus! {

/// The most constructors that one instruction's parse can hold.
pub const MAX_CTOR_STATES: usize = 128;

/// The most context words.
pub const MAX_CTXT_CHUNKS: usize = 4;

/// The deepest that constructors can nest.
pub const MAX_PARSER_DEPTH: usize = 64;

/// The number of positions on the path from the root constructor.
pub const BREADCRUMBS: usize = 65;

/// The number of instruction bytes an input holds.
pub const BUFFER_SIZE: usize = 16;

/// The context words that an `ArrayVec` of them holds, in order.
pub uninterp spec fn ctx_words(v: ArrayVec<u32, MAX_CTXT_CHUNKS>) -> Seq<u32>;

/// `ArrayVec::new`: an empty vector.
#[verifier::external_body]
fn ctx_new() -> (r: ArrayVec<u32, MAX_CTXT_CHUNKS>)
    ensures
        ctx_words(r) == Seq::<u32>::empty(),
{
    ArrayVec::new()
}

/// `ArrayVec::len`: the number of words held.
#[verifier::external_body]
fn ctx_len(v: &ArrayVec<u32, MAX_CTXT_CHUNKS>) -> (r: usize)
    ensures
        r == ctx_words(*v).len(),
{
    v.len()
}

/// Indexing the vector's slice: the word at `i`.
#[verifier::external_body]
fn ctx_get(v: &ArrayVec<u32, MAX_CTXT_CHUNKS>, i: usize) -> (r: u32)
    requires
        i < ctx_words(*v).len(),
    ensures
        r == ctx_words(*v)[i as int],
{
    v[i]
}

/// Indexing the vector's slice mutably: replaces the word at `i`.
#[verifier::external_body]
fn ctx_set(v: &mut ArrayVec<u32, MAX_CTXT_CHUNKS>, i: usize, x: u32)
    requires
        i < ctx_words(*old(v)).len(),
    ensures
        ctx_words(*final(v)) == ctx_words(*old(v)).update(i as int, x),
{
    v[i] = x;
}

/// `ArrayVec::try_from` a slice: the words of `s`, where they fit.
#[verifier::external_body]
fn ctx_from_slice(s: &[u32]) -> (r: Option<ArrayVec<u32, MAX_CTXT_CHUNKS>>)
    ensures
        match r {
            Some(v) => s@.len() <= MAX_CTXT_CHUNKS && ctx_words(v) == s@,
            None => s@.len() > MAX_CTXT_CHUNKS,
        },
{
    ArrayVec::try_from(s).ok()
}

/// The place of a constructor in the parse of an instruction: the
/// constructor (once known), where its operands start, its parent, and its
/// offset and length in bytes.
#[derive(Debug, Copy, Clone)]
pub struct ConstructorNode<T: Copy> {
    pub constructor: Option<T>,
    pub operands: u8,
    pub parent: u8,
    pub offset: u8,
    pub length: u8,
}

/// A place with no constructor, no operands and no parent.
pub open spec fn empty_node<T: Copy>() -> ConstructorNode<T> {
    ConstructorNode { constructor: None, operands: INVALID_HANDLE, parent: INVALID_HANDLE, offset: 0, length: 0 }
}

impl<T: Copy> ConstructorNode<T> {
    /// A place with no constructor, no operands and no parent.
    pub fn empty() -> (r: Self)
        ensures
            r == empty_node::<T>(),
    {
        ConstructorNode { constructor: None, operands: INVALID_HANDLE, parent: INVALID_HANDLE, offset: 0, length: 0 }
    }
}

/// A place with no constructor, no operands and no extent, under the
/// place `parent`.
pub open spec fn fresh_node<T: Copy>(parent: u8) -> ConstructorNode<T> {
    ConstructorNode { parent, constructor: None, operands: INVALID_HANDLE, offset: 0, length: 0 }
}

/// The big-endian value of the bytes `s`, keeping the low 32 bits at each
/// step (so the value of the last four bytes).
pub open spec fn be_trunc(s: Seq<u8>) -> u32
    decreases s.len(),
{
    if s.len() == 0 {
        0
    } else {
        ((be_trunc(s.drop_last()) as int * 256 + s.last() as int) % 0x1_0000_0000) as u32
    }
}

/// The input of the parser of one instruction: its bytes and context, the
/// tree of constructors parsed so far, and the path to the current one.
pub struct ParserInput<T: Copy> {
    buffer: Vec<u8>,
    context: ArrayVec<u32, MAX_CTXT_CHUNKS>,
    constructors: Vec<ConstructorNode<T>>,
    address: u64,
    next_address: Option<u64>,
    offset: u8,
    delay_slot: u8,
    alloc: u8,
    breadcrumb: Vec<u8>,
    depth: i8,
    point: u8,
}

impl<T: Copy> ParserInput<T> {
    pub closed spec fn spec_buffer(&self) -> Seq<u8> {
        self.buffer@
    }

    pub closed spec fn spec_context(&self) -> Seq<u32> {
        ctx_words(self.context)
    }

    pub closed spec fn spec_nodes(&self) -> Seq<ConstructorNode<T>> {
        self.constructors@
    }

    pub closed spec fn spec_address(&self) -> u64 {
        self.address
    }

    pub closed spec fn spec_next_address(&self) -> Option<u64> {
        self.next_address
    }

    pub closed spec fn spec_offset(&self) -> u8 {
        self.offset
    }

    pub closed spec fn spec_delay_slot(&self) -> u8 {
        self.delay_slot
    }

    pub closed spec fn spec_alloc(&self) -> u8 {
        self.alloc
    }

    pub closed spec fn spec_breadcrumb(&self) -> Seq<u8> {
        self.breadcrumb@
    }

    pub closed spec fn spec_depth(&self) -> i8 {
        self.depth
    }

    pub closed spec fn spec_point(&self) -> u8 {
        self.point
    }

    /// The buffer, the constructor places and the path have their fixed
    /// sizes.
    pub open spec fn wf(&self) -> bool {
        &&& self.spec_buffer().len() == BUFFER_SIZE
        &&& self.spec_nodes().len() == MAX_CTOR_STATES
        &&& self.spec_breadcrumb().len() == BREADCRUMBS
    }

    /// The current constructor place.
    pub open spec fn spec_current(&self) -> ConstructorNode<T> {
        self.spec_nodes()[self.spec_point() as int]
    }
}

/// What reading `size` bytes big endian from `offset + start` of `buffer`
/// gives: nothing where that position is past the buffer, else the value
/// of the bytes up to the end of the buffer (see `be_trunc`).
pub open spec fn instruction_bytes_spec(buffer: Seq<u8>, start: int, size: int, offset: int) -> Option<u32> {
    let off = offset + start;
    let end = off + size;
    if off > buffer.len() {
        None
    } else {
        Some(be_trunc(buffer.subrange(off, if end < buffer.len() { end } else { buffer.len() as int })))
    }
}

/// What reading `size` bits from bit `start` of the instruction at byte
/// `offset` gives: the bytes that hold them (as far as the buffer goes)
/// are read big endian, shifted left to drop the bits before `start` and
/// right to keep `size` bits; a shift of 32 or more gives 0.
pub open spec fn instruction_bits_spec(buffer: Seq<u8>, start: int, size: int, offset: int) -> Option<u32> {
    let bit_offset = start % 8;
    let byte_offset = offset + start / 8;
    let bytes_needed = (bit_offset + size + 7) / 8;
    if byte_offset >= buffer.len() {
        None
    } else {
        let available = buffer.len() - byte_offset;
        let to_read = if bytes_needed < available { bytes_needed } else { available };
        let r0 = be_trunc(buffer.subrange(byte_offset, byte_offset + to_read));
        let left = 32 - to_read * 8 + bit_offset;
        let r1 = if left >= 32 { 0u32 } else { r0 << (left as u32) };
        let right = 32 - size;
        Some(if right >= 32 { 0u32 } else { r1 >> (right as u32) })
    }
}

/// Whether `instruction_bits_spec` computes no negative shift.
pub open spec fn instruction_bits_ok(buffer_len: int, start: int, size: int, offset: int) -> bool {
    let bit_offset = start % 8;
    let byte_offset = offset + start / 8;
    let bytes_needed = (bit_offset + size + 7) / 8;
    let available = buffer_len - byte_offset;
    let to_read = if bytes_needed < available { bytes_needed } else { available };
    &&& size <= 32
    &&& (byte_offset < buffer_len ==> to_read * 8 <= 32 + bit_offset)
}

/// What reading `size` bytes (at most four) from byte `start` of the
/// context gives: the word holding `start`, shifted left to drop the bytes
/// before it and right to keep `size` bytes (a shift of 32 gives 0).
pub open spec fn context_bytes_spec(ctx: Seq<u32>, start: int, size: int) -> u32 {
    let w = ctx[start / 4];
    let r = w << ((8 * (start % 4)) as u32);
    let unused = 8 * (4 - size);
    if unused >= 32 { 0 } else { r >> (unused as u32) }
}

proof fn lemma_word_bytes(w: u32, off: u32, size: u32, j: u32)
    requires
        off < 4,
        1 <= size <= 4,
        j < size,
    ensures
        (((w << ((8 * off) as u32)) >> ((8 * (4 - size)) as u32)) >> ((8 * (size - 1 - j)) as u32)) & 0xff
            == if off + j < 4 {
            (w >> ((8 * (3 - off - j)) as u32)) & 0xff
        } else {
            0
        },
        size < 4 ==> ((w << ((8 * off) as u32)) >> ((8 * (4 - size)) as u32)) >> ((8 * size) as u32) == 0,
{
    assert((((w << ((8 * off) as u32)) >> ((8 * (4 - size)) as u32)) >> ((8 * (size - 1 - j)) as u32)) & 0xff
        == if off + j < 4 {
        (w >> ((8 * (3 - off - j)) as u32)) & 0xff
    } else {
        0
    }) by (bit_vector)
        requires
            off < 4,
            1 <= size <= 4,
            j < size,
    ;
    assert(size < 4 ==> ((w << ((8 * off) as u32)) >> ((8 * (4 - size)) as u32)) >> ((8 * size) as u32) == 0)
        by (bit_vector)
        requires
            off < 4,
            1 <= size <= 4,
    ;
}

/// Reading `size` bytes (one to four) from byte `start` of the context
/// gives, from its most significant byte down, the bytes of the context
/// word holding `start` from byte `start % 4` on, each counted from the
/// word's most significant byte; bytes past the end of that word read as
/// zero, and nothing lies above the `size` bytes read.
pub proof fn lemma_context_bytes_layout(ctx: Seq<u32>, start: int, size: int, j: int)
    requires
        0 <= start,
        start / 4 < ctx.len(),
        1 <= size <= 4,
        0 <= j < size,
    ensures
        (context_bytes_spec(ctx, start, size) >> ((8 * (size - 1 - j)) as u32)) & 0xff == if start % 4 + j < 4 {
            (ctx[start / 4] >> ((8 * (3 - start % 4 - j)) as u32)) & 0xff
        } else {
            0
        },
        size < 4 ==> context_bytes_spec(ctx, start, size) >> ((8 * size) as u32) == 0,
{
    lemma_word_bytes(ctx[start / 4], (start % 4) as u32, size as u32, j as u32);
}

/// What reading `size` bits (at most 32) from bit `start` of the context
/// gives: the bits of the word holding `start` from there on, followed by
/// the bits of the next word (where there is one) that the field spills
/// into.
pub open spec fn context_bits_spec(ctx: Seq<u32>, start: int, size: int) -> u32 {
    let start_off = start / 32;
    let bits_off = start % 32;
    let w = ctx[start_off] << (bits_off as u32);
    let unused = 32 - size;
    let r = if unused >= 32 { 0u32 } else { w >> (unused as u32) };
    let remaining = bits_off + size - 32;
    if remaining <= 0 || start_off + 1 >= ctx.len() {
        r
    } else {
        r | (ctx[start_off + 1] >> ((32 - remaining) as u32))
    }
}

/// The furthest that the operands `operands` (from place `first`) reach:
/// the largest of `base` and each operand's offset plus length.
pub open spec fn furthest<T: Copy>(nodes: Seq<ConstructorNode<T>>, first: int, count: int, base: int) -> int
    decreases count,
{
    if count <= 0 {
        base
    } else {
        let op = nodes[first + count - 1];
        let reach = op.length + op.offset;
        let rest = furthest(nodes, first, count - 1, base);
        if reach > rest { reach } else { rest }
    }
}

impl<T: Copy> ParserInput<T> {
    /// The input of the instruction at `address` whose bytes begin `bytes`
    /// (the first sixteen are kept, the rest of the buffer is zero), with
    /// an empty context and only the root constructor place allocated.
    pub fn new(address: u64, bytes: &[u8]) -> (r: Self)
        ensures
            r.wf(),
            forall|i: int| 0 <= i < BUFFER_SIZE ==> r.spec_buffer()[i] == if i < bytes@.len() { bytes@[i] } else { 0 },
            r.spec_context() == Seq::<u32>::empty(),
            forall|i: int| 0 <= i < MAX_CTOR_STATES ==> r.spec_nodes()[i] == empty_node::<T>(),
            r.spec_address() == address,
            r.spec_next_address() is None,
            r.spec_offset() == 0,
            r.spec_delay_slot() == 0,
            r.spec_alloc() == 1,
            forall|i: int| 0 <= i < BREADCRUMBS ==> r.spec_breadcrumb()[i] == 0,
            r.spec_depth() == 0,
            r.spec_point() == 0,
    {
        let mut buffer: Vec<u8> = Vec::new();
        let mut i: usize = 0;
        while i < BUFFER_SIZE
            invariant
                i <= BUFFER_SIZE,
                buffer@.len() == i,
                forall|j: int| 0 <= j < i ==> buffer@[j] == if j < bytes@.len() { bytes@[j] } else { 0 },
            decreases BUFFER_SIZE - i,
        {
            if i < bytes.len() {
                buffer.push(bytes[i]);
            } else {
                buffer.push(0);
            }
            i = i + 1;
        }
        let mut constructors: Vec<ConstructorNode<T>> = Vec::new();
        let mut k: usize = 0;
        while k < MAX_CTOR_STATES
            invariant
                k <= MAX_CTOR_STATES,
                constructors@.len() == k,
                forall|j: int| 0 <= j < k ==> constructors@[j] == empty_node::<T>(),
            decreases MAX_CTOR_STATES - k,
        {
            constructors.push(ConstructorNode::empty());
            k = k + 1;
        }
        let mut breadcrumb: Vec<u8> = Vec::new();
        let mut b: usize = 0;
        while b < BREADCRUMBS
            invariant
                b <= BREADCRUMBS,
                breadcrumb@.len() == b,
                forall|j: int| 0 <= j < b ==> breadcrumb@[j] == 0,
            decreases BREADCRUMBS - b,
        {
            breadcrumb.push(0);
            b = b + 1;
        }
        ParserInput {
            buffer,
            context: ctx_new(),
            constructors,
            address,
            next_address: None,
            offset: 0,
            delay_slot: 0,
            alloc: 1,
            breadcrumb,
            depth: 0,
            point: 0,
        }
    }

    /// Returns to the root constructor.
    pub fn base_state(&mut self)
        requires
            old(self).wf(),
        ensures
            final(self).wf(),
            final(self).spec_point() == 0,
            final(self).spec_depth() == 0,
            final(self).spec_breadcrumb() == old(self).spec_breadcrumb().update(0, 0),
            final(self).spec_buffer() == old(self).spec_buffer(),
            final(self).spec_context() == old(self).spec_context(),
            final(self).spec_nodes() == old(self).spec_nodes(),
            final(self).spec_alloc() == old(self).spec_alloc(),
            final(self).spec_offset() == old(self).spec_offset(),
    {
        assert(self.breadcrumb@.len() == BREADCRUMBS);
        self.breadcrumb.set(0, 0);
        self.point = 0;
        self.depth = 0;
    }

    /// The address of the instruction.
    pub fn address(&self) -> (r: u64)
        ensures
            r == self.spec_address(),
    {
        self.address
    }

    /// The address of the next instruction, once known.
    pub fn next_address(&self) -> (r: Option<u64>)
        ensures
            r == self.spec_next_address(),
    {
        self.next_address
    }

    /// Whether the parse has no current constructor.
    pub fn resolved(&self) -> (r: bool)
        ensures
            r == (self.spec_point() == INVALID_HANDLE),
    {
        self.point == INVALID_HANDLE
    }

    /// The operand being explored at the current depth.
    pub fn operand(&self) -> (r: usize)
        requires
            self.wf(),
            0 <= self.spec_depth() < BREADCRUMBS,
        ensures
            r == self.spec_breadcrumb()[self.spec_depth() as int],
    {
        self.breadcrumb[self.depth as usize] as usize
    }

    /// The current constructor.
    pub fn constructor(&self) -> (r: T)
        requires
            self.wf(),
            self.spec_point() < MAX_CTOR_STATES,
            self.spec_current().constructor is Some,
        ensures
            r == self.spec_current().constructor->0,
    {
        match self.constructors[self.point as usize].constructor {
            Some(c) => c,
            None => {
                proof {
                    assert(false);
                }
                self.constructors[0].constructor.unwrap()
            },
        }
    }

    /// Takes the context words in force at the instruction's address.
    pub fn set_context(&mut self, db: &ContextDatabase)
        requires
            db.wf(),
            db.spec_context(old(self).spec_address() as int).len() <= MAX_CTXT_CHUNKS,
        ensures
            final(self).spec_context() == db.spec_context(old(self).spec_address() as int),
            final(self).spec_buffer() == old(self).spec_buffer(),
            final(self).spec_nodes() == old(self).spec_nodes(),
            final(self).spec_breadcrumb() == old(self).spec_breadcrumb(),
            final(self).spec_point() == old(self).spec_point(),
            final(self).spec_depth() == old(self).spec_depth(),
            final(self).spec_address() == old(self).spec_address(),
            final(self).spec_offset() == old(self).spec_offset(),
            final(self).spec_alloc() == old(self).spec_alloc(),
    {
        let words = db.get_context(self.address);
        match ctx_from_slice(words) {
            Some(v) => {
                self.context = v;
            },
            None => {},
        }
    }

    /// Reads `size` bytes big endian from byte `start` of the instruction
    /// (see `instruction_bytes_spec`).
    pub fn instruction_bytes(&self, start: usize, size: usize) -> (r: Option<u32>)
        requires
            self.wf(),
            self.spec_offset() + start + size <= usize::MAX,
        ensures
            r == instruction_bytes_spec(self.spec_buffer(), start as int, size as int, self.spec_offset() as int),
    {
        self.instruction_bytes_with(start, size, self.offset as usize)
    }

    /// Reads `size` bytes big endian from byte `offset + start` of the
    /// buffer (see `instruction_bytes_spec`).
    pub fn instruction_bytes_with(&self, start: usize, size: usize, offset: usize) -> (r: Option<u32>)
        requires
            self.wf(),
            offset + start + size <= usize::MAX,
        ensures
            r == instruction_bytes_spec(self.spec_buffer(), start as int, size as int, offset as int),
    {
        let off = offset + start;
        let end = off + size;
        let len = self.buffer.len();
        if off > len {
            return None;
        }
        let stop = if end < len { end } else { len };
        let mut result: u32 = 0;
        let mut i = off;
        while i < stop
            invariant
                off <= i <= stop <= len == self.spec_buffer().len(),
                result == be_trunc(self.spec_buffer().subrange(off as int, i as int)),
            decreases stop - i,
        {
            let byte = self.buffer[i];
            proof {
                let s = self.spec_buffer().subrange(off as int, i + 1);
                assert(s.drop_last() =~= self.spec_buffer().subrange(off as int, i as int));
                assert(s.last() == byte);
            }
            let next = (result << 8) | (byte as u32);
            assert(next == ((result as int * 256 + byte as int) % 0x1_0000_0000) as u32) by (bit_vector)
                requires
                    next == (result << 8) | (byte as u32),
            ;
            result = next;
            i = i + 1;
        }
        Some(result)
    }

    /// Reads `size` bits from bit `start` of the instruction (see
    /// `instruction_bits_spec`).
    pub fn instruction_bits(&self, start: usize, size: usize) -> (r: Option<u32>)
        requires
            self.wf(),
            self.spec_offset() + start + size + 7 <= usize::MAX,
            instruction_bits_ok(BUFFER_SIZE as int, start as int, size as int, self.spec_offset() as int),
        ensures
            r == instruction_bits_spec(self.spec_buffer(), start as int, size as int, self.spec_offset() as int),
    {
        self.instruction_bits_with(start, size, self.offset as usize)
    }

    /// Reads `size` bits from bit `start` of the buffer from byte `offset`
    /// (see `instruction_bits_spec`).
    pub fn instruction_bits_with(&self, start: usize, size: usize, offset: usize) -> (r: Option<u32>)
        requires
            self.wf(),
            offset + start + size + 7 <= usize::MAX,
            instruction_bits_ok(BUFFER_SIZE as int, start as int, size as int, offset as int),
        ensures
            r == instruction_bits_spec(self.spec_buffer(), start as int, size as int, offset as int),
    {
        let bit_offset = start % 8;
        let byte_offset = offset + start / 8;
        let total_bits = bit_offset + size;
        let bytes_needed = (total_bits + 7) / 8;
        let len = self.buffer.len();
        if byte_offset >= len {
            return None;
        }
        let available = len - byte_offset;
        let bytes_to_read = if bytes_needed < available { bytes_needed } else { available };
        let mut result: u32 = 0;
        let mut i: usize = 0;
        while i < bytes_to_read
            invariant
                i <= bytes_to_read <= available == len - byte_offset,
                len == self.spec_buffer().len(),
                byte_offset < len,
                result == be_trunc(self.spec_buffer().subrange(byte_offset as int, byte_offset + i)),
            decreases bytes_to_read - i,
        {
            let byte = self.buffer[byte_offset + i];
            proof {
                let s = self.spec_buffer().subrange(byte_offset as int, byte_offset + i + 1);
                assert(s.drop_last() =~= self.spec_buffer().subrange(byte_offset as int, byte_offset + i));
                assert(s.last() == byte);
            }
            let next = (result << 8) | (byte as u32);
            assert(next == ((result as int * 256 + byte as int) % 0x1_0000_0000) as u32) by (bit_vector)
                requires
                    next == (result << 8) | (byte as u32),
            ;
            result = next;
            i = i + 1;
        }
        let left = 32 - (bytes_to_read * 8) + bit_offset;
        result = if left >= 32 { 0 } else { result << (left as u32) };
        let right = 32 - size;
        result = if right >= 32 { 0 } else { result >> (right as u32) };
        Some(result)
    }

    /// Reads `size` bytes (at most four) from byte `start` of the context
    /// (see `context_bytes_spec`).
    pub fn context_bytes(&self, start: usize, size: usize) -> (r: u32)
        requires
            size <= 4,
            start / 4 < self.spec_context().len(),
        ensures
            r == context_bytes_spec(self.spec_context(), start as int, size as int),
    {
        let start_off = start / 4;
        let bytes_off = start % 4;
        let unused = 4 - size;
        let mut result = ctx_get(&self.context, start_off);
        result = result << ((bytes_off * 8) as u32);
        result = if unused * 8 >= 32 { 0 } else { result >> ((unused * 8) as u32) };
        result
    }

    /// Reads `size` bits (at most 32) from bit `start` of the context (see
    /// `context_bits_spec`).
    pub fn context_bits(&self, start: usize, size: usize) -> (r: u32)
        requires
            size <= 32,
            start / 32 < self.spec_context().len(),
        ensures
            r == context_bits_spec(self.spec_context(), start as int, size as int),
    {
        let start_off = start / 32;
        let bits_off = start % 32;
        let unused = 32 - size;
        let mut result = ctx_get(&self.context, start_off);
        result = result << (bits_off as u32);
        result = if unused >= 32 { 0 } else { result >> (unused as u32) };
        let remaining = (bits_off + size) as i32 - 32;
        if remaining <= 0 {
            return result;
        }
        if start_off + 1 < ctx_len(&self.context) {
            let next = ctx_get(&self.context, start_off + 1);
            let nresult = next >> ((32 - remaining) as u32);
            result = result | nresult;
        }
        result
    }
}

impl<T: Copy> ParserInput<T> {
    /// Whether `self` and `o` hold the same instruction bytes, context,
    /// addresses, offset and delay slot.
    pub open spec fn same_input(&self, o: &Self) -> bool {
        &&& self.spec_buffer() == o.spec_buffer()
        &&& self.spec_context() == o.spec_context()
        &&& self.spec_address() == o.spec_address()
        &&& self.spec_next_address() == o.spec_next_address()
        &&& self.spec_offset() == o.spec_offset()
        &&& self.spec_delay_slot() == o.spec_delay_slot()
    }

    /// Whether `self` and `o` hold the same path to the current constructor.
    pub open spec fn same_path(&self, o: &Self) -> bool {
        &&& self.spec_breadcrumb() == o.spec_breadcrumb()
        &&& self.spec_depth() == o.spec_depth()
        &&& self.spec_point() == o.spec_point()
    }

    /// Sets the length of the current constructor to cover `length` bytes
    /// from its offset and the reach of each of its `operands` operands.
    pub fn calculate_length(&mut self, length: usize, operands: usize)
        requires
            old(self).wf(),
            old(self).spec_point() < MAX_CTOR_STATES,
            old(self).spec_current().operands + operands <= MAX_CTOR_STATES,
            length + old(self).spec_current().offset <= usize::MAX,
            forall|i: int|
                old(self).spec_current().operands <= i < old(self).spec_current().operands + operands
                    ==> #[trigger] old(self).spec_nodes()[i].length + old(self).spec_nodes()[i].offset <= u8::MAX,
        ensures
            final(self).wf(),
            final(self).spec_nodes() == old(self).spec_nodes().update(
                old(self).spec_point() as int,
                ConstructorNode {
                    length: (furthest(
                        old(self).spec_nodes(),
                        old(self).spec_current().operands as int,
                        operands as int,
                        length + old(self).spec_current().offset,
                    ) - old(self).spec_current().offset) as u8,
                    ..old(self).spec_current()
                },
            ),
            final(self).same_input(old(self)),
            final(self).same_path(old(self)),
            final(self).spec_alloc() == old(self).spec_alloc(),
    {
        let point = self.point as usize;
        let state = self.constructors[point];
        let offset = state.offset as usize;
        let mut max_length = length + offset;
        let first = state.operands as usize;
        let mut opid: usize = 0;
        while opid < operands
            invariant
                opid <= operands,
                first + operands <= MAX_CTOR_STATES == self.constructors@.len(),
                forall|i: int|
                    first <= i < first + operands ==> #[trigger] self.constructors@[i].length
                        + self.constructors@[i].offset <= u8::MAX,
                max_length == furthest(self.constructors@, first as int, opid as int, length + offset),
            decreases operands - opid,
        {
            let op = self.constructors[first + opid];
            let op_len = (op.length + op.offset) as usize;
            if op_len > max_length {
                max_length = op_len;
            }
            opid = opid + 1;
        }
        proof {
            lemma_furthest_at_least(self.constructors@, first as int, operands as int, length + offset);
        }
        let mut node = self.constructors[point];
        node.length = #[verifier::truncate] ((max_length - offset) as u8);
        self.constructors.set(point, node);
    }

    /// The offset of the current constructor.
    pub fn offset(&self) -> (r: usize)
        requires
            self.wf(),
            self.spec_point() < MAX_CTOR_STATES,
        ensures
            r == self.spec_current().offset,
    {
        self.constructors[self.point as usize].offset as usize
    }

    /// Sets the offset of the current constructor (truncated to a byte).
    pub fn set_offset(&mut self, offset: usize)
        requires
            old(self).wf(),
            old(self).spec_point() < MAX_CTOR_STATES,
        ensures
            final(self).wf(),
            final(self).spec_nodes() == old(self).spec_nodes().update(
                old(self).spec_point() as int,
                ConstructorNode { offset: offset as u8, ..old(self).spec_current() },
            ),
            final(self).same_input(old(self)),
            final(self).same_path(old(self)),
            final(self).spec_alloc() == old(self).spec_alloc(),
    {
        let point = self.point as usize;
        let mut node = self.constructors[point];
        node.offset = #[verifier::truncate] (offset as u8);
        self.constructors.set(point, node);
    }

    /// Where the operand `index` of the current constructor ends.
    pub fn offset_for_operand(&self, index: usize) -> (r: usize)
        requires
            self.wf(),
            self.spec_point() < MAX_CTOR_STATES,
            self.spec_current().operands + index < MAX_CTOR_STATES,
        ensures
            r == self.spec_nodes()[self.spec_current().operands + index].offset + self.spec_nodes()[self.spec_current().operands + index].length,
    {
        let opid = self.constructors[self.point as usize].operands as usize + index;
        let op = self.constructors[opid];
        op.offset as usize + op.length as usize
    }

    /// Sets the constructor of the current place.
    pub fn set_constructor(&mut self, ctor: T)
        requires
            old(self).wf(),
            old(self).spec_point() < MAX_CTOR_STATES,
        ensures
            final(self).wf(),
            final(self).spec_nodes() == old(self).spec_nodes().update(
                old(self).spec_point() as int,
                ConstructorNode { constructor: Some(ctor), ..old(self).spec_current() },
            ),
            final(self).same_input(old(self)),
            final(self).same_path(old(self)),
            final(self).spec_alloc() == old(self).spec_alloc(),
    {
        let point = self.point as usize;
        let mut node = self.constructors[point];
        node.constructor = Some(ctor);
        self.constructors.set(point, node);
    }

    /// Sets the bits `mask` of context word `num` to those of `value`.
    pub fn set_context_word(&mut self, num: usize, value: u32, mask: u32)
        requires
            num < old(self).spec_context().len(),
        ensures
            final(self).spec_context() == old(self).spec_context().update(
                num as int,
                (old(self).spec_context()[num as int] & !mask) | (mask & value),
            ),
            final(self).spec_buffer() == old(self).spec_buffer(),
            final(self).spec_nodes() == old(self).spec_nodes(),
            final(self).same_path(old(self)),
            final(self).spec_alloc() == old(self).spec_alloc(),
            final(self).spec_address() == old(self).spec_address(),
            final(self).spec_offset() == old(self).spec_offset(),
    {
        let word = ctx_get(&self.context, num);
        ctx_set(&mut self.context, num, (word & !mask) | (mask & value));
    }

    /// Sets the length of the current constructor (truncated to a byte).
    pub fn set_current_length(&mut self, length: usize)
        requires
            old(self).wf(),
            old(self).spec_point() < MAX_CTOR_STATES,
        ensures
            final(self).wf(),
            final(self).spec_nodes() == old(self).spec_nodes().update(
                old(self).spec_point() as int,
                ConstructorNode { length: length as u8, ..old(self).spec_current() },
            ),
            final(self).same_input(old(self)),
            final(self).same_path(old(self)),
            final(self).spec_alloc() == old(self).spec_alloc(),
    {
        let point = self.point as usize;
        let mut node = self.constructors[point];
        node.length = #[verifier::truncate] (length as u8);
        self.constructors.set(point, node);
    }

    /// Sets the number of delay slot bytes (truncated to a byte).
    pub fn set_delay_slot(&mut self, count: usize)
        ensures
            final(self).spec_delay_slot() == count as u8,
            final(self).spec_buffer() == old(self).spec_buffer(),
            final(self).spec_context() == old(self).spec_context(),
            final(self).spec_nodes() == old(self).spec_nodes(),
            final(self).same_path(old(self)),
            final(self).spec_alloc() == old(self).spec_alloc(),
            final(self).spec_offset() == old(self).spec_offset(),
    {
        self.delay_slot = #[verifier::truncate] (count as u8);
    }

    /// Allocates `operands` fresh places after those allocated so far as the
    /// operands of the current constructor, and returns where they start.
    pub fn allocate_operands(&mut self, operands: usize) -> (r: usize)
        requires
            old(self).wf(),
            old(self).spec_point() < MAX_CTOR_STATES,
            old(self).spec_alloc() + operands <= MAX_CTOR_STATES,
        ensures
            final(self).wf(),
            r == old(self).spec_alloc(),
            final(self).spec_alloc() == old(self).spec_alloc() + operands,
            forall|i: int|
                0 <= i < MAX_CTOR_STATES ==> {
                    let filled = if r <= i < r + operands {
                        fresh_node::<T>(old(self).spec_point())
                    } else {
                        old(self).spec_nodes()[i]
                    };
                    #[trigger] final(self).spec_nodes()[i] == if i == old(self).spec_point() {
                        ConstructorNode { operands: old(self).spec_alloc(), ..filled }
                    } else {
                        filled
                    }
                },
            final(self).same_input(old(self)),
            final(self).same_path(old(self)),
    {
        let id = self.alloc as usize;
        let point = self.point;
        let mut opid: usize = 0;
        while opid < operands
            invariant
                opid <= operands,
                id + operands <= MAX_CTOR_STATES == self.constructors@.len(),
                point == old(self).spec_point(),
                forall|i: int|
                    0 <= i < MAX_CTOR_STATES ==> #[trigger] self.constructors@[i] == if id <= i < id + opid {
                        ConstructorNode {
                            parent: point,
                            constructor: None,
                            operands: INVALID_HANDLE,
                            offset: 0,
                            length: 0,
                        }
                    } else {
                        old(self).spec_nodes()[i]
                    },
                self.same_input(old(self)),
                self.same_path(old(self)),
                self.spec_alloc() == old(self).spec_alloc(),
                self.wf(),
            decreases operands - opid,
        {
            self.constructors.set(
                id + opid,
                ConstructorNode {
                    parent: point,
                    constructor: None,
                    operands: INVALID_HANDLE,
                    offset: 0,
                    length: 0,
                },
            );
            opid = opid + 1;
        }
        self.alloc = (id + operands) as u8;
        let p = point as usize;
        let mut node = self.constructors[p];
        node.operands = id as u8;
        self.constructors.set(p, node);
        id
    }

    /// Descends to operand `operand` of the current constructor.
    pub fn push_operand(&mut self, operand: usize)
        requires
            old(self).wf(),
            0 <= old(self).spec_depth() < MAX_PARSER_DEPTH,
            old(self).spec_point() < MAX_CTOR_STATES,
            operand < u8::MAX,
            old(self).spec_current().operands + operand <= u8::MAX,
        ensures
            final(self).wf(),
            final(self).spec_depth() == old(self).spec_depth() + 1,
            final(self).spec_point() == old(self).spec_current().operands + operand,
            final(self).spec_breadcrumb() == old(self).spec_breadcrumb().update(
                old(self).spec_depth() as int,
                (operand + 1) as u8,
            ).update(old(self).spec_depth() + 1, 0),
            final(self).same_input(old(self)),
            final(self).spec_nodes() == old(self).spec_nodes(),
            final(self).spec_alloc() == old(self).spec_alloc(),
    {
        let depth = self.depth as usize;
        self.breadcrumb.set(depth, (operand + 1) as u8);
        self.depth = self.depth + 1;
        self.point = self.constructors[self.point as usize].operands + operand as u8;
        self.breadcrumb.set(depth + 1, 0);
    }

    /// Returns to the parent of the current constructor.
    pub fn pop_operand(&mut self)
        requires
            old(self).wf(),
            old(self).spec_point() < MAX_CTOR_STATES,
            old(self).spec_depth() > i8::MIN,
        ensures
            final(self).wf(),
            final(self).spec_point() == old(self).spec_current().parent,
            final(self).spec_depth() == old(self).spec_depth() - 1,
            final(self).spec_breadcrumb() == old(self).spec_breadcrumb(),
            final(self).same_input(old(self)),
            final(self).spec_nodes() == old(self).spec_nodes(),
            final(self).spec_alloc() == old(self).spec_alloc(),
    {
        self.point = self.constructors[self.point as usize].parent;
        self.depth = self.depth - 1;
    }

    /// The length of the instruction: that of the root constructor.
    pub fn len(&self) -> (r: usize)
        requires
            self.wf(),
        ensures
            r == self.spec_nodes()[0].length,
    {
        self.constructors[0].length as usize
    }
}

proof fn lemma_furthest_at_least<T: Copy>(nodes: Seq<ConstructorNode<T>>, first: int, count: int, base: int)
    ensures
        furthest(nodes, first, count, base) >= base,
    decreases count,
{
    if count > 0 {
        lemma_furthest_at_least(nodes, first, count - 1, base);
    }
}

impl<T: Copy> ParserInput<T> {
    /// The place at `i`.
    pub(crate) fn node(&self, i: usize) -> (r: ConstructorNode<T>)
        requires
            i < self.spec_nodes().len(),
        ensures
            r == self.spec_nodes()[i as int],
    {
        self.constructors[i]
    }

    /// The current place.
    pub(crate) fn point(&self) -> (r: u8)
        ensures
            r == self.spec_point(),
    {
        self.point
    }

    /// The depth of the current place.
    pub(crate) fn depth(&self) -> (r: i8)
        ensures
            r == self.spec_depth(),
    {
        self.depth
    }

    /// The next free place.
    pub(crate) fn next_free(&self) -> (r: u8)
        ensures
            r == self.spec_alloc(),
    {
        self.alloc
    }

    /// The offset of the instruction in the buffer.
    pub(crate) fn buffer_offset(&self) -> (r: u8)
        ensures
            r == self.spec_offset(),
    {
        self.offset
    }

    /// Replaces the place at `i`.
    pub(crate) fn set_node(&mut self, i: usize, node: ConstructorNode<T>)
        requires
            i < old(self).spec_nodes().len(),
        ensures
            final(self).spec_nodes() == old(self).spec_nodes().update(i as int, node),
            final(self).same_input(old(self)),
            final(self).same_path(old(self)),
            final(self).spec_alloc() == old(self).spec_alloc(),
            final(self).wf() == old(self).wf(),
    {
        self.constructors.set(i, node);
    }

    /// Moves to place `point` at depth `depth` with the path `breadcrumb`,
    /// handing back the path that was there.
    pub(crate) fn swap_path(&mut self, point: u8, depth: i8, breadcrumb: Vec<u8>) -> (r: Vec<u8>)
        requires
            old(self).wf(),
            breadcrumb@.len() == BREADCRUMBS,
        ensures
            r@ == old(self).spec_breadcrumb(),
            final(self).spec_breadcrumb() == breadcrumb@,
            final(self).spec_point() == point,
            final(self).spec_depth() == depth,
            final(self).spec_nodes() == old(self).spec_nodes(),
            final(self).same_input(old(self)),
            final(self).spec_alloc() == old(self).spec_alloc(),
            final(self).wf(),
    {
        let mut b = breadcrumb;
        std::mem::swap(&mut b, &mut self.breadcrumb);
        self.point = point;
        self.depth = depth;
        b
    }
}

/// A path of all zeros.
pub(crate) fn zeros_path() -> (r: Vec<u8>)
    ensures
        r@.len() == BREADCRUMBS,
        forall|i: int| 0 <= i < BREADCRUMBS ==> r@[i] == 0,
{
    let mut v: Vec<u8> = Vec::new();
    let mut i: usize = 0;
    while i < BREADCRUMBS
        invariant
            i <= BREADCRUMBS,
            v@.len() == i,
            forall|j: int| 0 <= j < i ==> v@[j] == 0,
        decreases BREADCRUMBS - i,
    {
        v.push(0);
        i = i + 1;
    }
    v
}

/// Descending into an operand whose place records the current place as its
/// parent (as `allocate_operands` leaves it) and returning comes back to the
/// same place and depth: `after` is `before` with `push_operand(operand)`
/// and then `pop_operand()` applied, as their results restate.
pub proof fn lemma_push_pop<T: Copy>(before: ParserInput<T>, mid: ParserInput<T>, after: ParserInput<T>, operand: usize)
    requires
        before.spec_point() < MAX_CTOR_STATES,
        before.spec_current().operands + operand < MAX_CTOR_STATES,
        before.spec_nodes()[before.spec_current().operands + operand].parent == before.spec_point(),
        mid.spec_depth() == before.spec_depth() + 1,
        mid.spec_point() == before.spec_current().operands + operand,
        mid.spec_nodes() == before.spec_nodes(),
        after.spec_point() == mid.spec_current().parent,
        after.spec_depth() == mid.spec_depth() - 1,
    ensures
        after.spec_point() == before.spec_point(),
        after.spec_depth() == before.spec_depth(),
{
}

} // verus!

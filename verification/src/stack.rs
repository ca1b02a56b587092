//! The layout of a fresh task stack: where the closure payload and the entry
//! address go, and where the initial stack pointer points.

use vstd::prelude::*;
use vstd::arithmetic::power2::is_pow2;

verus! {

/// The alignment that the calling conventions ask of a stack top.
pub const STACK_ALIGN: u64 = 16;

/// The distance from the aligned top down to the initial stack pointer.
pub const FRAME_SIZE: u64 = 32;

/// The distance from the initial stack pointer up to the payload slot.
pub const PAYLOAD_OFFSET: u64 = 16;

/// The stack size of a task that is spawned by the scheduler: 8 MiB.
pub const DEFAULT_STACK_SIZE: usize = 0x80_0000;

/// The largest stack size that can be asked for: a quarter of the address
/// space, the largest power of two that a buffer can have.
pub const MAX_STACK_SIZE: usize = usize::MAX / 4 + 1;

/// The address of a boxed closure, as the two words of a wide pointer.
#[derive(Clone, Copy, Debug, PartialEq, Eq, Structural)]
pub struct Payload {
    pub data: u64,
    pub vtable: u64,
}

/// The addresses of the initial frame of a task.
#[derive(Clone, Copy, Debug, PartialEq, Eq, Structural)]
pub struct Frame {
    /// The highest multiple of 16 inside the stack region.
    pub top: u64,
    /// Where the payload lies: 16 bytes below `top`.
    pub payload_at: u64,
    /// The initial stack pointer, where the entry address lies: 32 bytes
    /// below `top`.
    pub rsp: u64,
}

/// The address that lies `offset` bytes above `base`, as the core computes
/// it: modulo the size of the address space.
pub open spec fn spec_address(base: u64, offset: int) -> u64 {
    ((base + offset) % 0x1_0000_0000_0000_0000) as u64
}

/// How many bytes the address `addr` lies above `base`, modulo the size of
/// the address space.
pub open spec fn spec_offset(base: u64, addr: u64) -> int {
    (addr - base) % 0x1_0000_0000_0000_0000
}

/// Where the aligned top of a region lies, in bytes above `base`: the end of
/// the region, taken down to a multiple of 16. It is below zero where the
/// region ends before the first multiple of 16.
pub open spec fn spec_top_offset(base: u64, len: nat) -> int {
    len - (base + len) % 16
}

/// Whether a region of `len` bytes at `base` has room for the initial frame
/// below its aligned top. A region of 47 bytes or more has, whatever its
/// address is.
pub open spec fn spec_frame_fits(base: u64, len: nat) -> bool {
    FRAME_SIZE <= spec_top_offset(base, len)
}

/// The initial frame of the region of `len` bytes at `base`.
pub open spec fn spec_frame(base: u64, len: nat) -> Frame {
    Frame {
        top: spec_address(base, spec_top_offset(base, len)),
        payload_at: spec_address(base, spec_top_offset(base, len) - FRAME_SIZE + PAYLOAD_OFFSET),
        rsp: spec_address(base, spec_top_offset(base, len) - FRAME_SIZE),
    }
}

/// Computes the initial frame of a stack region, or `None` where the region
/// is too small to hold the frame below its aligned top.
pub fn frame(base: u64, len: usize) -> (f: Option<Frame>)
    ensures
        f.is_some() == spec_frame_fits(base, len as nat),
        f.is_some() ==> f.unwrap() == spec_frame(base, len as nat),
{
    let over: u64 = (base % 16 + (len as u64) % 16) % 16;
    assert(over == (base + len) % 16);
    if (len as u64) < over + FRAME_SIZE {
        return None;
    }
    let top: u64 = len as u64 - over;
    Some(
        Frame {
            top: base.wrapping_add(top),
            payload_at: base.wrapping_add(top - FRAME_SIZE + PAYLOAD_OFFSET),
            rsp: base.wrapping_add(top - FRAME_SIZE),
        },
    )
}

/// An address wraps at most once, and gives back the offset that it was
/// made from.
pub proof fn lemma_offset_of_address(base: u64, offset: int)
    requires
        0 <= offset < 0x1_0000_0000_0000_0000,
    ensures
        spec_address(base, offset) == if base + offset < 0x1_0000_0000_0000_0000 {
            base + offset
        } else {
            base + offset - 0x1_0000_0000_0000_0000
        },
        spec_offset(base, spec_address(base, offset)) == offset,
{
}

/// A frame that fits is aligned and lies inside its region, the payload
/// slot and the entry slot do not overlap, and a callee entered by a return
/// from the initial stack pointer finds the stack as after a call. Where
/// the region lies inside the address space, so does the frame.
pub proof fn lemma_frame_layout(base: u64, len: nat)
    requires
        spec_frame_fits(base, len),
        len <= usize::MAX,
    ensures
        spec_frame(base, len).top % 16 == 0,
        spec_frame(base, len).rsp % 16 == 0,
        (spec_frame(base, len).rsp + 8) % 16 == 8,
        spec_offset(base, spec_frame(base, len).rsp) == spec_top_offset(base, len) - FRAME_SIZE,
        spec_offset(base, spec_frame(base, len).payload_at) == spec_offset(
            base,
            spec_frame(base, len).rsp,
        ) + PAYLOAD_OFFSET,
        spec_offset(base, spec_frame(base, len).top) == spec_offset(
            base,
            spec_frame(base, len).rsp,
        ) + FRAME_SIZE,
        spec_top_offset(base, len) <= len,
        len - spec_top_offset(base, len) < 16,
        base + len <= u64::MAX ==> {
            &&& base <= spec_frame(base, len).rsp
            &&& spec_frame(base, len).payload_at == spec_frame(base, len).rsp + PAYLOAD_OFFSET
            &&& spec_frame(base, len).top == spec_frame(base, len).rsp + FRAME_SIZE
            &&& spec_frame(base, len).top <= base + len
        },
{
    let top = spec_top_offset(base, len);
    lemma_offset_of_address(base, top);
    lemma_offset_of_address(base, top - 16);
    lemma_offset_of_address(base, top - 32);
    let t = base + top;
    assert(t % 16 == 0);
    assert((t - 0x1_0000_0000_0000_0000) % 16 == 0);
    assert((t - 32) % 16 == 0);
    assert((t - 32 - 0x1_0000_0000_0000_0000) % 16 == 0);
}

/// A region of 47 bytes or more has room for the initial frame at every
/// address.
pub proof fn lemma_large_fits(base: u64, len: nat)
    requires
        len >= FRAME_SIZE + STACK_ALIGN - 1,
    ensures
        spec_frame_fits(base, len),
{
}

/// Byte `i` of a word, counted from the least significant one.
pub open spec fn spec_byte_of(v: u64, i: u64) -> u8 {
    ((v >> (8 * i)) & 0xff) as u8
}

/// The eight bytes of a word, least significant first.
pub open spec fn spec_word_bytes(v: u64) -> Seq<u8> {
    Seq::new(8, |i: int| spec_byte_of(v, i as u64))
}

/// The word whose eight bytes lie at `at`, least significant first.
pub open spec fn spec_word_at(s: Seq<u8>, at: int) -> u64 {
    (s[at] as u64) | (s[at + 1] as u64) << 8 | (s[at + 2] as u64) << 16 | (s[at + 3] as u64) << 24
        | (s[at + 4] as u64) << 32 | (s[at + 5] as u64) << 40 | (s[at + 6] as u64) << 48 | (s[at
        + 7] as u64) << 56
}

/// The bytes `s` with the eight bytes of `v` written at `at`.
pub open spec fn spec_store(s: Seq<u8>, at: int, v: u64) -> Seq<u8> {
    Seq::new(
        s.len(),
        |i: int|
            if at <= i < at + 8 {
                spec_byte_of(v, (i - at) as u64)
            } else {
                s[i]
            },
    )
}

/// Byte `i` of a word, counted from the least significant one.
pub fn byte_of(v: u64, i: u64) -> (b: u8)
    requires
        i < 8,
    ensures
        b == spec_byte_of(v, i),
{
    let w: u64 = (v >> (8 * i)) & 0xff;
    assert(w < 256) by (bit_vector)
        requires
            w == (v >> (8 * i)) & 0xff,
    ;
    w as u8
}

/// Writes the eight bytes of `v` at `at`, least significant first, and
/// leaves every other byte as it was.
pub fn write_word(stack: &mut Vec<u8>, at: usize, v: u64)
    requires
        at + 8 <= old(stack)@.len(),
    ensures
        final(stack)@ == spec_store(old(stack)@, at as int, v),
{
    let len: usize = stack.len();
    let mut i: usize = 0;
    while i < 8
        invariant
            i <= 8,
            at + 8 <= stack@.len(),
            stack@.len() == len,
            stack@.len() == old(stack)@.len(),
            forall|j: int|
                0 <= j < stack@.len() ==> stack@[j] == if at <= j < at + i {
                    spec_byte_of(v, (j - at) as u64)
                } else {
                    old(stack)@[j]
                },
        decreases 8 - i,
    {
        let b = byte_of(v, i as u64);
        stack.set(at + i, b);
        i = i + 1;
    }
    assert(stack@ =~= spec_store(old(stack)@, at as int, v));
}

/// Reads the word whose eight bytes lie at `at`, least significant first.
pub fn read_word(stack: &Vec<u8>, at: usize) -> (v: u64)
    requires
        at + 8 <= stack@.len(),
    ensures
        v == spec_word_at(stack@, at as int),
{
    let len: usize = stack.len();
    assert(at + 8 <= len);
    (stack[at] as u64) | (stack[at + 1] as u64) << 8 | (stack[at + 2] as u64) << 16 | (stack[at
        + 3] as u64) << 24 | (stack[at + 4] as u64) << 32 | (stack[at + 5] as u64) << 40 | (
    stack[at + 6] as u64) << 48 | (stack[at + 7] as u64) << 56
}

/// A word that was written at `at` is read back from there.
pub proof fn lemma_store_then_read(s: Seq<u8>, at: int, v: u64)
    requires
        0 <= at,
        at + 8 <= s.len(),
    ensures
        spec_word_at(spec_store(s, at, v), at) == v,
{
    let t = spec_store(s, at, v);
    let b0 = t[at];
    let b1 = t[at + 1];
    let b2 = t[at + 2];
    let b3 = t[at + 3];
    let b4 = t[at + 4];
    let b5 = t[at + 5];
    let b6 = t[at + 6];
    let b7 = t[at + 7];
    assert(b0 == spec_byte_of(v, 0));
    assert(b1 == spec_byte_of(v, 1));
    assert(b2 == spec_byte_of(v, 2));
    assert(b3 == spec_byte_of(v, 3));
    assert(b4 == spec_byte_of(v, 4));
    assert(b5 == spec_byte_of(v, 5));
    assert(b6 == spec_byte_of(v, 6));
    assert(b7 == spec_byte_of(v, 7));
    assert((b0 as u64) | (b1 as u64) << 8 | (b2 as u64) << 16 | (b3 as u64) << 24 | (b4 as u64)
        << 32 | (b5 as u64) << 40 | (b6 as u64) << 48 | (b7 as u64) << 56 == v) by (bit_vector)
        requires
            b0 == ((v >> (8 * 0u64)) & 0xff) as u8,
            b1 == ((v >> (8 * 1u64)) & 0xff) as u8,
            b2 == ((v >> (8 * 2u64)) & 0xff) as u8,
            b3 == ((v >> (8 * 3u64)) & 0xff) as u8,
            b4 == ((v >> (8 * 4u64)) & 0xff) as u8,
            b5 == ((v >> (8 * 5u64)) & 0xff) as u8,
            b6 == ((v >> (8 * 6u64)) & 0xff) as u8,
            b7 == ((v >> (8 * 7u64)) & 0xff) as u8,
    ;
}

/// A word that was written at `at` leaves the word at `other` as it was,
/// where the two do not overlap.
pub proof fn lemma_store_elsewhere(s: Seq<u8>, at: int, v: u64, other: int)
    requires
        0 <= at,
        at + 8 <= s.len(),
        0 <= other,
        other + 8 <= s.len(),
        other + 8 <= at || at + 8 <= other,
    ensures
        spec_word_at(spec_store(s, at, v), other) == spec_word_at(s, other),
{
}

/// Whether `r` is the stack size that a request for `n` bytes is rounded up
/// to: the power of two that is at least `n` and less than twice `n`.
pub open spec fn spec_rounded(n: nat, r: nat) -> bool {
    &&& is_pow2(r as int)
    &&& n <= r
    &&& r == 1 || r / 2 < n
}

/// Of two different powers of two the larger is at least twice the smaller.
pub proof fn lemma_pow2_gap(a: int, b: int)
    requires
        is_pow2(a),
        is_pow2(b),
        a < b,
    ensures
        2 * a <= b,
    decreases a,
{
    reveal(is_pow2);
    if a > 1 {
        lemma_pow2_gap(a / 2, b / 2);
    }
}

/// A request is rounded up to one size only.
pub proof fn lemma_rounded_unique(n: nat, r1: nat, r2: nat)
    requires
        spec_rounded(n, r1),
        spec_rounded(n, r2),
    ensures
        r1 == r2,
{
    if r1 < r2 {
        lemma_pow2_gap(r1 as int, r2 as int);
    } else if r2 < r1 {
        lemma_pow2_gap(r2 as int, r1 as int);
    }
}

/// A request for more than 32 bytes is rounded up to 64 bytes or more: to
/// a stack that has room for the initial frame at every address.
pub proof fn lemma_rounded_fits(n: nat, r: nat, base: u64)
    requires
        spec_rounded(n, r),
        n > FRAME_SIZE,
    ensures
        r >= 64,
        spec_frame_fits(base, r),
{
    assert(is_pow2(32)) by {
        reveal_with_fuel(is_pow2, 6);
    }
    lemma_pow2_gap(32, r as int);
}

/// Rounds a stack size up to the next power of two.
pub fn round_up(n: usize) -> (r: usize)
    requires
        n <= MAX_STACK_SIZE,
    ensures
        spec_rounded(n as nat, r as nat),
{
    let mut r: usize = 1;
    proof {
        reveal(is_pow2);
    }
    while r < n
        invariant
            n <= MAX_STACK_SIZE,
            1 <= r,
            is_pow2(r as int),
            r == 1 || r / 2 < n,
        decreases usize::MAX - r,
    {
        proof {
            reveal(is_pow2);
        }
        r = r * 2;
    }
    r
}

/// The bytes of a stack after the initial frame was written: the two words
/// of the payload below the aligned top and the entry address at the
/// initial stack pointer.
pub open spec fn spec_written_frame(s: Seq<u8>, base: u64, payload: Payload, entry: u64) -> Seq<
    u8,
> {
    let top = spec_top_offset(base, s.len());
    spec_store(
        spec_store(spec_store(s, top - 16, payload.data), top - 8, payload.vtable),
        top - 32,
        entry,
    )
}

/// The payload that a task entered with stack pointer `rsp` finds.
pub open spec fn spec_payload_at(s: Seq<u8>, base: u64, rsp: u64) -> Payload {
    Payload {
        data: spec_word_at(s, spec_offset(base, rsp) + PAYLOAD_OFFSET),
        vtable: spec_word_at(s, spec_offset(base, rsp) + PAYLOAD_OFFSET + 8),
    }
}

/// The address at which a task resumed with stack pointer `rsp` goes on.
pub open spec fn spec_entry_at(s: Seq<u8>, base: u64, rsp: u64) -> u64 {
    spec_word_at(s, spec_offset(base, rsp))
}

/// Writes the initial frame into a stack region that lies at `base`.
pub fn write_frame(stack: &mut Vec<u8>, base: u64, payload: Payload, entry: u64) -> (f: Frame)
    requires
        spec_frame_fits(base, old(stack)@.len()),
    ensures
        f == spec_frame(base, old(stack)@.len()),
        final(stack)@ == spec_written_frame(old(stack)@, base, payload, entry),
{
    let len: usize = stack.len();
    let f = frame(base, len).unwrap();
    proof {
        lemma_frame_layout(base, len as nat);
    }
    let at: usize = f.rsp.wrapping_sub(base) as usize;
    write_word(stack, at + 16, payload.data);
    write_word(stack, at + 24, payload.vtable);
    write_word(stack, at, entry);
    f
}

/// Reads the payload that lies 16 bytes above the stack pointer `rsp`.
pub fn read_payload(stack: &Vec<u8>, base: u64, rsp: u64) -> (p: Payload)
    requires
        spec_offset(base, rsp) + FRAME_SIZE <= stack@.len(),
    ensures
        p == spec_payload_at(stack@, base, rsp),
{
    let len: usize = stack.len();
    let at: usize = rsp.wrapping_sub(base) as usize;
    Payload { data: read_word(stack, at + 16), vtable: read_word(stack, at + 24) }
}

/// The initial frame holds what was written: a task that is entered at the
/// initial stack pointer finds the payload, and the entry address lies where
/// the stack pointer points.
pub proof fn lemma_frame_round_trip(s: Seq<u8>, base: u64, payload: Payload, entry: u64)
    requires
        spec_frame_fits(base, s.len()),
        s.len() <= usize::MAX,
    ensures
        spec_written_frame(s, base, payload, entry).len() == s.len(),
        spec_payload_at(
            spec_written_frame(s, base, payload, entry),
            base,
            spec_frame(base, s.len()).rsp,
        ) == payload,
        spec_entry_at(
            spec_written_frame(s, base, payload, entry),
            base,
            spec_frame(base, s.len()).rsp,
        ) == entry,
{
    lemma_frame_layout(base, s.len());
    let top = spec_top_offset(base, s.len());
    let s1 = spec_store(s, top - 16, payload.data);
    let s2 = spec_store(s1, top - 8, payload.vtable);
    let s3 = spec_store(s2, top - 32, entry);
    lemma_store_then_read(s, top - 16, payload.data);
    lemma_store_elsewhere(s1, top - 8, payload.vtable, top - 16);
    lemma_store_elsewhere(s2, top - 32, entry, top - 16);
    lemma_store_then_read(s1, top - 8, payload.vtable);
    lemma_store_elsewhere(s2, top - 32, entry, top - 8);
    lemma_store_then_read(s2, top - 32, entry);
}

} // verus!

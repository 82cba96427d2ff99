//! The FNV-1a hash that identities are derived with, and the byte strings it is fed.

use fnv::FnvHasher;
use std::hash::Hash;
use std::hash::Hasher;
use vstd::arithmetic::div_mod::lemma_fundamental_div_mod;
use vstd::prelude::*;

verus! {

/// The state of an FNV-1a hasher that has seen no input.
pub const FNV_OFFSET_BASIS: u64 = 0xcbf29ce484222325;

/// The multiplier of an FNV-1a round.
pub const FNV_PRIME: u64 = 0x100000001b3;

/// One round of FNV-1a: the byte is xored into the low bits of the state, and the state is
/// then multiplied by the prime, modulo 2^64.
pub open spec fn fnv1a_step(state: u64, byte: u8) -> u64 {
    (((state ^ (byte as u64)) * FNV_PRIME) % 0x1_0000_0000_0000_0000) as u64
}

/// The state reached from `state` by one round for each byte of `bytes`, first byte first.
pub open spec fn fnv1a_fold(state: u64, bytes: Seq<u8>) -> u64
    decreases bytes.len(),
{
    if bytes.len() == 0 {
        state
    } else {
        fnv1a_step(fnv1a_fold(state, bytes.drop_last()), bytes.last())
    }
}

/// The byte of `value` at position `index`, counted from the least significant one.
pub open spec fn byte_at(value: u64, index: nat) -> u8 {
    ((value >> ((8 * index) as u64)) & 0xff) as u8
}

/// The eight bytes of `value`, least significant first.
pub open spec fn u64_le_bytes(value: u64) -> Seq<u8> {
    Seq::new(8, |i: int| byte_at(value, i as nat))
}

/// The four bytes of `value`, least significant first.
pub open spec fn u32_le_bytes(value: u32) -> Seq<u8> {
    Seq::new(4, |i: int| byte_at(value as u64, i as nat))
}

/// Hashing a concatenation is hashing the second part from where the first part ended.
pub proof fn lemma_fold_concat(state: u64, first: Seq<u8>, second: Seq<u8>)
    ensures
        fnv1a_fold(state, first + second) == fnv1a_fold(fnv1a_fold(state, first), second),
    decreases second.len(),
{
    if second.len() == 0 {
        assert(first + second =~= first);
    } else {
        lemma_fold_concat(state, first, second.drop_last());
        assert((first + second).drop_last() =~= first + second.drop_last());
        assert((first + second).last() == second.last());
    }
}

/// The multiplier of an FNV-1a round has an inverse modulo 2^64, so a round loses nothing:
/// two rounds that reach the same state started from states and bytes with the same xor.
pub proof fn lemma_step_injective(first: u64, first_byte: u8, second: u64, second_byte: u8)
    requires
        fnv1a_step(first, first_byte) == fnv1a_step(second, second_byte),
    ensures
        first ^ (first_byte as u64) == second ^ (second_byte as u64),
{
    let x = first ^ (first_byte as u64);
    let y = second ^ (second_byte as u64);
    let stepped_x = (((x * 0x100000001b3u64) % 0x1_0000_0000_0000_0000) as u64);
    let stepped_y = (((y * 0x100000001b3u64) % 0x1_0000_0000_0000_0000) as u64);
    assert(stepped_x == stepped_y);
    assert((((stepped_x * 0xce965057aff6957bu64) % 0x1_0000_0000_0000_0000) as u64) == x)
        by (bit_vector)
        requires
            stepped_x == (((x * 0x100000001b3u64) % 0x1_0000_0000_0000_0000) as u64),
    ;
    assert((((stepped_y * 0xce965057aff6957bu64) % 0x1_0000_0000_0000_0000) as u64) == y)
        by (bit_vector)
        requires
            stepped_y == (((y * 0x100000001b3u64) % 0x1_0000_0000_0000_0000) as u64),
    ;
}

/// Hashing the same bytes from two different states ends in two different states.
pub proof fn lemma_fold_injective_in_state(first: u64, second: u64, bytes: Seq<u8>)
    requires
        fnv1a_fold(first, bytes) == fnv1a_fold(second, bytes),
    ensures
        first == second,
    decreases bytes.len(),
{
    if bytes.len() > 0 {
        let before_first = fnv1a_fold(first, bytes.drop_last());
        let before_second = fnv1a_fold(second, bytes.drop_last());
        lemma_step_injective(before_first, bytes.last(), before_second, bytes.last());
        let wide = bytes.last() as u64;
        assert(before_first == before_second) by (bit_vector)
            requires
                before_first ^ wide == before_second ^ wide,
        ;
        lemma_fold_injective_in_state(first, second, bytes.drop_last());
    }
}

/// No four numbers below 511 in size, other than four zeros, combine with the powers of
/// the prime to a multiple of 2^64. The prime is 2^40 + 435: modulo 2^40 the combination
/// is one of powers of 435, which is too small to reach 2^40 and so is zero, and what is
/// left is 2^40 times a number too small to reach 2^24.
proof fn lemma_no_small_relation(e0: int, e1: int, e2: int, e3: int, k: int)
    requires
        -510 <= e0 <= 510,
        -510 <= e1 <= 510,
        -510 <= e2 <= 510,
        -510 <= e3 <= 510,
        e0 * 1329227997362564068125063396651957931 + e1 * 1208925820571204291060521 + e2
            * 1099511628211 + e3 == 0x1_0000_0000_0000_0000 * k,
    ensures
        e0 == 0,
        e1 == 0,
        e2 == 0,
        e3 == 0,
{
    let low = 82312875 * e0 + 189225 * e1 + 435 * e2 + e3;
    let rest = 16777216 * k - 1208925821049491849521531 * e0 - 1099511628646 * e1 - e2;
    assert(low == 1099511627776 * rest);
    assert(rest == 0);
    let t = 189225 * e0 + 435 * e1 + e2;
    assert(low == 435 * t + e3);
    assert(-1 <= t <= 1);
    let u = 435 * e0 + e1;
    assert(t == 435 * u + e2);
    assert(-1 <= u <= 1);
    assert(-1 <= e0 <= 1);
    let high = 567675 * e0 + 870 * e1 + e2;
    let carried = k - 72057594123452416 * e0 - 65536 * e1;
    assert(high == 16777216 * carried);
    assert(high == 189225 * e0 + 435 * u + t);
    assert(carried == 0);
    assert(e0 == 0);
    assert(u == 0);
    assert(t == 0);
}

/// What a round does to a state, as an equation between integers: xoring the byte in moves
/// the state by less than 256, and the product with the prime is the next state plus a
/// multiple of 2^64, which is returned.
proof fn lemma_step_equation(state: u64, byte: u8) -> (carried: int)
    ensures
        -255 <= (state ^ (byte as u64)) - state <= 255,
        (state ^ (byte as u64)) * 1099511628211 == 0x1_0000_0000_0000_0000 * carried + fnv1a_step(
            state,
            byte,
        ),
{
    let wide = byte as u64;
    let mixed = state ^ wide;
    assert(mixed - state <= 255 && state - mixed <= 255) by (bit_vector)
        requires
            mixed == state ^ wide,
            wide < 256,
    ;
    lemma_fundamental_div_mod(mixed * 1099511628211, 0x1_0000_0000_0000_0000);
    (mixed * 1099511628211) / 0x1_0000_0000_0000_0000
}

/// Xoring two bytes into one state gives two different numbers unless the bytes are the
/// same.
proof fn lemma_xor_byte_injective(state: u64, first: u8, second: u8)
    requires
        state ^ (first as u64) == state ^ (second as u64),
    ensures
        first == second,
{
    let a = first as u64;
    let b = second as u64;
    assert(a == b) by (bit_vector)
        requires
            state ^ a == state ^ b,
    ;
}

/// Four rounds lose nothing: two runs of four bytes that lead from one state to the same
/// state are the same four bytes.
pub proof fn lemma_four_steps_injective(
    state: u64,
    first: (u8, u8, u8, u8),
    second: (u8, u8, u8, u8),
)
    requires
        fnv1a_step(
            fnv1a_step(fnv1a_step(fnv1a_step(state, first.0), first.1), first.2),
            first.3,
        ) == fnv1a_step(
            fnv1a_step(fnv1a_step(fnv1a_step(state, second.0), second.1), second.2),
            second.3,
        ),
    ensures
        first == second,
{
    let x1 = fnv1a_step(state, first.0);
    let x2 = fnv1a_step(x1, first.1);
    let x3 = fnv1a_step(x2, first.2);
    let z1 = fnv1a_step(state, second.0);
    let z2 = fnv1a_step(z1, second.1);
    let z3 = fnv1a_step(z2, second.2);
    let k0 = lemma_step_equation(state, first.0);
    let k1 = lemma_step_equation(x1, first.1);
    let k2 = lemma_step_equation(x2, first.2);
    let k3 = lemma_step_equation(x3, first.3);
    let l0 = lemma_step_equation(state, second.0);
    let l1 = lemma_step_equation(z1, second.1);
    let l2 = lemma_step_equation(z2, second.2);
    let l3 = lemma_step_equation(z3, second.3);
    lemma_step_injective(x3, first.3, z3, second.3);
    let y0 = (state ^ (first.0 as u64)) as int;
    let y1 = (x1 ^ (first.1 as u64)) as int;
    let y2 = (x2 ^ (first.2 as u64)) as int;
    let y3 = (x3 ^ (first.3 as u64)) as int;
    let w0 = (state ^ (second.0 as u64)) as int;
    let w1 = (z1 ^ (second.1 as u64)) as int;
    let w2 = (z2 ^ (second.2 as u64)) as int;
    let w3 = (z3 ^ (second.3 as u64)) as int;
    assert(y3 == w3);
    let e0 = y0 - w0;
    let e1 = (y1 - x1) - (w1 - z1);
    let e2 = (y2 - x2) - (w2 - z2);
    let e3 = (y3 - x3) - (w3 - z3);
    let d1 = x1 - z1;
    let d2 = x2 - z2;
    let d3 = x3 - z3;
    assert(d1 == e0 * 1099511628211 - 0x1_0000_0000_0000_0000 * (k0 - l0));
    assert(d2 == (d1 + e1) * 1099511628211 - 0x1_0000_0000_0000_0000 * (k1 - l1));
    assert(d3 == (d2 + e2) * 1099511628211 - 0x1_0000_0000_0000_0000 * (k2 - l2));
    assert(d3 + e3 == 0);
    let k = (k0 - l0) * 1208925820571204291060521 + (k1 - l1) * 1099511628211 + (k2 - l2);
    assert(e0 * 1329227997362564068125063396651957931 + e1 * 1208925820571204291060521 + e2
        * 1099511628211 + e3 == 0x1_0000_0000_0000_0000 * k);
    lemma_no_small_relation(e0, e1, e2, e3, k);
    lemma_xor_byte_injective(state, first.0, second.0);
    assert(x1 == z1);
    lemma_xor_byte_injective(x1, first.1, second.1);
    assert(x2 == z2);
    lemma_xor_byte_injective(x2, first.2, second.2);
    assert(x3 == z3);
    lemma_xor_byte_injective(x3, first.3, second.3);
}

/// Hashing one more byte is one more round.
pub proof fn lemma_fold_push(state: u64, bytes: Seq<u8>, byte: u8)
    ensures
        fnv1a_fold(state, bytes.push(byte)) == fnv1a_step(fnv1a_fold(state, bytes), byte),
{
    assert(bytes.push(byte).drop_last() =~= bytes);
}

/// Hashing four more bytes is four more rounds.
proof fn lemma_fold_push_four(state: u64, head: Seq<u8>, run: (u8, u8, u8, u8))
    ensures
        fnv1a_fold(state, head.push(run.0).push(run.1).push(run.2).push(run.3)) == fnv1a_step(
            fnv1a_step(fnv1a_step(fnv1a_step(fnv1a_fold(state, head), run.0), run.1), run.2),
            run.3,
        ),
{
    lemma_fold_push(state, head, run.0);
    lemma_fold_push(state, head.push(run.0), run.1);
    lemma_fold_push(state, head.push(run.0).push(run.1), run.2);
    lemma_fold_push(state, head.push(run.0).push(run.1).push(run.2), run.3);
}

/// Two byte strings that differ within a run of four bytes, and nowhere else, hash
/// differently from any one state.
pub proof fn lemma_fold_four_bytes_apart(
    state: u64,
    head: Seq<u8>,
    first: (u8, u8, u8, u8),
    second: (u8, u8, u8, u8),
    tail: Seq<u8>,
)
    requires
        first != second,
    ensures
        fnv1a_fold(state, head.push(first.0).push(first.1).push(first.2).push(first.3) + tail)
            != fnv1a_fold(
            state,
            head.push(second.0).push(second.1).push(second.2).push(second.3) + tail,
        ),
{
    let first_run = head.push(first.0).push(first.1).push(first.2).push(first.3);
    let second_run = head.push(second.0).push(second.1).push(second.2).push(second.3);
    lemma_fold_push_four(state, head, first);
    lemma_fold_push_four(state, head, second);
    let after_first = fnv1a_fold(state, first_run);
    let after_second = fnv1a_fold(state, second_run);
    if after_first == after_second {
        lemma_four_steps_injective(fnv1a_fold(state, head), first, second);
    }
    lemma_fold_concat(state, first_run, tail);
    lemma_fold_concat(state, second_run, tail);
    if fnv1a_fold(after_first, tail) == fnv1a_fold(after_second, tail) {
        lemma_fold_injective_in_state(after_first, after_second, tail);
    }
}

/// Two byte strings of one length that differ within a window of four bytes, and nowhere
/// else, hash differently from any one state.
pub proof fn lemma_fold_differs_in_a_window(
    state: u64,
    first: Seq<u8>,
    second: Seq<u8>,
    index: int,
)
    requires
        first.len() == second.len(),
        0 <= index,
        index + 4 <= first.len(),
        first != second,
        forall|i: int|
            0 <= i < first.len() && !(index <= i < index + 4) ==> first[i] == second[i],
    ensures
        fnv1a_fold(state, first) != fnv1a_fold(state, second),
{
    let head = first.subrange(0, index);
    let tail = first.subrange(index + 4, first.len() as int);
    let first_run = (first[index], first[index + 1], first[index + 2], first[index + 3]);
    let second_run = (second[index], second[index + 1], second[index + 2], second[index + 3]);
    assert(first =~= head.push(first_run.0).push(first_run.1).push(first_run.2).push(first_run.3)
        + tail);
    assert(second =~= head.push(second_run.0).push(second_run.1).push(second_run.2).push(
        second_run.3,
    ) + tail);
    if first_run == second_run {
        assert(first =~= second);
    }
    lemma_fold_four_bytes_apart(state, head, first_run, second_run, tail);
}

/// A number is given by its eight bytes: two numbers that agree in every byte are equal.
pub proof fn lemma_bytes_determine(first: u64, second: u64)
    requires
        forall|index: nat| index < 8 ==> #[trigger] byte_at(first, index) == byte_at(second, index),
    ensures
        first == second,
{
    assert(byte_at(first, 0) == byte_at(second, 0));
    assert(byte_at(first, 1) == byte_at(second, 1));
    assert(byte_at(first, 2) == byte_at(second, 2));
    assert(byte_at(first, 3) == byte_at(second, 3));
    assert(byte_at(first, 4) == byte_at(second, 4));
    assert(byte_at(first, 5) == byte_at(second, 5));
    assert(byte_at(first, 6) == byte_at(second, 6));
    assert(byte_at(first, 7) == byte_at(second, 7));
    assert(first == second) by (bit_vector)
        requires
            ((first >> 0u64) & 0xff) as u8 == ((second >> 0u64) & 0xff) as u8,
            ((first >> 8u64) & 0xff) as u8 == ((second >> 8u64) & 0xff) as u8,
            ((first >> 16u64) & 0xff) as u8 == ((second >> 16u64) & 0xff) as u8,
            ((first >> 24u64) & 0xff) as u8 == ((second >> 24u64) & 0xff) as u8,
            ((first >> 32u64) & 0xff) as u8 == ((second >> 32u64) & 0xff) as u8,
            ((first >> 40u64) & 0xff) as u8 == ((second >> 40u64) & 0xff) as u8,
            ((first >> 48u64) & 0xff) as u8 == ((second >> 48u64) & 0xff) as u8,
            ((first >> 56u64) & 0xff) as u8 == ((second >> 56u64) & 0xff) as u8,
    ;
}

/// `fnv::FnvHasher::default` followed by `finish`: a hasher that has been fed nothing reports
/// the offset basis.
#[verifier::external_body]
fn fnv_initial_state() -> (state: u64)
    ensures
        state == FNV_OFFSET_BASIS,
{
    FnvHasher::default().finish()
}

/// `fnv::FnvHasher::with_key(state)`, one `write` of `bytes`, then `finish`. `write` runs one
/// FNV-1a round per byte in slice order, and `finish` reports the state reached.
#[verifier::external_body]
fn fnv_write(state: u64, bytes: &[u8]) -> (out: u64)
    ensures
        out == fnv1a_fold(state, bytes@),
{
    let mut hasher = FnvHasher::with_key(state);
    hasher.write(bytes);
    hasher.finish()
}

/// The FNV-1a hash of `bytes`.
pub fn fnv1a(bytes: &[u8]) -> (hash: u64)
    ensures
        hash == fnv1a_fold(FNV_OFFSET_BASIS, bytes@),
{
    let state = fnv_initial_state();
    fnv_write(state, bytes)
}

/// The FNV-1a hash of the three parts, fed one after the other.
pub fn fnv1a_of_parts(first: &[u8], second: &[u8], third: &[u8]) -> (hash: u64)
    ensures
        hash == fnv1a_fold(FNV_OFFSET_BASIS, first@ + second@ + third@),
{
    let state = fnv_initial_state();
    let state = fnv_write(state, first);
    let state = fnv_write(state, second);
    let state = fnv_write(state, third);
    proof {
        lemma_fold_concat(FNV_OFFSET_BASIS, first@, second@);
        lemma_fold_concat(FNV_OFFSET_BASIS, first@ + second@, third@);
    }
    state
}

/// The eight bytes of `value`, least significant first.
pub fn u64_to_le_bytes(value: u64) -> (bytes: [u8; 8])
    ensures
        bytes@ == u64_le_bytes(value),
{
    let bytes = [
        (value & 0xff) as u8,
        ((value >> 8) & 0xff) as u8,
        ((value >> 16) & 0xff) as u8,
        ((value >> 24) & 0xff) as u8,
        ((value >> 32) & 0xff) as u8,
        ((value >> 40) & 0xff) as u8,
        ((value >> 48) & 0xff) as u8,
        ((value >> 56) & 0xff) as u8,
    ];
    proof {
        assert(value >> 0 == value) by (bit_vector);
        assert(bytes@ =~= u64_le_bytes(value));
    }
    bytes
}

/// The four bytes of `value`, least significant first.
pub fn u32_to_le_bytes(value: u32) -> (bytes: [u8; 4])
    ensures
        bytes@ == u32_le_bytes(value),
{
    let wide = value as u64;
    let bytes = [
        (wide & 0xff) as u8,
        ((wide >> 8) & 0xff) as u8,
        ((wide >> 16) & 0xff) as u8,
        ((wide >> 24) & 0xff) as u8,
    ];
    proof {
        assert(wide >> 0 == wide) by (bit_vector);
        assert(bytes@ =~= u32_le_bytes(value));
    }
    bytes
}

/// A hasher that keeps every byte it is fed, in order. Feeding a value to it shows what the
/// value contributes to a hash.
pub struct SlotRecorder {
    bytes: Vec<u8>,
}

impl SlotRecorder {
    /// The bytes fed so far.
    pub closed spec fn view(&self) -> Seq<u8> {
        self.bytes@
    }

    /// A recorder that has been fed nothing.
    pub fn new() -> (recorder: SlotRecorder)
        ensures
            recorder@ == Seq::<u8>::empty(),
    {
        SlotRecorder { bytes: Vec::new() }
    }

    /// Hands out the bytes fed so far.
    pub fn into_bytes(self) -> (bytes: Vec<u8>)
        ensures
            bytes@ == self@,
    {
        self.bytes
    }
}

impl Hasher for SlotRecorder {
    /// The FNV-1a hash of the bytes fed so far.
    fn finish(&self) -> (hash: u64)
        ensures
            hash == fnv1a_fold(FNV_OFFSET_BASIS, self@),
    {
        fnv1a(self.bytes.as_slice())
    }

    /// Appends `bytes` to the record.
    fn write(&mut self, bytes: &[u8])
        ensures
            final(self)@ == old(self)@ + bytes@,
    {
        let mut i: usize = 0;
        while i < bytes.len()
            invariant
                i <= bytes.len(),
                self.bytes@ == old(self).bytes@ + bytes@.subrange(0, i as int),
            decreases bytes.len() - i,
        {
            self.bytes.push(bytes[i]);
            i = i + 1;
            assert(bytes@.subrange(0, i as int) =~= bytes@.subrange(0, i - 1).push(bytes@[i - 1]));
        }
        assert(bytes@.subrange(0, bytes@.len() as int) =~= bytes@);
    }
}

/// Feeds `slot` to a fresh [`SlotRecorder`] through `std::hash::Hash::hash` and returns what
/// was recorded. What a value feeds is decided by its own `Hash` impl, so nothing is claimed
/// of the bytes.
#[verifier::external_body]
pub(crate) fn slot_bytes<S: Hash>(slot: &S) -> (bytes: Vec<u8>) {
    let mut recorder = SlotRecorder::new();
    slot.hash(&mut recorder);
    recorder.into_bytes()
}

} // verus!

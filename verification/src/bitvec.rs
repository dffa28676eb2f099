//! A fixed-width bit vector packed into 64-bit words.

use crate::random::fill_bytes;
use rand::rngs::StdRng;
use vstd::prelude::*;

verus! {

/// Number of bits in an iris code.
pub const IRIS_CODE_SIZE: usize = 128;

/// Number of bytes that hold an iris code.
pub const IRIS_CODE_SIZE_BYTES: usize = (IRIS_CODE_SIZE + 7) / 8;

/// Number of 64-bit words that hold an iris code.
pub const IRIS_CODE_SIZE_U64: usize = (IRIS_CODE_SIZE + 63) / 64;

/// Bit `b` of the word `w`, counted from the least significant bit.
pub open spec fn word_bit(w: u64, b: u64) -> bool {
    (w >> b) & 1 == 1
}

/// A vector of `IRIS_CODE_SIZE` bits. Bit `i` lives in word `i / 64` at
/// position `i % 64`.
#[derive(Debug, Clone, Copy, PartialEq, Eq)]
pub struct IrisCodeArray(pub [u64; IRIS_CODE_SIZE_U64]);

impl View for IrisCodeArray {
    type V = Seq<bool>;

    open spec fn view(&self) -> Seq<bool> {
        Seq::new(IRIS_CODE_SIZE as nat, |i: int| self.spec_bit(i))
    }
}

/// Number of set bits among the lowest `n` bits of `w`.
pub open spec fn ones_below(w: u64, n: nat) -> nat
    decreases n,
{
    if n == 0 {
        0
    } else {
        ones_below(w, (n - 1) as nat) + if word_bit(w, (n - 1) as u64) {
            1nat
        } else {
            0nat
        }
    }
}

/// Number of `true` entries among the first `n` entries of `s`.
pub open spec fn count_true_below(s: Seq<bool>, n: nat) -> nat
    decreases n,
{
    if n == 0 {
        0
    } else {
        count_true_below(s, (n - 1) as nat) + if s[n - 1] {
            1nat
        } else {
            0nat
        }
    }
}

/// Number of `true` entries of `s`.
pub open spec fn count_true(s: Seq<bool>) -> nat {
    count_true_below(s, s.len())
}

/// Position by position, whether `a` and `b` are both set.
pub open spec fn seq_and(a: Seq<bool>, b: Seq<bool>) -> Seq<bool> {
    Seq::new(a.len(), |i: int| a[i] && b[i])
}

/// Position by position, whether exactly one of `a` and `b` is set.
pub open spec fn seq_xor(a: Seq<bool>, b: Seq<bool>) -> Seq<bool> {
    Seq::new(a.len(), |i: int| a[i] != b[i])
}

/// Byte `j` of the word `w`, counted from the least significant byte.
pub open spec fn word_byte(w: u64, j: u64) -> u8 {
    ((w >> ((8 * j) as u64)) & 0xff) as u8
}

/// The bytes of `words` in memory where the least significant byte of a word
/// comes first.
pub open spec fn little_endian_bytes(words: Seq<u64>) -> Seq<u8> {
    Seq::new(8 * words.len(), |k: int| word_byte(words[k / 8], (k % 8) as u64))
}

/// The bytes of `words` in memory where the most significant byte of a word
/// comes first.
pub open spec fn big_endian_bytes(words: Seq<u64>) -> Seq<u8> {
    Seq::new(8 * words.len(), |k: int| word_byte(words[k / 8], (7 - k % 8) as u64))
}

/// `u64::count_ones` returns the number of ones in the binary representation
/// of its argument, that is the number of set bits among all 64.
pub assume_specification[ u64::count_ones ](w: u64) -> (n: u32)
    ensures
        n == ones_below(w, 64),
;

/// What setting, clearing and inverting bit `b` of a word does to its bit
/// `j`.
proof fn lemma_set_bit(w: u64, b: u64, j: u64)
    by (bit_vector)
    requires
        b < 64,
        j < 64,
    ensures
        word_bit(w | (1u64 << b), j) == (j == b || word_bit(w, j)),
        word_bit(w & !(1u64 << b), j) == (j != b && word_bit(w, j)),
        word_bit(w ^ (1u64 << b), j) == (word_bit(w, j) != (j == b)),
{
}

/// AND and XOR of two words work bit by bit.
proof fn lemma_and_xor_bit(a: u64, b: u64, j: u64)
    by (bit_vector)
    requires
        j < 64,
    ensures
        word_bit(a & b, j) == (word_bit(a, j) && word_bit(b, j)),
        word_bit(a ^ b, j) == (word_bit(a, j) != word_bit(b, j)),
{
}

/// The zero word has no set bit, the all-ones word has every bit set.
proof fn lemma_const_bit(j: u64)
    by (bit_vector)
    requires
        j < 64,
    ensures
        !word_bit(0u64, j),
        word_bit(0xffff_ffff_ffff_ffffu64, j),
{
}

/// Among `n` bits no more than `n` are set.
proof fn lemma_ones_below_bound(w: u64, n: nat)
    ensures
        ones_below(w, n) <= n,
    decreases n,
{
    if n > 0 {
        lemma_ones_below_bound(w, (n - 1) as nat);
    }
}

/// A count over a bit vector is the sum of the counts over its two words.
proof fn lemma_count_by_words(v: IrisCodeArray, n: nat)
    requires
        n <= IRIS_CODE_SIZE,
    ensures
        n <= 64 ==> count_true_below(v@, n) == ones_below(v.0[0], n),
        n > 64 ==> count_true_below(v@, n) == ones_below(v.0[0], 64) + ones_below(
            v.0[1],
            (n - 64) as nat,
        ),
    decreases n,
{
    if n > 0 {
        lemma_count_by_words(v, (n - 1) as nat);
        assert(v@[n - 1] == v.spec_bit(n - 1));
        if n > 64 {
            assert((n - 1) / 64 == 1 && (n - 1) % 64 == n - 65);
            assert(v@[n - 1] == word_bit(v.0[1], (n - 65) as u64));
            assert(ones_below(v.0[1], 0) == 0);
        }
    }
}

/// Where every set entry of `a` is set in `b`, `a` has no more set entries
/// than `b`.
pub proof fn lemma_count_true_monotone(a: Seq<bool>, b: Seq<bool>, n: nat)
    requires
        n <= a.len(),
        n <= b.len(),
        forall|i: int| 0 <= i < n && a[i] ==> b[i],
    ensures
        count_true_below(a, n) <= count_true_below(b, n),
    decreases n,
{
    if n > 0 {
        lemma_count_true_monotone(a, b, (n - 1) as nat);
    }
}

/// A count never exceeds the number of entries counted. It is zero exactly
/// when none of them is set, and it reaches their number exactly when all of
/// them are.
pub proof fn lemma_count_true_bounds(s: Seq<bool>, n: nat)
    requires
        n <= s.len(),
    ensures
        count_true_below(s, n) <= n,
        count_true_below(s, n) == 0 <==> forall|i: int| 0 <= i < n ==> !s[i],
        count_true_below(s, n) == n <==> forall|i: int| 0 <= i < n ==> s[i],
    decreases n,
{
    if n > 0 {
        lemma_count_true_bounds(s, (n - 1) as nat);
    }
}

impl IrisCodeArray {
    /// Bit `i` of the vector, for `0 <= i < IRIS_CODE_SIZE`.
    pub open spec fn spec_bit(&self, i: int) -> bool {
        word_bit(self.0[i / 64], (i % 64) as u64)
    }

    /// The vector with every bit clear.
    pub fn zero() -> (v: Self)
        ensures
            v.0@ == seq![0u64, 0u64],
            v@ == Seq::new(IRIS_CODE_SIZE as nat, |i: int| false),
    {
        let v = IrisCodeArray([0;IRIS_CODE_SIZE_U64]);
        proof {
            assert forall|i: int| 0 <= i < IRIS_CODE_SIZE implies !v.spec_bit(i) by {
                lemma_const_bit((i % 64) as u64);
            }
            assert(v@ =~= Seq::new(IRIS_CODE_SIZE as nat, |i: int| false));
            assert(v.0@ =~= seq![0u64, 0u64]);
        }
        v
    }

    /// The vector with every bit set.
    pub fn ones() -> (v: Self)
        ensures
            v.0@ == seq![u64::MAX, u64::MAX],
            v@ == Seq::new(IRIS_CODE_SIZE as nat, |i: int| true),
    {
        let v = IrisCodeArray([u64::MAX;IRIS_CODE_SIZE_U64]);
        proof {
            assert forall|i: int| 0 <= i < IRIS_CODE_SIZE implies v.spec_bit(i) by {
                lemma_const_bit((i % 64) as u64);
            }
            assert(v@ =~= Seq::new(IRIS_CODE_SIZE as nat, |i: int| true));
            assert(v.0@ =~= seq![u64::MAX, u64::MAX]);
        }
        v
    }

    /// Writes `val` to bit `i` and leaves every other bit as it was.
    pub fn set_bit(&mut self, i: usize, val: bool)
        requires
            i < IRIS_CODE_SIZE,
        ensures
            final(self)@ == old(self)@.update(i as int, val),
    {
        let word: usize = i / 64;
        let bit: usize = i % 64;
        let before: u64 = self.0[word];
        if val {
            self.0[word] = before | (1u64 << bit);
        } else {
            self.0[word] = before & !(1u64 << bit);
        }
        proof {
            assert forall|j: int| 0 <= j < IRIS_CODE_SIZE implies self@[j] == old(self)@.update(i as int, val)[j] by {
                if j / 64 == word as int {
                    lemma_set_bit(before, bit as u64, (j % 64) as u64);
                }
            }
            assert(self@ =~= old(self)@.update(i as int, val));
        }
    }

    /// Reads bit `i`.
    pub fn get_bit(&self, i: usize) -> (bit: bool)
        requires
            i < IRIS_CODE_SIZE,
        ensures
            bit == self@[i as int],
    {
        let word: usize = i / 64;
        let bit: usize = i % 64;
        (self.0[word] >> bit) & 1 == 1
    }

    /// Inverts bit `i` and leaves every other bit as it was.
    pub fn flip_bit(&mut self, i: usize)
        requires
            i < IRIS_CODE_SIZE,
        ensures
            final(self)@ == old(self)@.update(i as int, !old(self)@[i as int]),
    {
        let word: usize = i / 64;
        let bit: usize = i % 64;
        let before: u64 = self.0[word];
        self.0[word] = before ^ (1u64 << bit);
        proof {
            assert forall|j: int| 0 <= j < IRIS_CODE_SIZE implies self@[j] == old(self)@.update(
                i as int,
                !old(self)@[i as int],
            )[j] by {
                if j / 64 == word as int {
                    lemma_set_bit(before, bit as u64, (j % 64) as u64);
                }
            }
            assert(self@ =~= old(self)@.update(i as int, !old(self)@[i as int]));
        }
    }

    /// A vector whose bits are all drawn from `rng`, by filling its bytes
    /// with random data. Any vector may come back.
    pub fn random_rng(rng: &mut StdRng) -> (code: Self) {
        let mut code = IrisCodeArray::zero();
        fill_bytes(rng, code.as_raw_mut_slice());
        code
    }

    /// `bytemuck::cast_slice` on the words: the same memory seen as bytes.
    /// Which byte of a word comes first depends on the machine, so the claim
    /// is that the bytes are the words in one of the two byte orders.
    #[verifier::external_body]
    pub fn as_raw_slice(&self) -> (bytes: &[u8])
        ensures
            bytes@.len() == IRIS_CODE_SIZE_BYTES,
            bytes@ == little_endian_bytes(self.0@) || bytes@ == big_endian_bytes(self.0@),
    {
        bytemuck::cast_slice(&self.0)
    }

    /// `bytemuck::cast_slice_mut` on the words: the same memory as writable
    /// bytes. The bytes are the words in one of the two byte orders, and
    /// what is written to them is, in that same order, what the vector holds
    /// afterwards.
    #[verifier::external_body]
    pub fn as_raw_mut_slice(&mut self) -> (bytes: &mut [u8])
        ensures
            bytes@.len() == IRIS_CODE_SIZE_BYTES,
            (bytes@ == little_endian_bytes(old(self).0@) && final(bytes)@ == little_endian_bytes(
                final(self).0@,
            )) || (bytes@ == big_endian_bytes(old(self).0@) && final(bytes)@ == big_endian_bytes(
                final(self).0@,
            )),
    {
        bytemuck::cast_slice_mut(&mut self.0)
    }

    /// Number of set bits.
    pub fn count_ones(&self) -> (n: usize)
        ensures
            n == count_true(self@),
            n <= IRIS_CODE_SIZE,
    {
        let low: u32 = self.0[0].count_ones();
        let high: u32 = self.0[1].count_ones();
        proof {
            lemma_ones_below_bound(self.0[0], 64);
            lemma_ones_below_bound(self.0[1], 64);
            lemma_count_by_words(*self, IRIS_CODE_SIZE as nat);
        }
        low as usize + high as usize
    }

    /// Bitwise AND of two vectors.
    pub fn bitand(self, rhs: Self) -> (res: Self)
        ensures
            res@ == seq_and(self@, rhs@),
    {
        let mut res = IrisCodeArray::zero();
        for k in 0..IRIS_CODE_SIZE_U64
            invariant
                forall|j: int| 0 <= j < k ==> res.0[j] == self.0[j] & rhs.0[j],
        {
            res.0[k] = self.0[k] & rhs.0[k];
        }
        proof {
            assert forall|i: int| 0 <= i < IRIS_CODE_SIZE implies #[trigger] res@[i] == (self@[i] && rhs@[i]) by {
                lemma_and_xor_bit(self.0[i / 64], rhs.0[i / 64], (i % 64) as u64);
            }
            assert(res@ =~= seq_and(self@, rhs@));
        }
        res
    }

    /// Bitwise XOR of two vectors.
    pub fn bitxor(self, rhs: Self) -> (res: Self)
        ensures
            res@ == seq_xor(self@, rhs@),
    {
        let mut res = IrisCodeArray::zero();
        for k in 0..IRIS_CODE_SIZE_U64
            invariant
                forall|j: int| 0 <= j < k ==> res.0[j] == self.0[j] ^ rhs.0[j],
        {
            res.0[k] = self.0[k] ^ rhs.0[k];
        }
        proof {
            assert forall|i: int| 0 <= i < IRIS_CODE_SIZE implies #[trigger] res@[i] == (self@[i] != rhs@[i]) by {
                lemma_and_xor_bit(self.0[i / 64], rhs.0[i / 64], (i % 64) as u64);
            }
            assert(res@ =~= seq_xor(self@, rhs@));
        }
        res
    }

    /// Replaces the vector by its bitwise AND with `rhs`.
    pub fn bitand_assign(&mut self, rhs: Self)
        ensures
            final(self)@ == seq_and(old(self)@, rhs@),
    {
        for k in 0..IRIS_CODE_SIZE_U64
            invariant
                forall|j: int| 0 <= j < k ==> self.0[j] == old(self).0[j] & rhs.0[j],
                forall|j: int| k <= j < IRIS_CODE_SIZE_U64 ==> self.0[j] == old(self).0[j],
        {
            let word: u64 = self.0[k];
            self.0[k] = word & rhs.0[k];
        }
        proof {
            assert forall|i: int| 0 <= i < IRIS_CODE_SIZE implies #[trigger] self@[i] == (old(self)@[i] && rhs@[i]) by {
                lemma_and_xor_bit(old(self).0[i / 64], rhs.0[i / 64], (i % 64) as u64);
            }
            assert(self@ =~= seq_and(old(self)@, rhs@));
        }
    }

    /// Replaces the vector by its bitwise XOR with `rhs`.
    pub fn bitxor_assign(&mut self, rhs: Self)
        ensures
            final(self)@ == seq_xor(old(self)@, rhs@),
    {
        for k in 0..IRIS_CODE_SIZE_U64
            invariant
                forall|j: int| 0 <= j < k ==> self.0[j] == old(self).0[j] ^ rhs.0[j],
                forall|j: int| k <= j < IRIS_CODE_SIZE_U64 ==> self.0[j] == old(self).0[j],
        {
            let word: u64 = self.0[k];
            self.0[k] = word ^ rhs.0[k];
        }
        proof {
            assert forall|i: int| 0 <= i < IRIS_CODE_SIZE implies #[trigger] self@[i] == (old(self)@[i] != rhs@[i]) by {
                lemma_and_xor_bit(old(self).0[i / 64], rhs.0[i / 64], (i % 64) as u64);
            }
            assert(self@ =~= seq_xor(old(self)@, rhs@));
        }
    }
}

impl Default for IrisCodeArray {
    /// The vector with every bit clear.
    fn default() -> (v: Self)
        ensures
            v@ == Seq::new(IRIS_CODE_SIZE as nat, |i: int| false),
    {
        IrisCodeArray::zero()
    }
}

/// Shifting down by one more bit is one more step of the same shift.
proof fn lemma_shift_step(w: u64, s: u64)
    by (bit_vector)
    requires
        s < 63,
    ensures
        (w >> s) >> 1 == w >> ((s + 1) as u64),
        w >> 0 == w,
{
}

/// A cursor over the bits of a vector, in index order.
pub struct Bits<'a> {
    code: &'a IrisCodeArray,
    current: u64,
    index: usize,
}

impl IrisCodeArray {
    /// A cursor over the bits that stands before bit 0. Every call starts
    /// a new walk.
    pub fn bits(&self) -> (cursor: Bits<'_>)
        ensures
            cursor.source() == *self,
            cursor.position() == 0,
    {
        Bits { code: self, current: 0, index: 0 }
    }
}

impl<'a> Bits<'a> {
    /// Inside a word, `current` holds what is left of it: the word shifted
    /// down by the number of bits already handed out.
    #[verifier::type_invariant]
    spec fn wf(self) -> bool {
        &&& self.index <= IRIS_CODE_SIZE
        &&& self.index % 64 != 0 ==> self.current == self.code.0[self.index as int / 64] >> (
        self.index % 64) as u64
    }

    /// The vector that the cursor walks.
    pub closed spec fn source(&self) -> IrisCodeArray {
        *self.code
    }

    /// The index of the next bit to hand out; `IRIS_CODE_SIZE` at the end.
    pub closed spec fn position(&self) -> nat {
        self.index as nat
    }

    /// Hands out the bit at the cursor and moves on, or `None` at the end.
    pub fn next(&mut self) -> (item: Option<bool>)
        ensures
            final(self).source() == old(self).source(),
            old(self).position() <= IRIS_CODE_SIZE,
            old(self).position() < IRIS_CODE_SIZE ==> item == Some(
                old(self).source()@[old(self).position() as int],
            ) && final(self).position() == old(self).position() + 1,
            old(self).position() == IRIS_CODE_SIZE ==> item.is_none() && final(self).position()
                == old(self).position(),
    {
        proof {
            use_type_invariant(&*self);
        }
        if self.index >= IRIS_CODE_SIZE {
            None
        } else {
            let ghost word = self.code.0[self.index as int / 64];
            let ghost shift = (self.index % 64) as u64;
            let current = if self.index % 64 == 0 {
                self.code.0[self.index / 64]
            } else {
                self.current
            };
            proof {
                lemma_shift_step(word, 0);
                assert(current == word >> shift);
                if shift < 63 {
                    lemma_shift_step(word, shift);
                }
            }
            let res = current & 1 == 1;
            *self = Bits { code: self.code, current: current >> 1, index: self.index + 1 };
            Some(res)
        }
    }

    /// The number of bits still to come, as a lower and an upper bound.
    pub fn size_hint(&self) -> (hint: (usize, Option<usize>))
        ensures
            self.position() <= IRIS_CODE_SIZE,
            hint.0 == IRIS_CODE_SIZE - self.position(),
            hint.1 == Some(hint.0),
    {
        proof {
            use_type_invariant(self);
        }
        (IRIS_CODE_SIZE - self.index, Some(IRIS_CODE_SIZE - self.index))
    }
}

} // verus!

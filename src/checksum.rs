//! The Internet checksum (RFC 1071): the complement of the ones-complement sum
//! of a buffer's 16-bit big-endian words.

use crate::codec::put_be16;
use vstd::arithmetic::div_mod::{lemma_fundamental_div_mod, lemma_fundamental_div_mod_converse};
use vstd::prelude::*;
use vstd::slice::slice_to_vec;

verus! {

/// Number of 16-bit words in `bytes`, a trailing odd byte counting as one.
pub open spec fn word_count(bytes: Seq<u8>) -> nat {
    ((bytes.len() + 1) / 2) as nat
}

/// The `i`-th 16-bit word of `bytes`, big-endian; a trailing odd byte is the
/// high half of a word whose low half is zero.
pub open spec fn word_at(bytes: Seq<u8>, i: int) -> nat {
    if 2 * i + 1 < bytes.len() {
        bytes[2 * i] as nat * 256 + bytes[2 * i + 1] as nat
    } else {
        bytes[2 * i] as nat * 256
    }
}

/// Adds `word` to a 16-bit running sum and folds the carry back in.
pub open spec fn add_end_around(acc: nat, word: nat) -> nat {
    if acc + word > 0xFFFF {
        (acc + word - 0xFFFF) as nat
    } else {
        acc + word
    }
}

/// Ones-complement sum of the first `n` words of `bytes`.
pub open spec fn ones_sum_prefix(bytes: Seq<u8>, n: nat) -> nat
    decreases n,
{
    if n == 0 {
        0
    } else {
        add_end_around(ones_sum_prefix(bytes, (n - 1) as nat), word_at(bytes, n - 1))
    }
}

/// Ones-complement sum of all words of `bytes`.
pub open spec fn ones_sum(bytes: Seq<u8>) -> nat {
    ones_sum_prefix(bytes, word_count(bytes))
}

/// The Internet checksum of `bytes`: the complement of their ones-complement sum.
pub open spec fn internet_checksum(bytes: Seq<u8>) -> u16 {
    (0xFFFF - ones_sum(bytes)) as u16
}

/// Plain sum of the first `n` words of `bytes`.
pub open spec fn word_sum_prefix(bytes: Seq<u8>, n: nat) -> nat
    decreases n,
{
    if n == 0 {
        0
    } else {
        word_sum_prefix(bytes, (n - 1) as nat) + word_at(bytes, n - 1)
    }
}

/// A plain sum reduced into `0..=0xFFFF` the way end-around carry reduces it:
/// zero only for zero, otherwise congruent to `s` modulo `0xFFFF`.
pub open spec fn fold_carries(s: nat) -> nat {
    if s == 0 {
        0
    } else {
        ((s - 1) % 0xFFFF + 1) as nat
    }
}

proof fn lemma_add_end_around_folds(s: nat, w: nat)
    requires
        w <= 0xFFFF,
    ensures
        add_end_around(fold_carries(s), w) == fold_carries(s + w),
{
    if s == 0 {
        if w > 0 {
            lemma_fundamental_div_mod_converse(w - 1, 0xFFFF, 0, w - 1);
        }
    } else if w > 0 {
        let q = (s - 1) / 0xFFFF;
        let r = (s - 1) % 0xFFFF;
        lemma_fundamental_div_mod(s - 1, 0xFFFF);
        if r + w < 0xFFFF {
            lemma_fundamental_div_mod_converse(s - 1 + w, 0xFFFF, q, r + w);
        } else {
            lemma_fundamental_div_mod_converse(s - 1 + w, 0xFFFF, q + 1, r + w - 0xFFFF);
        }
    }
}

/// The running sum with end-around carry is the plain sum with its carries folded.
pub proof fn lemma_ones_sum_prefix_folds(bytes: Seq<u8>, n: nat)
    ensures
        ones_sum_prefix(bytes, n) == fold_carries(word_sum_prefix(bytes, n)),
        ones_sum_prefix(bytes, n) <= 0xFFFF,
    decreases n,
{
    if n > 0 {
        lemma_ones_sum_prefix_folds(bytes, (n - 1) as nat);
        lemma_add_end_around_folds(word_sum_prefix(bytes, (n - 1) as nat), word_at(bytes, n - 1));
    }
    let s = word_sum_prefix(bytes, n);
    if s > 0 {
        lemma_fundamental_div_mod(s - 1, 0xFFFF);
    }
}

/// Overwriting the aligned word `k` with `v` changes the plain sum by the difference.
proof fn lemma_word_sum_after_put(bytes: Seq<u8>, k: int, v: u16, n: nat)
    requires
        0 <= k,
        2 * k + 1 < bytes.len(),
        n <= word_count(bytes),
    ensures
        word_sum_prefix(put_be16(bytes, 2 * k, v), n) + (if k < n { word_at(bytes, k) } else { 0 })
            == word_sum_prefix(bytes, n) + (if k < n { v as nat } else { 0 }),
    decreases n,
{
    let after = put_be16(bytes, 2 * k, v);
    if n > 0 {
        lemma_word_sum_after_put(bytes, k, v, (n - 1) as nat);
        let j = n - 1;
        if j == k {
            lemma_fundamental_div_mod(v as int, 256);
            assert(word_at(after, j) == v);
        } else {
            assert(word_at(after, j) == word_at(bytes, j));
        }
    }
}

/// Storing the checksum of a buffer into an aligned, zeroed word of that buffer
/// yields a buffer whose checksum is zero.
pub proof fn lemma_stored_checksum_verifies(bytes: Seq<u8>, offset: int)
    requires
        0 <= offset,
        offset % 2 == 0,
        offset + 1 < bytes.len(),
        bytes[offset] == 0,
        bytes[offset + 1] == 0,
    ensures
        internet_checksum(put_be16(bytes, offset, internet_checksum(bytes))) == 0,
{
    let k = offset / 2;
    let n = word_count(bytes);
    let c = internet_checksum(bytes);
    let after = put_be16(bytes, offset, c);
    lemma_ones_sum_prefix_folds(bytes, n);
    lemma_ones_sum_prefix_folds(after, n);
    assert(word_count(after) == n);
    assert(word_at(bytes, k) == 0);
    lemma_word_sum_after_put(bytes, k, c, n);
    let s0 = word_sum_prefix(bytes, n);
    let s1 = word_sum_prefix(after, n);
    assert(s1 == s0 + c);
    if s0 == 0 {
        lemma_fundamental_div_mod_converse(0xFFFE, 0xFFFF, 0, 0xFFFE);
    } else {
        let q = (s0 - 1) / 0xFFFF;
        let r = (s0 - 1) % 0xFFFF;
        lemma_fundamental_div_mod(s0 - 1, 0xFFFF);
        assert(c == 0xFFFE - r);
        lemma_fundamental_div_mod_converse(s1 - 1, 0xFFFF, q, 0xFFFE);
    }
}

/// Computes the Internet checksum of `bytes`.
pub fn checksum(bytes: &[u8]) -> (r: u16)
    ensures
        r == internet_checksum(bytes@),
{
    let mut acc: u16 = 0;
    let mut pos: usize = 0;
    while pos < bytes.len()
        invariant
            pos <= bytes.len(),
            pos % 2 == 0 || pos == bytes.len(),
            acc == ones_sum_prefix(bytes@, ((pos + 1) / 2) as nat),
        decreases bytes.len() - pos,
    {
        let word: u16;
        if pos + 1 < bytes.len() {
            // A full word.
            word = bytes[pos] as u16 * 256 + bytes[pos + 1] as u16;
            pos = pos + 2;
        } else {
            // Pad the odd byte at the end.
            word = bytes[pos] as u16 * 256;
            pos = pos + 1;
        }
        proof {
            lemma_ones_sum_prefix_folds(bytes@, ((pos - 1) / 2) as nat);
        }
        let sum: u32 = acc as u32 + word as u32;
        acc = if sum > 0xFFFF {
            (sum - 0xFFFF) as u16
        } else {
            sum as u16
        };
    }
    proof {
        lemma_ones_sum_prefix_folds(bytes@, word_count(bytes@));
    }
    assert(!acc == 0xFFFF - acc) by (bit_vector);
    !acc
}

/// A value with a fixed byte representation.
pub trait AsBytes {
    /// The bytes that represent this value.
    spec fn spec_bytes(&self) -> Seq<u8>;

    /// Renders this value into its bytes.
    fn as_bytes(&self) -> (r: Vec<u8>)
        ensures
            r@ == self.spec_bytes(),
    ;
}

impl AsBytes for [u8] {
    open spec fn spec_bytes(&self) -> Seq<u8> {
        self@
    }

    fn as_bytes(&self) -> (r: Vec<u8>) {
        slice_to_vec(self)
    }
}

/// The bytes of `first` followed by those of `second`.
pub fn concat<A: AsBytes + ?Sized, B: AsBytes + ?Sized>(first: &A, second: &B) -> (r: Vec<u8>)
    ensures
        r@ == first.spec_bytes() + second.spec_bytes(),
{
    let mut out = first.as_bytes();
    let mut tail = second.as_bytes();
    out.append(&mut tail);
    out
}

/// A header whose representation holds its own checksum in an aligned
/// 16-bit field.
pub trait Checksummable: AsBytes + Sized {
    /// Byte offset of the checksum field in the representation.
    spec fn checksum_offset(&self) -> int;

    /// This value with its checksum field set to `checksum`.
    spec fn with_checksum(self, checksum: u16) -> Self;

    /// The checksum field is an aligned word of the representation, and
    /// setting it changes nothing else.
    proof fn lemma_checksum_field(self, checksum: u16)
        ensures
            0 <= self.checksum_offset(),
            self.checksum_offset() % 2 == 0,
            self.checksum_offset() + 1 < self.spec_bytes().len(),
            self.with_checksum(checksum).checksum_offset() == self.checksum_offset(),
            self.with_checksum(checksum).spec_bytes() == put_be16(
                self.spec_bytes(),
                self.checksum_offset(),
                checksum,
            ),
    ;

    /// Overwrites the checksum field.
    fn set_checksum(&mut self, checksum: u16)
        ensures
            *final(self) == old(self).with_checksum(checksum),
    ;

    /// Zeroes the checksum field, computes the checksum over the whole
    /// representation and stores it; the result then checks to zero.
    fn apply_checksum(self) -> (r: Self)
        ensures
            r == self.with_checksum(0).with_checksum(
                internet_checksum(self.with_checksum(0).spec_bytes()),
            ),
            internet_checksum(r.spec_bytes()) == 0,
    {
        let mut header = self;
        header.set_checksum(0);
        let bytes = header.as_bytes();
        let sum = checksum(bytes.as_slice());
        proof {
            self.lemma_checksum_field(0);
            header.lemma_checksum_field(sum);
            lemma_stored_checksum_verifies(header.spec_bytes(), header.checksum_offset());
        }
        header.set_checksum(sum);
        header
    }
}

/// `header` with its checksum field zeroed and then filled with the checksum
/// of the zeroed representation: what `apply_checksum` returns.
pub open spec fn finalized<H: Checksummable>(header: H) -> H {
    let zeroed = header.with_checksum(0);
    zeroed.with_checksum(internet_checksum(zeroed.spec_bytes()))
}

/// A finalized header, of any type, checks to zero.
pub proof fn lemma_finalized_checks_to_zero<H: Checksummable>(header: H)
    ensures
        internet_checksum(finalized(header).spec_bytes()) == 0,
{
    let zeroed = header.with_checksum(0);
    header.lemma_checksum_field(0);
    zeroed.lemma_checksum_field(internet_checksum(zeroed.spec_bytes()));
    lemma_stored_checksum_verifies(zeroed.spec_bytes(), zeroed.checksum_offset());
}

} // verus!

//! The Internet checksum: the one's-complement sum of 16 bit words, alone
//! and behind a pseudo-header, and what holds of it.

use vstd::prelude::*;
use crate::endian::{be_bytes_u16, be_u16, overwrite};

verus! {

/// `bytes` with the two bytes of the checksum field at `skip` read as zero.
pub open spec fn masked(bytes: Seq<u8>, skip: int) -> Seq<u8> {
    Seq::new(bytes.len(), |i: int| if i == skip || i == skip + 1 { 0u8 } else { bytes[i] })
}

/// How many 16 bit words `bytes` holds, a trailing odd byte counted as one.
pub open spec fn word_count(bytes: Seq<u8>) -> int {
    (bytes.len() as int + 1) / 2
}

/// The big-endian word number `k` of `bytes`; a trailing odd byte is the high
/// byte of a word whose low byte is zero.
pub open spec fn word(bytes: Seq<u8>, k: int) -> int {
    bytes[2 * k] as int * 0x100 + if 2 * k + 1 < bytes.len() {
        bytes[2 * k + 1] as int
    } else {
        0
    }
}

/// The sum of the first `n` words of `bytes`.
pub open spec fn sum_words(bytes: Seq<u8>, n: int) -> int
    decreases n,
{
    if n <= 0 {
        0
    } else {
        sum_words(bytes, n - 1) + word(bytes, n - 1)
    }
}

/// The sum of all the words of `bytes`.
pub open spec fn total(bytes: Seq<u8>) -> int {
    sum_words(bytes, word_count(bytes))
}

/// The one's-complement value of a sum: every carry out of the low 16 bits
/// added back in, until none is left. Only a sum of zero folds to zero.
pub open spec fn fold(sum: int) -> int {
    if sum <= 0 {
        0
    } else {
        (sum - 1) % 0xffff + 1
    }
}

/// The folded value of a sum that is `more` larger than one that folds to `acc`.
pub open spec fn fold_onto(acc: int, more: int) -> int {
    if acc <= 0 {
        fold(more)
    } else {
        (acc - 1 + more) % 0xffff + 1
    }
}

/// The Internet checksum of `bytes`: the complement of the folded sum of its
/// words, the two bytes at `skip` left out.
pub open spec fn internet_checksum_of(bytes: Seq<u8>, skip: int) -> u16 {
    (0xffff - fold(total(masked(bytes, skip)))) as u16
}

/// The checksum of `bytes` behind a pseudo-header: the Internet checksum of
/// the two joined, the two bytes at `skip` of `bytes` left out.
pub open spec fn pseudo_header_checksum_of(prefix: Seq<u8>, bytes: Seq<u8>, skip: int) -> u16 {
    internet_checksum_of(prefix + bytes, prefix.len() + skip)
}

/// Whether the number stored at `skip` is the checksum of `bytes`.
pub open spec fn is_valid_at(bytes: Seq<u8>, skip: int) -> bool {
    be_u16(bytes, skip) == internet_checksum_of(bytes, skip)
}

/// Whether the number stored at `skip` is the checksum of `bytes` behind `prefix`.
pub open spec fn is_valid_behind(prefix: Seq<u8>, bytes: Seq<u8>, skip: int) -> bool {
    be_u16(bytes, skip) == pseudo_header_checksum_of(prefix, bytes, skip)
}

/// A word is a 16 bit number.
pub proof fn lemma_word_bounds(bytes: Seq<u8>, k: int)
    requires
        0 <= k < word_count(bytes),
    ensures
        0 <= word(bytes, k) <= 0xffff,
{
}

/// A sum of words is not negative.
pub proof fn lemma_sum_words_nonnegative(bytes: Seq<u8>, n: int)
    requires
        0 <= n <= word_count(bytes),
    ensures
        0 <= sum_words(bytes, n),
    decreases n,
{
    if n > 0 {
        lemma_sum_words_nonnegative(bytes, n - 1);
        lemma_word_bounds(bytes, n - 1);
    }
}

/// Folding can go word by word: the fold of a longer sum is reached from the
/// fold of the shorter one.
pub proof fn lemma_fold_onto(sum: int, more: int)
    requires
        0 <= sum,
        0 <= more,
    ensures
        fold(sum + more) == fold_onto(fold(sum), more),
{
    if sum > 0 {
        let q = (sum - 1) / 0xffff;
        let r = (sum - 1) % 0xffff;
        assert(sum - 1 == q * 0xffff + r);
        assert(sum + more - 1 == q * 0xffff + (r + more));
        vstd::arithmetic::div_mod::lemma_mod_multiples_vanish(q, r + more, 0xffff);
    }
}

/// One more word on a folded sum is an addition with end-around carry.
pub proof fn lemma_fold_onto_step(acc: int, sum: int, w: int)
    requires
        0 <= acc <= 0xffff,
        0 <= sum,
        0 <= w <= 0xffff,
    ensures
        0 <= fold_onto(acc, sum) <= 0xffff,
        fold_onto(acc, sum + w) == if fold_onto(acc, sum) + w > 0xffff {
            fold_onto(acc, sum) + w - 0xffff
        } else {
            fold_onto(acc, sum) + w
        },
{
    if acc <= 0 {
        lemma_fold_onto(sum, w);
    } else {
        let base = acc - 1 + sum;
        let q = base / 0xffff;
        let r = base % 0xffff;
        assert(base == q * 0xffff + r);
        assert(base + w == q * 0xffff + (r + w));
        vstd::arithmetic::div_mod::lemma_mod_multiples_vanish(q, r + w, 0xffff);
    }
}

/// The first words of `a` are the first words of `a + b`, where `a` has an
/// even length.
proof fn lemma_sum_words_prefix(a: Seq<u8>, b: Seq<u8>, n: int)
    requires
        a.len() % 2 == 0,
        0 <= n <= word_count(a),
    ensures
        sum_words(a + b, n) == sum_words(a, n),
    decreases n,
{
    if n > 0 {
        lemma_sum_words_prefix(a, b, n - 1);
        assert((a + b)[2 * (n - 1)] == a[2 * (n - 1)]);
        assert((a + b)[2 * (n - 1) + 1] == a[2 * (n - 1) + 1]);
    }
}

/// Behind a prefix of even length the words of `b` follow those of `a`.
proof fn lemma_sum_words_suffix(a: Seq<u8>, b: Seq<u8>, n: int)
    requires
        a.len() % 2 == 0,
        0 <= n <= word_count(b),
    ensures
        sum_words(a + b, word_count(a) + n) == total(a) + sum_words(b, n),
    decreases n,
{
    if n == 0 {
        lemma_sum_words_prefix(a, b, word_count(a));
    } else {
        lemma_sum_words_suffix(a, b, n - 1);
        let k = word_count(a) + n - 1;
        assert(2 * k == a.len() + 2 * (n - 1));
        assert((a + b)[2 * k] == b[2 * (n - 1)]);
        if 2 * (n - 1) + 1 < b.len() {
            assert((a + b)[2 * k + 1] == b[2 * (n - 1) + 1]);
        }
        assert(word(a + b, k) == word(b, n - 1));
    }
}

/// The sum over two joined runs is the sum of their sums, where the first has
/// an even length.
pub proof fn lemma_total_concat(a: Seq<u8>, b: Seq<u8>)
    requires
        a.len() % 2 == 0,
    ensures
        total(a + b) == total(a) + total(b),
{
    lemma_sum_words_suffix(a, b, word_count(b));
    assert(word_count(a + b) == word_count(a) + word_count(b));
}

/// Behind a pseudo-header of even length, the sum that the checksum folds is
/// the header's sum and the segment's, its checksum field left out.
pub proof fn lemma_pseudo_header_total(prefix: Seq<u8>, bytes: Seq<u8>, skip: int)
    requires
        prefix.len() % 2 == 0,
        0 <= skip,
    ensures
        total(masked(prefix + bytes, prefix.len() + skip)) == total(prefix) + total(
            masked(bytes, skip),
        ),
{
    assert(masked(prefix + bytes, prefix.len() + skip) =~= prefix + masked(bytes, skip));
    lemma_total_concat(prefix, masked(bytes, skip));
}

/// Add the words of `bytes`, the two bytes at `skip` read as zero, onto a
/// folded sum, with end-around carry.
pub fn accumulate(acc: u32, bytes: &[u8], skip: usize) -> (r: u32)
    requires
        acc <= 0xffff,
    ensures
        r <= 0xffff,
        r == fold_onto(acc as int, total(masked(bytes@, skip as int))),
{
    let n: usize = bytes.len();
    let words: usize = n / 2 + n % 2;
    let ghost m = masked(bytes@, skip as int);
    let mut sum: u32 = acc;
    let mut k: usize = 0;
    proof {
        lemma_fold_onto_step(acc as int, 0, 0);
    }
    while k < words
        invariant
            k <= words,
            acc <= 0xffff,
            n == bytes@.len(),
            words == word_count(m),
            m == masked(bytes@, skip as int),
            sum <= 0xffff,
            sum == fold_onto(acc as int, sum_words(m, k as int)),
        decreases words - k,
    {
        let i: usize = 2 * k;
        let hi: u8 = if i == skip || (i >= 1 && i - 1 == skip) {
            0
        } else {
            bytes[i]
        };
        let lo: u8 = if i + 1 < n {
            if i + 1 == skip || i == skip {
                0
            } else {
                bytes[i + 1]
            }
        } else {
            0
        };
        let w: u32 = hi as u32 * 0x100 + lo as u32;
        proof {
            assert(w == word(m, k as int));
            lemma_sum_words_nonnegative(m, k as int);
            lemma_fold_onto_step(acc as int, sum_words(m, k as int), w as int);
        }
        sum = sum + w;
        if sum > 0xffff {
            sum = sum - 0xffff;
        }
        k += 1;
    }
    sum
}

/// The Internet checksum of `bytes`, the two bytes of the checksum field at
/// `skip` left out of the sum.
pub fn internet_checksum(bytes: &[u8], skip: usize) -> (r: u16)
    ensures
        r == internet_checksum_of(bytes@, skip as int),
{
    let sum: u32 = accumulate(0, bytes, skip);
    (0xffff - sum) as u16
}

/// The checksum of `bytes` behind the pseudo-header `prefix`, the two bytes of
/// the checksum field at `skip` of `bytes` left out of the sum.
pub fn pseudo_header_checksum(prefix: &[u8], bytes: &[u8], skip: usize) -> (r: u16)
    requires
        prefix@.len() % 2 == 0,
    ensures
        r == pseudo_header_checksum_of(prefix@, bytes@, skip as int),
{
    let head: u32 = accumulate(0, prefix, prefix.len());
    let sum: u32 = accumulate(head, bytes, skip);
    proof {
        let p = total(prefix@);
        let b = total(masked(bytes@, skip as int));
        assert(masked(prefix@, prefix@.len() as int) =~= prefix@);
        lemma_sum_words_nonnegative(prefix@, word_count(prefix@));
        lemma_sum_words_nonnegative(masked(bytes@, skip as int), word_count(bytes@));
        lemma_fold_onto(p, b);
        lemma_pseudo_header_total(prefix@, bytes@, skip as int);
    }
    (0xffff - sum) as u16
}

/// The checksum does not depend on what the checksum field itself holds.
pub proof fn lemma_checksum_ignores_field(bytes: Seq<u8>, skip: int, data: Seq<u8>)
    requires
        data.len() <= 2,
    ensures
        internet_checksum_of(overwrite(bytes, skip, data), skip) == internet_checksum_of(
            bytes,
            skip,
        ),
{
    assert(masked(overwrite(bytes, skip, data), skip) =~= masked(bytes, skip));
}

/// Behind a pseudo-header too, the checksum does not depend on what the
/// checksum field holds.
pub proof fn lemma_pseudo_header_checksum_ignores_field(
    prefix: Seq<u8>,
    bytes: Seq<u8>,
    skip: int,
    data: Seq<u8>,
)
    requires
        0 <= skip,
        data.len() <= 2,
    ensures
        pseudo_header_checksum_of(prefix, overwrite(bytes, skip, data), skip)
            == pseudo_header_checksum_of(prefix, bytes, skip),
{
    assert(masked(prefix + overwrite(bytes, skip, data), prefix.len() + skip) =~= masked(
        prefix + bytes,
        prefix.len() + skip,
    ));
}

/// Once the checksum is stored in its field the bytes are valid, and
/// computing it again over them gives the same number.
pub proof fn lemma_stored_checksum_is_valid(bytes: Seq<u8>, skip: int)
    requires
        0 <= skip,
        skip + 2 <= bytes.len(),
    ensures
        ({
            let stored = overwrite(bytes, skip, be_bytes_u16(internet_checksum_of(bytes, skip)));
            &&& is_valid_at(stored, skip)
            &&& internet_checksum_of(stored, skip) == internet_checksum_of(bytes, skip)
        }),
{
    let sum = internet_checksum_of(bytes, skip);
    lemma_checksum_ignores_field(bytes, skip, be_bytes_u16(sum));
    crate::endian::lemma_u16_round_trip(bytes, skip, sum);
}

/// Once the checksum behind a pseudo-header is stored in its field the bytes
/// are valid behind that header, and computing it again gives the same number.
pub proof fn lemma_stored_pseudo_header_checksum_is_valid(
    prefix: Seq<u8>,
    bytes: Seq<u8>,
    skip: int,
)
    requires
        0 <= skip,
        skip + 2 <= bytes.len(),
    ensures
        ({
            let stored = overwrite(
                bytes,
                skip,
                be_bytes_u16(pseudo_header_checksum_of(prefix, bytes, skip)),
            );
            &&& is_valid_behind(prefix, stored, skip)
            &&& pseudo_header_checksum_of(prefix, stored, skip) == pseudo_header_checksum_of(
                prefix,
                bytes,
                skip,
            )
        }),
{
    let sum = pseudo_header_checksum_of(prefix, bytes, skip);
    lemma_pseudo_header_checksum_ignores_field(prefix, bytes, skip, be_bytes_u16(sum));
    crate::endian::lemma_u16_round_trip(bytes, skip, sum);
}

/// What one changed byte does to a sum of words: the difference of the byte,
/// times 256 where it is the high byte of its word.
pub open spec fn byte_weight(i: int) -> int {
    if i % 2 == 0 {
        0x100
    } else {
        1
    }
}

/// A changed byte changes the sum of the words by its weighted difference, as
/// soon as the sum reaches its word.
pub proof fn lemma_sum_words_update(bytes: Seq<u8>, i: int, v: u8, n: int)
    requires
        0 <= i < bytes.len(),
        0 <= n <= word_count(bytes),
    ensures
        sum_words(bytes.update(i, v), n) == sum_words(bytes, n) + if i / 2 < n {
            (v as int - bytes[i] as int) * byte_weight(i)
        } else {
            0
        },
    decreases n,
{
    if n > 0 {
        lemma_sum_words_update(bytes, i, v, n - 1);
        let k = n - 1;
        let after = bytes.update(i, v);
        if i / 2 == k {
            if i % 2 == 0 {
                assert(i == 2 * k);
                assert(word(after, k) == word(bytes, k) + (v as int - bytes[i] as int) * 0x100);
            } else {
                assert(i == 2 * k + 1);
                assert(word(after, k) == word(bytes, k) + (v as int - bytes[i] as int));
            }
        } else {
            assert(word(after, k) == word(bytes, k));
        }
    }
}

/// Two sums that differ by less than 0xffff fold to different values.
pub proof fn lemma_fold_differs(sum: int, d: int)
    requires
        0 <= sum,
        0 <= sum + d,
        d != 0,
        -0xffff < d < 0xffff,
    ensures
        fold(sum) != fold(sum + d),
{
    if sum > 0 && sum + d > 0 {
        let q1 = (sum - 1) / 0xffff;
        let r1 = (sum - 1) % 0xffff;
        let q2 = (sum - 1 + d) / 0xffff;
        let r2 = (sum - 1 + d) % 0xffff;
        assert(sum - 1 == q1 * 0xffff + r1);
        assert(sum - 1 + d == q2 * 0xffff + r2);
        if r1 == r2 {
            assert(d == (q2 - q1) * 0xffff);
            assert(false);
        }
    }
}

/// Changing any one byte outside the checksum field changes the checksum.
pub proof fn lemma_checksum_sensitive(bytes: Seq<u8>, skip: int, i: int, v: u8)
    requires
        0 <= i < bytes.len(),
        i != skip,
        i != skip + 1,
        v != bytes[i],
    ensures
        internet_checksum_of(bytes.update(i, v), skip) != internet_checksum_of(bytes, skip),
{
    let m = masked(bytes, skip);
    assert(masked(bytes.update(i, v), skip) =~= m.update(i, v));
    lemma_sum_words_update(m, i, v, word_count(m));
    lemma_sum_words_nonnegative(m, word_count(m));
    lemma_sum_words_nonnegative(m.update(i, v), word_count(m));
    let d = (v as int - bytes[i] as int) * byte_weight(i);
    assert(total(m.update(i, v)) == total(m) + d);
    lemma_fold_differs(total(m), d);
}

/// Sensitivity: where the stored checksum is right, changing any one byte,
/// inside the checksum field or outside, makes it wrong.
pub proof fn lemma_validity_sensitive(bytes: Seq<u8>, skip: int, i: int, v: u8)
    requires
        0 <= skip,
        skip + 2 <= bytes.len(),
        0 <= i < bytes.len(),
        v != bytes[i],
        is_valid_at(bytes, skip),
    ensures
        !is_valid_at(bytes.update(i, v), skip),
{
    let after = bytes.update(i, v);
    if i == skip || i == skip + 1 {
        assert(masked(after, skip) =~= masked(bytes, skip));
        assert(be_u16(after, skip) != be_u16(bytes, skip));
    } else {
        lemma_checksum_sensitive(bytes, skip, i, v);
    }
}

/// Sensitivity, bit by bit: where the stored checksum is right, flipping any
/// single bit of the bytes makes it wrong.
pub proof fn lemma_bit_flip_invalidates(bytes: Seq<u8>, skip: int, i: int, bit: u8)
    requires
        0 <= skip,
        skip + 2 <= bytes.len(),
        0 <= i < bytes.len(),
        bit < 8,
        is_valid_at(bytes, skip),
    ensures
        !is_valid_at(bytes.update(i, bytes[i] ^ (1u8 << bit)), skip),
{
    let b = bytes[i];
    assert(b ^ (1u8 << bit) != b) by (bit_vector)
        requires
            bit < 8,
    ;
    lemma_validity_sensitive(bytes, skip, i, b ^ (1u8 << bit));
}

/// Sensitivity behind a pseudo-header: where the stored checksum is right,
/// changing any one byte of the segment makes it wrong.
pub proof fn lemma_validity_behind_sensitive(
    prefix: Seq<u8>,
    bytes: Seq<u8>,
    skip: int,
    i: int,
    v: u8,
)
    requires
        0 <= skip,
        skip + 2 <= bytes.len(),
        0 <= i < bytes.len(),
        v != bytes[i],
        is_valid_behind(prefix, bytes, skip),
    ensures
        !is_valid_behind(prefix, bytes.update(i, v), skip),
{
    let after = bytes.update(i, v);
    let joined = prefix + bytes;
    assert(prefix + after =~= joined.update(prefix.len() + i, v));
    if i == skip || i == skip + 1 {
        assert(masked(prefix + after, prefix.len() + skip) =~= masked(
            joined,
            prefix.len() + skip,
        ));
        assert(be_u16(after, skip) != be_u16(bytes, skip));
    } else {
        lemma_checksum_sensitive(joined, prefix.len() + skip, prefix.len() + i, v);
    }
}

/// Sensitivity behind a pseudo-header, bit by bit: where the stored checksum
/// is right, flipping any single bit of the segment makes it wrong.
pub proof fn lemma_bit_flip_invalidates_behind(
    prefix: Seq<u8>,
    bytes: Seq<u8>,
    skip: int,
    i: int,
    bit: u8,
)
    requires
        0 <= skip,
        skip + 2 <= bytes.len(),
        0 <= i < bytes.len(),
        bit < 8,
        is_valid_behind(prefix, bytes, skip),
    ensures
        !is_valid_behind(prefix, bytes.update(i, bytes[i] ^ (1u8 << bit)), skip),
{
    let b = bytes[i];
    assert(b ^ (1u8 << bit) != b) by (bit_vector)
        requires
            bit < 8,
    ;
    lemma_validity_behind_sensitive(prefix, bytes, skip, i, b ^ (1u8 << bit));
}

} // verus!

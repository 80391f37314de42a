//! Byte order and the Internet checksum, which the protocol headers share.

pub mod layer1;
pub mod layer3;

use vstd::prelude::*;

verus! {

/// The number whose big-endian encoding is the byte `hi` followed by the byte `lo`.
pub open spec fn be16(hi: u8, lo: u8) -> u16 {
    (hi * 256 + lo) as u16
}

/// The two bytes of the big-endian encoding of `value`.
pub open spec fn be16_bytes(value: u16) -> Seq<u8> {
    seq![(value / 256) as u8, (value % 256) as u8]
}

/// Encoding and decoding undo each other.
pub proof fn lemma_be16(value: u16, hi: u8, lo: u8)
    ensures
        be16(be16_bytes(value)[0], be16_bytes(value)[1]) == value,
        be16_bytes(be16(hi, lo)) == seq![hi, lo],
{
    assert(be16_bytes(be16(hi, lo)) =~= seq![hi, lo]);
}

/// Decodes a big-endian 16-bit number.
pub fn decode_be16(hi: u8, lo: u8) -> (value: u16)
    ensures
        value == be16(hi, lo),
{
    hi as u16 * 256 + lo as u16
}

/// The high byte of a 16-bit number.
pub fn high_byte(value: u16) -> (byte: u8)
    ensures
        byte == be16_bytes(value)[0],
{
    (value / 256) as u8
}

/// The low byte of a 16-bit number.
pub fn low_byte(value: u16) -> (byte: u8)
    ensures
        byte == be16_bytes(value)[1],
{
    (value % 256) as u8
}

/// The sum of the big-endian 16-bit words that make up `bytes`; a last odd byte counts as the high byte of a word.
pub open spec fn word_sum(bytes: Seq<u8>) -> nat
    decreases bytes.len(),
{
    if bytes.len() == 0 {
        0
    } else if bytes.len() == 1 {
        be16(bytes[0], 0) as nat
    } else {
        be16(bytes[0], bytes[1]) as nat + word_sum(bytes.skip(2))
    }
}

/// The 16-bit ones' complement number that a sum of 16-bit numbers amounts to: carries are added back in, and of the
/// two representations of zero only an empty sum has the all-zeros one.
pub open spec fn ones_complement(sum: nat) -> u16 {
    if sum == 0 {
        0
    } else {
        ((sum - 1) % 65535 + 1) as u16
    }
}

/// A sum of words is no larger than the number of words allows.
pub proof fn lemma_word_sum_bound(bytes: Seq<u8>)
    ensures
        word_sum(bytes) <= 65535 * ((bytes.len() + 1) / 2),
    decreases bytes.len(),
{
    if bytes.len() > 1 {
        lemma_word_sum_bound(bytes.skip(2));
    }
}

/// Adds the 16-bit words of `bytes` to a running sum, which starts at `start` if one is given.
pub fn compute_generic_checksum(bytes: &[u8], start: Option<u32>) -> (sum: u32)
    requires
        start.unwrap_or(0xffff) + word_sum(bytes@) <= u32::MAX,
    ensures
        sum == start.unwrap_or(0xffff) + word_sum(bytes@),
{
    let first: u32 = match start {
        Some(value) => value,
        None => 0xffff,
    };
    let n: usize = bytes.len();
    let mut state: u32 = first;
    let mut i: usize = 0;
    assert(bytes@.skip(0) =~= bytes@);
    while n - i > 1
        invariant
            i <= n == bytes@.len(),
            first + word_sum(bytes@) <= u32::MAX,
            first + word_sum(bytes@) == state + word_sum(bytes@.skip(i as int)),
        decreases n - i,
    {
        assert(bytes@.skip(i as int).skip(2) =~= bytes@.skip(i + 2));
        state = state + decode_be16(bytes[i], bytes[i + 1]) as u32;
        i = i + 2;
    }
    if i < n {
        assert(bytes@.skip(i as int)[0] == bytes@[i as int]);
        state = state + decode_be16(bytes[i], 0) as u32;
    }
    state
}

/// Folds a running sum into the checksum that it stands for.
pub fn fold16(sum: u32) -> (checksum: u16)
    ensures
        checksum == 0xffff - ones_complement(sum as nat),
{
    let mut state: u32 = sum;
    while state > 0xffff
        invariant
            ones_complement(state as nat) == ones_complement(sum as nat),
        decreases state,
    {
        assert((state - 1) % 65535 == (state - 0xffff - 1) % 65535);
        state = state - 0xffff;
    }
    let folded: u16 = state as u16;
    assert(!folded == 0xffff - folded) by (bit_vector);
    !folded
}

/// Numbers stand on the network with the more significant byte first.
pub proof fn law_be16(value: u16, hi: u8, lo: u8)
    ensures
        be16(hi, lo) == 256 * hi + lo,
        be16_bytes(value).len() == 2,
        256 * be16_bytes(value)[0] + be16_bytes(value)[1] == value,
{
}

/// The sum over no bytes is zero; a byte more adds to it as the high byte of a new word or as the low byte of the last
/// one.
pub proof fn law_word_sum_grows(bytes: Seq<u8>, byte: u8)
    ensures
        word_sum(Seq::empty()) == 0,
        word_sum(bytes.push(byte)) == word_sum(bytes) + if bytes.len() % 2 == 0 {
            256 * byte
        } else {
            byte as int
        },
    decreases bytes.len(),
{
    let longer = bytes.push(byte);
    if bytes.len() >= 2 {
        law_word_sum_grows(bytes.skip(2), byte);
        assert(longer.skip(2) =~= bytes.skip(2).push(byte));
    } else if bytes.len() == 1 {
        assert(longer.skip(2) =~= Seq::<u8>::empty());
        assert(word_sum(longer.skip(2)) == 0);
        assert(longer[0] == bytes[0] && longer[1] == byte);
    } else {
        assert(longer[0] == byte);
    }
}

/// The sum over a concatenation is the sum of the sums, if the first part is made of whole words.
pub proof fn law_word_sum_of_concat(a: Seq<u8>, b: Seq<u8>)
    requires
        a.len() % 2 == 0,
    ensures
        word_sum(a + b) == word_sum(a) + word_sum(b),
    decreases a.len(),
{
    if a.len() == 0 {
        assert(a + b =~= b);
    } else {
        assert((a + b).skip(2) =~= a.skip(2) + b);
        law_word_sum_of_concat(a.skip(2), b);
    }
}

/// Every word counts: a sum changes by as much as a word of it does.
pub proof fn law_word_sum_counts_every_word(bytes: Seq<u8>, at: int, hi: u8, lo: u8)
    requires
        0 <= at,
        at % 2 == 0,
        at + 1 < bytes.len(),
    ensures
        word_sum(bytes.update(at, hi).update(at + 1, lo)) == word_sum(bytes) - (256 * bytes[at] + bytes[at + 1]) + (256
            * hi + lo),
    decreases at,
{
    let changed = bytes.update(at, hi).update(at + 1, lo);
    if at == 0 {
        assert(changed.skip(2) =~= bytes.skip(2));
    } else {
        law_word_sum_counts_every_word(bytes.skip(2), at - 2, hi, lo);
        assert(changed.skip(2) =~= bytes.skip(2).update(at - 2, hi).update(at - 1, lo));
    }
}

/// A sum amounts to a ones' complement number that is congruent to it, and that is zero only where the sum is.
pub proof fn law_ones_complement(sum: nat)
    ensures
        (sum - ones_complement(sum)) % 65535 == 0,
        ones_complement(sum) == 0 <==> sum == 0,
{
    if sum > 0 {
        let n = (sum - 1) as int;
        assert(n == 65535 * (n / 65535) + n % 65535);
        assert(sum - ones_complement(sum) == 65535 * (n / 65535));
    }
}

} // verus!

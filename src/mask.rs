//! The byte mask engine: XOR every byte of a buffer with a one-byte key,
//! in lanes of `LANE_WIDTH` bytes with a byte-at-a-time tail.
use vstd::prelude::*;

verus! {

/// Number of bytes handled by one vectorized step.
pub const LANE_WIDTH: usize = 16;

/// The mask of a single byte.
pub open spec fn xor_byte(b: u8, key: u8) -> u8 {
    b ^ key
}

/// The mask of a whole buffer: each byte XOR-ed with the key.
pub open spec fn xor_seq(bytes: Seq<u8>, key: u8) -> Seq<u8> {
    bytes.map_values(|b: u8| xor_byte(b, key))
}

/// The mask as the lane engine computes it: whole lanes first, each lane
/// masked as one block, then the short tail one byte at a time.
pub open spec fn lanes_xor(bytes: Seq<u8>, key: u8) -> Seq<u8>
    decreases bytes.len(),
{
    if bytes.len() < LANE_WIDTH {
        xor_seq(bytes, key)
    } else {
        xor_seq(bytes.take(LANE_WIDTH as int), key) + lanes_xor(
            bytes.skip(LANE_WIDTH as int),
            key,
        )
    }
}

/// Masking twice with the same key gives back the original bytes.
pub proof fn lemma_mask_involution(bytes: Seq<u8>, key: u8)
    ensures
        xor_seq(xor_seq(bytes, key), key) == bytes,
{
    assert forall|i: int| 0 <= i < bytes.len() implies #[trigger] xor_seq(
        xor_seq(bytes, key),
        key,
    )[i] == bytes[i] by {
        let b = bytes[i];
        assert((b ^ key) ^ key == b) by (bit_vector);
    }
    assert(xor_seq(xor_seq(bytes, key), key) =~= bytes);
}

/// On a non-empty buffer, two different keys give two different masks: the
/// result shows which key was used.
pub proof fn lemma_key_determines_mask(bytes: Seq<u8>, k1: u8, k2: u8)
    requires
        bytes.len() > 0,
        k1 != k2,
    ensures
        xor_seq(bytes, k1) != xor_seq(bytes, k2),
{
    let b = bytes[0];
    assert(xor_seq(bytes, k1)[0] == b ^ k1);
    assert(xor_seq(bytes, k2)[0] == b ^ k2);
    assert((b ^ k1) != (b ^ k2)) by (bit_vector)
        requires
            k1 != k2,
    ;
}

/// Masking keeps the length of the buffer, whatever the length.
pub proof fn lemma_mask_length(bytes: Seq<u8>, key: u8)
    ensures
        xor_seq(bytes, key).len() == bytes.len(),
        lanes_xor(bytes, key).len() == bytes.len(),
{
    lemma_lanes_equal_scalar(bytes, key);
}

/// The lane-by-lane mask and the byte-by-byte mask agree on every input.
pub proof fn lemma_lanes_equal_scalar(bytes: Seq<u8>, key: u8)
    ensures
        lanes_xor(bytes, key) == xor_seq(bytes, key),
    decreases bytes.len(),
{
    if bytes.len() >= LANE_WIDTH {
        let head = bytes.take(LANE_WIDTH as int);
        let tail = bytes.skip(LANE_WIDTH as int);
        lemma_lanes_equal_scalar(tail, key);
        assert(bytes =~= head + tail);
        assert(xor_seq(head, key) + xor_seq(tail, key) =~= xor_seq(bytes, key));
    }
}

/// XOR one lane of `LANE_WIDTH` bytes starting at `start` with a lane
/// filled with the key byte.
fn xor_lane(data: &mut [u8], start: usize, splat: &[u8; 16])
    requires
        start + LANE_WIDTH <= old(data)@.len(),
        forall|j: int| 0 <= j < LANE_WIDTH ==> #[trigger] splat@[j] == splat@[0],
    ensures
        final(data)@.len() == old(data)@.len(),
        forall|j: int|
            0 <= j < final(data)@.len() ==> #[trigger] final(data)@[j] == if start <= j < start
                + LANE_WIDTH {
                xor_byte(old(data)@[j], splat@[0])
            } else {
                old(data)@[j]
            },
{
    let len = data.len();
    let mut j: usize = 0;
    while j < LANE_WIDTH
        invariant
            j <= LANE_WIDTH,
            len == data@.len(),
            start + LANE_WIDTH <= old(data)@.len(),
            data@.len() == old(data)@.len(),
            forall|i: int| 0 <= i < LANE_WIDTH ==> #[trigger] splat@[i] == splat@[0],
            forall|i: int|
                0 <= i < data@.len() ==> #[trigger] data@[i] == if start <= i < start + j {
                    xor_byte(old(data)@[i], splat@[0])
                } else {
                    old(data)@[i]
                },
        decreases LANE_WIDTH - j,
    {
        let b = data[start + j] ^ splat[j];
        data[start + j] = b;
        j = j + 1;
    }
}

/// Mask `data` in place with `key`: whole lanes first, then the tail byte by
/// byte.
pub fn mask_apply(data: &mut [u8], key: u8)
    ensures
        final(data)@ == xor_seq(old(data)@, key),
        final(data)@ == lanes_xor(old(data)@, key),
{
    let len = data.len();
    let splat: [u8; 16] = [key; 16];
    assert(forall|j: int| 0 <= j < LANE_WIDTH ==> #[trigger] splat@[j] == key);
    let mut i: usize = 0;
    while len - i >= LANE_WIDTH
        invariant
            len == data@.len(),
            data@.len() == old(data)@.len(),
            i <= len,
            forall|j: int| 0 <= j < LANE_WIDTH ==> #[trigger] splat@[j] == key,
            forall|j: int|
                0 <= j < len ==> #[trigger] data@[j] == if j < i {
                    xor_byte(old(data)@[j], key)
                } else {
                    old(data)@[j]
                },
        decreases len - i,
    {
        xor_lane(data, i, &splat);
        i = i + LANE_WIDTH;
    }
    while i < len
        invariant
            len == data@.len(),
            data@.len() == old(data)@.len(),
            i <= len,
            forall|j: int|
                0 <= j < len ==> #[trigger] data@[j] == if j < i {
                    xor_byte(old(data)@[j], key)
                } else {
                    old(data)@[j]
                },
        decreases len - i,
    {
        let b = data[i] ^ key;
        data[i] = b;
        i = i + 1;
    }
    assert(data@ =~= xor_seq(old(data)@, key));
    proof {
        lemma_lanes_equal_scalar(old(data)@, key);
    }
}

/// Mask `data` in place with `key`, one byte at a time.
pub fn mask_apply_scalar(data: &mut [u8], key: u8)
    ensures
        final(data)@ == xor_seq(old(data)@, key),
{
    let len = data.len();
    let mut i: usize = 0;
    while i < len
        invariant
            len == data@.len(),
            data@.len() == old(data)@.len(),
            i <= len,
            forall|j: int|
                0 <= j < len ==> #[trigger] data@[j] == if j < i {
                    xor_byte(old(data)@[j], key)
                } else {
                    old(data)@[j]
                },
        decreases len - i,
    {
        let b = data[i] ^ key;
        data[i] = b;
        i = i + 1;
    }
    assert(data@ =~= xor_seq(old(data)@, key));
}

} // verus!

//! Splitting a raw interleaved capture buffer into per-channel sample
//! sequences. One audio frame is 8 bytes: a little-endian signed 32-bit left
//! sample followed by a little-endian signed 32-bit right sample.

use vstd::prelude::*;

verus! {

use vstd::arithmetic::div_mod::{
    lemma_fundamental_div_mod,
    lemma_fundamental_div_mod_converse,
    lemma_mod_bound,
};

/// Error raised when a raw capture buffer cannot be split into whole stereo
/// frames.
#[derive(Clone, Copy, Debug, PartialEq, Eq, Structural)]
pub enum DemuxError {
    MalformedBuffer,
}

/// Unsigned value encoded by four bytes in little-endian order.
pub open spec fn le32(b0: u8, b1: u8, b2: u8, b3: u8) -> int {
    b0 + 256 * b1 + 65536 * b2 + 16777216 * b3
}

/// Two's-complement reading of an unsigned 32-bit value.
pub open spec fn as_signed32(u: int) -> int {
    if u < 0x8000_0000 {
        u
    } else {
        u - 0x1_0000_0000
    }
}

/// Unsigned 32-bit value that encodes a signed sample in two's complement.
pub open spec fn as_unsigned32(v: int) -> int {
    if v >= 0 {
        v
    } else {
        v + 0x1_0000_0000
    }
}

/// Sample decoded from the four consecutive bytes starting at `off`.
pub open spec fn sample_at(buf: Seq<u8>, off: int) -> int {
    as_signed32(le32(buf[off], buf[off + 1], buf[off + 2], buf[off + 3]))
}

/// Left-channel sample of frame `k`: bytes `[8k, 8k+4)`.
pub open spec fn left_sample(buf: Seq<u8>, k: int) -> int {
    sample_at(buf, 8 * k)
}

/// Right-channel sample of frame `k`: bytes `[8k+4, 8k+8)`.
pub open spec fn right_sample(buf: Seq<u8>, k: int) -> int {
    sample_at(buf, 8 * k + 4)
}

/// The four bytes that encode an unsigned 32-bit value in little-endian
/// order.
pub open spec fn le32_bytes(u: int) -> Seq<u8> {
    seq![
        (u % 256) as u8,
        ((u / 256) % 256) as u8,
        ((u / 256 / 256) % 256) as u8,
        ((u / 256 / 256 / 256) % 256) as u8,
    ]
}

/// The four bytes that encode a signed sample in little-endian order.
pub open spec fn sample_bytes(v: int) -> Seq<u8> {
    le32_bytes(as_unsigned32(v))
}

/// The interleaved byte buffer that carries the two channels: frame `k`
/// holds the four bytes of `left[k]` followed by the four bytes of
/// `right[k]`.
pub open spec fn reinterleave(left: Seq<i32>, right: Seq<i32>) -> Seq<u8>
    recommends
        left.len() == right.len(),
{
    Seq::new(
        8 * left.len(),
        |i: int|
            if i % 8 < 4 {
                sample_bytes(left[i / 8] as int)[i % 8]
            } else {
                sample_bytes(right[i / 8] as int)[i % 8 - 4]
            },
    )
}

/// Encoding the value read from four bytes gives back exactly those bytes.
proof fn lemma_le32_bytes_roundtrip(b0: u8, b1: u8, b2: u8, b3: u8)
    ensures
        le32_bytes(le32(b0, b1, b2, b3)) == seq![b0, b1, b2, b3],
{
    let u = le32(b0, b1, b2, b3);
    let t1 = b1 + 256 * b2 + 65536 * b3;
    let t2 = b2 + 256 * b3;
    lemma_fundamental_div_mod_converse(u, 256, t1, b0 as int);
    lemma_fundamental_div_mod_converse(t1, 256, t2, b1 as int);
    lemma_fundamental_div_mod_converse(t2, 256, b3 as int, b2 as int);
    lemma_fundamental_div_mod_converse(b3 as int, 256, 0, b3 as int);
    assert(le32_bytes(u) =~= seq![b0, b1, b2, b3]);
}

fn decode_le_i32(b0: u8, b1: u8, b2: u8, b3: u8) -> (v: i32)
    ensures
        v as int == as_signed32(le32(b0, b1, b2, b3)),
{
    let u: u32 = (b0 as u32) + 256 * (b1 as u32) + 65536 * (b2 as u32) + 16777216 * (b3 as u32);
    if u < 0x8000_0000u32 {
        u as i32
    } else if u == 0x8000_0000u32 {
        i32::MIN
    } else {
        let m: u32 = u32::MAX - u;
        -((m as i32) + 1)
    }
}

/// Splits an interleaved stereo capture buffer into left and right channel
/// sample sequences, rejecting buffers that are not whole frames.
pub fn process_audio_samples(buffer: Vec<u8>) -> (result: Result<(Vec<i32>, Vec<i32>), DemuxError>)
    ensures
        match result {
            Ok(channels) => {
                &&& buffer@.len() % 8 == 0
                &&& channels.0@.len() == buffer@.len() / 8
                &&& channels.1@.len() == buffer@.len() / 8
                &&& forall|k: int|
                    0 <= k < buffer@.len() / 8 ==> (#[trigger] channels.0@[k]) as int
                        == left_sample(buffer@, k)
                &&& forall|k: int|
                    0 <= k < buffer@.len() / 8 ==> (#[trigger] channels.1@[k]) as int
                        == right_sample(buffer@, k)
            },
            Err(e) => buffer@.len() % 8 != 0 && e == DemuxError::MalformedBuffer,
        },
{
    if buffer.len() % 8 != 0 {
        return Err(DemuxError::MalformedBuffer);
    }
    let n_frames = buffer.len() / 8;
    proof {
        lemma_fundamental_div_mod(buffer@.len() as int, 8);
    }
    let mut left: Vec<i32> = Vec::new();
    let mut right: Vec<i32> = Vec::new();
    let mut k: usize = 0;
    while k < n_frames
        invariant
            n_frames == buffer@.len() / 8,
            buffer@.len() % 8 == 0,
            buffer@.len() == 8 * n_frames,
            buffer@.len() <= usize::MAX,
            0 <= k <= n_frames,
            left@.len() == k,
            right@.len() == k,
            forall|j: int|
                0 <= j < k ==> (#[trigger] left@[j]) as int == left_sample(buffer@, j),
            forall|j: int|
                0 <= j < k ==> (#[trigger] right@[j]) as int == right_sample(buffer@, j),
        decreases n_frames - k,
    {
        proof {
            assert(8 * (k as int) + 8 <= buffer@.len());
        }
        let base = 8 * k;
        let l = decode_le_i32(buffer[base], buffer[base + 1], buffer[base + 2], buffer[base + 3]);
        let r = decode_le_i32(
            buffer[base + 4],
            buffer[base + 5],
            buffer[base + 6],
            buffer[base + 7],
        );
        left.push(l);
        right.push(r);
        k = k + 1;
    }
    Ok((left, right))
}

/// Round-trip law: re-interleaving the two channel sequences decoded from a
/// well-formed buffer reconstructs that buffer byte for byte.
pub proof fn lemma_demux_roundtrip(buf: Seq<u8>, left: Seq<i32>, right: Seq<i32>)
    requires
        buf.len() % 8 == 0,
        left.len() == buf.len() / 8,
        right.len() == buf.len() / 8,
        forall|k: int| 0 <= k < buf.len() / 8 ==> (#[trigger] left[k]) as int == left_sample(buf, k),
        forall|k: int|
            0 <= k < buf.len() / 8 ==> (#[trigger] right[k]) as int == right_sample(buf, k),
    ensures
        reinterleave(left, right) == buf,
{
    lemma_fundamental_div_mod(buf.len() as int, 8);
    assert(reinterleave(left, right).len() == buf.len());
    assert forall|i: int| 0 <= i < buf.len() implies reinterleave(left, right)[i] == buf[i] by {
        lemma_fundamental_div_mod(i, 8);
        lemma_mod_bound(i, 8);
        let k = i / 8;
        let r = i % 8;
        assert(0 <= k < buf.len() / 8) by {
            lemma_fundamental_div_mod_converse(i - r, 8, k, 0);
        }
        let ul = le32(buf[8 * k], buf[8 * k + 1], buf[8 * k + 2], buf[8 * k + 3]);
        let ur = le32(buf[8 * k + 4], buf[8 * k + 5], buf[8 * k + 6], buf[8 * k + 7]);
        assert(as_unsigned32(as_signed32(ul)) == ul);
        assert(as_unsigned32(as_signed32(ur)) == ur);
        lemma_le32_bytes_roundtrip(buf[8 * k], buf[8 * k + 1], buf[8 * k + 2], buf[8 * k + 3]);
        lemma_le32_bytes_roundtrip(
            buf[8 * k + 4],
            buf[8 * k + 5],
            buf[8 * k + 6],
            buf[8 * k + 7],
        );
        assert(left[k] as int == as_signed32(ul));
        assert(right[k] as int == as_signed32(ur));
        if r < 4 {
            assert(sample_bytes(left[k] as int)[r] == seq![
                buf[8 * k],
                buf[8 * k + 1],
                buf[8 * k + 2],
                buf[8 * k + 3],
            ][r]);
        } else {
            assert(sample_bytes(right[k] as int)[r - 4] == seq![
                buf[8 * k + 4],
                buf[8 * k + 5],
                buf[8 * k + 6],
                buf[8 * k + 7],
            ][r - 4]);
        }
    }
    assert(reinterleave(left, right) =~= buf);
}

} // verus!

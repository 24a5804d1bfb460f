//! Conversion of encoded H.264 access units from the length-prefixed AVCC
//! layout to the start-code-delimited Annex-B byte stream that travels on
//! the wire, with SPS and PPS prepended on keyframes.

use vstd::prelude::*;

use crate::wire::push_bytes;

verus! {

/// The 32-bit big-endian value read from four bytes, as AVCC length
/// prefixes are stored.
pub open spec fn u32_from_be(b0: u8, b1: u8, b2: u8, b3: u8) -> u32 {
    ((b0 as u32) << 24) | ((b1 as u32) << 16) | ((b2 as u32) << 8) | (b3 as u32)
}

/// The four-byte Annex-B start code.
pub open spec fn spec_start_code() -> Seq<u8> {
    seq![0u8, 0u8, 0u8, 1u8]
}

/// The Annex-B bytes for an AVCC buffer: each NAL unit's four-byte
/// big-endian length prefix is replaced by a start code. Trailing bytes too
/// short for a length prefix, or a NAL unit whose length overruns the
/// buffer, end the stream.
pub open spec fn spec_avcc_to_annex_b(data: Seq<u8>) -> Seq<u8>
    decreases data.len(),
{
    if data.len() < 4 {
        Seq::empty()
    } else {
        let nal_len = u32_from_be(data[0], data[1], data[2], data[3]) as int;
        if 4 + nal_len > data.len() {
            Seq::empty()
        } else {
            spec_start_code() + data.subrange(4, 4 + nal_len) + spec_avcc_to_annex_b(
                data.skip(4 + nal_len),
            )
        }
    }
}

/// Read a 32-bit big-endian value at the given offset.
fn read_u32_be(data: &[u8], off: usize) -> (r: u32)
    requires
        off + 4 <= data@.len(),
    ensures
        r == u32_from_be(data@[off as int], data@[off + 1], data@[off + 2], data@[off + 3]),
{
    ((data[off] as u32) << 24) | ((data[off + 1] as u32) << 16) | ((data[off + 2] as u32) << 8)
        | (data[off + 3] as u32)
}

/// Append the four-byte Annex-B start code.
fn push_start_code(buf: &mut Vec<u8>)
    ensures
        final(buf)@ == old(buf)@ + spec_start_code(),
{
    buf.push(0);
    buf.push(0);
    buf.push(0);
    buf.push(1);
    proof {
        assert(buf@ =~= old(buf)@ + spec_start_code());
    }
}

/// Convert an AVCC buffer (NAL units under four-byte big-endian length
/// prefixes) to the Annex-B byte stream (NAL units behind start codes).
pub fn avcc_to_annex_b(avcc: &[u8]) -> (r: Vec<u8>)
    ensures
        r@ == spec_avcc_to_annex_b(avcc@),
{
    let n: usize = avcc.len();
    let mut out: Vec<u8> = Vec::new();
    let mut offset: usize = 0;
    proof {
        assert(avcc@.skip(0) =~= avcc@);
        assert(spec_avcc_to_annex_b(avcc@) =~= out@ + spec_avcc_to_annex_b(avcc@.skip(0)));
    }
    loop
        invariant
            offset <= n,
            n == avcc@.len(),
            spec_avcc_to_annex_b(avcc@) == out@ + spec_avcc_to_annex_b(avcc@.skip(offset as int)),
        ensures
            out@ == spec_avcc_to_annex_b(avcc@),
        decreases n - offset,
    {
        let ghost rest = avcc@.skip(offset as int);
        if n - offset < 4 {
            proof {
                assert(rest.len() < 4);
                assert(out@ =~= out@ + spec_avcc_to_annex_b(rest));
            }
            break;
        }
        let nal_len64: u64 = read_u32_be(avcc, offset) as u64;
        proof {
            assert(rest[0] == avcc@[offset as int]);
            assert(rest[1] == avcc@[offset + 1]);
            assert(rest[2] == avcc@[offset + 2]);
            assert(rest[3] == avcc@[offset + 3]);
        }
        let nal_start: usize = offset + 4;
        if nal_len64 > ((n - nal_start) as u64) {
            proof {
                assert(4 + (nal_len64 as int) > rest.len());
                assert(out@ =~= out@ + spec_avcc_to_annex_b(rest));
            }
            break;
        }
        let nal_len: usize = nal_len64 as usize;
        let nal_end: usize = nal_start + nal_len;

        push_start_code(&mut out);
        push_bytes(&mut out, vstd::slice::slice_subrange(avcc, nal_start, nal_end));
        proof {
            assert(rest.subrange(4, 4 + nal_len as int) =~= avcc@.subrange(
                nal_start as int,
                nal_end as int,
            ));
            assert(rest.skip(4 + nal_len as int) =~= avcc@.skip(nal_end as int));
            assert(spec_avcc_to_annex_b(avcc@) =~= out@ + spec_avcc_to_annex_b(
                avcc@.skip(nal_end as int),
            ));
        }
        offset = nal_end;
    }
    out
}

/// Build the Annex-B bytes of a keyframe: the SPS and PPS parameter sets,
/// each behind a start code, followed by the converted AVCC payload.
///
/// An encoder's keyframe output must begin with SPS and PPS so that a
/// decoder can join the stream at any keyframe.
pub fn keyframe_annex_b(sps: &[u8], pps: &[u8], avcc: &[u8]) -> (r: Vec<u8>)
    ensures
        r@ == spec_start_code() + sps@ + spec_start_code() + pps@ + spec_avcc_to_annex_b(avcc@),
{
    let mut out: Vec<u8> = Vec::new();
    push_start_code(&mut out);
    push_bytes(&mut out, sps);
    push_start_code(&mut out);
    push_bytes(&mut out, pps);
    let tail = avcc_to_annex_b(avcc);
    push_bytes(&mut out, tail.as_slice());
    out
}

} // verus!

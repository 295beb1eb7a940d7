//! Length-prefixed frames: a var-int body length of at most three bytes,
//! then the body.

use vstd::prelude::*;
use crate::buffer::{
    lemma_leb128_len, lemma_pow128_monotone, lemma_pow128_values, lemma_scan_leb128,
    lemma_scan_leb128_bounds, pow128, scan_leb128, unsigned_form, var_int_bytes, write_raw_bytes,
    write_var_int, VarIntScan,
};

verus! {

/// The largest frame body: a length must fit in three var-int bytes.
pub const MAX_FRAME_BODY: usize = 0x1f_ffff;

/// The frame that carries `body`.
pub open spec fn frame_bytes(body: Seq<u8>) -> Seq<u8> {
    var_int_bytes(body.len() as i32) + body
}

/// What the front of an input accumulator holds.
pub enum FrameDecode {
    /// A whole frame with this body, followed by `rest`.
    Frame { body: Seq<u8>, rest: Seq<u8> },
    /// The length or the body is not complete yet.
    NeedMore,
    /// The length's three bytes all have the continuation bit set.
    Malformed,
}

pub open spec fn decode_frame(s: Seq<u8>) -> FrameDecode {
    match scan_leb128(s, 3, 0, 0) {
        VarIntScan::Done { value, len } => if len + value <= s.len() {
            FrameDecode::Frame {
                body: s.subrange(len as int, len + value as int),
                rest: s.skip(len + value as int),
            }
        } else {
            FrameDecode::NeedMore
        },
        VarIntScan::Short => FrameDecode::NeedMore,
        VarIntScan::Overlong => FrameDecode::Malformed,
    }
}

/// Splits a byte stream into frames and writes frames.
pub struct FrameCodec;

struct PeekedVarInt {
    value: usize,
    size: usize,
}

/// Reads the frame length at the front of `src` without consuming it.
fn peek_var_int_21(src: &Vec<u8>) -> (r: Result<Option<PeekedVarInt>, ()>)
    ensures
        match scan_leb128(src@, 3, 0, 0) {
            VarIntScan::Done { value, len } => r matches Ok(Some(p)) && p.value == value
                && p.size == len,
            VarIntScan::Short => r matches Ok(None),
            VarIntScan::Overlong => r is Err,
        },
{
    let mut result: usize = 0;
    let mut weight: usize = 1;
    let mut i: usize = 0;
    proof {
        lemma_pow128_values();
    }
    while i < 3
        invariant
            i <= 3,
            weight == pow128(i as nat),
            result < weight,
            pow128(3) == 0x20_0000,
            scan_leb128(src@, 3, 0, 0) == scan_leb128(src@, 3, i as nat, result as nat),
        decreases 3 - i,
    {
        proof {
            assert(pow128((i + 1) as nat) == 128 * pow128(i as nat));
            lemma_pow128_monotone((i + 1) as nat, 3);
        }
        if i >= src.len() {
            return Ok(None);
        }
        let byte = src[i];
        let group: usize = (byte % 128) as usize;
        assert(result + group * weight < 128 * weight) by (nonlinear_arith)
            requires
                result < weight,
                group < 128,
        ;
        result = result + group * weight;
        if byte < 128 {
            return Ok(Some(PeekedVarInt { value: result, size: i + 1 }));
        }
        weight = weight * 128;
        i = i + 1;
    }
    Err(())
}

impl FrameCodec {
    /// Takes one whole frame off the front of `src` and returns its body;
    /// `None` while the frame is incomplete.
    pub fn try_decode(src: &mut Vec<u8>) -> (r: Result<Option<Vec<u8>>, ()>)
        ensures
            match decode_frame(old(src)@) {
                FrameDecode::Frame { body, rest } => r matches Ok(Some(b)) && b@ == body
                    && final(src)@ == rest,
                FrameDecode::NeedMore => r matches Ok(None) && final(src)@ == old(src)@,
                FrameDecode::Malformed => r is Err && final(src)@ == old(src)@,
            },
    {
        proof {
            lemma_scan_leb128_bounds(src@, 3, 0, 0);
        }
        match peek_var_int_21(src) {
            Err(()) => Err(()),
            Ok(None) => Ok(None),
            Ok(Some(frame_size)) => {
                if src.len() - frame_size.size < frame_size.value {
                    Ok(None)
                } else {
                    let ghost s = src@;
                    let mut body = src.split_off(frame_size.size);
                    let rest = body.split_off(frame_size.value);
                    *src = rest;
                    assert(body@ =~= s.subrange(
                        frame_size.size as int,
                        frame_size.size + frame_size.value,
                    ));
                    assert(src@ =~= s.skip(frame_size.size + frame_size.value));
                    Ok(Some(body))
                }
            },
        }
    }

    /// Prepends the payload with its length; a payload over the largest
    /// frame body is refused.
    pub fn encode(payload: Vec<u8>) -> (r: Result<Vec<u8>, ()>)
        ensures
            payload@.len() <= MAX_FRAME_BODY ==> (r matches Ok(f) && f@ == frame_bytes(payload@)),
            payload@.len() > MAX_FRAME_BODY ==> r is Err,
    {
        if payload.len() > MAX_FRAME_BODY {
            return Err(());
        }
        let mut buffer: Vec<u8> = Vec::new();
        write_var_int(&mut buffer, payload.len() as i32);
        write_raw_bytes(&mut buffer, payload.as_slice());
        Ok(buffer)
    }
}

/// For every body of at most `2^21 - 1` bytes: decoding its frame, whatever
/// follows it, gives back the body and leaves what follows.
pub proof fn lemma_frame_round_trip(body: Seq<u8>, rest: Seq<u8>)
    requires
        body.len() <= MAX_FRAME_BODY,
    ensures
        decode_frame(frame_bytes(body) + rest) == (FrameDecode::Frame { body, rest }),
{
    let n = body.len() as i32;
    let v = unsigned_form(n);
    let e = var_int_bytes(n);
    let s = frame_bytes(body) + rest;
    lemma_pow128_values();
    lemma_leb128_len(v, 3);
    assert(s.subrange(0, e.len() as int) =~= e);
    lemma_scan_leb128(s, 3, 0, 0, v);
    assert(pow128(0) == 1);
    assert(s.subrange(e.len() as int, e.len() + body.len() as int) =~= body);
    assert(s.skip(e.len() + body.len() as int) =~= rest);
}

} // verus!

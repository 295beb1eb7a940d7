//! Optional zlib layer between the packet codec and the frame codec.

use vstd::prelude::*;
use crate::buffer::{
    lemma_var_int_round_trip, parse_var_int, var_int_bytes, write_raw_bytes, write_var_int, Buffer,
};

verus! {

/// The zlib stream that `deflate::deflate_bytes_zlib` makes of `data`.
pub uninterp spec fn zlib_deflate(data: Seq<u8>) -> Seq<u8>;

/// What `inflate::inflate_bytes_zlib` recovers from `data`, if it accepts it.
pub uninterp spec fn zlib_inflate(data: Seq<u8>) -> Option<Seq<u8>>;

/// Relies on `deflate::deflate_bytes_zlib`: zlib compression at the default
/// level, which depends on the input bytes alone. It writes a zlib stream
/// (header, DEFLATE data, checksum) of the input, which
/// `inflate::inflate_bytes_zlib`, a decoder of such streams, turns back
/// into the input.
#[verifier::external_body]
fn deflate_zlib(data: &[u8]) -> (r: Vec<u8>)
    ensures
        r@ == zlib_deflate(data@),
        zlib_inflate(r@) == Some(data@),
{
    deflate::deflate_bytes_zlib(data)
}

/// Relies on `inflate::inflate_bytes_zlib`: decompression of a zlib stream,
/// failing on a malformed one.
#[verifier::external_body]
fn inflate_zlib(data: &[u8]) -> (r: Option<Vec<u8>>)
    ensures
        r is Some <==> zlib_inflate(data@) is Some,
        r is Some ==> r->0@ == zlib_inflate(data@)->0,
{
    inflate::inflate_bytes_zlib(data).ok()
}

/// The compressed-frame body for `payload` under threshold `limit`: a zero
/// length and the payload itself below the threshold, else the payload's
/// length and its zlib stream. A length beyond `i32` cannot be written.
pub open spec fn compressed_body(limit: usize, payload: Seq<u8>) -> Option<Seq<u8>> {
    if payload.len() < limit {
        Some(var_int_bytes(0) + payload)
    } else if payload.len() <= i32::MAX {
        Some(var_int_bytes(payload.len() as i32) + zlib_deflate(payload))
    } else {
        None
    }
}

/// The payload carried by a compressed-frame body, if it is well formed:
/// a zero length announces it as is; any other length announces a zlib
/// stream that must inflate to exactly that many bytes.
pub open spec fn decompressed(body: Seq<u8>) -> Option<Seq<u8>> {
    match parse_var_int(body) {
        Some((u, rest)) => if u == 0 {
            Some(rest)
        } else {
            match zlib_inflate(rest) {
                Some(d) => if d.len() == u {
                    Some(d)
                } else {
                    None
                },
                None => None,
            }
        },
        None => None,
    }
}

/// Compresses frame bodies of at least `size_limit` bytes.
pub struct Compressor {
    pub size_limit: usize,
}

impl Compressor {
    /// The compressed-frame body of `payload`; decompressing it gives the
    /// payload back (but for an empty payload under a zero threshold, whose
    /// zero length reads as "not compressed").
    pub fn encode(&self, payload: Vec<u8>) -> (r: Result<Vec<u8>, ()>)
        ensures
            match compressed_body(self.size_limit, payload@) {
                Some(c) => r matches Ok(v) && v@ == c,
                None => r is Err,
            },
            (self.size_limit > 0 || payload@.len() > 0) ==> (r matches Ok(v) ==> decompressed(v@)
                == Some(payload@)),
    {
        let mut buffer: Vec<u8> = Vec::new();
        if payload.len() < self.size_limit {
            proof {
                if self.size_limit > 0 || payload@.len() > 0 {
                    lemma_compress_round_trip(self.size_limit, payload@);
                }
            }
            write_var_int(&mut buffer, 0);
            write_raw_bytes(&mut buffer, payload.as_slice());
        } else {
            if payload.len() > 0x7fff_ffff {
                return Err(());
            }
            let compressed = deflate_zlib(payload.as_slice());
            proof {
                if self.size_limit > 0 || payload@.len() > 0 {
                    lemma_compress_round_trip(self.size_limit, payload@);
                }
            }
            write_var_int(&mut buffer, payload.len() as i32);
            write_raw_bytes(&mut buffer, compressed.as_slice());
        }
        Ok(buffer)
    }

    pub fn decode(&self, buffer: Vec<u8>) -> (r: Result<Vec<u8>, ()>)
        ensures
            match decompressed(buffer@) {
                Some(d) => r matches Ok(v) && v@ == d,
                None => r is Err,
            },
    {
        let mut buf = Buffer::new(buffer);
        let uncompressed_size = buf.read_var_int()?;
        let rest = buf.remaining_bytes();
        if uncompressed_size == 0 {
            return Ok(rest);
        }
        match inflate_zlib(rest.as_slice()) {
            Some(decompressed) => {
                if uncompressed_size > 0 && decompressed.len() == uncompressed_size as usize {
                    Ok(decompressed)
                } else {
                    Err(())
                }
            },
            None => Err(()),
        }
    }
}

/// For every threshold `t` and payload `b` (not both zero and empty, whose
/// compressed form would be read as uncompressed; and, at or above the
/// threshold, with a length that a var-int can carry): the length field of the
/// compressed body is zero exactly when `|b| < t`; below the threshold
/// decompression gives back `b`; at or above it, it gives back `b` whenever
/// zlib inflation inverts zlib deflation on `b`.
pub proof fn lemma_compress_round_trip(t: usize, b: Seq<u8>)
    requires
        b.len() < t || b.len() <= i32::MAX,
        t > 0 || b.len() > 0,
    ensures
        compressed_body(t, b) is Some,
        parse_var_int(compressed_body(t, b)->0) matches Some((u, _)) && (u == 0 <==> b.len() < t),
        b.len() < t ==> decompressed(compressed_body(t, b)->0) == Some(b),
        zlib_inflate(zlib_deflate(b)) == Some(b) ==> decompressed(compressed_body(t, b)->0)
            == Some(b),
{
    if b.len() < t {
        lemma_var_int_round_trip(0, b);
    } else {
        let n = b.len() as i32;
        let z = zlib_deflate(b);
        lemma_var_int_round_trip(n, z);
    }
}

} // verus!

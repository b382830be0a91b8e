//! Length-prefixed byte-string codec: each field is its length as a
//! little-endian base-128 varint, followed by its bytes. Encoding and
//! decoding are verified inverses, which is what the record conversions
//! build on.

use vstd::prelude::*;

verus! {

/// Little-endian base-128 varint encoding of an unsigned integer: seven
/// value bits per byte, the high bit marking a continuation.
pub open spec fn spec_uleb128(n: nat) -> Seq<u8>
    decreases n,
{
    if n < 128 {
        seq![n as u8]
    } else {
        seq![((n % 128 + 128) as u8)] + spec_uleb128(n / 128)
    }
}

/// A byte string as encoded: varint length, then the bytes.
pub open spec fn spec_enc_bytes(b: Seq<u8>) -> Seq<u8> {
    spec_uleb128(b.len() as nat) + b
}

/// The value and end position read by a varint decode at `pos`, if any.
pub open spec fn spec_decode_uleb128(s: Seq<u8>, pos: int) -> Option<(nat, int)>
    decreases s.len() - pos,
{
    if pos < 0 || pos >= s.len() {
        None
    } else {
        let b = s[pos];
        if b < 128 {
            Some((b as nat, pos + 1))
        } else {
            match spec_decode_uleb128(s, pos + 1) {
                None => None,
                Some((hi, end)) => Some((((b - 128) as nat + 128 * hi), end)),
            }
        }
    }
}

/// The byte string and end position read by a field decode at `pos`: the
/// varint length, then that many bytes, when they all fit.
pub open spec fn spec_decode_bytes(s: Seq<u8>, pos: int) -> Option<(Seq<u8>, int)> {
    match spec_decode_uleb128(s, pos) {
        None => None,
        Some((n, p)) => if p + n <= s.len() {
            Some((s.subrange(p, p + n as int), p + n as int))
        } else {
            None
        },
    }
}

/// Append the varint encoding of `v`.
pub fn encode_uleb128(v: usize, out: &mut Vec<u8>)
    ensures
        final(out)@ == old(out)@ + spec_uleb128(v as nat),
    decreases v,
{
    let ghost o0 = out@;
    if v < 128 {
        out.push(v as u8);
        proof {
            assert(out@ =~= o0 + spec_uleb128(v as nat));
        }
    } else {
        out.push((v % 128 + 128) as u8);
        encode_uleb128(v / 128, out);
        proof {
            assert(out@ =~= o0 + spec_uleb128(v as nat));
        }
    }
}

/// Append the length-prefixed encoding of `b`.
pub fn encode_bytes(b: &Vec<u8>, out: &mut Vec<u8>)
    ensures
        final(out)@ == old(out)@ + spec_enc_bytes(b@),
{
    let ghost o0 = out@;
    encode_uleb128(b.len(), out);
    let n = b.len();
    let mut i: usize = 0;
    while i < n
        invariant
            n == b@.len(),
            i <= n,
            out@ == o0 + spec_uleb128(b@.len() as nat) + b@.subrange(0, i as int),
        decreases n - i,
    {
        out.push(b[i]);
        proof {
            assert(out@ =~= o0 + spec_uleb128(b@.len() as nat) + b@.subrange(0, i as int + 1));
        }
        i = i + 1;
    }
    proof {
        assert(b@.subrange(0, n as int) =~= b@);
        assert(out@ =~= o0 + spec_enc_bytes(b@));
    }
}

/// Read a varint at `pos`. Agrees exactly with the mathematical decode: a
/// value that does not fit the machine word reads as nothing (such a prefix
/// can never announce a field that fits in memory anyway).
pub fn decode_uleb128(data: &Vec<u8>, pos: usize) -> (r: Option<(usize, usize)>)
    ensures
        match r {
            Some((v, e)) => spec_decode_uleb128(data@, pos as int) == Some((v as nat, e as int)),
            None => match spec_decode_uleb128(data@, pos as int) {
                None => true,
                Some((n, _)) => n > usize::MAX,
            },
        },
    decreases data@.len() - pos,
{
    if pos >= data.len() {
        return None;
    }
    let b = data[pos];
    if b < 128 {
        Some((b as usize, pos + 1))
    } else {
        match decode_uleb128(data, pos + 1) {
            None => None,
            Some((hi, end)) => {
                let low = (b - 128) as usize;
                if hi <= (usize::MAX - low) / 128 {
                    proof {
                        assert(128 * hi + low <= usize::MAX) by (nonlinear_arith)
                            requires
                                hi <= (usize::MAX - low) / 128,
                                low < 128,
                        {
                        }
                    }
                    Some((low + 128 * hi, end))
                } else {
                    proof {
                        assert(low + 128 * hi > usize::MAX) by (nonlinear_arith)
                            requires
                                hi > (usize::MAX - low) / 128,
                                low < 128,
                        {
                        }
                    }
                    None
                }
            },
        }
    }
}

/// Read a length-prefixed byte string at `pos`. Agrees exactly with the
/// mathematical decode.
pub fn decode_bytes(data: &Vec<u8>, pos: usize) -> (r: Option<(Vec<u8>, usize)>)
    ensures
        match r {
            Some((v, e)) => spec_decode_bytes(data@, pos as int) == Some((v@, e as int)),
            None => spec_decode_bytes(data@, pos as int) is None,
        },
{
    let dl = data.len();
    let (n, p) = match decode_uleb128(data, pos) {
        None => {
            proof {
                if spec_decode_uleb128(data@, pos as int) is Some {
                    lemma_decode_uleb128_end(data@, pos as int);
                }
            }
            return None;
        },
        Some((n, p)) => (n, p),
    };
    proof {
        lemma_decode_uleb128_end(data@, pos as int);
    }
    if n > data.len() - p {
        return None;
    }
    let mut v: Vec<u8> = Vec::new();
    let mut i: usize = 0;
    while i < n
        invariant
            p + n <= data@.len(),
            data@.len() <= usize::MAX,
            i <= n,
            v@ == data@.subrange(p as int, p as int + i as int),
        decreases n - i,
    {
        v.push(data[p + i]);
        proof {
            assert(v@ =~= data@.subrange(p as int, p as int + i as int + 1));
        }
        i = i + 1;
    }
    Some((v, p + n))
}

/// A successful varint decode always advances and stays inside the input.
pub proof fn lemma_decode_uleb128_end(s: Seq<u8>, pos: int)
    requires
        spec_decode_uleb128(s, pos) is Some,
    ensures
        pos < spec_decode_uleb128(s, pos)->Some_0.1 <= s.len(),
    decreases s.len() - pos,
{
    if !(pos < 0 || pos >= s.len()) {
        let b = s[pos];
        if b >= 128 {
            lemma_decode_uleb128_end(s, pos + 1);
        }
    }
}

/// Round trip of the varint: decoding right after any prefix reads back
/// exactly the encoded value and stops at its end.
pub proof fn lemma_uleb128_round_trip(pre: Seq<u8>, n: nat, suf: Seq<u8>)
    ensures
        spec_decode_uleb128(pre + spec_uleb128(n) + suf, pre.len() as int) == Some(
            (n, pre.len() as int + spec_uleb128(n).len() as int),
        ),
    decreases n,
{
    let s = pre + spec_uleb128(n) + suf;
    if n < 128 {
        assert(s[pre.len() as int] == n as u8);
    } else {
        let b = ((n % 128 + 128) as u8);
        assert(s[pre.len() as int] == b);
        let pre2 = pre + seq![b];
        assert(pre + spec_uleb128(n) + suf =~= pre2 + spec_uleb128(n / 128) + suf) by {
            assert(spec_uleb128(n) =~= seq![b] + spec_uleb128(n / 128));
        }
        lemma_uleb128_round_trip(pre2, n / 128, suf);
        assert(spec_decode_uleb128(s, pre.len() as int + 1) == Some(
            (n / 128, pre.len() as int + 1 + spec_uleb128(n / 128).len()),
        ));
        assert((b - 128) as nat + 128 * (n / 128) == n);
        assert(spec_uleb128(n).len() == 1 + spec_uleb128(n / 128).len());
    }
}

/// Round trip of a length-prefixed byte string after any prefix.
pub proof fn lemma_bytes_round_trip(pre: Seq<u8>, b: Seq<u8>, suf: Seq<u8>)
    ensures
        spec_decode_bytes(pre + spec_enc_bytes(b) + suf, pre.len() as int) == Some(
            (b, pre.len() as int + spec_enc_bytes(b).len() as int),
        ),
{
    let s = pre + spec_enc_bytes(b) + suf;
    assert(s =~= pre + spec_uleb128(b.len() as nat) + (b + suf)) by {
        assert(spec_enc_bytes(b) =~= spec_uleb128(b.len() as nat) + b);
    }
    lemma_uleb128_round_trip(pre, b.len() as nat, b + suf);
    let p = pre.len() + spec_uleb128(b.len() as nat).len();
    assert(spec_decode_uleb128(s, pre.len() as int) == Some((b.len() as nat, p as int)));
    assert(p + b.len() <= s.len());
    assert(s.subrange(p as int, (p + b.len()) as int) =~= b);
}

} // verus!

//! Byte-level primitives of the record codec: little-endian integers,
//! length-prefixed byte strings and option tags, each with a spec-level
//! encoder and decoder and a proof that the decoder inverts the encoder.

use vstd::prelude::*;

verus! {

/// The bytes do not hold a well-formed record of the expected schema
/// version, or bytes remain after the record ends.
#[derive(Clone, Copy, PartialEq, Eq, Debug)]
pub struct CodecError;

// ---------------------------------------------------------------------------
// u64, little-endian, 8 bytes
// ---------------------------------------------------------------------------

pub open spec fn senc_u64(x: u64) -> Seq<u8> {
    seq![
        (x & 0xff) as u8,
        ((x >> 8) & 0xff) as u8,
        ((x >> 16) & 0xff) as u8,
        ((x >> 24) & 0xff) as u8,
        ((x >> 32) & 0xff) as u8,
        ((x >> 40) & 0xff) as u8,
        ((x >> 48) & 0xff) as u8,
        ((x >> 56) & 0xff) as u8,
    ]
}

pub open spec fn u64_from_bytes(
    b0: u8, b1: u8, b2: u8, b3: u8, b4: u8, b5: u8, b6: u8, b7: u8,
) -> u64 {
    (b0 as u64)
        | ((b1 as u64) << 8)
        | ((b2 as u64) << 16)
        | ((b3 as u64) << 24)
        | ((b4 as u64) << 32)
        | ((b5 as u64) << 40)
        | ((b6 as u64) << 48)
        | ((b7 as u64) << 56)
}

pub open spec fn sdec_u64(s: Seq<u8>, i: int) -> Option<(u64, int)> {
    if 0 <= i && i + 8 <= s.len() {
        Some((
            u64_from_bytes(
                s[i], s[i + 1], s[i + 2], s[i + 3], s[i + 4], s[i + 5], s[i + 6], s[i + 7],
            ),
            i + 8,
        ))
    } else {
        None
    }
}

proof fn lemma_u64_byte_bounds(x: u64)
    by (bit_vector)
    ensures
        x & 0xff < 256,
        (x >> 8) & 0xff < 256,
        (x >> 16) & 0xff < 256,
        (x >> 24) & 0xff < 256,
        (x >> 32) & 0xff < 256,
        (x >> 40) & 0xff < 256,
        (x >> 48) & 0xff < 256,
        (x >> 56) & 0xff < 256,
{
}

proof fn lemma_u64_reassemble(x: u64)
    by (bit_vector)
    ensures
        ((x & 0xff) as u8 as u64)
            | ((((x >> 8) & 0xff) as u8 as u64) << 8)
            | ((((x >> 16) & 0xff) as u8 as u64) << 16)
            | ((((x >> 24) & 0xff) as u8 as u64) << 24)
            | ((((x >> 32) & 0xff) as u8 as u64) << 32)
            | ((((x >> 40) & 0xff) as u8 as u64) << 40)
            | ((((x >> 48) & 0xff) as u8 as u64) << 48)
            | ((((x >> 56) & 0xff) as u8 as u64) << 56) == x,
{
}

/// A u64 round-trips through its little-endian bytes.
pub proof fn lemma_u64_round_trip(x: u64)
    ensures
        u64_from_bytes(
            senc_u64(x)[0], senc_u64(x)[1], senc_u64(x)[2], senc_u64(x)[3],
            senc_u64(x)[4], senc_u64(x)[5], senc_u64(x)[6], senc_u64(x)[7],
        ) == x,
{
    lemma_u64_reassemble(x);
}

/// Decoding at a position where the encoding of `x` stands yields `x`.
pub proof fn lemma_sdec_u64_of_enc(s: Seq<u8>, i: int, x: u64)
    requires
        0 <= i,
        i + 8 <= s.len(),
        s.subrange(i, i + 8) == senc_u64(x),
    ensures
        sdec_u64(s, i) == Some((x, i + 8)),
{
    assert forall|k: int| 0 <= k < 8 implies s[i + k] == senc_u64(x)[k] by {
        assert(s.subrange(i, i + 8)[k] == s[i + k]);
    }
    lemma_u64_round_trip(x);
}

pub fn enc_u64(out: &mut Vec<u8>, x: u64)
    ensures
        final(out)@ == old(out)@ + senc_u64(x),
{
    proof {
        lemma_u64_byte_bounds(x);
    }
    out.push((x & 0xff) as u8);
    out.push(((x >> 8) & 0xff) as u8);
    out.push(((x >> 16) & 0xff) as u8);
    out.push(((x >> 24) & 0xff) as u8);
    out.push(((x >> 32) & 0xff) as u8);
    out.push(((x >> 40) & 0xff) as u8);
    out.push(((x >> 48) & 0xff) as u8);
    out.push(((x >> 56) & 0xff) as u8);
    proof {
        assert(out@ =~= old(out)@ + senc_u64(x));
    }
}

pub fn dec_u64(bytes: &Vec<u8>, pos: usize) -> (r: Result<(u64, usize), CodecError>)
    ensures
        match r {
            Ok((x, j)) => sdec_u64(bytes@, pos as int) == Some((x, j as int)),
            Err(_) => sdec_u64(bytes@, pos as int) is None,
        },
{
    if pos <= bytes.len() && bytes.len() - pos >= 8 {
        let x = (bytes[pos] as u64)
            | ((bytes[pos + 1] as u64) << 8)
            | ((bytes[pos + 2] as u64) << 16)
            | ((bytes[pos + 3] as u64) << 24)
            | ((bytes[pos + 4] as u64) << 32)
            | ((bytes[pos + 5] as u64) << 40)
            | ((bytes[pos + 6] as u64) << 48)
            | ((bytes[pos + 7] as u64) << 56);
        Ok((x, pos + 8))
    } else {
        Err(CodecError)
    }
}

// ---------------------------------------------------------------------------
// i64, as its two's-complement bit pattern in a u64
// ---------------------------------------------------------------------------

pub open spec fn i64_to_bits(x: i64) -> u64 {
    if x >= 0 {
        x as u64
    } else {
        (x + 0x1_0000_0000_0000_0000) as u64
    }
}

pub open spec fn bits_to_i64(u: u64) -> i64 {
    if u < 0x8000_0000_0000_0000 {
        u as i64
    } else {
        (u - 0x1_0000_0000_0000_0000) as i64
    }
}

pub proof fn lemma_i64_bits_round_trip(x: i64)
    ensures
        bits_to_i64(i64_to_bits(x)) == x,
{
}

pub open spec fn senc_i64(x: i64) -> Seq<u8> {
    senc_u64(i64_to_bits(x))
}

pub open spec fn sdec_i64(s: Seq<u8>, i: int) -> Option<(i64, int)> {
    match sdec_u64(s, i) {
        Some((u, j)) => Some((bits_to_i64(u), j)),
        None => None,
    }
}

pub proof fn lemma_sdec_i64_of_enc(s: Seq<u8>, i: int, x: i64)
    requires
        0 <= i,
        i + 8 <= s.len(),
        s.subrange(i, i + 8) == senc_i64(x),
    ensures
        sdec_i64(s, i) == Some((x, i + 8)),
{
    lemma_sdec_u64_of_enc(s, i, i64_to_bits(x));
    lemma_i64_bits_round_trip(x);
}

pub fn enc_i64(out: &mut Vec<u8>, x: i64)
    ensures
        final(out)@ == old(out)@ + senc_i64(x),
{
    let bits: u64 = if x >= 0 {
        x as u64
    } else {
        ((x as i128) + 0x1_0000_0000_0000_0000i128) as u64
    };
    assert(bits == i64_to_bits(x));
    enc_u64(out, bits);
}

pub fn dec_i64(bytes: &Vec<u8>, pos: usize) -> (r: Result<(i64, usize), CodecError>)
    ensures
        match r {
            Ok((x, j)) => sdec_i64(bytes@, pos as int) == Some((x, j as int)),
            Err(_) => sdec_i64(bytes@, pos as int) is None,
        },
{
    match dec_u64(bytes, pos) {
        Ok((u, j)) => {
            let x: i64 = if u < 0x8000_0000_0000_0000 {
                u as i64
            } else {
                ((u as i128) - 0x1_0000_0000_0000_0000i128) as i64
            };
            assert(x == bits_to_i64(u));
            Ok((x, j))
        },
        Err(e) => Err(e),
    }
}

// ---------------------------------------------------------------------------
// single byte
// ---------------------------------------------------------------------------

pub open spec fn senc_u8(b: u8) -> Seq<u8> {
    seq![b]
}

pub open spec fn sdec_u8(s: Seq<u8>, i: int) -> Option<(u8, int)> {
    if 0 <= i && i + 1 <= s.len() {
        Some((s[i], i + 1))
    } else {
        None
    }
}

pub fn enc_u8(out: &mut Vec<u8>, b: u8)
    ensures
        final(out)@ == old(out)@ + senc_u8(b),
{
    out.push(b);
    proof {
        assert(out@ =~= old(out)@ + senc_u8(b));
    }
}

pub fn dec_u8(bytes: &Vec<u8>, pos: usize) -> (r: Result<(u8, usize), CodecError>)
    ensures
        match r {
            Ok((b, j)) => sdec_u8(bytes@, pos as int) == Some((b, j as int)),
            Err(_) => sdec_u8(bytes@, pos as int) is None,
        },
{
    if pos < bytes.len() {
        Ok((bytes[pos], pos + 1))
    } else {
        Err(CodecError)
    }
}

// ---------------------------------------------------------------------------
// byte string, length-prefixed
// ---------------------------------------------------------------------------

pub open spec fn senc_bytes(v: Seq<u8>) -> Seq<u8> {
    senc_u64(v.len() as u64) + v
}

pub open spec fn sdec_bytes(s: Seq<u8>, i: int) -> Option<(Seq<u8>, int)> {
    match sdec_u64(s, i) {
        Some((n, j)) => {
            if j + n <= s.len() {
                Some((s.subrange(j, j + n as int), j + n as int))
            } else {
                None
            }
        },
        None => None,
    }
}

/// Splitting a known concatenation out of a longer sequence.
pub proof fn lemma_split_concat(s: Seq<u8>, i: int, a: Seq<u8>, b: Seq<u8>)
    requires
        0 <= i,
        i + a.len() + b.len() <= s.len(),
        s.subrange(i, i + a.len() + b.len()) == a + b,
    ensures
        s.subrange(i, i + a.len() as int) == a,
        s.subrange(i + a.len() as int, i + a.len() + b.len()) == b,
{
    let ab = s.subrange(i, i + a.len() + b.len());
    assert forall|k: int| 0 <= k < a.len() + b.len() implies s[i + k] == ab[k] by {}
    assert(s.subrange(i, i + a.len() as int) =~= a);
    assert forall|k: int| 0 <= k < b.len() implies #[trigger] b[k] == s.subrange(
        i + a.len() as int,
        i + a.len() + b.len(),
    )[k] by {
        assert(s[i + a.len() + k] == ab[a.len() + k]);
        assert(ab[a.len() + k] == b[k]);
    }
    assert(s.subrange(i + a.len() as int, i + a.len() + b.len()) =~= b);
}

pub proof fn lemma_sdec_bytes_of_enc(s: Seq<u8>, i: int, v: Seq<u8>)
    requires
        0 <= i,
        v.len() <= u64::MAX,
        i + senc_bytes(v).len() <= s.len(),
        s.subrange(i, i + senc_bytes(v).len() as int) == senc_bytes(v),
    ensures
        sdec_bytes(s, i) == Some((v, i + senc_bytes(v).len() as int)),
{
    let n = v.len() as u64;
    lemma_split_concat(s, i, senc_u64(n), v);
    lemma_sdec_u64_of_enc(s, i, n);
    assert(s.subrange(i + 8, i + 8 + n as int) == v);
}

pub fn enc_bytes(out: &mut Vec<u8>, v: &Vec<u8>)
    ensures
        final(out)@ == old(out)@ + senc_bytes(v@),
{
    enc_u64(out, v.len() as u64);
    let ghost mid = out@;
    let mut k: usize = 0;
    while k < v.len()
        invariant
            k <= v.len(),
            out@ == mid + v@.subrange(0, k as int),
        decreases v.len() - k,
    {
        out.push(v[k]);
        proof {
            assert(out@ =~= mid + v@.subrange(0, k + 1));
        }
        k = k + 1;
    }
    proof {
        assert(v@.subrange(0, v@.len() as int) =~= v@);
        assert(out@ =~= old(out)@ + senc_bytes(v@));
    }
}

pub fn dec_bytes(bytes: &Vec<u8>, pos: usize) -> (r: Result<(Vec<u8>, usize), CodecError>)
    ensures
        match r {
            Ok((v, j)) => sdec_bytes(bytes@, pos as int) == Some((v@, j as int)),
            Err(_) => sdec_bytes(bytes@, pos as int) is None,
        },
{
    match dec_u64(bytes, pos) {
        Ok((n, j)) => {
            if n <= (bytes.len() - j) as u64 {
                let count = n as usize;
                let mut v: Vec<u8> = Vec::new();
                let mut k: usize = 0;
                while k < count
                    invariant
                        k <= count,
                        j + count <= bytes.len(),
                        v@ == bytes@.subrange(j as int, j + k as int),
                    decreases count - k,
                {
                    v.push(bytes[j + k]);
                    proof {
                        assert(v@ =~= bytes@.subrange(j as int, j + k + 1));
                    }
                    k = k + 1;
                }
                Ok((v, j + count))
            } else {
                Err(CodecError)
            }
        },
        Err(e) => Err(e),
    }
}

// ---------------------------------------------------------------------------
// optional integers, tag byte 0 (absent) or 1 (present)
// ---------------------------------------------------------------------------

pub open spec fn senc_opt_u64(o: Option<u64>) -> Seq<u8> {
    match o {
        None => seq![0u8],
        Some(x) => seq![1u8] + senc_u64(x),
    }
}

pub open spec fn sdec_opt_u64(s: Seq<u8>, i: int) -> Option<(Option<u64>, int)> {
    match sdec_u8(s, i) {
        Some((tag, j)) => {
            if tag == 0 {
                Some((None, j))
            } else if tag == 1 {
                match sdec_u64(s, j) {
                    Some((x, k)) => Some((Some(x), k)),
                    None => None,
                }
            } else {
                None
            }
        },
        None => None,
    }
}

pub proof fn lemma_sdec_opt_u64_of_enc(s: Seq<u8>, i: int, o: Option<u64>)
    requires
        0 <= i,
        i + senc_opt_u64(o).len() <= s.len(),
        s.subrange(i, i + senc_opt_u64(o).len() as int) == senc_opt_u64(o),
    ensures
        sdec_opt_u64(s, i) == Some((o, i + senc_opt_u64(o).len() as int)),
{
    match o {
        None => {
            assert(s[i] == senc_opt_u64(o)[0]);
        },
        Some(x) => {
            lemma_split_concat(s, i, seq![1u8], senc_u64(x));
            assert(s[i] == seq![1u8][0]);
            lemma_sdec_u64_of_enc(s, i + 1, x);
        },
    }
}

pub fn enc_opt_u64(out: &mut Vec<u8>, o: &Option<u64>)
    ensures
        final(out)@ == old(out)@ + senc_opt_u64(*o),
{
    match o {
        None => {
            enc_u8(out, 0);
        },
        Some(x) => {
            enc_u8(out, 1);
            enc_u64(out, *x);
            proof {
                assert(out@ =~= old(out)@ + senc_opt_u64(*o));
            }
        },
    }
}

pub fn dec_opt_u64(bytes: &Vec<u8>, pos: usize) -> (r: Result<(Option<u64>, usize), CodecError>)
    ensures
        match r {
            Ok((o, j)) => sdec_opt_u64(bytes@, pos as int) == Some((o, j as int)),
            Err(_) => sdec_opt_u64(bytes@, pos as int) is None,
        },
{
    match dec_u8(bytes, pos) {
        Ok((tag, j)) => {
            if tag == 0 {
                Ok((None, j))
            } else if tag == 1 {
                match dec_u64(bytes, j) {
                    Ok((x, k)) => Ok((Some(x), k)),
                    Err(e) => Err(e),
                }
            } else {
                Err(CodecError)
            }
        },
        Err(e) => Err(e),
    }
}

pub open spec fn senc_opt_i64(o: Option<i64>) -> Seq<u8> {
    match o {
        None => seq![0u8],
        Some(x) => seq![1u8] + senc_i64(x),
    }
}

pub open spec fn sdec_opt_i64(s: Seq<u8>, i: int) -> Option<(Option<i64>, int)> {
    match sdec_u8(s, i) {
        Some((tag, j)) => {
            if tag == 0 {
                Some((None, j))
            } else if tag == 1 {
                match sdec_i64(s, j) {
                    Some((x, k)) => Some((Some(x), k)),
                    None => None,
                }
            } else {
                None
            }
        },
        None => None,
    }
}

pub proof fn lemma_sdec_opt_i64_of_enc(s: Seq<u8>, i: int, o: Option<i64>)
    requires
        0 <= i,
        i + senc_opt_i64(o).len() <= s.len(),
        s.subrange(i, i + senc_opt_i64(o).len() as int) == senc_opt_i64(o),
    ensures
        sdec_opt_i64(s, i) == Some((o, i + senc_opt_i64(o).len() as int)),
{
    match o {
        None => {
            assert(s[i] == senc_opt_i64(o)[0]);
        },
        Some(x) => {
            lemma_split_concat(s, i, seq![1u8], senc_i64(x));
            assert(s[i] == seq![1u8][0]);
            lemma_sdec_i64_of_enc(s, i + 1, x);
        },
    }
}

pub fn enc_opt_i64(out: &mut Vec<u8>, o: &Option<i64>)
    ensures
        final(out)@ == old(out)@ + senc_opt_i64(*o),
{
    match o {
        None => {
            enc_u8(out, 0);
        },
        Some(x) => {
            enc_u8(out, 1);
            enc_i64(out, *x);
            proof {
                assert(out@ =~= old(out)@ + senc_opt_i64(*o));
            }
        },
    }
}

pub fn dec_opt_i64(bytes: &Vec<u8>, pos: usize) -> (r: Result<(Option<i64>, usize), CodecError>)
    ensures
        match r {
            Ok((o, j)) => sdec_opt_i64(bytes@, pos as int) == Some((o, j as int)),
            Err(_) => sdec_opt_i64(bytes@, pos as int) is None,
        },
{
    match dec_u8(bytes, pos) {
        Ok((tag, j)) => {
            if tag == 0 {
                Ok((None, j))
            } else if tag == 1 {
                match dec_i64(bytes, j) {
                    Ok((x, k)) => Ok((Some(x), k)),
                    Err(e) => Err(e),
                }
            } else {
                Err(CodecError)
            }
        },
        Err(e) => Err(e),
    }
}

} // verus!

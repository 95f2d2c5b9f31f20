use vstd::prelude::*;

use crate::errors::TuffError;
use crate::util::copy_range;

verus! {

/// The mathematical content of an index chunk: the header fields and the
/// ordered entry list, free of any byte layout.
pub ghost struct ChunkModel {
    pub generation: u8,
    pub wrote_flag: bool,
    pub timestamp: i64,
    pub volume_name: Option<Seq<u8>>,
    pub default_redundancy: u8,
    pub prev_chunk_hash: Option<Seq<u8>>,
    pub entries: Seq<Seq<u8>>,
}

/// A chunk that the byte layout can carry: non-negative timestamp and
/// every variable-length field within its 16-bit length prefix.
pub open spec fn wf_chunk(c: ChunkModel) -> bool {
    &&& c.timestamp >= 0
    &&& (c.volume_name matches Some(v) ==> v.len() <= 0xFFFF)
    &&& (c.prev_chunk_hash matches Some(h) ==> h.len() <= 0xFFFF)
    &&& c.entries.len() <= 0xFFFF
    &&& (forall|i: int| 0 <= i < c.entries.len() ==> (#[trigger] c.entries[i]).len() <= 0xFFFF)
}

/// The header of a decoded index chunk.
#[derive(Debug)]
pub struct IndexChunkHeader {
    pub generation: u8,
    pub wrote_flag: bool,
    pub timestamp: i64,
    pub volume_name: Option<Vec<u8>>,
    pub default_redundancy: u8,
    pub prev_chunk_hash: Option<Vec<u8>>,
}

/// A decoded index chunk: the header and the ordered entries, each an
/// opaque byte record.
#[derive(Debug)]
pub struct IndexChunk {
    pub header: IndexChunkHeader,
    pub entries: Vec<Vec<u8>>,
}

impl View for IndexChunk {
    type V = ChunkModel;

    open spec fn view(&self) -> ChunkModel {
        ChunkModel {
            generation: self.header.generation,
            wrote_flag: self.header.wrote_flag,
            timestamp: self.header.timestamp,
            volume_name: self.header.volume_name.deep_view(),
            default_redundancy: self.header.default_redundancy,
            prev_chunk_hash: self.header.prev_chunk_hash.deep_view(),
            entries: self.entries.deep_view(),
        }
    }
}

// --- little-endian integer layout ---

pub open spec fn spec_u16_le(n: u16) -> Seq<u8> {
    seq![(n & 0xff) as u8, ((n >> 8) & 0xff) as u8]
}

pub open spec fn spec_u16_val(lo: u8, hi: u8) -> nat {
    (lo + 0x100 * hi) as nat
}

pub open spec fn spec_u64_le(n: u64) -> Seq<u8> {
    seq![
        (n & 0xff) as u8,
        ((n >> 8) & 0xff) as u8,
        ((n >> 16) & 0xff) as u8,
        ((n >> 24) & 0xff) as u8,
        ((n >> 32) & 0xff) as u8,
        ((n >> 40) & 0xff) as u8,
        ((n >> 48) & 0xff) as u8,
        ((n >> 56) & 0xff) as u8,
    ]
}

pub open spec fn spec_u64_val(s: Seq<u8>) -> nat
    recommends
        s.len() == 8,
{
    (s[0] + s[1] * 0x100 + s[2] * 0x1_0000 + s[3] * 0x100_0000 + s[4] * 0x1_0000_0000 + s[5]
        * 0x100_0000_0000 + s[6] * 0x1_0000_0000_0000 + s[7] * 0x100_0000_0000_0000) as nat
}

pub proof fn lemma_u16_le_val(n: u16)
    ensures
        spec_u16_val(spec_u16_le(n)[0], spec_u16_le(n)[1]) == n,
{
    assert(n & 0xff < 0x100) by (bit_vector);
    assert((n >> 8) & 0xff < 0x100) by (bit_vector);
    assert((n & 0xff) + 0x100 * ((n >> 8) & 0xff) == n) by (bit_vector);
}

pub proof fn lemma_u64_le_val(n: u64)
    ensures
        spec_u64_val(spec_u64_le(n)) == n,
{
    assert(n & 0xff < 0x100) by (bit_vector);
    assert((n >> 8) & 0xff < 0x100) by (bit_vector);
    assert((n >> 16) & 0xff < 0x100) by (bit_vector);
    assert((n >> 24) & 0xff < 0x100) by (bit_vector);
    assert((n >> 32) & 0xff < 0x100) by (bit_vector);
    assert((n >> 40) & 0xff < 0x100) by (bit_vector);
    assert((n >> 48) & 0xff < 0x100) by (bit_vector);
    assert((n >> 56) & 0xff < 0x100) by (bit_vector);
    assert((n & 0xff) + ((n >> 8) & 0xff) * 0x100 + ((n >> 16) & 0xff) * 0x1_0000 + ((n >> 24)
        & 0xff) * 0x100_0000 + ((n >> 32) & 0xff) * 0x1_0000_0000 + ((n >> 40) & 0xff)
        * 0x100_0000_0000 + ((n >> 48) & 0xff) * 0x1_0000_0000_0000 + ((n >> 56) & 0xff)
        * 0x100_0000_0000_0000 == n) by (bit_vector);
}

// --- byte layout of a chunk ---

/// An optional byte field: a presence byte, then, if present, a 16-bit
/// little-endian length and the bytes themselves.
pub open spec fn spec_enc_opt(o: Option<Seq<u8>>) -> Seq<u8> {
    match o {
        Option::None => seq![0u8],
        Option::Some(b) => seq![1u8] + spec_u16_le(b.len() as u16) + b,
    }
}

/// The entry list: each entry length-prefixed, in order.
pub open spec fn spec_enc_entries(es: Seq<Seq<u8>>) -> Seq<u8>
    decreases es.len(),
{
    if es.len() == 0 {
        Seq::empty()
    } else {
        spec_u16_le(es[0].len() as u16) + es[0] + spec_enc_entries(es.drop_first())
    }
}

/// The serialized form of a chunk: generation, committed flag, 64-bit
/// little-endian timestamp, default redundancy, optional volume name,
/// optional previous-chunk hash, 16-bit entry count, entries.
pub open spec fn spec_encode(c: ChunkModel) -> Seq<u8> {
    seq![
        c.generation,
        if c.wrote_flag {
            1u8
        } else {
            0u8
        },
    ] + spec_u64_le(c.timestamp as u64) + seq![c.default_redundancy] + spec_enc_opt(c.volume_name)
        + spec_enc_opt(c.prev_chunk_hash) + spec_u16_le(c.entries.len() as u16) + spec_enc_entries(
        c.entries,
    )
}

// --- exec encoding ---

fn push_u16_le(out: &mut Vec<u8>, n: u16)
    ensures
        final(out)@ == old(out)@ + spec_u16_le(n),
{
    out.push((n & 0xff) as u8);
    out.push(((n >> 8) & 0xff) as u8);
    proof {
        assert(final(out)@ =~= old(out)@ + spec_u16_le(n));
    }
}

fn push_u64_le(out: &mut Vec<u8>, n: u64)
    ensures
        final(out)@ == old(out)@ + spec_u64_le(n),
{
    out.push((n & 0xff) as u8);
    out.push(((n >> 8) & 0xff) as u8);
    out.push(((n >> 16) & 0xff) as u8);
    out.push(((n >> 24) & 0xff) as u8);
    out.push(((n >> 32) & 0xff) as u8);
    out.push(((n >> 40) & 0xff) as u8);
    out.push(((n >> 48) & 0xff) as u8);
    out.push(((n >> 56) & 0xff) as u8);
    proof {
        assert(final(out)@ =~= old(out)@ + spec_u64_le(n));
    }
}

fn push_bytes(out: &mut Vec<u8>, data: &[u8])
    ensures
        final(out)@ == old(out)@ + data@,
{
    let mut i: usize = 0;
    while i < data.len()
        invariant
            i <= data@.len(),
            out@ == old(out)@ + data@.take(i as int),
        decreases data.len() - i,
    {
        out.push(data[i]);
        i = i + 1;
        proof {
            assert(out@ =~= old(out)@ + data@.take(i as int));
        }
    }
    proof {
        assert(old(out)@ + data@.take(data@.len() as int) =~= old(out)@ + data@);
    }
}

/// The fixed placeholder chunk the boot driver writes when no index
/// chunk exists yet: generation 1, committed, the given timestamp, no
/// previous-chunk hash, no entries.
pub open spec fn placeholder_model(volume_name: Seq<u8>, default_redundancy: u8, timestamp: i64) -> ChunkModel {
    ChunkModel {
        generation: 1,
        wrote_flag: true,
        timestamp,
        volume_name: Option::Some(volume_name),
        default_redundancy,
        prev_chunk_hash: Option::None,
        entries: Seq::empty(),
    }
}

/// What `build_index_chunk_at` returns: the placeholder's encoding, or
/// `InvalidArgument` for an empty or oversized volume name or a zero
/// redundancy, or `ClockSkew` for a timestamp that is zero or beyond the
/// signed 64-bit range.
pub open spec fn spec_build_at(volume_name: Seq<u8>, default_redundancy: u8, timestamp_secs: u64) -> Result<
    Seq<u8>,
    TuffError,
> {
    if volume_name.len() == 0 || volume_name.len() > 0xFFFF {
        Result::Err(TuffError::InvalidArgument)
    } else if default_redundancy == 0 {
        Result::Err(TuffError::InvalidArgument)
    } else if timestamp_secs == 0 || timestamp_secs > i64::MAX as u64 {
        Result::Err(TuffError::ClockSkew)
    } else {
        Result::Ok(spec_encode(placeholder_model(volume_name, default_redundancy, timestamp_secs as i64)))
    }
}

/// Build the minimal placeholder chunk for the given creation time.
pub fn build_index_chunk_at(volume_name: &[u8], default_redundancy: u8, timestamp_secs: u64) -> (r: Result<
    Vec<u8>,
    TuffError,
>)
    ensures
        r matches Ok(b) ==> spec_build_at(volume_name@, default_redundancy, timestamp_secs)
            == Ok::<Seq<u8>, TuffError>(b@),
        r matches Err(e) ==> spec_build_at(volume_name@, default_redundancy, timestamp_secs)
            == Err::<Seq<u8>, TuffError>(e),
{
    if volume_name.len() == 0 || volume_name.len() > 0xFFFF {
        return Result::Err(TuffError::InvalidArgument);
    }
    if default_redundancy == 0 {
        return Result::Err(TuffError::InvalidArgument);
    }
    if timestamp_secs == 0 || timestamp_secs > i64::MAX as u64 {
        return Result::Err(TuffError::ClockSkew);
    }
    let ghost model = placeholder_model(volume_name@, default_redundancy, timestamp_secs as i64);
    let mut out: Vec<u8> = Vec::new();
    out.push(1u8);
    out.push(1u8);
    push_u64_le(&mut out, timestamp_secs);
    out.push(default_redundancy);
    // volume name: present
    out.push(1u8);
    push_u16_le(&mut out, volume_name.len() as u16);
    push_bytes(&mut out, volume_name);
    // previous-chunk hash: absent
    out.push(0u8);
    // entries: none
    push_u16_le(&mut out, 0u16);
    proof {
        assert(spec_enc_entries(Seq::<Seq<u8>>::empty()) =~= Seq::<u8>::empty());
        assert(out@ =~= spec_encode(model));
    }
    Result::Ok(out)
}

/// Build the minimal placeholder chunk stamped with the current time.
/// Rejects an empty or oversized volume name and a zero redundancy with
/// `InvalidArgument` exactly; any other failure is `ClockSkew`, from a
/// clock at or before the epoch or beyond the signed 64-bit range.
pub fn build_minimal_index_chunk(volume_name: &[u8], default_redundancy: u8) -> (r: Result<
    Vec<u8>,
    TuffError,
>)
    ensures
        (volume_name@.len() == 0 || volume_name@.len() > 0xFFFF || default_redundancy == 0)
            <==> r == Err::<Vec<u8>, TuffError>(TuffError::InvalidArgument),
        r matches Err(e) ==> (e == TuffError::InvalidArgument || e == TuffError::ClockSkew),
        r matches Ok(b) ==> exists|ts: u64|
            spec_build_at(volume_name@, default_redundancy, ts) == Ok::<Seq<u8>, TuffError>(b@),
        r matches Ok(b) ==> spec_validate(b@) == Ok::<(), TuffError>(()),
        r matches Ok(b) ==> exists|ts: i64|
            ts > 0 && spec_parse(b@) == Option::Some(
                #[trigger] placeholder_model(volume_name@, default_redundancy, ts),
            ),
{
    let ts = match crate::time::now_unix_seconds() {
        Option::Some(t) => t,
        Option::None => 0,
    };
    let r = build_index_chunk_at(volume_name, default_redundancy, ts);
    proof {
        if r is Ok {
            assert(spec_build_at(volume_name@, default_redundancy, ts) == Ok::<
                Seq<u8>,
                TuffError,
            >(r->Ok_0@));
            lemma_placeholder_validates(volume_name@, default_redundancy, ts);
            lemma_placeholder_round_trip(volume_name@, default_redundancy, ts);
            assert(ts as i64 > 0 && spec_parse(r->Ok_0@) == Option::Some(
                placeholder_model(volume_name@, default_redundancy, ts as i64),
            ));
        }
    }
    r
}

// --- the structural parser ---

/// Parse an optional byte field at the head of `s`: the parsed value and
/// the remaining bytes, or `None` if the head is not a well-formed
/// optional field.
pub open spec fn spec_parse_opt_bytes(s: Seq<u8>) -> Option<(Option<Seq<u8>>, Seq<u8>)> {
    if s.len() < 1 {
        Option::None
    } else if s[0] == 0 {
        Option::Some((Option::None, s.skip(1)))
    } else if s[0] == 1 {
        if s.len() < 3 {
            Option::None
        } else {
            let n = spec_u16_val(s[1], s[2]) as int;
            let body = s.skip(3);
            if body.len() < n {
                Option::None
            } else {
                Option::Some((Option::Some(body.take(n)), body.skip(n)))
            }
        }
    } else {
        Option::None
    }
}

/// Parse `n` length-prefixed entries from the head of `s`.
pub open spec fn spec_parse_entries(s: Seq<u8>, n: nat) -> Option<(Seq<Seq<u8>>, Seq<u8>)>
    decreases n,
{
    if n == 0 {
        Option::Some((Seq::empty(), s))
    } else if s.len() < 2 {
        Option::None
    } else {
        let len = spec_u16_val(s[0], s[1]) as int;
        let body = s.skip(2);
        if body.len() < len {
            Option::None
        } else {
            match spec_parse_entries(body.skip(len), (n - 1) as nat) {
                Option::None => Option::None,
                Option::Some(p) => Option::Some((seq![body.take(len)] + p.0, p.1)),
            }
        }
    }
}

/// The structural decoding of a buffer: `Some(model)` exactly when the
/// buffer is a complete, well-formed serialized chunk, consumed in full.
pub open spec fn spec_parse(s: Seq<u8>) -> Option<ChunkModel> {
    if s.len() < 11 {
        Option::None
    } else {
        let flag = s[1];
        let ts = spec_u64_val(s.subrange(2, 10));
        if flag != 0 && flag != 1 {
            Option::None
        } else if ts > i64::MAX as u64 {
            Option::None
        } else {
            match spec_parse_opt_bytes(s.skip(11)) {
                Option::None => Option::None,
                Option::Some(p1) => match spec_parse_opt_bytes(p1.1) {
                    Option::None => Option::None,
                    Option::Some(p2) => {
                        let r2 = p2.1;
                        if r2.len() < 2 {
                            Option::None
                        } else {
                            match spec_parse_entries(r2.skip(2), spec_u16_val(r2[0], r2[1])) {
                                Option::None => Option::None,
                                Option::Some(p3) => if p3.1.len() != 0 {
                                    Option::None
                                } else {
                                    Option::Some(
                                        ChunkModel {
                                            generation: s[0],
                                            wrote_flag: flag == 1,
                                            timestamp: ts as i64,
                                            volume_name: p1.0,
                                            default_redundancy: s[10],
                                            prev_chunk_hash: p2.0,
                                            entries: p3.0,
                                        },
                                    )
                                },
                            }
                        }
                    },
                },
            }
        }
    }
}

// --- exec decoding ---

fn read_u16(buf: &[u8], pos: usize) -> (r: u16)
    requires
        pos + 2 <= buf@.len(),
    ensures
        r as nat == spec_u16_val(buf@[pos as int], buf@[pos as int + 1]),
{
    let lo = buf[pos] as u16;
    let hi = buf[pos + 1] as u16;
    lo + hi * 0x100
}

fn read_u64(buf: &[u8], pos: usize) -> (r: u64)
    requires
        pos + 8 <= buf@.len(),
    ensures
        r as nat == spec_u64_val(buf@.subrange(pos as int, pos as int + 8)),
{
    let b0 = buf[pos] as u64;
    let b1 = buf[pos + 1] as u64;
    let b2 = buf[pos + 2] as u64;
    let b3 = buf[pos + 3] as u64;
    let b4 = buf[pos + 4] as u64;
    let b5 = buf[pos + 5] as u64;
    let b6 = buf[pos + 6] as u64;
    let b7 = buf[pos + 7] as u64;
    b0 + b1 * 0x100 + b2 * 0x1_0000 + b3 * 0x100_0000 + b4 * 0x1_0000_0000 + b5 * 0x100_0000_0000
        + b6 * 0x1_0000_0000_0000 + b7 * 0x100_0000_0000_0000
}

fn parse_opt_bytes(buf: &[u8], pos: usize) -> (r: Result<(Option<Vec<u8>>, usize), TuffError>)
    requires
        pos <= buf@.len(),
    ensures
        match r {
            Result::Ok(p) => pos < p.1 <= buf@.len() && spec_parse_opt_bytes(buf@.skip(pos as int))
                == Option::Some((p.0.deep_view(), buf@.skip(p.1 as int))),
            Result::Err(e) => e == TuffError::Malformed && spec_parse_opt_bytes(
                buf@.skip(pos as int),
            ) is None,
        },
{
    let ghost s = buf@.skip(pos as int);
    if pos >= buf.len() {
        return Result::Err(TuffError::Malformed);
    }
    let tag = buf[pos];
    assert(s[0] == buf@[pos as int]);
    if tag == 0 {
        proof {
            assert(s.skip(1) =~= buf@.skip(pos as int + 1));
        }
        return Result::Ok((Option::None, pos + 1));
    }
    if tag != 1 {
        return Result::Err(TuffError::Malformed);
    }
    if buf.len() - pos < 3 {
        return Result::Err(TuffError::Malformed);
    }
    let n = read_u16(buf, pos + 1) as usize;
    assert(s[1] == buf@[pos as int + 1] && s[2] == buf@[pos as int + 2]);
    proof {
        assert(s.skip(3) =~= buf@.skip(pos as int + 3));
    }
    if buf.len() - (pos + 3) < n {
        return Result::Err(TuffError::Malformed);
    }
    let body = copy_range(buf, pos + 3, pos + 3 + n);
    proof {
        assert(s.skip(3).take(n as int) =~= buf@.subrange(pos as int + 3, pos as int + 3 + n));
        assert(s.skip(3).skip(n as int) =~= buf@.skip(pos as int + 3 + n));
    }
    Result::Ok((Option::Some(body), pos + 3 + n))
}

/// Decode a serialized index chunk. Succeeds exactly on the buffers that
/// are a complete well-formed encoding; every other buffer is rejected
/// as `Malformed`.
#[verifier::loop_isolation(false)]
pub fn parse_index_chunk(buf: &[u8]) -> (r: Result<IndexChunk, TuffError>)
    ensures
        r matches Ok(c) ==> spec_parse(buf@) == Option::Some(c@),
        r matches Err(e) ==> e == TuffError::Malformed && spec_parse(buf@) is None,
{
    if buf.len() < 11 {
        return Result::Err(TuffError::Malformed);
    }
    let generation = buf[0];
    let flag = buf[1];
    if flag > 1 {
        return Result::Err(TuffError::Malformed);
    }
    let ts_u = read_u64(buf, 2);
    if ts_u > 0x7fff_ffff_ffff_ffff {
        return Result::Err(TuffError::Malformed);
    }
    let red = buf[10];
    let (volume_name, pos1) = match parse_opt_bytes(buf, 11) {
        Result::Ok(p) => p,
        Result::Err(e) => {
            return Result::Err(e);
        },
    };
    let (prev_hash, pos2) = match parse_opt_bytes(buf, pos1) {
        Result::Ok(p) => p,
        Result::Err(e) => {
            return Result::Err(e);
        },
    };
    if buf.len() - pos2 < 2 {
        return Result::Err(TuffError::Malformed);
    }
    let count = read_u16(buf, pos2) as usize;
    assert(buf@.skip(pos2 as int)[0] == buf@[pos2 as int]);
    assert(buf@.skip(pos2 as int)[1] == buf@[pos2 as int + 1]);
    let ghost entries_start = pos2 + 2;
    let mut entries: Vec<Vec<u8>> = Vec::new();
    let mut pos: usize = pos2 + 2;
    let mut i: usize = 0;
    proof {
        assert(buf@.skip(pos2 as int).skip(2) =~= buf@.skip(pos as int));
    }
    while i < count
        invariant
            i <= count,
            entries_start <= pos <= buf@.len(),
            count <= 0xFFFF,
            entries.deep_view().len() == i,
            spec_parse_entries(buf@.skip(entries_start as int), count as nat) == (
            match spec_parse_entries(buf@.skip(pos as int), (count - i) as nat) {
                Option::None => Option::None::<(Seq<Seq<u8>>, Seq<u8>)>,
                Option::Some(p) => Option::Some((entries.deep_view() + p.0, p.1)),
            }),
        decreases count - i,
    {
        let ghost s = buf@.skip(pos as int);
        let ghost n_left = (count - i) as nat;
        if buf.len() - pos < 2 {
            proof {
                assert(spec_parse_entries(s, n_left) is None);
            }
            return Result::Err(TuffError::Malformed);
        }
        let elen = read_u16(buf, pos) as usize;
        assert(s[0] == buf@[pos as int] && s[1] == buf@[pos as int + 1]);
        proof {
            assert(s.skip(2) =~= buf@.skip(pos as int + 2));
        }
        if buf.len() - (pos + 2) < elen {
            proof {
                assert(spec_parse_entries(s, n_left) is None);
            }
            return Result::Err(TuffError::Malformed);
        }
        let e = copy_range(buf, pos + 2, pos + 2 + elen);
        proof {
            assert(s.skip(2).take(elen as int) =~= buf@.subrange(
                pos as int + 2,
                pos as int + 2 + elen,
            ));
            assert(s.skip(2).skip(elen as int) =~= buf@.skip(pos as int + 2 + elen));
        }
        let ghost old_dv = entries.deep_view();
        entries.push(e);
        proof {
            assert(entries.deep_view() =~~= old_dv + seq![e@]);
        }
        pos = pos + 2 + elen;
        i = i + 1;
        proof {
            let next = spec_parse_entries(buf@.skip(pos as int), (count - i) as nat);
            match next {
                Option::None => {
                    assert(spec_parse_entries(s, n_left) is None);
                },
                Option::Some(p) => {
                    assert(spec_parse_entries(s, n_left) == Option::Some(
                        (seq![e@] + p.0, p.1),
                    ));
                    assert(old_dv + (seq![e@] + p.0) =~~= entries.deep_view() + p.0);
                },
            }
        }
    }
    proof {
        assert(spec_parse_entries(buf@.skip(pos as int), 0) == Option::Some(
            (Seq::<Seq<u8>>::empty(), buf@.skip(pos as int)),
        ));
        assert(entries.deep_view() + Seq::<Seq<u8>>::empty() =~~= entries.deep_view());
    }
    if pos != buf.len() {
        proof {
            assert(buf@.skip(pos as int).len() != 0);
        }
        return Result::Err(TuffError::Malformed);
    }
    proof {
        assert(buf@.skip(pos as int).len() == 0);
    }
    let chunk = IndexChunk {
        header: IndexChunkHeader {
            generation,
            wrote_flag: flag == 1,
            timestamp: ts_u as i64,
            volume_name,
            default_redundancy: red,
            prev_chunk_hash: prev_hash,
        },
        entries,
    };
    Result::Ok(chunk)
}

// --- validation ---

/// The header invariants checked on every boot, in the order the
/// validator reports them: generation within `[1, 254]`, committed flag
/// set, strictly positive timestamp, a present and non-empty volume
/// name, non-zero default redundancy.
pub open spec fn spec_validate_model(m: ChunkModel) -> Result<(), TuffError> {
    if m.generation == 0 || m.generation > 254 {
        Result::Err(TuffError::BadGeneration)
    } else if !m.wrote_flag {
        Result::Err(TuffError::Uncommitted)
    } else if m.timestamp <= 0 {
        Result::Err(TuffError::BadTimestamp)
    } else {
        match m.volume_name {
            Option::None => Result::Err(TuffError::MissingVolumeName),
            Option::Some(v) => if v.len() == 0 {
                Result::Err(TuffError::EmptyVolumeName)
            } else if m.default_redundancy == 0 {
                Result::Err(TuffError::BadRedundancy)
            } else {
                Result::Ok(())
            },
        }
    }
}

/// What `validate_index_chunk` decides for a buffer: `Malformed` when it
/// does not decode, otherwise the header invariant check.
pub open spec fn spec_validate(s: Seq<u8>) -> Result<(), TuffError> {
    match spec_parse(s) {
        Option::None => Result::Err(TuffError::Malformed),
        Option::Some(m) => spec_validate_model(m),
    }
}

proof fn lemma_bytes_deep_view(v: Vec<u8>)
    ensures
        v.deep_view() == v@,
{
    assert(v.deep_view() =~= v@);
}

/// Decode a buffer and check every header invariant. The result is
/// `Ok` exactly when the buffer decodes and every invariant holds, and
/// otherwise names the first violated invariant.
pub fn validate_index_chunk(buf: &[u8]) -> (r: Result<(), TuffError>)
    ensures
        r == spec_validate(buf@),
{
    let chunk = match parse_index_chunk(buf) {
        Result::Ok(c) => c,
        Result::Err(e) => {
            return Result::Err(e);
        },
    };
    let h = &chunk.header;
    if h.generation == 0 || h.generation > 254 {
        return Result::Err(TuffError::BadGeneration);
    }
    if !h.wrote_flag {
        return Result::Err(TuffError::Uncommitted);
    }
    if h.timestamp <= 0 {
        return Result::Err(TuffError::BadTimestamp);
    }
    match h.volume_name {
        Option::None => {
            return Result::Err(TuffError::MissingVolumeName);
        },
        Option::Some(ref v) => {
            proof {
                lemma_bytes_deep_view(*v);
            }
            if v.len() == 0 {
                return Result::Err(TuffError::EmptyVolumeName);
            }
        },
    }
    if h.default_redundancy == 0 {
        return Result::Err(TuffError::BadRedundancy);
    }
    Result::Ok(())
}

// --- the codec laws ---

proof fn lemma_parse_opt_enc(o: Option<Seq<u8>>, rest: Seq<u8>)
    requires
        o matches Some(b) ==> b.len() <= 0xFFFF,
    ensures
        spec_parse_opt_bytes(spec_enc_opt(o) + rest) == Option::Some((o, rest)),
{
    match o {
        Option::None => {
            let s = spec_enc_opt(o) + rest;
            assert(s[0] == 0);
            assert(s.skip(1) =~= rest);
        },
        Option::Some(b) => {
            let s = spec_enc_opt(o) + rest;
            let le = spec_u16_le(b.len() as u16);
            assert(s =~= seq![1u8] + le + b + rest);
            assert(s[0] == 1);
            assert(s[1] == le[0]);
            assert(s[2] == le[1]);
            lemma_u16_le_val(b.len() as u16);
            assert(spec_u16_val(s[1], s[2]) == b.len());
            assert(s.skip(3) =~= b + rest);
            assert((b + rest).take(b.len() as int) =~= b);
            assert((b + rest).skip(b.len() as int) =~= rest);
        },
    }
}

proof fn lemma_parse_entries_enc(es: Seq<Seq<u8>>, rest: Seq<u8>)
    requires
        forall|i: int| 0 <= i < es.len() ==> (#[trigger] es[i]).len() <= 0xFFFF,
    ensures
        spec_parse_entries(spec_enc_entries(es) + rest, es.len() as nat) == Option::Some((es, rest)),
    decreases es.len(),
{
    if es.len() == 0 {
        assert(spec_enc_entries(es) + rest =~= rest);
        assert(es =~= Seq::<Seq<u8>>::empty());
    } else {
        let e0 = es[0];
        let s = spec_enc_entries(es) + rest;
        let le = spec_u16_le(e0.len() as u16);
        let tail_enc = spec_enc_entries(es.drop_first());
        assert(s =~= le + (e0 + (tail_enc + rest)));
        assert(s[0] == le[0]);
        assert(s[1] == le[1]);
        lemma_u16_le_val(e0.len() as u16);
        assert(spec_u16_val(s[0], s[1]) == e0.len());
        let body = s.skip(2);
        assert(body =~= e0 + (tail_enc + rest));
        assert(body.take(e0.len() as int) =~= e0);
        assert(body.skip(e0.len() as int) =~= tail_enc + rest);
        lemma_parse_entries_enc(es.drop_first(), rest);
        assert(seq![e0] + es.drop_first() =~~= es);
    }
}

/// Round trip: a well-formed chunk's encoding decodes back to exactly
/// that chunk.
pub proof fn lemma_parse_encode(c: ChunkModel)
    requires
        wf_chunk(c),
    ensures
        spec_parse(spec_encode(c)) == Option::Some(c),
{
    let s = spec_encode(c);
    let flag: u8 = if c.wrote_flag {
        1u8
    } else {
        0u8
    };
    let head = seq![c.generation, flag];
    let tsle = spec_u64_le(c.timestamp as u64);
    let redseq = seq![c.default_redundancy];
    let vn_enc = spec_enc_opt(c.volume_name);
    let ph_enc = spec_enc_opt(c.prev_chunk_hash);
    let cnt = spec_u16_le(c.entries.len() as u16);
    let ent_enc = spec_enc_entries(c.entries);
    assert(s =~= head + tsle + redseq + vn_enc + ph_enc + cnt + ent_enc);
    assert(s.len() >= 11);
    assert(s[0] == c.generation);
    assert(s[1] == flag);
    assert(s.subrange(2, 10) =~= tsle);
    lemma_u64_le_val(c.timestamp as u64);
    assert(spec_u64_val(s.subrange(2, 10)) == c.timestamp as u64);
    assert(c.timestamp as u64 <= i64::MAX as u64);
    assert(s[10] == c.default_redundancy);
    let rest1 = ph_enc + (cnt + ent_enc);
    assert(s.skip(11) =~= vn_enc + rest1);
    lemma_parse_opt_enc(c.volume_name, rest1);
    let rest2 = cnt + ent_enc;
    assert(rest1 =~= ph_enc + rest2);
    lemma_parse_opt_enc(c.prev_chunk_hash, rest2);
    assert(rest2[0] == cnt[0]);
    assert(rest2[1] == cnt[1]);
    lemma_u16_le_val(c.entries.len() as u16);
    assert(spec_u16_val(rest2[0], rest2[1]) == c.entries.len());
    assert(rest2.skip(2) =~= ent_enc + Seq::<u8>::empty());
    lemma_parse_entries_enc(c.entries, Seq::<u8>::empty());
    let parsed = spec_parse(s);
    assert(parsed is Some);
    let m = parsed->0;
    assert(m.generation == c.generation);
    assert(m.wrote_flag == c.wrote_flag);
    assert(m.timestamp == c.timestamp);
    assert(m.volume_name == c.volume_name);
    assert(m.default_redundancy == c.default_redundancy);
    assert(m.prev_chunk_hash == c.prev_chunk_hash);
    assert(m.entries == c.entries);
}

/// Every buffer the placeholder builder produces passes validation.
pub proof fn lemma_placeholder_validates(volume_name: Seq<u8>, default_redundancy: u8, timestamp_secs: u64)
    ensures
        spec_build_at(volume_name, default_redundancy, timestamp_secs) matches Ok(b)
            ==> spec_validate(b) == Ok::<(), TuffError>(()),
{
    if spec_build_at(volume_name, default_redundancy, timestamp_secs) is Ok {
        let m = placeholder_model(volume_name, default_redundancy, timestamp_secs as i64);
        lemma_parse_encode(m);
    }
}

/// Round trip of the placeholder: parsing a built buffer recovers the
/// given volume name and redundancy, generation 1, and a set committed
/// flag.
pub proof fn lemma_placeholder_round_trip(volume_name: Seq<u8>, default_redundancy: u8, timestamp_secs: u64)
    ensures
        spec_build_at(volume_name, default_redundancy, timestamp_secs) matches Ok(b)
            ==> spec_parse(b) == Option::Some(
            placeholder_model(volume_name, default_redundancy, timestamp_secs as i64),
        ),
{
    if spec_build_at(volume_name, default_redundancy, timestamp_secs) is Ok {
        let m = placeholder_model(volume_name, default_redundancy, timestamp_secs as i64);
        lemma_parse_encode(m);
    }
}

} // verus!

//! Incremental duration extraction from the fixed-size prefix of an audio
//! stream.
//!
//! A file begins with a 4-byte marker, a 4-byte block-header word, and a
//! 34-byte stream-info structure; `FLAC_HEADER_LEN` bytes in all. The
//! structure holds the sample rate (20 bits) and the total sample count
//! (36 bits), which give the playback duration by truncating division.
//! The bytes consumed to read them are kept verbatim so the caller's
//! stream can be reconstructed without loss or duplication.
use vstd::prelude::*;

use anni_flac::prelude::Decode;

use crate::error::ProviderError;

verus! {

/// The bytes of the fixed header region: marker, block-header word, and
/// stream-info structure.
pub const FLAC_HEADER_LEN: usize = 42;

/// The length of the stream-info structure alone.
pub const STREAM_INFO_LEN: usize = 34;

/// The decoded subset of the stream-info structure that duration needs.
#[derive(Clone, Copy, Debug, PartialEq, Eq, Structural)]
pub struct StreamInfoBlock {
    /// Sample rate in Hz, from a 20-bit field; 0 is an invalid encoding.
    pub sample_rate: u32,
    /// Total inter-channel samples in the stream, from a 36-bit field;
    /// 0 means the count is unknown.
    pub total_samples: u64,
}

/// The sample rate held in a 34-byte stream-info structure: the 20 bits
/// starting at byte 10, big-endian.
pub open spec fn spec_sample_rate(b: Seq<u8>) -> u32
    recommends
        b.len() >= STREAM_INFO_LEN,
{
    (b[10] * 4096 + b[11] * 16 + b[12] / 16) as u32
}

/// The total sample count held in a 34-byte stream-info structure: the 36
/// bits ending at byte 17, big-endian.
pub open spec fn spec_total_samples(b: Seq<u8>) -> u64
    recommends
        b.len() >= STREAM_INFO_LEN,
{
    ((b[13] % 16) * 0x100000000 + b[14] * 0x1000000 + b[15] * 0x10000 + b[16] * 0x100
        + b[17]) as u64
}

/// Relies on `anni_flac::blocks::BlockStreamInfo::from_reader` (the sync
/// `Decode` impl): on a 34-byte input it always succeeds, reading the two
/// 16-bit block sizes, two 24-bit frame sizes, then an 8-byte region whose
/// first 20 bits are the sample rate and whose last 36 bits are the total
/// sample count, all big-endian, followed by the 16-byte MD5 signature.
#[verifier::external_body]
fn decode_stream_info(block: &[u8]) -> (r: Option<StreamInfoBlock>)
    requires
        block@.len() == STREAM_INFO_LEN,
    ensures
        r is Some,
        r->Some_0.sample_rate == spec_sample_rate(block@),
        r->Some_0.total_samples == spec_total_samples(block@),
{
    match anni_flac::blocks::BlockStreamInfo::from_reader(&mut std::io::Cursor::new(block)) {
        Ok(info) => Some(
            StreamInfoBlock { sample_rate: info.sample_rate, total_samples: info.total_samples },
        ),
        Err(_) => None,
    }
}

impl StreamInfoBlock {
    /// Playback duration in whole seconds: total samples divided by the
    /// sample rate, truncating.
    pub open spec fn spec_duration(self) -> u64
        recommends
            self.sample_rate > 0,
    {
        (self.total_samples as int / self.sample_rate as int) as u64
    }

    pub fn duration_seconds(&self) -> (d: u64)
        requires
            self.sample_rate > 0,
        ensures
            d == self.spec_duration(),
    {
        self.total_samples / (self.sample_rate as u64)
    }
}

/// Decodes the stream-info subset out of the fixed header region. Exactly
/// the inputs long enough to hold the whole region decode; a shorter input
/// is truncated data, reported as `Corrupt` and never coerced to a value.
pub fn parse_flac_header(header: &[u8]) -> (r: Result<StreamInfoBlock, ProviderError>)
    ensures
        header@.len() >= FLAC_HEADER_LEN ==> (r matches Ok(info) && info.sample_rate
            == spec_sample_rate(header@.subrange(8, 42)) && info.total_samples
            == spec_total_samples(header@.subrange(8, 42))),
        header@.len() < FLAC_HEADER_LEN ==> r == Err::<StreamInfoBlock, ProviderError>(
            ProviderError::Corrupt,
        ),
{
    if header.len() < FLAC_HEADER_LEN {
        return Err(ProviderError::Corrupt);
    }
    let block = vstd::slice::slice_subrange(header, 8, FLAC_HEADER_LEN);
    match decode_stream_info(block) {
        Some(info) => Ok(info),
        None => Err(ProviderError::Corrupt),
    }
}

/// The duration the fixed header region encodes. Truncated data and a
/// zero sample rate (an encoding the format calls invalid, under which no
/// duration exists) are reported as `Corrupt`.
pub fn duration_from_header(header: &[u8]) -> (r: Result<u64, ProviderError>)
    ensures
        header@.len() >= FLAC_HEADER_LEN && spec_sample_rate(header@.subrange(8, 42)) > 0
            ==> (r matches Ok(d) && d == (StreamInfoBlock {
            sample_rate: spec_sample_rate(header@.subrange(8, 42)),
            total_samples: spec_total_samples(header@.subrange(8, 42)),
        }).spec_duration()),
        header@.len() < FLAC_HEADER_LEN || spec_sample_rate(header@.subrange(8, 42)) == 0
            ==> r == Err::<u64, ProviderError>(ProviderError::Corrupt),
{
    let info = match parse_flac_header(header) {
        Ok(info) => info,
        Err(e) => {
            return Err(e);
        },
    };
    if info.sample_rate == 0 {
        return Err(ProviderError::Corrupt);
    }
    Ok(info.duration_seconds())
}

/// The buffered first segment of a reconstructed stream: the header bytes
/// already consumed from the original source, re-emitted verbatim and in
/// order before the untouched remainder of the source passes through.
pub struct SplicedPrefix {
    prefix: Vec<u8>,
    pos: usize,
}

impl SplicedPrefix {
    /// The emission position never passes the end of the buffer.
    pub closed spec fn wf(self) -> bool {
        self.pos <= self.prefix@.len()
    }

    /// Every byte this segment was created with.
    pub closed spec fn buffered(self) -> Seq<u8> {
        self.prefix@
    }

    /// The bytes already handed out, in the order they were handed out.
    pub closed spec fn emitted(self) -> Seq<u8> {
        self.prefix@.take(self.pos as int)
    }

    /// The bytes not yet handed out.
    pub closed spec fn pending(self) -> Seq<u8> {
        self.prefix@.skip(self.pos as int)
    }

    /// Buffers `prefix` for re-emission; nothing is emitted yet.
    pub fn new(prefix: Vec<u8>) -> (s: Self)
        ensures
            s.wf(),
            s.buffered() == prefix@,
            s.emitted() == Seq::<u8>::empty(),
            s.pending() == prefix@,
    {
        proof {
            assert(prefix@.take(0) =~= Seq::<u8>::empty());
            assert(prefix@.skip(0) =~= prefix@);
        }
        SplicedPrefix { prefix, pos: 0 }
    }

    /// Whether every buffered byte has been emitted.
    pub fn exhausted(&self) -> (r: bool)
        requires
            self.wf(),
        ensures
            r == (self.pending().len() == 0),
    {
        self.pos == self.prefix.len()
    }

    /// Hands out the next `max` pending bytes (all of them, if fewer are
    /// left), in order, each exactly once.
    pub fn next(&mut self, max: usize) -> (out: Vec<u8>)
        requires
            old(self).wf(),
        ensures
            final(self).wf(),
            final(self).buffered() == old(self).buffered(),
            out@ == old(self).pending().take(
                vstd::math::min(max as int, old(self).pending().len() as int),
            ),
            final(self).emitted() == old(self).emitted() + out@,
            final(self).pending() == old(self).pending().skip(out@.len() as int),
    {
        let remaining = self.prefix.len() - self.pos;
        let n = if max < remaining {
            max
        } else {
            remaining
        };
        let plen = self.prefix.len();
        let mut out: Vec<u8> = Vec::new();
        let mut i: usize = 0;
        while i < n
            invariant
                self == old(self),
                old(self).wf(),
                n == vstd::math::min(max as int, old(self).pending().len() as int),
                0 <= i <= n,
                plen == self.prefix@.len(),
                self.pos + n <= plen,
                out@ == old(self).pending().take(n as int).take(i as int),
            decreases n - i,
        {
            let b = self.prefix[self.pos + i];
            out.push(b);
            proof {
                let p = old(self).pending().take(n as int);
                assert(p.take(i + 1) =~= p.take(i as int).push(b));
            }
            i += 1;
        }
        proof {
            let p = old(self).pending();
            assert(p.take(n as int).take(n as int) =~= p.take(n as int));
        }
        self.pos = self.pos + n;
        proof {
            assert(self.emitted() =~= old(self).emitted() + old(self).pending().take(n as int));
            assert(self.pending() =~= old(self).pending().skip(n as int));
        }
        out
    }
}

/// Lossless reconstruction: whatever a consumer has received so far from
/// the buffered segment, following it with the not-yet-emitted bytes and
/// then the remainder of the original source yields exactly the consumed
/// header bytes followed by that remainder — nothing lost, duplicated or
/// reordered. When the segment is exhausted, what was emitted is the
/// buffered prefix itself.
pub proof fn lemma_splice_reconstruction(s: SplicedPrefix, rest: Seq<u8>)
    requires
        s.wf(),
    ensures
        s.emitted() + s.pending() + rest == s.buffered() + rest,
        s.pending().len() == 0 ==> s.emitted() == s.buffered(),
{
    assert(s.emitted() + s.pending() =~= s.buffered());
    assert(s.emitted() + s.pending() + rest =~= s.buffered() + rest);
    if s.pending().len() == 0 {
        assert(s.emitted() =~= s.buffered());
    }
}

} // verus!

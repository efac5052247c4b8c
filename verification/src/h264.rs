//! H.264 access-unit utilities: locating NAL start codes, extracting the
//! codec-specific data (parameter sets) and accumulating the decoder
//! configuration from the stream.

use vstd::prelude::*;
use crate::depacketizer::{nal_type, start_code};
use crate::sps::{sps_resolution, sps_resolution_spec};

verus! {

/// The NAL type of a sequence parameter set.
pub const NALU_TYPE_SPS: u8 = 7;

/// The NAL type of a picture parameter set.
pub const NALU_TYPE_PPS: u8 = 8;

/// The start-code marker scan: a one byte preceded by a run of at least
/// two zero bytes marks a NAL.  For each marker the scan records where
/// the zero run begins and where the NAL bytes after the one begin.
pub open spec fn marker_scan(data: Seq<u8>, i: int, zeroes: int) -> Seq<(int, int)>
    decreases data.len() - i,
{
    if i >= data.len() {
        Seq::empty()
    } else if data[i] == 0 {
        marker_scan(data, i + 1, zeroes + 1)
    } else if data[i] == 1 {
        (if zeroes >= 2 {
            seq![(i - zeroes, i + 1)]
        } else {
            Seq::empty()
        }) + marker_scan(data, i + 1, 0)
    } else {
        marker_scan(data, i + 1, 0)
    }
}

/// The start positions of the start-code markers of `data`.
pub open spec fn nal_boundaries_spec(data: Seq<u8>) -> Seq<int> {
    marker_scan(data, 0, 0).map_values(|p: (int, int)| p.0)
}

/// Each marker lies inside the data, its NAL bytes begin at least three
/// bytes after the run start, and markers appear in strictly ascending
/// order.
pub proof fn lemma_marker_scan_bounds(data: Seq<u8>, i: int, zeroes: int)
    requires
        0 <= zeroes <= i,
    ensures
        forall|k: int| 0 <= k < marker_scan(data, i, zeroes).len() ==> i - zeroes <= (
        #[trigger] marker_scan(data, i, zeroes)[k]).0 && marker_scan(data, i, zeroes)[k].0 + 3
            <= marker_scan(data, i, zeroes)[k].1 && marker_scan(data, i, zeroes)[k].1 <= data.len(),
        forall|k: int| 0 <= k < marker_scan(data, i, zeroes).len() - 1 ==> (
        #[trigger] marker_scan(data, i, zeroes)[k]).1 <= marker_scan(data, i, zeroes)[k + 1].0,
    decreases data.len() - i,
{
    if i < data.len() {
        let s = marker_scan(data, i, zeroes);
        if data[i] == 0 {
            lemma_marker_scan_bounds(data, i + 1, zeroes + 1);
            assert(s == marker_scan(data, i + 1, zeroes + 1));
        } else if data[i] == 1 {
            lemma_marker_scan_bounds(data, i + 1, 0);
            let rest = marker_scan(data, i + 1, 0);
            if zeroes >= 2 {
                assert(s == seq![(i - zeroes, i + 1)] + rest);
                assert forall|k: int| 0 <= k < s.len() implies i - zeroes <= (#[trigger] s[k]).0
                    && s[k].0 + 3 <= s[k].1 && s[k].1 <= data.len() by {
                    if k > 0 {
                        assert(s[k] == rest[k - 1]);
                    } else {
                        assert(s[0] == (i - zeroes, i + 1));
                    }
                }
                assert forall|k: int| 0 <= k < s.len() - 1 implies (#[trigger] s[k]).1 <= s[k
                    + 1].0 by {
                    if k > 0 {
                        assert(s[k] == rest[k - 1]);
                        assert(s[k + 1] == rest[k]);
                    } else {
                        assert(s[1] == rest[0]);
                    }
                }
            } else {
                assert(s =~= rest);
            }
        } else {
            lemma_marker_scan_bounds(data, i + 1, 0);
            assert(s == marker_scan(data, i + 1, 0));
        }
    }
}

/// Find the start positions of the `[0, 0, 0, 1]` markers (any run of at
/// least two zeroes before the one is accepted, and the run start is
/// recorded).
pub fn nal_boundaries(data: &[u8]) -> (r: Vec<usize>)
    ensures
        r@.map_values(|x: usize| x as int) == nal_boundaries_spec(data@),
{
    let mut out: Vec<usize> = Vec::new();
    let mut i: usize = 0;
    let mut zeroes: usize = 0;
    while i < data.len()
        invariant
            zeroes <= i <= data.len(),
            out@.map_values(|x: usize| x as int) + marker_scan(data@, i as int, zeroes as int)
                .map_values(|p: (int, int)| p.0) == nal_boundaries_spec(data@),
        decreases data.len() - i,
    {
        let b = data[i];
        if b == 0 {
            zeroes += 1;
        } else if b == 1 {
            if zeroes >= 2 {
                out.push(i - zeroes);
                proof {
                    let f = |x: usize| x as int;
                    let g = |p: (int, int)| p.0;
                    assert(out@.map_values(f) =~= out@.drop_last().map_values(f).push(
                        (i - zeroes) as int,
                    ));
                    assert(out@.map_values(f) + marker_scan(data@, i + 1, 0).map_values(g)
                        =~= out@.drop_last().map_values(f) + (seq![
                        ((i - zeroes) as int, i + 1 as int),
                    ] + marker_scan(data@, i + 1, 0)).map_values(g));
                }
            }
            zeroes = 0;
        } else {
            zeroes = 0;
        }
        i += 1;
    }
    proof {
        assert(out@.map_values(|x: usize| x as int) =~= nal_boundaries_spec(data@));
    }
    out
}

/// Split an access unit into its NAL chunks, without the start codes:
/// chunk `k` runs from the bytes after marker `k` to the start of marker
/// `k + 1` (the last one to the end).
pub open spec fn nalu_chunks_spec(data: Seq<u8>) -> Seq<Seq<u8>> {
    let ms = marker_scan(data, 0, 0);
    Seq::new(
        ms.len(),
        |k: int|
            data.subrange(
                ms[k].1,
                if k + 1 < ms.len() {
                    ms[k + 1].0
                } else {
                    data.len() as int
                },
            ),
    )
}

/// Split an access unit into its NAL chunks.
#[verifier::loop_isolation(false)]
#[verifier::rlimit(80)]
pub fn nalu_chunks(data: &[u8]) -> (r: Vec<Vec<u8>>)
    ensures
        r@.map_values(|v: Vec<u8>| v@) == nalu_chunks_spec(data@),
{
    let mut pairs: Vec<(usize, usize)> = Vec::new();
    let mut i: usize = 0;
    let mut zeroes: usize = 0;
    while i < data.len()
        invariant
            zeroes <= i <= data.len(),
            pairs@.map_values(|p: (usize, usize)| (p.0 as int, p.1 as int)) + marker_scan(
                data@,
                i as int,
                zeroes as int,
            ) == marker_scan(data@, 0, 0),
        decreases data.len() - i,
    {
        let b = data[i];
        if b == 0 {
            zeroes += 1;
        } else if b == 1 {
            if zeroes >= 2 {
                pairs.push((i - zeroes, i + 1));
                proof {
                    let f = |p: (usize, usize)| (p.0 as int, p.1 as int);
                    assert(pairs@.map_values(f) =~= pairs@.drop_last().map_values(f).push(
                        ((i - zeroes) as int, (i + 1) as int),
                    ));
                    assert(pairs@.map_values(f) + marker_scan(data@, i + 1, 0)
                        =~= pairs@.drop_last().map_values(f) + (seq![
                        ((i - zeroes) as int, (i + 1) as int),
                    ] + marker_scan(data@, i + 1, 0)));
                }
            }
            zeroes = 0;
        } else {
            zeroes = 0;
        }
        i += 1;
    }
    proof {
        assert(pairs@.map_values(|p: (usize, usize)| (p.0 as int, p.1 as int)) =~= marker_scan(
            data@,
            0,
            0,
        ));
        lemma_marker_scan_bounds(data@, 0, 0);
    }
    let ghost ms = marker_scan(data@, 0, 0);
    let mut chunks: Vec<Vec<u8>> = Vec::new();
    let mut k: usize = 0;
    while k < pairs.len()
        invariant
            k <= pairs@.len(),
            pairs@.map_values(|p: (usize, usize)| (p.0 as int, p.1 as int)) == ms,
            ms == marker_scan(data@, 0, 0),
            forall|j: int| 0 <= j < ms.len() ==> 0 <= (#[trigger] ms[j]).0 && ms[j].0 + 3 <= ms[j].1
                && ms[j].1 <= data@.len(),
            forall|j: int| 0 <= j < ms.len() - 1 ==> (#[trigger] ms[j]).1 <= ms[j + 1].0,
            chunks@.map_values(|v: Vec<u8>| v@) =~= nalu_chunks_spec(data@).take(k as int),
        decreases pairs@.len() - k,
    {
        let start = pairs[k].1;
        let end = if k + 1 < pairs.len() {
            pairs[k + 1].0
        } else {
            data.len()
        };
        proof {
            assert(ms[k as int] == (pairs@[k as int].0 as int, pairs@[k as int].1 as int));
            if k + 1 < pairs@.len() {
                assert(ms[k as int + 1] == (
                    pairs@[k as int + 1].0 as int,
                    pairs@[k as int + 1].1 as int,
                ));
            }
        }
        let mut chunk: Vec<u8> = Vec::new();
        let mut j = start;
        while j < end
            invariant
                start <= j <= end <= data.len(),
                chunk@ == data@.subrange(start as int, j as int),
            decreases end - j,
        {
            chunk.push(data[j]);
            proof {
                assert(chunk@ =~= data@.subrange(start as int, j + 1));
            }
            j += 1;
        }
        chunks.push(chunk);
        proof {
            assert(chunks@.map_values(|v: Vec<u8>| v@) =~= nalu_chunks_spec(data@).take(k + 1));
        }
        k += 1;
    }
    proof {
        assert(chunks@.map_values(|v: Vec<u8>| v@) =~= nalu_chunks_spec(data@));
    }
    chunks
}


/// Copy `data[from..to]` into a fresh vector.
fn copy_range(data: &[u8], from: usize, to: usize) -> (r: Vec<u8>)
    requires
        from <= to <= data.len(),
    ensures
        r@ == data@.subrange(from as int, to as int),
{
    let mut out: Vec<u8> = Vec::new();
    let mut i = from;
    while i < to
        invariant
            from <= i <= to <= data.len(),
            out@ == data@.subrange(from as int, i as int),
        decreases to - i,
    {
        out.push(data[i]);
        proof {
            assert(out@ =~= data@.subrange(from as int, i + 1));
        }
        i += 1;
    }
    proof {
        assert(out@ =~= data@.subrange(from as int, to as int));
    }
    out
}

/// The search for the two parameter sets among the windows between
/// consecutive boundaries: a set of each kind must be found before the
/// windows run out, and a window too short for a NAL header aborts the
/// search.
pub open spec fn find_csd_spec(
    data: Seq<u8>,
    bs: Seq<int>,
    k: int,
    c0: Option<(int, int)>,
    c1: Option<(int, int)>,
) -> Option<((int, int), (int, int))>
    decreases bs.len() - k,
{
    if k + 1 >= bs.len() {
        None
    } else {
        let i = bs[k];
        let j = bs[k + 1];
        if j - i < 5 {
            None
        } else {
            let t = nal_type(data[i + 4]);
            let c0n = if t == NALU_TYPE_SPS {
                Some((i, j))
            } else {
                c0
            };
            let c1n = if t == NALU_TYPE_PPS {
                Some((i, j))
            } else {
                c1
            };
            if c0n is Some && c1n is Some {
                Some((c0n->0, c1n->0))
            } else {
                find_csd_spec(data, bs, k + 1, c0n, c1n)
            }
        }
    }
}

/// Where the codec-specific data of a buffer lies: the first window pair
/// that completes a sequence and a picture parameter set.
pub open spec fn csd_spec(data: Seq<u8>) -> Option<((int, int), (int, int))> {
    find_csd_spec(data, nal_boundaries_spec(data).push(data.len() as int), 0, None, None)
}

/// The codec-specific data of an H.264 stream: the sequence and picture
/// parameter sets, each with its start code.
pub struct H264Csd {
    /// The sequence parameter set window.
    pub csd0: Vec<u8>,
    /// The picture parameter set window.
    pub csd1: Vec<u8>,
}

impl H264Csd {
    /// Create a `H264Csd` from a byte buffer.  This involves finding
    /// where the SPS and PPS are in the buffer.  Returns `None` if they
    /// cannot be found.
    #[verifier::loop_isolation(false)]
    pub fn from_slice(data: &[u8]) -> (r: Option<H264Csd>)
        ensures
            r is Some <==> csd_spec(data@) is Some,
            r matches Some(c) ==> csd_spec(data@) matches Some(p) && c.csd0@ == data@.subrange(
                p.0.0,
                p.0.1,
            ) && c.csd1@ == data@.subrange(p.1.0, p.1.1),
    {
        let mut bs = nal_boundaries(data);
        bs.push(data.len());
        let ghost bs_spec = nal_boundaries_spec(data@).push(data@.len() as int);
        proof {
            assert(bs@.map_values(|x: usize| x as int) =~= bs_spec);
            lemma_marker_scan_bounds(data@, 0, 0);
            assert forall|q: int| 0 <= q < bs_spec.len() implies 0 <= #[trigger] bs_spec[q]
                <= data@.len() by {
                if q < bs_spec.len() - 1 {
                    assert(bs_spec[q] == nal_boundaries_spec(data@)[q]);
                    assert(nal_boundaries_spec(data@)[q] == marker_scan(data@, 0, 0)[q].0);
                }
            }
        }
        let mut k: usize = 0;
        let mut c0: Option<(usize, usize)> = None;
        let mut c1: Option<(usize, usize)> = None;
        loop
            invariant
                k <= bs@.len(),
                c0 matches Some(w) ==> w.0 <= w.1 <= data@.len(),
                c1 matches Some(w) ==> w.0 <= w.1 <= data@.len(),
                find_csd_spec(
                    data@,
                    bs_spec,
                    k as int,
                    match c0 {
                        Some(w) => Some((w.0 as int, w.1 as int)),
                        None => None,
                    },
                    match c1 {
                        Some(w) => Some((w.0 as int, w.1 as int)),
                        None => None,
                    },
                ) == csd_spec(data@),
            decreases bs@.len() - k,
        {
            if k >= bs.len() || k + 1 >= bs.len() {
                return None;
            }
            let i = bs[k];
            let j = bs[k + 1];
            if j < i || j - i < 5 {
                proof {
                    assert(bs_spec[k as int] == i as int);
                    assert(bs_spec[k as int + 1] == j as int);
                }
                return None;
            }
            proof {
                assert(bs_spec[k as int] == i as int);
                assert(bs_spec[k as int + 1] == j as int);
            }
            let t = data[i + 4] & 0x1F;
            if t == NALU_TYPE_SPS {
                c0 = Some((i, j));
            }
            if t == NALU_TYPE_PPS {
                c1 = Some((i, j));
            }
            if c0.is_some() && c1.is_some() {
                let w0 = c0.unwrap();
                let w1 = c1.unwrap();
                return Some(
                    H264Csd {
                        csd0: copy_range(data, w0.0, w0.1),
                        csd1: copy_range(data, w1.0, w1.1),
                    },
                );
            }
            k += 1;
        }
    }
}

/// The video stream kinds the format layer understands.
#[derive(Debug, Clone, Copy, PartialEq, Eq, Structural)]
pub enum VideoType {
    H264,
    Hevc,
}

/// The nul-terminated MIME string of each video kind.
pub open spec fn video_mime(v: VideoType) -> Seq<char> {
    match v {
        VideoType::H264 => "video/avc\0"@,
        VideoType::Hevc => "video/hevc\0"@,
    }
}

impl VideoType {
    /// The MIME type as a nul-terminated string for the C interface.
    pub fn mime_cstr(self) -> (r: &'static str)
        ensures
            r@ == video_mime(self),
    {
        match self {
            VideoType::H264 => "video/avc\0",
            VideoType::Hevc => "video/hevc\0",
        }
    }
}

/// The mathematical state of the stream-configuration accumulator.
pub ghost struct H264DecoderModel {
    /// The sequence parameter set seen, if any.
    pub sps: Option<Seq<u8>>,
    /// The picture parameter set seen, if any.
    pub pps: Option<Seq<u8>>,
    /// The assembled configuration unit, once both sets are known.
    pub codec_config: Option<Seq<u8>>,
    /// The picture size of the stream, decoded from the sequence set.
    pub resolution: Option<(u32, u32)>,
}

/// Assemble the configuration once a sequence set, a picture set and the
/// resolution are all known: both sets, each behind a start code.
pub open spec fn model_build_config(m: H264DecoderModel) -> H264DecoderModel {
    if m.sps is Some && m.pps is Some && m.resolution is Some {
        H264DecoderModel {
            codec_config: Some(start_code() + m.sps->0 + start_code() + m.pps->0),
            ..m
        }
    } else {
        m
    }
}

/// Absorb one NAL chunk: a sequence set that parses contributes the
/// resolution, a picture set is stored, anything else fails.  The flag
/// is whether the chunk was acceptable.
pub open spec fn model_read_chunk(m: H264DecoderModel, c: Seq<u8>) -> (H264DecoderModel, bool) {
    if c.len() == 0 {
        (m, false)
    } else {
        let t = nal_type(c[0]);
        if t == NALU_TYPE_SPS {
            match sps_resolution_spec(c) {
                Some(wh) => (
                    model_build_config(
                        H264DecoderModel { resolution: Some(wh), sps: Some(c), ..m },
                    ),
                    true,
                ),
                None => (m, true),
            }
        } else if t == NALU_TYPE_PPS {
            (model_build_config(H264DecoderModel { pps: Some(c), ..m }), true)
        } else {
            (m, false)
        }
    }
}

/// Absorb the chunks from `k` on, stopping at the first unacceptable
/// one.
pub open spec fn model_read_chunks(m: H264DecoderModel, cs: Seq<Seq<u8>>, k: int) -> (
    H264DecoderModel,
    bool,
)
    decreases cs.len() - k,
{
    if k >= cs.len() {
        (m, true)
    } else {
        let s = model_read_chunk(m, cs[k]);
        if !s.1 {
            (s.0, false)
        } else {
            model_read_chunks(s.0, cs, k + 1)
        }
    }
}

/// Absorb one access unit: its NAL chunks in order.  An empty payload is
/// rejected.
pub open spec fn model_read_payload(m: H264DecoderModel, payload: Seq<u8>) -> (
    H264DecoderModel,
    bool,
) {
    if payload.len() == 0 {
        (m, false)
    } else {
        model_read_chunks(m, nalu_chunks_spec(payload), 0)
    }
}

/// Accumulates the decoder configuration of an H.264 stream from its
/// parameter-set NALs.
pub struct H264Decoder {
    sps: Option<Vec<u8>>,
    pps: Option<Vec<u8>>,
    codec_config: Option<Vec<u8>>,
    resolution: Option<(u32, u32)>,
}

impl View for H264Decoder {
    type V = H264DecoderModel;

    closed spec fn view(&self) -> H264DecoderModel {
        H264DecoderModel {
            sps: match self.sps {
                Some(v) => Some(v@),
                None => None,
            },
            pps: match self.pps {
                Some(v) => Some(v@),
                None => None,
            },
            codec_config: match self.codec_config {
                Some(v) => Some(v@),
                None => None,
            },
            resolution: self.resolution,
        }
    }
}

impl H264Decoder {
    /// A fresh accumulator that has seen nothing.
    pub fn new() -> (r: H264Decoder)
        ensures
            r@.sps is None,
            r@.pps is None,
            r@.codec_config is None,
            r@.resolution is None,
    {
        H264Decoder { sps: None, pps: None, codec_config: None, resolution: None }
    }

    /// Whether enough of the stream has been seen to configure a
    /// decoder.
    pub fn init_done(&self) -> (r: bool)
        ensures
            r == (self@.codec_config is Some && self@.resolution is Some),
    {
        self.codec_config.is_some() && self.resolution.is_some()
    }

    /// The picture size, once known.
    pub fn resolution(&self) -> (r: Option<(u32, u32)>)
        ensures
            r == self@.resolution,
    {
        self.resolution
    }

    /// The assembled configuration unit, once known.
    pub fn codec_config(&self) -> (r: Option<&Vec<u8>>)
        ensures
            r matches Some(v) ==> self@.codec_config == Some(v@),
            r is Some <==> self@.codec_config is Some,
    {
        match &self.codec_config {
            Some(v) => Some(v),
            None => None,
        }
    }

    /// Assemble the configuration unit if all parts are known.
    fn build_codec_config(&mut self)
        ensures
            final(self)@ == model_build_config(old(self)@),
    {
        if self.sps.is_some() && self.pps.is_some() && self.resolution.is_some() {
            let sps = self.sps.as_ref().unwrap();
            let pps = self.pps.as_ref().unwrap();
            let mut codec_config: Vec<u8> = Vec::new();
            codec_config.push(0);
            codec_config.push(0);
            codec_config.push(0);
            codec_config.push(1);
            let mut i: usize = 0;
            while i < sps.len()
                invariant
                    i <= sps@.len(),
                    codec_config@ == start_code() + sps@.subrange(0, i as int),
                decreases sps@.len() - i,
            {
                codec_config.push(sps[i]);
                proof {
                    assert(codec_config@ =~= start_code() + sps@.subrange(0, i + 1));
                }
                i += 1;
            }
            codec_config.push(0);
            codec_config.push(0);
            codec_config.push(0);
            codec_config.push(1);
            proof {
                assert(sps@.subrange(0, sps@.len() as int) =~= sps@);
                assert(codec_config@ =~= start_code() + sps@ + start_code());
            }
            let mut j: usize = 0;
            while j < pps.len()
                invariant
                    j <= pps@.len(),
                    codec_config@ == start_code() + sps@ + start_code() + pps@.subrange(
                        0,
                        j as int,
                    ),
                decreases pps@.len() - j,
            {
                codec_config.push(pps[j]);
                proof {
                    assert(codec_config@ =~= start_code() + sps@ + start_code() + pps@.subrange(
                        0,
                        j + 1,
                    ));
                }
                j += 1;
            }
            proof {
                assert(pps@.subrange(0, pps@.len() as int) =~= pps@);
                assert(codec_config@ =~= start_code() + sps@ + start_code() + pps@);
            }
            self.codec_config = Some(codec_config);
        }
    }

    /// Absorb one access unit.  `Err` reports a chunk that is neither a
    /// sequence nor a picture parameter set; what was absorbed before it
    /// is kept.
    #[verifier::loop_isolation(false)]
    pub fn read_payload(&mut self, payload: &[u8]) -> (r: Result<(), ()>)
        ensures
            final(self)@ == model_read_payload(old(self)@, payload@).0,
            (r is Ok) == model_read_payload(old(self)@, payload@).1,
    {
        if payload.len() == 0 {
            return Err(());
        }
        let chunks = nalu_chunks(payload);
        let ghost cs = nalu_chunks_spec(payload@);
        let ghost m0 = self@;
        let mut k: usize = 0;
        while k < chunks.len()
            invariant
                k <= chunks@.len(),
                chunks@.map_values(|v: Vec<u8>| v@) == cs,
                model_read_chunks(m0, cs, 0) == model_read_chunks(self@, cs, k as int),
            decreases chunks@.len() - k,
        {
            let c = &chunks[k];
            proof {
                assert(cs[k as int] == chunks@.map_values(|v: Vec<u8>| v@)[k as int]);
            }
            if c.len() == 0 {
                return Err(());
            }
            let t = c[0] & 0x1F;
            if t == NALU_TYPE_SPS {
                match sps_resolution(c.as_slice()) {
                    Some(wh) => {
                        self.resolution = Some(wh);
                        self.sps = Some(copy_range(c.as_slice(), 0, c.len()));
                        proof {
                            assert(self.sps matches Some(v) && v@ =~= cs[k as int]);
                        }
                        self.build_codec_config();
                    },
                    None => {},
                }
            } else if t == NALU_TYPE_PPS {
                self.pps = Some(copy_range(c.as_slice(), 0, c.len()));
                proof {
                    assert(self.pps matches Some(v) && v@ =~= cs[k as int]);
                }
                self.build_codec_config();
            } else {
                return Err(());
            }
            k += 1;
        }
        Ok(())
    }
}

} // verus!

//! Resolution extraction from an H.264 sequence parameter set.
//!
//! The stream's picture size is learned by decoding the first parameter
//! set NAL: emulation-prevention bytes are stripped, then the
//! fixed-length and exp-Golomb fields of the parameter set grammar are
//! walked up to the picture size and cropping window.  Parameter sets
//! that carry scaling matrices are not recognized and yield no
//! resolution.

use vstd::prelude::*;

verus! {

/// Strip emulation-prevention bytes: a `3` that follows two zero bytes is
/// removed from the raw byte stream.
pub open spec fn rbsp_scan(data: Seq<u8>, i: int, zeros: int) -> Seq<u8>
    decreases data.len() - i,
{
    if i >= data.len() {
        Seq::empty()
    } else if data[i] == 3 && zeros >= 2 {
        rbsp_scan(data, i + 1, 0)
    } else if data[i] == 0 {
        seq![0u8] + rbsp_scan(data, i + 1, zeros + 1)
    } else {
        seq![data[i]] + rbsp_scan(data, i + 1, 0)
    }
}

/// The raw byte sequence payload of a NAL: its bytes with emulation
/// prevention removed.
pub open spec fn rbsp(data: Seq<u8>) -> Seq<u8> {
    rbsp_scan(data, 0, 0)
}

/// Strip emulation-prevention bytes from a NAL.
pub fn rbsp_exec(data: &[u8]) -> (r: Vec<u8>)
    ensures
        r@ == rbsp(data@),
{
    let mut out: Vec<u8> = Vec::new();
    let mut i: usize = 0;
    let mut zeros: usize = 0;
    while i < data.len()
        invariant
            zeros <= i <= data.len(),
            out@ + rbsp_scan(data@, i as int, zeros as int) == rbsp(data@),
        decreases data.len() - i,
    {
        let b = data[i];
        if b == 3 && zeros >= 2 {
            zeros = 0;
        } else if b == 0 {
            out.push(0);
            proof {
                assert(out@ + rbsp_scan(data@, i + 1, zeros + 1) =~= rbsp(data@));
            }
            zeros = zeros + 1;
        } else {
            out.push(b);
            proof {
                assert(out@ + rbsp_scan(data@, i + 1, 0) =~= rbsp(data@));
            }
            zeros = 0;
        }
        i += 1;
    }
    proof {
        assert(out@ =~= rbsp(data@));
    }
    out
}

/// The bit at position `p` of the byte stream, most significant first.
pub open spec fn bit_at(data: Seq<u8>, p: int) -> u32 {
    ((data[p / 8] as u32) >> ((7 - (p % 8)) as u32)) & 1
}

/// The value of the `n` bits starting at `pos`, most significant first.
pub open spec fn bits_val(data: Seq<u8>, pos: int, n: nat) -> int
    decreases n,
{
    if n == 0 {
        0
    } else {
        bits_val(data, pos, (n - 1) as nat) * 2 + bit_at(data, pos + n - 1)
    }
}

/// A bit value is a bit.
proof fn lemma_bit_at_bounds(data: Seq<u8>, p: int)
    ensures
        bit_at(data, p) == 0 || bit_at(data, p) == 1,
{
    let b = data[p / 8] as u32;
    let sh = (7 - (p % 8)) as u32;
    assert((b >> sh) & 1 == 0 || (b >> sh) & 1 == 1) by (bit_vector);
}

/// Two raised to `n`.
pub open spec fn pow2i(n: nat) -> int
    decreases n,
{
    if n == 0 {
        1
    } else {
        2 * pow2i((n - 1) as nat)
    }
}

/// Powers of two are positive.
proof fn lemma_pow2i_pos(n: nat)
    ensures
        pow2i(n) >= 1,
    decreases n,
{
    if n > 0 {
        lemma_pow2i_pos((n - 1) as nat);
    }
}

/// Two-to-the-`n` grows with `n`.
proof fn lemma_pow2i_mono(a: nat, b: nat)
    requires
        a <= b,
    ensures
        pow2i(a) <= pow2i(b),
    decreases b,
{
    if a < b {
        lemma_pow2i_mono(a, (b - 1) as nat);
        lemma_pow2i_pos(a);
    }
}

/// Two to the sixteenth.
proof fn lemma_pow2i_val16()
    ensures
        pow2i(16) == 0x10000,
{
    reveal_with_fuel(pow2i, 17);
}

/// A field of `n` bits holds a value below two to the `n`.
proof fn lemma_bits_val_bound(data: Seq<u8>, pos: int, n: nat)
    ensures
        0 <= bits_val(data, pos, n) < pow2i(n),
    decreases n,
{
    if n > 0 {
        lemma_bits_val_bound(data, pos, (n - 1) as nat);
        lemma_bit_at_bounds(data, pos + n - 1);
    }
}

/// Read the bit at `p`.
fn read_bit(data: &[u8], p: usize) -> (r: u32)
    requires
        p < data.len() * 8,
    ensures
        r == bit_at(data@, p as int),
        r == 0 || r == 1,
{
    let b = data[p / 8] as u32;
    let sh = (7 - (p % 8)) as u32;
    proof {
        lemma_bit_at_bounds(data@, p as int);
    }
    (b >> sh) & 1
}

/// Read `n` bits starting at `pos`.  Fails when the stream is too short.
fn read_bits(data: &[u8], pos: usize, n: usize) -> (r: Option<(u32, usize)>)
    requires
        n <= 16,
        data.len() <= 0x1000_0000,
    ensures
        r is Some <==> pos + n <= data.len() * 8,
        r matches Some(v) ==> v.0 == bits_val(data@, pos as int, n as nat) && v.1 == pos + n,
{
    if pos > data.len() * 8 || n > data.len() * 8 - pos {
        return None;
    }
    let mut v: u32 = 0;
    let mut i: usize = 0;
    while i < n
        invariant
            i <= n <= 16,
            pos + n <= data.len() * 8,
            data.len() <= 0x1000_0000,
            v == bits_val(data@, pos as int, i as nat),
            v < 0x10000,
        decreases n - i,
    {
        proof {
            lemma_bits_val_bound(data@, pos as int, (i + 1) as nat);
            lemma_pow2i_mono((i + 1) as nat, 16);
            lemma_pow2i_val16();
        }
        let b = read_bit(data, pos + i);
        v = v * 2 + b;
        i += 1;
    }
    Some((v, pos + n))
}

/// How many zero bits stand before the next one bit, if any one bit is
/// left.
pub open spec fn count_zeros(data: Seq<u8>, pos: int) -> Option<int>
    decreases data.len() * 8 - pos,
{
    if pos < 0 || pos >= data.len() * 8 {
        None
    } else if bit_at(data, pos) == 1 {
        Some(0)
    } else {
        match count_zeros(data, pos + 1) {
            Some(k) => Some(k + 1),
            None => None,
        }
    }
}

/// Find the position of the next one bit at or after `pos`.
fn find_one_bit(data: &[u8], pos: usize) -> (r: Option<usize>)
    requires
        data.len() <= 0x1000_0000,
    ensures
        r is Some <==> count_zeros(data@, pos as int) is Some,
        r matches Some(cur) ==> pos <= cur < data.len() * 8 && count_zeros(data@, pos as int)
            == Some((cur - pos) as int),
{
    let mut cur: usize = pos;
    loop
        invariant
            pos <= cur,
            data.len() <= 0x1000_0000,
            count_zeros(data@, pos as int) == (match count_zeros(data@, cur as int) {
                Some(k) => Some(k + (cur - pos)),
                None => None::<int>,
            }),
        ensures
            pos <= cur < data.len() * 8,
            count_zeros(data@, pos as int) == Some((cur - pos) as int),
        decreases data.len() * 8 - cur,
    {
        if cur >= data.len() * 8 {
            return None;
        }
        if read_bit(data, cur) == 1 {
            break;
        }
        cur += 1;
    }
    Some(cur)
}

/// Decoding a small unsigned exp-Golomb field: the count of leading
/// zeros gives the magnitude, the bits after the marker the offset.
/// Fails on a truncated stream and on fields wider than sixteen offset
/// bits, far beyond any guarded picture parameter.
pub open spec fn read_ue_spec(data: Seq<u8>, pos: int) -> Option<(int, int)> {
    match count_zeros(data, pos) {
        None => None,
        Some(lz) => {
            if lz > 16 {
                None
            } else {
                let p1 = pos + lz + 1;
                if p1 + lz <= data.len() * 8 {
                    Some((pow2i(lz as nat) - 1 + bits_val(data, p1, lz as nat), p1 + lz))
                } else {
                    None
                }
            }
        },
    }
}

/// Skipping an unsigned (or signed) exp-Golomb field: only the new
/// position matters.  Fields up to 31 offset bits are accepted.
pub open spec fn skip_ue_spec(data: Seq<u8>, pos: int) -> Option<int> {
    match count_zeros(data, pos) {
        None => None,
        Some(lz) => {
            if lz > 31 {
                None
            } else {
                let p1 = pos + lz + 1;
                if p1 + lz <= data.len() * 8 {
                    Some(p1 + lz)
                } else {
                    None
                }
            }
        },
    }
}

/// Read a small unsigned exp-Golomb field.
fn read_ue(data: &[u8], pos: usize) -> (r: Option<(u32, usize)>)
    requires
        data.len() <= 0x1000_0000,
    ensures
        r is Some <==> read_ue_spec(data@, pos as int) is Some,
        r matches Some(v) ==> read_ue_spec(data@, pos as int) == Some((v.0 as int, v.1 as int)),
{
    let cur = match find_one_bit(data, pos) {
        Some(c) => c,
        None => {
            return None;
        },
    };
    let lz = cur - pos;
    if lz > 16 {
        return None;
    }
    let p1 = cur + 1;
    let b = match read_bits(data, p1, lz) {
        Some(v) => v,
        None => {
            return None;
        },
    };
    proof {
        lemma_bits_val_bound(data@, p1 as int, lz as nat);
        lemma_pow2i_mono(lz as nat, 16);
        lemma_pow2i_val16();
    }
    let base: u32 = pow2_exec(lz);
    Some((base - 1 + b.0, b.1))
}

/// Skip one exp-Golomb field.
fn skip_ue(data: &[u8], pos: usize) -> (r: Option<usize>)
    requires
        data.len() <= 0x1000_0000,
    ensures
        r is Some <==> skip_ue_spec(data@, pos as int) is Some,
        r matches Some(v) ==> skip_ue_spec(data@, pos as int) == Some(v as int),
{
    let cur = match find_one_bit(data, pos) {
        Some(c) => c,
        None => {
            return None;
        },
    };
    let lz = cur - pos;
    if lz > 31 {
        return None;
    }
    let p1 = cur + 1;
    if p1 > data.len() * 8 || lz > data.len() * 8 - p1 {
        return None;
    }
    Some(p1 + lz)
}

/// The profiles whose parameter sets carry the chroma and bit-depth
/// block before the frame fields.
pub open spec fn high_profile(p: int) -> bool {
    ||| p == 100
    ||| p == 110
    ||| p == 122
    ||| p == 244
    ||| p == 44
    ||| p == 83
    ||| p == 86
    ||| p == 118
    ||| p == 128
    ||| p == 138
    ||| p == 139
    ||| p == 134
    ||| p == 135
}

/// The tail of the chroma block: the two bit depths, the transform
/// bypass flag, and the scaling matrix flag, which must be absent.
pub open spec fn chroma_tail_spec(d: Seq<u8>, cat: int, pos: int) -> Option<(int, int)> {
    match skip_ue_spec(d, pos) {
        None => None,
        Some(p1) => match skip_ue_spec(d, p1) {
            None => None,
            Some(p2) => {
                if p2 + 2 <= d.len() * 8 {
                    if bit_at(d, p2 + 1) == 1 {
                        None
                    } else {
                        Some((cat, p2 + 2))
                    }
                } else {
                    None
                }
            },
        },
    }
}

/// The chroma block of high profiles: yields the chroma array type and
/// the position after the block.
pub open spec fn chroma_spec(d: Seq<u8>, pos: int) -> Option<(int, int)> {
    match read_ue_spec(d, pos) {
        None => None,
        Some((chroma, p1)) => {
            if chroma > 3 {
                None
            } else if chroma == 3 {
                if p1 + 1 <= d.len() * 8 {
                    chroma_tail_spec(
                        d,
                        if bit_at(d, p1) == 1 {
                            0int
                        } else {
                            3int
                        },
                        p1 + 1,
                    )
                } else {
                    None
                }
            } else {
                chroma_tail_spec(d, chroma, p1)
            }
        },
    }
}

/// Skip `n` exp-Golomb fields.
pub open spec fn skip_ues_spec(d: Seq<u8>, pos: int, n: int) -> Option<int>
    decreases n,
{
    if n <= 0 {
        Some(pos)
    } else {
        match skip_ue_spec(d, pos) {
            None => None,
            Some(p) => skip_ues_spec(d, p, n - 1),
        }
    }
}

/// The picture-order-count block: its layout depends on the count type.
pub open spec fn poc_spec(d: Seq<u8>, pos: int) -> Option<int> {
    match read_ue_spec(d, pos) {
        None => None,
        Some((t, p1)) => {
            if t == 0 {
                skip_ue_spec(d, p1)
            } else if t == 1 {
                if p1 + 1 <= d.len() * 8 {
                    match skip_ue_spec(d, p1 + 1) {
                        None => None,
                        Some(p2) => match skip_ue_spec(d, p2) {
                            None => None,
                            Some(p3) => match read_ue_spec(d, p3) {
                                None => None,
                                Some((n, p4)) => {
                                    if n > 255 {
                                        None
                                    } else {
                                        skip_ues_spec(d, p4, n)
                                    }
                                },
                            },
                        },
                    }
                } else {
                    None
                }
            } else if t == 2 {
                Some(p1)
            } else {
                None
            }
        },
    }
}

/// The picture size that the frame fields and the cropping window
/// describe, guarded against absurd values.
pub open spec fn compute_resolution_spec(
    cat: int,
    fmof: int,
    wm: int,
    hm: int,
    cl: int,
    cr: int,
    ct: int,
    cb: int,
) -> Option<(u32, u32)> {
    if wm >= 4096 || hm >= 4096 || cl >= 0x4000 || cr >= 0x4000 || ct >= 0x4000 || cb >= 0x4000 {
        None
    } else {
        let cux = if cat == 0 || cat == 3 {
            1int
        } else {
            2int
        };
        let suby = if cat == 1 {
            2int
        } else {
            1int
        };
        let cuy = (if cat == 0 {
            1int
        } else {
            suby
        }) * (2 - fmof);
        let w = (wm + 1) * 16 - cux * (cl + cr);
        let h = (2 - fmof) * (hm + 1) * 16 - cuy * (ct + cb);
        if w <= 0 || h <= 0 {
            None
        } else {
            Some((w as u32, h as u32))
        }
    }
}

/// The resolution a sequence parameter set NAL describes: the parameter
/// set grammar walked up to the picture size and cropping window.
pub open spec fn sps_resolution_spec(nal: Seq<u8>) -> Option<(u32, u32)> {
    if nal.len() > 0x0100_0000 {
        None
    } else {
        let d = rbsp(nal);
        if d.len() < 4 {
            None
        } else {
            let profile = d[1] as int;
            match skip_ue_spec(d, 32) {
                None => None,
                Some(p1) => {
                    match (if high_profile(profile) {
                        chroma_spec(d, p1)
                    } else {
                        Some((1int, p1))
                    }) {
                        None => None,
                        Some((cat, p2)) => match skip_ue_spec(d, p2) {
                            None => None,
                            Some(p3) => match poc_spec(d, p3) {
                                None => None,
                                Some(p4) => match skip_ue_spec(d, p4) {
                                    None => None,
                                    Some(p5) => {
                                        if p5 + 1 > d.len() * 8 {
                                            None
                                        } else {
                                            sps_frame_fields_spec(d, cat, p5 + 1)
                                        }
                                    },
                                },
                            },
                        },
                    }
                },
            }
        }
    }
}

/// The frame fields: picture size in macroblock units, the frame/field
/// flag, and the cropping window.
pub open spec fn sps_frame_fields_spec(d: Seq<u8>, cat: int, pos: int) -> Option<(u32, u32)> {
    match read_ue_spec(d, pos) {
        None => None,
        Some((wm, p7)) => match read_ue_spec(d, p7) {
            None => None,
            Some((hm, p8)) => {
                if p8 + 1 > d.len() * 8 {
                    None
                } else {
                    let fmof = bit_at(d, p8) as int;
                    let p9 = p8 + 1;
                    let p10 = if fmof == 0 {
                        p9 + 1
                    } else {
                        p9
                    };
                    if p10 + 2 > d.len() * 8 {
                        None
                    } else {
                        let crop = bit_at(d, p10 + 1) as int;
                        let p11 = p10 + 2;
                        match (if crop == 1 {
                            sps_crop_spec(d, p11)
                        } else {
                            Some((0int, 0int, 0int, 0int))
                        }) {
                            None => None,
                            Some((cl, cr, ct, cb)) => compute_resolution_spec(
                                cat,
                                fmof,
                                wm,
                                hm,
                                cl,
                                cr,
                                ct,
                                cb,
                            ),
                        }
                    }
                }
            },
        },
    }
}

/// The four cropping offsets.
pub open spec fn sps_crop_spec(d: Seq<u8>, pos: int) -> Option<(int, int, int, int)> {
    match read_ue_spec(d, pos) {
        None => None,
        Some((cl, q1)) => match read_ue_spec(d, q1) {
            None => None,
            Some((cr, q2)) => match read_ue_spec(d, q2) {
                None => None,
                Some((ct, q3)) => match read_ue_spec(d, q3) {
                    None => None,
                    Some((cb, _q4)) => Some((cl, cr, ct, cb)),
                },
            },
        },
    }
}

/// Extract the picture resolution from a sequence parameter set NAL.
pub fn sps_resolution(nal: &[u8]) -> (r: Option<(u32, u32)>)
    ensures
        r == sps_resolution_spec(nal@),
{
    if nal.len() > 0x0100_0000 {
        return None;
    }
    let d_vec = rbsp_exec(nal);
    let d = d_vec.as_slice();
    proof {
        lemma_rbsp_len(nal@, 0, 0);
    }
    if d.len() < 4 {
        return None;
    }
    let profile = d[1];
    let p1 = match skip_ue(d, 32) {
        Some(p) => p,
        None => {
            return None;
        },
    };
    let is_high = profile == 100 || profile == 110 || profile == 122 || profile == 244 || profile
        == 44 || profile == 83 || profile == 86 || profile == 118 || profile == 128 || profile
        == 138 || profile == 139 || profile == 134 || profile == 135;
    let (cat, p2): (u32, usize) = if is_high {
        match chroma_exec(d, p1) {
            Some(v) => v,
            None => {
                return None;
            },
        }
    } else {
        (1, p1)
    };
    let p3 = match skip_ue(d, p2) {
        Some(p) => p,
        None => {
            return None;
        },
    };
    let p4 = match poc_exec(d, p3) {
        Some(p) => p,
        None => {
            return None;
        },
    };
    let p5 = match skip_ue(d, p4) {
        Some(p) => p,
        None => {
            return None;
        },
    };
    if p5 + 1 > d.len() * 8 {
        return None;
    }
    sps_frame_fields_exec(d, cat, p5 + 1)
}

/// The byte stream never grows when emulation prevention is removed.
proof fn lemma_rbsp_len(data: Seq<u8>, i: int, zeros: int)
    requires
        0 <= i <= data.len(),
    ensures
        rbsp_scan(data, i, zeros).len() <= data.len() - i,
    decreases data.len() - i,
{
    if i < data.len() {
        lemma_rbsp_len(data, i + 1, 0);
        lemma_rbsp_len(data, i + 1, zeros + 1);
    }
}

/// Walk the chroma block.
fn chroma_exec(d: &[u8], pos: usize) -> (r: Option<(u32, usize)>)
    requires
        d.len() <= 0x1000_0000,
    ensures
        r is Some <==> chroma_spec(d@, pos as int) is Some,
        r matches Some(v) ==> chroma_spec(d@, pos as int) == Some((v.0 as int, v.1 as int)),
{
    let (chroma, p1) = match read_ue(d, pos) {
        Some(v) => v,
        None => {
            return None;
        },
    };
    if chroma > 3 {
        return None;
    }
    if chroma == 3 {
        if p1 + 1 > d.len() * 8 {
            return None;
        }
        let cat: u32 = if read_bit(d, p1) == 1 {
            0
        } else {
            3
        };
        chroma_tail_exec(d, cat, p1 + 1)
    } else {
        chroma_tail_exec(d, chroma, p1)
    }
}

/// Walk the tail of the chroma block.
fn chroma_tail_exec(d: &[u8], cat: u32, pos: usize) -> (r: Option<(u32, usize)>)
    requires
        d.len() <= 0x1000_0000,
    ensures
        r is Some <==> chroma_tail_spec(d@, cat as int, pos as int) is Some,
        r matches Some(v) ==> chroma_tail_spec(d@, cat as int, pos as int) == Some(
            (v.0 as int, v.1 as int),
        ) && v.0 == cat,
{
    let p1 = match skip_ue(d, pos) {
        Some(p) => p,
        None => {
            return None;
        },
    };
    let p2 = match skip_ue(d, p1) {
        Some(p) => p,
        None => {
            return None;
        },
    };
    if p2 + 2 > d.len() * 8 {
        return None;
    }
    if read_bit(d, p2 + 1) == 1 {
        return None;
    }
    Some((cat, p2 + 2))
}

/// Walk the picture-order-count block.
#[verifier::loop_isolation(false)]
fn poc_exec(d: &[u8], pos: usize) -> (r: Option<usize>)
    requires
        d.len() <= 0x1000_0000,
    ensures
        r is Some <==> poc_spec(d@, pos as int) is Some,
        r matches Some(v) ==> poc_spec(d@, pos as int) == Some(v as int),
{
    let (t, p1) = match read_ue(d, pos) {
        Some(v) => v,
        None => {
            return None;
        },
    };
    if t == 0 {
        skip_ue(d, p1)
    } else if t == 1 {
        if p1 + 1 > d.len() * 8 {
            return None;
        }
        let p2 = match skip_ue(d, p1 + 1) {
            Some(p) => p,
            None => {
                return None;
            },
        };
        let p3 = match skip_ue(d, p2) {
            Some(p) => p,
            None => {
                return None;
            },
        };
        let (n, p4) = match read_ue(d, p3) {
            Some(v) => v,
            None => {
                return None;
            },
        };
        if n > 255 {
            return None;
        }
        let mut pos_cur = p4;
        let mut left: u32 = n;
        while left > 0
            invariant
                skip_ues_spec(d@, p4 as int, n as int) == skip_ues_spec(
                    d@,
                    pos_cur as int,
                    left as int,
                ),
            decreases left,
        {
            pos_cur = match skip_ue(d, pos_cur) {
                Some(p) => p,
                None => {
                    return None;
                },
            };
            left -= 1;
        }
        Some(pos_cur)
    } else if t == 2 {
        Some(p1)
    } else {
        None
    }
}

/// Walk the frame fields and compute the resolution.
#[verifier::rlimit(60)]
fn sps_frame_fields_exec(d: &[u8], cat: u32, pos: usize) -> (r: Option<(u32, u32)>)
    requires
        d.len() <= 0x1000_0000,
    ensures
        r == sps_frame_fields_spec(d@, cat as int, pos as int),
{
    let (wm, p7) = match read_ue(d, pos) {
        Some(v) => v,
        None => {
            return None;
        },
    };
    let (hm, p8) = match read_ue(d, p7) {
        Some(v) => v,
        None => {
            return None;
        },
    };
    if p8 + 1 > d.len() * 8 {
        return None;
    }
    let fmof = read_bit(d, p8);
    let p9 = p8 + 1;
    let p10 = if fmof == 0 {
        p9 + 1
    } else {
        p9
    };
    if p10 + 2 > d.len() * 8 {
        return None;
    }
    let crop = read_bit(d, p10 + 1);
    let p11 = p10 + 2;
    let (cl, cr, ct, cb): (u32, u32, u32, u32) = if crop == 1 {
        let (a, q1) = match read_ue(d, p11) {
            Some(v) => v,
            None => {
                return None;
            },
        };
        let (b, q2) = match read_ue(d, q1) {
            Some(v) => v,
            None => {
                return None;
            },
        };
        let (c, q3) = match read_ue(d, q2) {
            Some(v) => v,
            None => {
                return None;
            },
        };
        let (e, _q4) = match read_ue(d, q3) {
            Some(v) => v,
            None => {
                return None;
            },
        };
        (a, b, c, e)
    } else {
        (0, 0, 0, 0)
    };
    if wm >= 4096 || hm >= 4096 || cl >= 0x4000 || cr >= 0x4000 || ct >= 0x4000 || cb >= 0x4000 {
        return None;
    }
    let cux: i64 = if cat == 0 || cat == 3 {
        1
    } else {
        2
    };
    let suby: i64 = if cat == 1 {
        2
    } else {
        1
    };
    let cuy: i64 = (if cat == 0 {
        1i64
    } else {
        suby
    }) * (2 - fmof as i64);
    let w: i64 = (wm as i64 + 1) * 16 - cux * (cl as i64 + cr as i64);
    let h: i64 = (2 - fmof as i64) * (hm as i64 + 1) * 16 - cuy * (ct as i64 + cb as i64);
    if w <= 0 || h <= 0 {
        return None;
    }
    Some((w as u32, h as u32))
}

/// Two to the `n`, executable, for `n` up to 16.
fn pow2_exec(n: usize) -> (r: u32)
    requires
        n <= 16,
    ensures
        r == pow2i(n as nat),
{
    let mut r: u32 = 1;
    let mut i: usize = 0;
    while i < n
        invariant
            i <= n <= 16,
            r == pow2i(i as nat),
            r <= 0x10000u32,
        decreases n - i,
    {
        proof {
            lemma_pow2i_mono((i + 1) as nat, 16);
            lemma_pow2i_val16();
        }
        r = r * 2;
        i += 1;
    }
    r
}

} // verus!

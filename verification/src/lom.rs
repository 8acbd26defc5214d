//! Linear optical model: the three optical sensitivity matrices.
//!
//! The sensitivities ship as a blob: an LZ4 block with a length prefix,
//! holding three length-prefixed vectors of doubles (tip-tilt 2 x 84,
//! segment tip-tilt 14 x 84, segment piston 7 x 84, column-major). The
//! decompression is done by `lz4_flex`; the binary layout of the
//! decompressed bytes is parsed here: each vector is a length (one byte
//! below 251, or a 251/252/253 marker followed by a little-endian 16-,
//! 32- or 64-bit count) followed by that many 8-byte little-endian
//! doubles, kept as bit patterns.

use vstd::prelude::*;

use crate::channels::{has_virtual_output, name_views, virtual_names};
use crate::matrix::Matrix;

verus! {

/// Failure while loading or assembling the optical sensitivities.
#[derive(Debug)]
pub enum CliError {
    /// The blob could not be read.
    LoadOpticalSensitivities,
    /// The blob is not a valid size-prefixed LZ4 block.
    DecompressOpticalSensitivities,
    /// The decompressed bytes do not hold three length-prefixed vectors.
    DeserOpticalSensitivities,
    /// The three vectors do not have the sizes of the optical model.
    Lom,
}

/// What `lz4_flex::decompress_size_prepended` returns: the decompression
/// of the block `bytes`, or nothing when the block is malformed. The
/// decoder is deterministic, so both the outcome and the value are
/// functions of the bytes alone.
pub uninterp spec fn lz4_unblock(bytes: Seq<u8>) -> Option<Seq<u8>>;

#[verifier::external_type_specification]
#[verifier::external_body]
pub struct ExDecompressError(lz4_flex::block::DecompressError);

/// Relies on `lz4_flex::decompress_size_prepended`: decompresses an LZ4
/// block whose first four bytes give the uncompressed size. The safe
/// decoder is a deterministic function of the input bytes; it succeeds or
/// fails, and returns what bytes it returns, by the bytes alone.
#[verifier::external_body]
fn lz4_decompress(bytes: &[u8]) -> (r: Result<Vec<u8>, lz4_flex::block::DecompressError>)
    ensures
        r is Ok <==> lz4_unblock(bytes@) is Some,
        (r matches Ok(d) ==> Some(d@) == lz4_unblock(bytes@)),
{
    lz4_flex::decompress_size_prepended(bytes)
}

/// The little-endian value of the two bytes of `b` at `pos`.
pub open spec fn le_u16_at(b: Seq<u8>, pos: int) -> u64 {
    (b[pos] as u64) | ((b[pos + 1] as u64) << 8u64)
}

/// The little-endian value of the four bytes of `b` at `pos`.
pub open spec fn le_u32_at(b: Seq<u8>, pos: int) -> u64 {
    (b[pos] as u64) | ((b[pos + 1] as u64) << 8u64) | ((b[pos + 2] as u64) << 16u64) | ((b[pos
        + 3] as u64) << 24u64)
}

/// The little-endian value of the eight bytes of `b` at `pos`.
pub open spec fn le_u64_at(b: Seq<u8>, pos: int) -> u64 {
    (b[pos] as u64) | ((b[pos + 1] as u64) << 8u64) | ((b[pos + 2] as u64) << 16u64) | ((b[pos
        + 3] as u64) << 24u64) | ((b[pos + 4] as u64) << 32u64) | ((b[pos + 5] as u64) << 40u64) | (
    (b[pos + 6] as u64) << 48u64) | ((b[pos + 7] as u64) << 56u64)
}

/// The variable-length count of `b` at `pos`, with the position after it:
/// one byte up to 250, or a marker 251, 252 or 253 followed by a 16-, 32-
/// or 64-bit little-endian value.
pub open spec fn varint_at(b: Seq<u8>, pos: int) -> Option<(u64, int)> {
    if 0 <= pos < b.len() {
        let d = b[pos];
        if d <= 250 {
            Some(((d as u64), pos + 1))
        } else if d == 251 {
            if pos + 3 <= b.len() {
                Some((le_u16_at(b, pos + 1), pos + 3))
            } else {
                None
            }
        } else if d == 252 {
            if pos + 5 <= b.len() {
                Some((le_u32_at(b, pos + 1), pos + 5))
            } else {
                None
            }
        } else if d == 253 {
            if pos + 9 <= b.len() {
                Some((le_u64_at(b, pos + 1), pos + 9))
            } else {
                None
            }
        } else {
            None
        }
    } else {
        None
    }
}

/// A length-prefixed vector of doubles of `b` at `pos`: the bit patterns
/// of its entries and the position after it.
pub open spec fn doubles_at(b: Seq<u8>, pos: int) -> Option<(Seq<u64>, int)> {
    match varint_at(b, pos) {
        Option::None => None,
        Option::Some((n, p)) => {
            if p + 8 * n <= b.len() {
                Some((Seq::new(n as nat, |i: int| le_u64_at(b, p + 8 * i)), p + 8 * n))
            } else {
                None
            }
        },
    }
}

/// The three optical sensitivity vectors of the decompressed blob `b`:
/// tip-tilt, segment tip-tilt and segment piston, in this order. Bytes
/// after the third vector are ignored.
pub open spec fn lom_at(b: Seq<u8>) -> Option<(Seq<u64>, Seq<u64>, Seq<u64>)> {
    match doubles_at(b, 0) {
        Option::None => None,
        Option::Some((tt, p1)) => match doubles_at(b, p1) {
            Option::None => None,
            Option::Some((stt, p2)) => match doubles_at(b, p2) {
                Option::None => None,
                Option::Some((sp, _)) => Some((tt, stt, sp)),
            },
        },
    }
}

/// Reads the little-endian 64-bit value at `pos`.
fn read_le_u64(b: &Vec<u8>, pos: usize) -> (v: u64)
    requires
        pos + 8 <= b@.len(),
    ensures
        v == le_u64_at(b@, pos as int),
{
    let len = b.len();
    proof {
        assert(pos + 8 <= len);
    }
    (b[pos] as u64) | ((b[pos + 1] as u64) << 8u64) | ((b[pos + 2] as u64) << 16u64) | ((b[pos
        + 3] as u64) << 24u64) | ((b[pos + 4] as u64) << 32u64) | ((b[pos + 5] as u64) << 40u64) | (
    (b[pos + 6] as u64) << 48u64) | ((b[pos + 7] as u64) << 56u64)
}

/// Reads the variable-length count at `pos`.
fn parse_varint(b: &Vec<u8>, pos: usize) -> (r: Option<(u64, usize)>)
    ensures
        r is Some <==> varint_at(b@, pos as int) is Some,
        (r matches Some(p) ==> varint_at(b@, pos as int) == Some((p.0, p.1 as int)) && p.1
            <= b@.len()),
{
    let len = b.len();
    if pos >= len {
        return None;
    }
    let d = b[pos];
    if d <= 250 {
        Some((d as u64, pos + 1))
    } else if d == 251 {
        if len - pos >= 3 {
            let v = (b[pos + 1] as u64) | ((b[pos + 2] as u64) << 8u64);
            Some((v, pos + 3))
        } else {
            None
        }
    } else if d == 252 {
        if len - pos >= 5 {
            let v = (b[pos + 1] as u64) | ((b[pos + 2] as u64) << 8u64) | ((b[pos
                + 3] as u64) << 16u64) | ((b[pos + 4] as u64) << 24u64);
            Some((v, pos + 5))
        } else {
            None
        }
    } else if d == 253 {
        if len - pos >= 9 {
            let v = read_le_u64(b, pos + 1);
            Some((v, pos + 9))
        } else {
            None
        }
    } else {
        None
    }
}

/// Reads the length-prefixed vector of doubles at `pos`, as bit patterns.
fn parse_doubles(b: &Vec<u8>, pos: usize) -> (r: Option<(Vec<u64>, usize)>)
    ensures
        r is Some <==> doubles_at(b@, pos as int) is Some,
        (r matches Some(p) ==> doubles_at(b@, pos as int) == Some((p.0@, p.1 as int)) && p.1
            <= b@.len()),
{
    let len = b.len();
    let (n, p) = match parse_varint(b, pos) {
        Some(q) => q,
        None => {
            return None;
        },
    };
    if n > ((len - p) / 8) as u64 {
        proof {
            assert((((len - p) / 8) as u64) < n ==> (p as int) + 8 * (n as int) > len as int) by {
                assert(8 * ((len - p) as int / 8) <= (len - p) as int) by (nonlinear_arith);
                if (p as int) + 8 * (n as int) <= len as int {
                    assert(n as int <= (len - p) as int / 8) by (nonlinear_arith)
                        requires
                            8 * (n as int) <= (len - p) as int,
                    ;
                }
            }
        }
        return None;
    }
    let nn = n as usize;
    proof {
        assert(8 * (nn as int) <= (len - p) as int) by (nonlinear_arith)
            requires
                nn as int <= (len - p) as int / 8,
                0 <= (len - p) as int,
        ;
    }
    let mut out: Vec<u64> = Vec::new();
    let mut i: usize = 0;
    while i < nn
        invariant
            i <= nn,
            p + 8 * nn <= len,
            len == b@.len(),
            out@.len() == i,
            forall|t: int| 0 <= t < i ==> out@[t] == le_u64_at(b@, p + 8 * t),
        decreases nn - i,
    {
        proof {
            assert(p + 8 * (i as int) + 8 <= p + 8 * (nn as int)) by (nonlinear_arith)
                requires
                    i < nn,
            ;
        }
        let v = read_le_u64(b, p + 8 * i);
        out.push(v);
        i += 1;
    }
    proof {
        assert(out@ =~~= Seq::new(n as nat, |t: int| le_u64_at(b@, p + 8 * t)));
    }
    Some((out, p + 8 * nn))
}

/// The three optical sensitivity matrices, flat and column-major:
/// tip-tilt (2 x 84), segment tip-tilt (14 x 84), segment piston
/// (7 x 84); each entry a double bit pattern.
pub struct Lom {
    pub tip_tilt: Vec<u64>,
    pub segment_tip_tilt: Vec<u64>,
    pub segment_piston: Vec<u64>,
}

impl Default for Lom {
    /// Three empty vectors.
    fn default() -> (r: Self)
        ensures
            r.tip_tilt@ == Seq::<u64>::empty(),
            r.segment_tip_tilt@ == Seq::<u64>::empty(),
            r.segment_piston@ == Seq::<u64>::empty(),
    {
        Lom { tip_tilt: Vec::new(), segment_tip_tilt: Vec::new(), segment_piston: Vec::new() }
    }
}

impl Lom {
    /// Parses the decompressed blob into the three sensitivity vectors.
    pub fn from_decompressed(bytes: &Vec<u8>) -> (r: Result<Lom, CliError>)
        ensures
            r is Ok <==> lom_at(bytes@) is Some,
            (r matches Ok(l) ==> lom_at(bytes@) == Some(
                (l.tip_tilt@, l.segment_tip_tilt@, l.segment_piston@),
            )),
            (r matches Err(e) ==> e is DeserOpticalSensitivities),
    {
        let (tt, p1) = match parse_doubles(bytes, 0) {
            Some(q) => q,
            None => {
                return Err(CliError::DeserOpticalSensitivities);
            },
        };
        let (stt, p2) = match parse_doubles(bytes, p1) {
            Some(q) => q,
            None => {
                return Err(CliError::DeserOpticalSensitivities);
            },
        };
        let (sp, _p3) = match parse_doubles(bytes, p2) {
            Some(q) => q,
            None => {
                return Err(CliError::DeserOpticalSensitivities);
            },
        };
        Ok(Lom { tip_tilt: tt, segment_tip_tilt: stt, segment_piston: sp })
    }

    /// Decompresses the blob and parses the three sensitivity vectors:
    /// succeeds exactly when the blob is a well-formed LZ4 block whose
    /// decompression holds three length-prefixed vectors.
    pub fn new(blob: &[u8]) -> (r: Result<Lom, CliError>)
        ensures
            r is Ok <==> (lz4_unblock(blob@) matches Some(b) && lom_at(b) is Some),
            (r matches Ok(l) ==> (lz4_unblock(blob@) matches Some(b) && lom_at(b) == Some(
                (l.tip_tilt@, l.segment_tip_tilt@, l.segment_piston@),
            ))),
            (r matches Err(e) ==> {
                &&& (lz4_unblock(blob@) is None ==> e is DecompressOpticalSensitivities)
                &&& (lz4_unblock(blob@) matches Some(b) ==> e is DeserOpticalSensitivities
                    && lom_at(b) is None)
            }),
    {
        let decompressed = match lz4_decompress(blob) {
            Ok(d) => d,
            Err(_) => {
                return Err(CliError::DecompressOpticalSensitivities);
            },
        };
        Lom::from_decompressed(&decompressed)
    }
}

/// The flat column-major entries `d`, reshaped into `rows` x `cols`.
pub open spec fn reshape_cm(d: Seq<u64>, rows: int, cols: int) -> Seq<Seq<u64>> {
    Seq::new(rows as nat, |r: int| Seq::new(cols as nat, |c: int| d[c * rows + r]))
}

/// Number of optical rows that the output name `nm` contributes.
pub open spec fn sens_rows_of(nm: Seq<char>) -> int {
    if nm == "tip-tilt"@ {
        2
    } else if nm == "segment_tip-tilt"@ {
        14
    } else if nm == "segment_piston"@ {
        7
    } else {
        0
    }
}

/// The sensitivity rows that the output name `nm` contributes, given the
/// three flat column-major sensitivity vectors.
pub open spec fn sens_block(tt: Seq<u64>, stt: Seq<u64>, sp: Seq<u64>, nm: Seq<char>) -> Seq<
    Seq<u64>,
> {
    if nm == "tip-tilt"@ {
        reshape_cm(tt, 2, 84)
    } else if nm == "segment_tip-tilt"@ {
        reshape_cm(stt, 14, 84)
    } else if nm == "segment_piston"@ {
        reshape_cm(sp, 7, 84)
    } else {
        Seq::empty()
    }
}

/// The optical sensitivity matrix: the blocks of the requested virtual
/// outputs, stacked in request order.
pub open spec fn sens_stack(tt: Seq<u64>, stt: Seq<u64>, sp: Seq<u64>, outs: Seq<Seq<char>>) -> Seq<
    Seq<u64>,
>
    decreases outs.len(),
{
    if outs.len() <= 0 {
        Seq::empty()
    } else {
        sens_stack(tt, stt, sp, outs.drop_last()) + sens_block(tt, stt, sp, outs.last())
    }
}

/// Number of rows of the stacked sensitivity matrix.
pub open spec fn sens_total_rows(outs: Seq<Seq<char>>) -> int
    decreases outs.len(),
{
    if outs.len() <= 0 {
        0
    } else {
        sens_total_rows(outs.drop_last()) + sens_rows_of(outs.last())
    }
}

/// The three vectors have the sizes of the optical model.
pub open spec fn lom_sizes_ok(tt: Seq<u64>, stt: Seq<u64>, sp: Seq<u64>) -> bool {
    tt.len() == 168 && stt.len() == 1176 && sp.len() == 588
}

proof fn lemma_sens_total_rows_nonneg(outs: Seq<Seq<char>>)
    ensures
        sens_total_rows(outs) >= 0,
    decreases outs.len(),
{
    if outs.len() > 0 {
        lemma_sens_total_rows_nonneg(outs.drop_last());
    }
}

proof fn lemma_sens_take_succ(tt: Seq<u64>, stt: Seq<u64>, sp: Seq<u64>, outs: Seq<Seq<char>>, k: int)
    requires
        0 <= k < outs.len(),
    ensures
        sens_stack(tt, stt, sp, outs.take(k + 1)) == sens_stack(tt, stt, sp, outs.take(k))
            + sens_block(tt, stt, sp, outs[k]),
        sens_total_rows(outs.take(k + 1)) == sens_total_rows(outs.take(k)) + sens_rows_of(outs[k]),
{
    assert(outs.take(k + 1).drop_last() =~~= outs.take(k));
    assert(outs.take(k + 1).last() == outs[k]);
}

proof fn lemma_sens_rows_take_le(outs: Seq<Seq<char>>, k: int)
    requires
        0 <= k <= outs.len(),
    ensures
        sens_total_rows(outs.take(k)) <= sens_total_rows(outs),
    decreases outs.len() - k,
{
    if k < outs.len() {
        lemma_sens_rows_take_le(outs, k + 1);
        lemma_sens_take_succ(Seq::empty(), Seq::empty(), Seq::empty(), outs, k);
        assert(sens_rows_of(outs[k]) >= 0);
    } else {
        assert(outs.take(k) =~~= outs);
    }
}

/// Loads, concatenates and returns the optical sensitivity matrices: for
/// each requested virtual optical output, in request order, the matching
/// block of the optical model (tip-tilt 2 x 84, segment tip-tilt 14 x 84,
/// segment piston 7 x 84), stacked into one matrix. Without a virtual
/// output the blob is not touched and nothing is returned.
pub fn lom_sensitivies(outputs: &Vec<String>, blob: &[u8]) -> (r: Result<Option<Matrix>, CliError>)
    requires
        84 * sens_total_rows(name_views(outputs@)) <= usize::MAX,
    ensures
        ({
            let ovs = name_views(outputs@);
            &&& (virtual_names(ovs).len() == 0 ==> (r matches Ok(o) && o is None))
            &&& (virtual_names(ovs).len() > 0 ==> {
                &&& (r is Ok <==> (lz4_unblock(blob@) matches Some(b) && lom_at(b) matches Some(v)
                    && lom_sizes_ok(v.0, v.1, v.2)))
                &&& match r {
                    Ok(o) => {
                        &&& o matches Some(m)
                        &&& (o matches Some(m) ==> {
                            &&& m.wf()
                            &&& m.spec_ncols() == 84
                            &&& m.spec_nrows() == sens_total_rows(ovs)
                            &&& (lz4_unblock(blob@) matches Some(b) && lom_at(b) matches Some(v)
                                && m@ == sens_stack(v.0, v.1, v.2, ovs))
                        })
                    },
                    Err(e) => {
                        &&& (lz4_unblock(blob@) is None ==> e is DecompressOpticalSensitivities)
                        &&& (lz4_unblock(blob@) matches Some(b) ==> {
                            &&& (lom_at(b) is None ==> e is DeserOpticalSensitivities)
                            &&& (lom_at(b) matches Some(v) ==> e is Lom && !lom_sizes_ok(
                                v.0,
                                v.1,
                                v.2,
                            ))
                        })
                    },
                }
            })
        }),
{
    let ghost ovs = name_views(outputs@);
    if !has_virtual_output(outputs) {
        return Ok(None);
    }
    let l = match Lom::new(blob) {
        Ok(l) => l,
        Err(e) => {
            return Err(e);
        },
    };
    if l.tip_tilt.len() != 168 || l.segment_tip_tilt.len() != 1176 || l.segment_piston.len()
        != 588 {
        return Err(CliError::Lom);
    }
    let ghost tt = l.tip_tilt@;
    let ghost stt = l.segment_tip_tilt@;
    let ghost sp = l.segment_piston@;
    let n = outputs.len();
    let mut acc = Matrix::zeros(0, 84);
    proof {
        assert(acc@ =~~= sens_stack(tt, stt, sp, ovs.take(0)));
        lemma_sens_total_rows_nonneg(ovs);
    }
    let mut k: usize = 0;
    while k < n
        invariant
            k <= n,
            n == outputs@.len(),
            ovs == name_views(outputs@),
            tt.len() == 168,
            stt.len() == 1176,
            sp.len() == 588,
            tt == l.tip_tilt@,
            stt == l.segment_tip_tilt@,
            sp == l.segment_piston@,
            84 * sens_total_rows(ovs) <= usize::MAX,
            acc.wf(),
            acc.spec_ncols() == 84,
            acc.spec_nrows() == sens_total_rows(ovs.take(k as int)),
            acc@ == sens_stack(tt, stt, sp, ovs.take(k as int)),
        decreases n - k,
    {
        let name = &outputs[k];
        proof {
            lemma_sens_take_succ(tt, stt, sp, ovs, k as int);
            lemma_sens_rows_take_le(ovs, k + 1);
            lemma_sens_total_rows_nonneg(ovs.take(k as int));
            assert(ovs[k as int] == name@);
            assert(sens_total_rows(ovs.take(k + 1)) <= sens_total_rows(ovs));
            assert(sens_total_rows(ovs.take(k + 1)) <= 84 * sens_total_rows(ovs))
                by (nonlinear_arith)
                requires
                    sens_total_rows(ovs.take(k + 1)) <= sens_total_rows(ovs),
                    sens_total_rows(ovs) >= 0,
            ;
        }
        let block = if *name == "tip-tilt".to_owned() {
            Some(Matrix::from_column_major(2, 84, &l.tip_tilt))
        } else if *name == "segment_tip-tilt".to_owned() {
            Some(Matrix::from_column_major(14, 84, &l.segment_tip_tilt))
        } else if *name == "segment_piston".to_owned() {
            Some(Matrix::from_column_major(7, 84, &l.segment_piston))
        } else {
            None
        };
        match block {
            Some(bm) => {
                proof {
                    assert(bm@ =~~= sens_block(tt, stt, sp, name@));
                    assert((acc.spec_nrows() + bm.spec_nrows()) * 84 <= usize::MAX)
                        by (nonlinear_arith)
                        requires
                            acc.spec_nrows() + bm.spec_nrows() == sens_total_rows(
                                ovs.take(k + 1),
                            ),
                            84 * sens_total_rows(ovs.take(k + 1)) >= 0,
                            sens_total_rows(ovs.take(k + 1)) <= sens_total_rows(ovs),
                            84 * sens_total_rows(ovs) <= usize::MAX,
                            sens_total_rows(ovs) >= 0,
                    ;
                }
                acc = acc.vstack(&bm);
            },
            None => {
                proof {
                    assert(sens_block(tt, stt, sp, name@) =~~= Seq::empty());
                    assert(acc@ =~~= sens_stack(tt, stt, sp, ovs.take(k + 1)));
                }
            },
        }
        k += 1;
    }
    proof {
        assert(ovs.take(n as int) =~~= ovs);
    }
    Ok(Some(acc))
}

} // verus!

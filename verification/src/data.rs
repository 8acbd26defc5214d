//! Frequency response data products.
//!
//! A sweep yields one data point per frequency: the magnitude and the
//! phase matrix of the response (computed from the complex response at
//! export time, outside this crate). The points are kept in request
//! order. The export container adds the model metadata and decides the
//! output format from the file name's extension.

use vstd::prelude::*;

use vstd::string::StringSliceAdditionalSpecFns;

use crate::matrix::Matrix;
use crate::structural::StructuralModel;

verus! {

/// Failure while exporting the transfer function data.
#[derive(Debug)]
pub enum TransferFunctionDataError {
    /// The data file extension is neither `mat` nor `pkl`; holds the
    /// offending file name.
    DataFileExtension(String),
    /// The data file name has no extension.
    MissingFileExtension,
    /// The data file could not be created.
    CreateDataFile,
    /// Pickle serialisation failed.
    SerPkl,
    /// The Matlab file could not be written.
    Matlab,
}

/// The serialisation a file name selects.
#[derive(Clone, Copy, Debug, PartialEq, Eq, Structural)]
pub enum FileFormat {
    /// Python pickle (`.pkl`).
    Pickle,
    /// Matlab (`.mat`).
    Matlab,
}

/// Position right after the last path separator of `b`.
pub open spec fn basename_start(b: Seq<u8>) -> int
    decreases b.len(),
{
    if b.len() <= 0 {
        0
    } else if b.last() == 47u8 {
        b.len() as int
    } else {
        basename_start(b.drop_last())
    }
}

/// Position of the last dot of `b`, or -1.
pub open spec fn last_dot(b: Seq<u8>) -> int
    decreases b.len(),
{
    if b.len() <= 0 {
        -1
    } else if b.last() == 46u8 {
        b.len() - 1
    } else {
        last_dot(b.drop_last())
    }
}

/// The extension of the file name `b` (bytes): what follows the last dot,
/// provided that dot lies inside the base name and not at its start.
pub open spec fn extension_of(b: Seq<u8>) -> Option<Seq<u8>> {
    if last_dot(b) > basename_start(b) {
        Some(b.subrange(last_dot(b) + 1, b.len() as int))
    } else {
        None
    }
}

/// The bytes of `pkl`.
pub open spec fn pkl_bytes() -> Seq<u8> {
    seq![112u8, 107u8, 108u8]
}

/// The bytes of `mat`.
pub open spec fn mat_bytes() -> Seq<u8> {
    seq![109u8, 97u8, 116u8]
}

proof fn lemma_basename_start(b: Seq<u8>)
    ensures
        0 <= basename_start(b) <= b.len(),
        forall|i: int| basename_start(b) <= i < b.len() ==> b[i] != 47u8,
        basename_start(b) > 0 ==> b[basename_start(b) - 1] == 47u8,
    decreases b.len(),
{
    if b.len() > 0 {
        let dl = b.drop_last();
        lemma_basename_start(dl);
        assert(forall|i: int| 0 <= i < b.len() - 1 ==> b[i] == dl[i]);
    }
}

proof fn lemma_last_dot(b: Seq<u8>)
    ensures
        -1 <= last_dot(b) < b.len(),
        last_dot(b) >= 0 ==> b[last_dot(b)] == 46u8,
        forall|i: int| last_dot(b) < i < b.len() ==> b[i] != 46u8,
    decreases b.len(),
{
    if b.len() > 0 {
        let dl = b.drop_last();
        lemma_last_dot(dl);
        assert(forall|i: int| 0 <= i < b.len() - 1 ==> b[i] == dl[i]);
    }
}

/// Decides the output format from the file name: `pkl` selects pickle,
/// `mat` selects Matlab, any other extension or a missing one is refused.
pub fn output_format(filename: &str) -> (r: Result<FileFormat, TransferFunctionDataError>)
    ensures
        ({
            let ext = extension_of(filename.spec_bytes());
            &&& (ext is None ==> (r matches Err(e) && e is MissingFileExtension))
            &&& (ext matches Some(x) ==> {
                &&& (x == pkl_bytes() ==> (r matches Ok(f) && f == FileFormat::Pickle))
                &&& (x == mat_bytes() ==> (r matches Ok(f) && f == FileFormat::Matlab))
                &&& (x != pkl_bytes() && x != mat_bytes() ==> (r matches Err(e)
                    && e matches TransferFunctionDataError::DataFileExtension(s) && s@
                    == filename@))
            })
        }),
        r is Ok <==> (extension_of(filename.spec_bytes()) == Some(pkl_bytes())
            || extension_of(filename.spec_bytes()) == Some(mat_bytes())),
{
    let b = filename.as_bytes();
    let len = b.len();
    let ghost bs = filename.spec_bytes();
    proof {
        lemma_basename_start(bs);
        lemma_last_dot(bs);
    }
    // last path separator
    let mut start: usize = len;
    while start > 0 && b[start - 1] != 47u8
        invariant
            start <= len,
            len == bs.len(),
            b@ == bs,
            forall|i: int| start <= i < len ==> bs[i] != 47u8,
        decreases start,
    {
        start -= 1;
    }
    proof {
        let sb = basename_start(bs);
        if start < sb {
            assert(bs[sb - 1] == 47u8);
        }
        if sb < start {
            assert(bs[start - 1] != 47u8);
        }
        assert(start == sb);
    }
    // last dot
    let mut dot: usize = len;
    while dot > 0 && b[dot - 1] != 46u8
        invariant
            dot <= len,
            len == bs.len(),
            b@ == bs,
            forall|i: int| dot <= i < len ==> bs[i] != 46u8,
        decreases dot,
    {
        dot -= 1;
    }
    // here `dot - 1` is the last dot, or `dot == 0` and there is none
    proof {
        let ld = last_dot(bs);
        if dot == 0 {
            assert(ld == -1);
        } else {
            assert(bs[dot - 1] == 46u8);
            if ld < dot - 1 {
                assert(false);
            }
            if dot - 1 < ld {
                assert(bs[ld] == 46u8);
                assert(false);
            }
            assert(ld == dot - 1);
        }
    }
    if dot == 0 || dot - 1 <= start {
        return Err(TransferFunctionDataError::MissingFileExtension);
    }
    let ghost ext = extension_of(bs).unwrap();
    proof {
        assert(ext =~~= bs.subrange(dot as int, len as int));
    }
    if len - dot == 3 && b[dot] == 112u8 && b[dot + 1] == 107u8 && b[dot + 2] == 108u8 {
        proof {
            assert(ext =~~= pkl_bytes());
        }
        Ok(FileFormat::Pickle)
    } else if len - dot == 3 && b[dot] == 109u8 && b[dot + 1] == 97u8 && b[dot + 2] == 116u8 {
        proof {
            assert(ext =~~= mat_bytes());
        }
        Ok(FileFormat::Matlab)
    } else {
        proof {
            if ext == pkl_bytes() {
                assert(bs[dot as int] == 112u8 && bs[dot + 1] == 107u8 && bs[dot + 2] == 108u8
                    && ext.len() == 3);
            }
            if ext == mat_bytes() {
                assert(bs[dot as int] == 109u8 && bs[dot + 1] == 97u8 && bs[dot + 2] == 116u8
                    && ext.len() == 3);
            }
        }
        Err(TransferFunctionDataError::DataFileExtension(filename.to_owned()))
    }
}

/// Frequency response magnitude and phase matrices at one frequency (Hz,
/// bit pattern).
pub struct FrequencyResponseData {
    pub frequency: u64,
    pub magnitude: Matrix,
    pub phase: Matrix,
}

impl FrequencyResponseData {
    /// Magnitude and phase share one shape.
    pub open spec fn wf(self) -> bool {
        &&& self.magnitude.wf()
        &&& self.phase.wf()
        &&& self.magnitude.spec_nrows() == self.phase.spec_nrows()
        &&& self.magnitude.spec_ncols() == self.phase.spec_ncols()
    }

    /// One data point from a frequency and the polar decomposition of the
    /// response matrix at it.
    pub fn new(frequency: u64, magnitude: Matrix, phase: Matrix) -> (r: Self)
        requires
            magnitude.wf(),
            phase.wf(),
            magnitude.spec_nrows() == phase.spec_nrows(),
            magnitude.spec_ncols() == phase.spec_ncols(),
        ensures
            r.wf(),
            r.frequency == frequency,
            r.magnitude == magnitude,
            r.phase == phase,
    {
        FrequencyResponseData { frequency, magnitude, phase }
    }
}

/// The data points of a sweep, in request order.
pub struct FrequencyResponseVec {
    pub data: Vec<FrequencyResponseData>,
}

impl Default for FrequencyResponseVec {
    /// No data points.
    fn default() -> (r: Self)
        ensures
            r.data@.len() == 0,
    {
        FrequencyResponseVec { data: Vec::new() }
    }
}

impl FrequencyResponseVec {
    /// Every point is well formed.
    pub open spec fn wf(self) -> bool {
        forall|k: int| 0 <= k < self.data@.len() ==> (#[trigger] self.data@[k]).wf()
    }

    /// Wraps the data points, in the given order.
    pub fn new(frequency_response_datas: Vec<FrequencyResponseData>) -> (r: Self)
        ensures
            r.data == frequency_response_datas,
    {
        FrequencyResponseVec { data: frequency_response_datas }
    }

    /// Number of data points.
    pub fn len(&self) -> (n: usize)
        ensures
            n == self.data@.len(),
    {
        self.data.len()
    }

    /// The k-th frequency of the result is the k-th swept frequency.
    pub fn frequencies(&self) -> (r: Vec<u64>)
        ensures
            r@.len() == self.data@.len(),
            forall|k: int| 0 <= k < r@.len() ==> r@[k] == self.data@[k].frequency,
    {
        let n = self.data.len();
        let mut r: Vec<u64> = Vec::new();
        let mut k: usize = 0;
        while k < n
            invariant
                k <= n,
                n == self.data@.len(),
                r@.len() == k,
                forall|t: int| 0 <= t < k ==> r@[t] == self.data@[t].frequency,
            decreases n - k,
        {
            let v = self.data[k].frequency;
            r.push(v);
            k += 1;
        }
        r
    }
}

/// GMT FEM transfer function data export: the swept response with the
/// model metadata the output file carries.
pub struct TransferFunctionData {
    /// Base name of the FEM repository.
    pub fem: String,
    /// Input channel names.
    pub inputs: Vec<String>,
    /// Output channel names.
    pub outputs: Vec<String>,
    /// Modal damping coefficient (bit pattern).
    pub modal_damping_coefficient: u64,
    /// Lowest and highest model eigenfrequency in Hz (bit patterns).
    pub fem_eigen_frequency_range: (u64, u64),
    /// The swept frequency response.
    pub frequency_response: FrequencyResponseVec,
}

impl TransferFunctionData {
    /// The export container for a run over the named channels, before the
    /// response and the model data are attached.
    pub fn new(
        fem: String,
        inputs: Vec<String>,
        outputs: Vec<String>,
        modal_damping_coefficient: u64,
    ) -> (r: Self)
        ensures
            r.fem == fem,
            r.inputs == inputs,
            r.outputs == outputs,
            r.modal_damping_coefficient == modal_damping_coefficient,
            r.fem_eigen_frequency_range == (0u64, 0u64),
            r.frequency_response.data@.len() == 0,
    {
        TransferFunctionData {
            fem,
            inputs,
            outputs,
            modal_damping_coefficient,
            fem_eigen_frequency_range: (0, 0),
            frequency_response: FrequencyResponseVec { data: Vec::new() },
        }
    }

    /// Attaches the swept frequency response.
    pub fn add_response(self, frequency_response: FrequencyResponseVec) -> (r: Self)
        ensures
            (r == TransferFunctionData { frequency_response, ..self }),
    {
        TransferFunctionData { frequency_response, ..self }
    }

    /// Records the eigenfrequency range of the structural model: its
    /// lowest and highest retained eigenfrequency, in Hz.
    pub fn add_structural(self, structural: &StructuralModel) -> (r: Self)
        requires
            structural.wf(),
        ensures
            r.fem_eigen_frequency_range.0 == structural.w@[0],
            r.fem_eigen_frequency_range.1 == structural.w@[structural.w@.len() - 1],
            r.fem == self.fem,
            r.inputs == self.inputs,
            r.outputs == self.outputs,
            r.modal_damping_coefficient == self.modal_damping_coefficient,
            r.frequency_response == self.frequency_response,
    {
        let n = structural.w.len();
        let lo = structural.w[0];
        let hi = structural.w[n - 1];
        TransferFunctionData { fem_eigen_frequency_range: (lo, hi), ..self }
    }
}

} // verus!

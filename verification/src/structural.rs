//! FEM structural dynamic model and its builder.
//!
//! The builder consumes the raw FEM data (full input-to-mode and
//! mode-to-output matrices, eigenfrequencies, optional reduced static
//! gain), gates the channels by name, prunes the modes to an optional
//! eigenfrequency window, and assembles the immutable model that the
//! frequency-response evaluation reads.

use vstd::prelude::*;

use crate::channels::{contains_name, has_name, name_views};
use crate::matrix::{cols_selected, index_range, rows_selected, CMatrix, Matrix};

verus! {

/// Failure while building the structural model.
#[derive(Debug)]
pub enum StructuralError {
    /// A requested channel name is not among the FEM inputs or outputs;
    /// holds the offending name.
    IOMismatch(String),
    /// No eigenfrequency lies in the requested window; holds the bounds
    /// (bit patterns of the Hz values).
    EmptyEigenFrequencyWindow { min: Option<u64>, max: Option<u64> },
    /// An attached optical sensitivity or static-gain correction does not
    /// fit the gated matrices.
    ShapeMismatch,
    /// No input or no output channels were requested.
    NoChannels,
}

/// One named FEM input or output: a group of `size` consecutive scalar
/// channels.
pub struct IoGroup {
    pub name: String,
    pub size: usize,
}

/// Total number of scalar channels of `groups`.
pub open spec fn group_total(groups: Seq<IoGroup>) -> int
    decreases groups.len(),
{
    if groups.len() <= 0 {
        0
    } else {
        group_total(groups.drop_last()) + groups.last().size
    }
}

/// First scalar channel of group `g`.
pub open spec fn group_start(groups: Seq<IoGroup>, g: int) -> int {
    group_total(groups.take(g))
}

/// Whether some group of `groups` is named `nm`.
pub open spec fn name_in_groups(groups: Seq<IoGroup>, nm: Seq<char>) -> bool {
    exists|g: int| 0 <= g < groups.len() && groups[g].name@ == nm
}

/// The scalar channels engaged when the groups named in `names` are
/// switched on, in increasing order.
pub open spec fn enabled_cols(groups: Seq<IoGroup>, names: Seq<Seq<char>>) -> Seq<int>
    decreases groups.len(),
{
    if groups.len() <= 0 {
        Seq::empty()
    } else {
        let pre = enabled_cols(groups.drop_last(), names);
        if has_name(names, groups.last().name@) {
            pre + index_range(group_total(groups.drop_last()), groups.last().size as int)
        } else {
            pre
        }
    }
}

pub proof fn lemma_group_total_nonneg(groups: Seq<IoGroup>)
    ensures
        group_total(groups) >= 0,
    decreases groups.len(),
{
    if groups.len() > 0 {
        lemma_group_total_nonneg(groups.drop_last());
    }
}

proof fn lemma_group_total_take_succ(groups: Seq<IoGroup>, g: int)
    requires
        0 <= g < groups.len(),
    ensures
        group_total(groups.take(g + 1)) == group_total(groups.take(g)) + groups[g].size,
    decreases groups.len(),
{
    assert(groups.take(g + 1).drop_last() =~~= groups.take(g));
    assert(groups.take(g + 1).last() == groups[g]);
}

proof fn lemma_group_total_take_all(groups: Seq<IoGroup>)
    ensures
        group_total(groups.take(groups.len() as int)) == group_total(groups),
{
    assert(groups.take(groups.len() as int) =~~= groups);
}

proof fn lemma_enabled_cols_take_succ(groups: Seq<IoGroup>, names: Seq<Seq<char>>, g: int)
    requires
        0 <= g < groups.len(),
    ensures
        enabled_cols(groups.take(g + 1), names) == if has_name(names, groups[g].name@) {
            enabled_cols(groups.take(g), names) + index_range(
                group_start(groups, g),
                groups[g].size as int,
            )
        } else {
            enabled_cols(groups.take(g), names)
        },
{
    assert(groups.take(g + 1).drop_last() =~~= groups.take(g));
    assert(groups.take(g + 1).last() == groups[g]);
}

proof fn lemma_enabled_cols_take_all(groups: Seq<IoGroup>, names: Seq<Seq<char>>)
    ensures
        enabled_cols(groups.take(groups.len() as int), names) == enabled_cols(groups, names),
{
    assert(groups.take(groups.len() as int) =~~= groups);
}

/// Every engaged channel index lies below the channel total, and the
/// engaged indices are strictly increasing.
pub proof fn lemma_enabled_cols_bounds(groups: Seq<IoGroup>, names: Seq<Seq<char>>)
    ensures
        forall|k: int|
            0 <= k < enabled_cols(groups, names).len() ==> 0 <= #[trigger] enabled_cols(
                groups,
                names,
            )[k] < group_total(groups),
        forall|k1: int, k2: int|
            0 <= k1 < k2 < enabled_cols(groups, names).len() ==> enabled_cols(groups, names)[k1]
                < enabled_cols(groups, names)[k2],
    decreases groups.len(),
{
    if groups.len() > 0 {
        let dl = groups.drop_last();
        lemma_enabled_cols_bounds(dl, names);
        lemma_group_total_nonneg(dl);
        let pre = enabled_cols(dl, names);
        if has_name(names, groups.last().name@) {
            let rng = index_range(group_total(dl), groups.last().size as int);
            assert(forall|k: int|
                0 <= k < rng.len() ==> group_total(dl) <= #[trigger] rng[k] < group_total(groups));
        }
    }
}

/// Whether some group of `groups` carries the name `name`.
fn group_named(groups: &Vec<IoGroup>, name: &String) -> (b: bool)
    ensures
        b == name_in_groups(groups@, name@),
{
    let n = groups.len();
    let mut g: usize = 0;
    while g < n
        invariant
            g <= n,
            n == groups@.len(),
            forall|t: int| 0 <= t < g ==> groups@[t].name@ != name@,
        decreases n - g,
    {
        if groups[g].name == *name {
            return true;
        }
        g += 1;
    }
    false
}

/// Switches on the groups named in `names` and returns the engaged scalar
/// channels, in increasing order. Fails with the offending name when a
/// requested name is not among the groups.
pub fn enabled_columns(groups: &Vec<IoGroup>, names: &Vec<String>) -> (r: Result<
    Vec<usize>,
    StructuralError,
>)
    requires
        group_total(groups@) <= usize::MAX,
    ensures
        match r {
            Ok(idx) => {
                &&& idx@.map_values(|i: usize| i as int) == enabled_cols(
                    groups@,
                    names@.map_values(|s: String| s@),
                )
                &&& forall|k: int|
                    0 <= k < names@.len() ==> name_in_groups(groups@, #[trigger] names@[k]@)
            },
            Err(e) => {
                &&& e matches StructuralError::IOMismatch(nm)
                &&& exists|k: int|
                    0 <= k < names@.len() && names@[k]@ == nm@ && !name_in_groups(groups@, nm@)
            },
        },
        r is Err <==> exists|k: int|
            0 <= k < names@.len() && !name_in_groups(groups@, #[trigger] names@[k]@),
{
    let ghost nviews = names@.map_values(|s: String| s@);
    // every requested name must be in the registry
    let n_names = names.len();
    let mut k: usize = 0;
    while k < n_names
        invariant
            k <= n_names,
            n_names == names@.len(),
            forall|t: int| 0 <= t < k ==> name_in_groups(groups@, #[trigger] names@[t]@),
        decreases n_names - k,
    {
        let name = &names[k];
        if !group_named(groups, name) {
            return Err(StructuralError::IOMismatch(name.clone()));
        }
        k += 1;
    }
    // gather the engaged channels, group by group
    let n_groups = groups.len();
    let mut idx: Vec<usize> = Vec::new();
    let mut off: usize = 0;
    let mut g: usize = 0;
    while g < n_groups
        invariant
            g <= n_groups,
            n_groups == groups@.len(),
            nviews == names@.map_values(|s: String| s@),
            group_total(groups@) <= usize::MAX,
            off == group_start(groups@, g as int),
            idx@.map_values(|i: usize| i as int) == enabled_cols(groups@.take(g as int), nviews),
        decreases n_groups - g,
    {
        let size = groups[g].size;
        proof {
            lemma_group_total_take_succ(groups@, g as int);
            lemma_group_rest_bound(groups@, g as int);
            lemma_enabled_cols_take_succ(groups@, nviews, g as int);
        }
        if contains_name(names, &groups[g].name) {
            let mut j: usize = 0;
            let ghost pre = idx@.map_values(|i: usize| i as int);
            while j < size
                invariant
                    j <= size,
                    off + size <= usize::MAX,
                    idx@.map_values(|i: usize| i as int) == pre + index_range(off as int, j as int),
                decreases size - j,
            {
                let ghost prev = idx@;
                idx.push(off + j);
                proof {
                    assert(idx@ == prev.push((off + j) as usize));
                    assert(idx@.map_values(|i: usize| i as int) =~~= prev.map_values(
                        |i: usize| i as int,
                    ).push((off + j) as int));
                    assert(idx@.map_values(|i: usize| i as int) =~~= pre + index_range(
                        off as int,
                        j + 1,
                    ));
                }
                j += 1;
            }
        }
        off = off + size;
        g += 1;
    }
    proof {
        lemma_enabled_cols_take_all(groups@, nviews);
        assert(forall|t: int| 0 <= t < names@.len() ==> nviews[t] == #[trigger] names@[t]@);
    }
    Ok(idx)
}

/// The channels of the groups from `g` on fit between `group_start(g)`
/// and the total.
proof fn lemma_group_rest_bound(groups: Seq<IoGroup>, g: int)
    requires
        0 <= g < groups.len(),
    ensures
        group_start(groups, g) + groups[g].size <= group_total(groups),
        group_start(groups, g) >= 0,
    decreases groups.len(),
{
    lemma_group_total_nonneg(groups.take(g));
    lemma_group_total_take_succ(groups, g);
    if g == groups.len() - 1 {
        lemma_group_total_take_all(groups);
    } else {
        lemma_group_rest_bound(groups.drop_last(), g);
        assert(groups.drop_last().take(g) =~~= groups.take(g));
        assert(groups.drop_last().take(g + 1) =~~= groups.take(g + 1));
        lemma_group_total_nonneg(groups.drop_last().take(g + 1));
        assert(group_total(groups) == group_total(groups.drop_last()) + groups.last().size);
    }
}


/// Bit pattern of the default modal damping coefficient, `1/50`.
pub const DEFAULT_DAMPING_BITS: u64 = 0x3F947AE147AE147B;

/// Bit pattern of the largest finite double-precision number.
pub const MAX_FINITE_BITS: u64 = 0x7FEFFFFFFFFFFFFF;

/// `w` is strictly increasing.
pub open spec fn strictly_increasing(w: Seq<u64>) -> bool {
    forall|i: int, j: int| 0 <= i < j < w.len() ==> w[i] < w[j]
}

/// Every entry of `w` is the bit pattern of a positive finite double, so
/// that the order of the patterns is the order of the numbers.
pub open spec fn wf_frequencies(w: Seq<u64>) -> bool {
    &&& strictly_increasing(w)
    &&& forall|i: int| 0 <= i < w.len() ==> 0 < #[trigger] w[i] <= MAX_FINITE_BITS
}

/// `v` is at least the lower bound, when there is one.
pub open spec fn above_min(v: u64, min: Option<u64>) -> bool {
    match min {
        Option::Some(m) => m <= v,
        Option::None => true,
    }
}

/// `v` is at most the upper bound, when there is one.
pub open spec fn below_max(v: u64, max: Option<u64>) -> bool {
    match max {
        Option::Some(m) => v <= m,
        Option::None => true,
    }
}

/// `v` lies in the eigenfrequency window.
pub open spec fn in_window(v: u64, min: Option<u64>, max: Option<u64>) -> bool {
    above_min(v, min) && below_max(v, max)
}

/// Number of entries of `w` below `m`.
pub open spec fn count_below(w: Seq<u64>, m: u64) -> int
    decreases w.len(),
{
    if w.len() <= 0 {
        0
    } else {
        count_below(w.drop_last(), m) + if w.last() < m {
            1int
        } else {
            0int
        }
    }
}

/// Number of entries of `w` at most `m`.
pub open spec fn count_at_most(w: Seq<u64>, m: u64) -> int
    decreases w.len(),
{
    if w.len() <= 0 {
        0
    } else {
        count_at_most(w.drop_last(), m) + if w.last() <= m {
            1int
        } else {
            0int
        }
    }
}

/// First retained mode of the window.
pub open spec fn window_start(w: Seq<u64>, min: Option<u64>) -> int {
    match min {
        Option::Some(m) => count_below(w, m),
        Option::None => 0,
    }
}

/// One past the last retained mode of the window.
pub open spec fn window_end(w: Seq<u64>, max: Option<u64>) -> int {
    match max {
        Option::Some(m) => count_at_most(w, m),
        Option::None => w.len() as int,
    }
}

proof fn lemma_count_below_prefix(w: Seq<u64>, m: u64)
    requires
        strictly_increasing(w),
    ensures
        0 <= count_below(w, m) <= w.len(),
        forall|i: int| 0 <= i < count_below(w, m) ==> w[i] < m,
        forall|i: int| count_below(w, m) <= i < w.len() ==> w[i] >= m,
    decreases w.len(),
{
    if w.len() > 0 {
        let dl = w.drop_last();
        assert(strictly_increasing(dl));
        assert(forall|i: int| 0 <= i < w.len() - 1 ==> w[i] == dl[i]);
        lemma_count_below_prefix(dl, m);
        let c = count_below(dl, m);
        if w.last() < m {
            // the last entry is the largest, so every entry is below m
            assert forall|i: int| 0 <= i < w.len() - 1 implies w[i] < m by {
                assert(w[i] < w[w.len() - 1]);
            }
            if c < w.len() - 1 {
                assert(dl[c] >= m);
                assert(dl[c] == w[c]);
                assert(false);
            }
        }
    }
}

proof fn lemma_count_at_most_prefix(w: Seq<u64>, m: u64)
    requires
        strictly_increasing(w),
    ensures
        0 <= count_at_most(w, m) <= w.len(),
        forall|i: int| 0 <= i < count_at_most(w, m) ==> w[i] <= m,
        forall|i: int| count_at_most(w, m) <= i < w.len() ==> w[i] > m,
    decreases w.len(),
{
    if w.len() > 0 {
        let dl = w.drop_last();
        assert(strictly_increasing(dl));
        assert(forall|i: int| 0 <= i < w.len() - 1 ==> w[i] == dl[i]);
        lemma_count_at_most_prefix(dl, m);
        let c = count_at_most(dl, m);
        if w.last() <= m {
            assert forall|i: int| 0 <= i < w.len() - 1 implies w[i] <= m by {
                assert(w[i] < w[w.len() - 1]);
            }
            if c < w.len() - 1 {
                assert(dl[c] > m);
                assert(dl[c] == w[c]);
                assert(false);
            }
        }
    }
}

/// Window monotonicity: for any window over a strictly increasing
/// eigenfrequency sequence, the retained modes form the contiguous slice
/// `[window_start, window_end)`; every retained eigenfrequency lies in the
/// window, every earlier one is below the lower bound, every later one is
/// above the upper bound, and the window is nonempty exactly when some
/// eigenfrequency lies in it.
pub proof fn lemma_window_monotonicity(w: Seq<u64>, min: Option<u64>, max: Option<u64>)
    requires
        strictly_increasing(w),
    ensures
        0 <= window_start(w, min) <= w.len(),
        0 <= window_end(w, max) <= w.len(),
        forall|i: int|
            window_start(w, min) <= i < window_end(w, max) ==> in_window(#[trigger] w[i], min, max),
        forall|i: int| 0 <= i < window_start(w, min) ==> !above_min(#[trigger] w[i], min),
        forall|i: int| window_end(w, max) <= i < w.len() ==> !below_max(#[trigger] w[i], max),
        (window_start(w, min) < window_end(w, max)) <==> exists|i: int|
            0 <= i < w.len() && in_window(#[trigger] w[i], min, max),
{
    let s = window_start(w, min);
    let e = window_end(w, max);
    match min {
        Option::Some(m) => lemma_count_below_prefix(w, m),
        Option::None => {},
    }
    match max {
        Option::Some(m) => lemma_count_at_most_prefix(w, m),
        Option::None => {},
    }
    if s < e {
        assert(in_window(w[s], min, max));
    }
    if exists|i: int| 0 <= i < w.len() && in_window(#[trigger] w[i], min, max) {
        let i = choose|i: int| 0 <= i < w.len() && in_window(#[trigger] w[i], min, max);
        assert(s <= i);
        assert(i < e);
    }
}

/// Computes the eigenfrequency window `[s, s + n)`: the contiguous range
/// of modes whose eigenfrequencies lie between the optional bounds. Fails
/// when no mode is left.
pub fn eigen_window(w: &Vec<u64>, min: Option<u64>, max: Option<u64>) -> (r: Result<
    (usize, usize),
    StructuralError,
>)
    requires
        strictly_increasing(w@),
    ensures
        match r {
            Ok(p) => {
                &&& p.0 == window_start(w@, min)
                &&& p.0 + p.1 == window_end(w@, max)
                &&& p.1 >= 1
            },
            Err(e) => (e matches StructuralError::EmptyEigenFrequencyWindow {
                min: bmin,
                max: bmax,
            } && bmin == min && bmax == max),
        },
        r is Err <==> window_end(w@, max) <= window_start(w@, min),
{
    proof {
        lemma_window_monotonicity(w@, min, max);
    }
    let len = w.len();
    let mut s: usize = 0;
    if let Some(m) = min {
        while s < len && w[s] < m
            invariant
                s <= len,
                len == w@.len(),
                forall|i: int| 0 <= i < s ==> w@[i] < m,
            decreases len - s,
        {
            s += 1;
        }
        proof {
            lemma_count_below_prefix(w@, m);
            let c = count_below(w@, m);
            if s < c {
                assert(w@[s as int] < m);
                assert(false);
            }
            if c < s {
                assert(w@[c] < m);
                assert(false);
            }
        }
    }
    let mut e: usize = len;
    if let Some(m) = max {
        while e > 0 && w[e - 1] > m
            invariant
                e <= len,
                len == w@.len(),
                forall|i: int| e <= i < len ==> w@[i] > m,
            decreases e,
        {
            e -= 1;
        }
        proof {
            lemma_count_at_most_prefix(w@, m);
            let c = count_at_most(w@, m);
            if e < c {
                assert(w@[e as int] <= m);
                assert(false);
            }
            if c < e {
                assert(w@[e - 1] > m);
                assert(false);
            }
        }
    }
    if s < e {
        Ok((s, e - s))
    } else {
        Err(StructuralError::EmptyEigenFrequencyWindow { min, max })
    }
}

/// The `n` entries of `w` starting at `s`.
pub fn vec_slice(w: &Vec<u64>, s: usize, n: usize) -> (r: Vec<u64>)
    requires
        s + n <= w@.len(),
    ensures
        r@ == w@.subrange(s as int, s + n),
{
    let total = w.len();
    let mut r: Vec<u64> = Vec::new();
    let mut i: usize = 0;
    while i < n
        invariant
            i <= n,
            s + n <= total,
            total == w@.len(),
            r@ == w@.subrange(s as int, s + i),
        decreases n - i,
    {
        let v = w[s + i];
        r.push(v);
        proof {
            assert(r@ =~~= w@.subrange(s as int, s + i + 1));
        }
        i += 1;
    }
    r
}


/// Optional correction of the mismatch between the static solution gain
/// and the DC gain of the modal model: a complex gain offset, applied with
/// an optional delay (seconds, bit pattern).
pub struct StaticGainCompensation {
    pub delay: Option<u64>,
    pub delta_gain: CMatrix,
}

impl Default for StaticGainCompensation {
    /// No delay, and a one-by-one zero gain offset.
    fn default() -> (r: Self)
        ensures
            r.delay is None,
            r.delta_gain.wf(),
            r.delta_gain.spec_nrows() == 1,
            r.delta_gain.spec_ncols() == 1,
    {
        StaticGainCompensation { delay: None, delta_gain: CMatrix::zeros(1, 1) }
    }
}

/// The raw FEM data the builder consumes: the named input and output
/// channel groups, the full modal matrices, the eigenfrequencies and the
/// optional reduced static gain.
pub struct RawFem {
    /// Input channel groups, in FEM order.
    pub inputs: Vec<IoGroup>,
    /// Output channel groups, in FEM order.
    pub outputs: Vec<IoGroup>,
    /// Modal forces matrix, modes x input channels.
    pub inputs2modes: Matrix,
    /// Modal displacements matrix, output channels x modes.
    pub modes2outputs: Matrix,
    /// Eigenfrequencies in Hz (bit patterns), strictly increasing.
    pub eigen_frequencies: Vec<u64>,
    /// Reduced static gain, output channels x input channels.
    pub static_gain: Option<Matrix>,
}

impl RawFem {
    /// Matrices, channel groups and eigenfrequencies agree in shape.
    pub open spec fn wf(self) -> bool {
        &&& self.inputs2modes.wf()
        &&& self.modes2outputs.wf()
        &&& self.inputs2modes.spec_nrows() == self.eigen_frequencies@.len()
        &&& self.modes2outputs.spec_ncols() == self.eigen_frequencies@.len()
        &&& self.inputs2modes.spec_ncols() == group_total(self.inputs@)
        &&& self.modes2outputs.spec_nrows() == group_total(self.outputs@)
        &&& (self.static_gain matches Some(g) ==> g.wf() && g.spec_nrows()
            == self.modes2outputs.spec_nrows() && g.spec_ncols() == self.inputs2modes.spec_ncols())
        &&& wf_frequencies(self.eigen_frequencies@)
    }
}

/// FEM structural dynamic model: the immutable reduced modal state-space
/// that the frequency-response evaluation reads.
pub struct StructuralModel {
    /// Input channel names.
    pub inputs: Vec<String>,
    /// Output channel names.
    pub outputs: Vec<String>,
    /// Modal forces matrix, modes x engaged input channels.
    pub b: Matrix,
    /// Modal displacements matrix, engaged output channels x modes.
    pub c: Matrix,
    /// Gated reduced static gain, output channels x input channels.
    pub g_ssol: Option<Matrix>,
    /// Optional static-gain-mismatch correction.
    pub static_gain_mismatch: Option<StaticGainCompensation>,
    /// Retained eigenfrequencies in Hz (bit patterns), strictly increasing.
    pub w: Vec<u64>,
    /// Modal damping coefficient (bit pattern).
    pub z: u64,
    /// Optional optical sensitivity, optical outputs x output channels.
    pub optical_senses: Option<Matrix>,
}

impl StructuralModel {
    /// Mode count consistency and shape agreement: `b` has one row and `c`
    /// one column per retained eigenfrequency, and every attached matrix
    /// fits the gated shapes.
    pub open spec fn wf(self) -> bool {
        &&& self.b.wf()
        &&& self.c.wf()
        &&& self.b.spec_nrows() == self.w@.len()
        &&& self.c.spec_ncols() == self.w@.len()
        &&& self.w@.len() >= 1
        &&& wf_frequencies(self.w@)
        &&& (self.g_ssol matches Some(g) ==> g.wf() && g.spec_nrows() == self.c.spec_nrows()
            && g.spec_ncols() == self.b.spec_ncols())
        &&& (self.optical_senses matches Some(s) ==> s.wf() && s.spec_ncols()
            == self.c.spec_nrows())
        &&& (self.static_gain_mismatch matches Some(m) ==> m.delta_gain.wf()
            && m.delta_gain.spec_nrows() == self.c.spec_nrows() && m.delta_gain.spec_ncols()
            == self.b.spec_ncols())
    }

    /// Creates a builder for the model over the named channels.
    pub fn builder(inputs: Vec<String>, outputs: Vec<String>) -> (b: StructuralBuilder)
        ensures
            b.inputs == inputs,
            b.outputs == outputs,
            b.z == DEFAULT_DAMPING_BITS,
            b.optical_senses is None,
            b.static_gain_mismatch is None,
            b.min_eigen_frequency is None,
            b.max_eigen_frequency is None,
            b.file_name@ == "structural"@,
    {
        StructuralBuilder::new(inputs, outputs)
    }

    /// The retained eigenfrequencies in Hz (bit patterns).
    pub fn eigen_frequencies_hz(&self) -> (r: Vec<u64>)
        ensures
            r@ == self.w@,
    {
        let n = self.w.len();
        let r = vec_slice(&self.w, 0, n);
        proof {
            assert(self.w@.subrange(0, n as int) =~~= self.w@);
        }
        r
    }

    /// A block of the static gain: `nm.0` rows and `nm.1` columns starting
    /// at row `ij.0`, column `ij.1`; nothing when the FEM carries no
    /// reduced static gain.
    pub fn static_gain(&self, ij: (usize, usize), nm: (usize, usize)) -> (r: Option<Matrix>)
        requires
            self.wf(),
            (self.g_ssol matches Some(g) ==> ij.0 + nm.0 <= g.spec_nrows() && ij.1 + nm.1
                <= g.spec_ncols()),
        ensures
            r is Some <==> self.g_ssol is Some,
            (self.g_ssol matches Some(g) ==> r matches Some(v) && v.wf() && v.spec_nrows() == nm.0
                && v.spec_ncols() == nm.1 && v@ == crate::matrix::submatrix(
                g@,
                ij.0 as int,
                ij.1 as int,
                nm.0 as int,
                nm.1 as int,
            )),
    {
        match &self.g_ssol {
            Some(g) => Some(g.block(ij.0, ij.1, nm.0, nm.1)),
            None => None,
        }
    }

    /// Shape of one frequency-response matrix of this model: optical
    /// outputs when an optical sensitivity is attached, else the engaged
    /// output channels, by the engaged input channels.
    pub fn response_dims(&self) -> (d: (usize, usize))
        requires
            self.wf(),
        ensures
            (self.optical_senses matches Some(s) ==> d.0 == s.spec_nrows()),
            self.optical_senses is None ==> d.0 == self.c.spec_nrows(),
            d.1 == self.b.spec_ncols(),
    {
        let rows = match &self.optical_senses {
            Some(s) => s.nrows(),
            None => self.c.nrows(),
        };
        (rows, self.b.ncols())
    }
}

/// FEM structural dynamic model builder.
pub struct StructuralBuilder {
    /// Requested input channel names.
    pub inputs: Vec<String>,
    /// Requested output channel names.
    pub outputs: Vec<String>,
    /// Modal damping coefficient (bit pattern).
    pub z: u64,
    /// Optical sensitivity to attach, optical outputs x output channels.
    pub optical_senses: Option<Matrix>,
    /// Static-gain-mismatch correction to attach.
    pub static_gain_mismatch: Option<StaticGainCompensation>,
    /// Lower eigenfrequency bound in Hz (bit pattern); lower modes are
    /// dropped.
    pub min_eigen_frequency: Option<u64>,
    /// Upper eigenfrequency bound in Hz (bit pattern); higher modes are
    /// truncated.
    pub max_eigen_frequency: Option<u64>,
    /// Name under which the model is saved.
    pub file_name: String,
}

impl StructuralBuilder {
    fn new(inputs: Vec<String>, outputs: Vec<String>) -> (b: Self)
        ensures
            b.inputs == inputs,
            b.outputs == outputs,
            b.z == DEFAULT_DAMPING_BITS,
            b.optical_senses is None,
            b.static_gain_mismatch is None,
            b.min_eigen_frequency is None,
            b.max_eigen_frequency is None,
            b.file_name@ == "structural"@,
    {
        StructuralBuilder {
            inputs,
            outputs,
            z: DEFAULT_DAMPING_BITS,
            optical_senses: None,
            static_gain_mismatch: None,
            min_eigen_frequency: None,
            max_eigen_frequency: None,
            file_name: "structural".to_owned(),
        }
    }

    /// Sets the FEM modal damping coefficient (bit pattern).
    pub fn damping(self, z: u64) -> (b: Self)
        ensures
            (b == StructuralBuilder { z, ..self }),
    {
        StructuralBuilder { z, ..self }
    }

    /// Truncates the eigenfrequencies to and including `max_eigen_frequency`
    /// (Hz, bit pattern). The number of modes is set accordingly.
    pub fn max_eigen_frequency(self, max_eigen_frequency: Option<u64>) -> (b: Self)
        ensures
            (b == StructuralBuilder { max_eigen_frequency, ..self }),
    {
        StructuralBuilder { max_eigen_frequency, ..self }
    }

    /// Drops the eigenfrequencies less than `min_eigen_frequency` (Hz, bit
    /// pattern). The number of modes is set accordingly.
    pub fn min_eigen_frequency(self, min_eigen_frequency: Option<u64>) -> (b: Self)
        ensures
            (b == StructuralBuilder { min_eigen_frequency, ..self }),
    {
        StructuralBuilder { min_eigen_frequency, ..self }
    }

    /// Sets the name under which the model is saved.
    pub fn filename(self, file_name: String) -> (b: Self)
        ensures
            (b == StructuralBuilder { file_name, ..self }),
    {
        StructuralBuilder { file_name, ..self }
    }

    /// Sets the optical sensitivity matrix.
    pub fn optical_sensitivities(self, mat: Option<Matrix>) -> (b: Self)
        ensures
            (b == StructuralBuilder { optical_senses: mat, ..self }),
    {
        StructuralBuilder { optical_senses: mat, ..self }
    }
}

/// The gated modal forces matrix: the columns of `inputs2modes` engaged by
/// the requested input names.
pub open spec fn gated_b(fem: RawFem, input_names: Seq<Seq<char>>) -> Seq<Seq<u64>> {
    cols_selected(fem.inputs2modes@, enabled_cols(fem.inputs@, input_names))
}

/// The gated modal displacements matrix: the rows of `modes2outputs`
/// engaged by the requested output names.
pub open spec fn gated_c(fem: RawFem, output_names: Seq<Seq<char>>) -> Seq<Seq<u64>> {
    rows_selected(fem.modes2outputs@, enabled_cols(fem.outputs@, output_names))
}

/// The gated reduced static gain.
pub open spec fn gated_static_gain(
    g: Seq<Seq<u64>>,
    fem: RawFem,
    input_names: Seq<Seq<char>>,
    output_names: Seq<Seq<char>>,
) -> Seq<Seq<u64>> {
    cols_selected(
        rows_selected(g, enabled_cols(fem.outputs@, output_names)),
        enabled_cols(fem.inputs@, input_names),
    )
}

/// The number of engaged channels is at most the channel total.
proof fn lemma_enabled_cols_len(groups: Seq<IoGroup>, names: Seq<Seq<char>>)
    ensures
        enabled_cols(groups, names).len() <= group_total(groups),
    decreases groups.len(),
{
    if groups.len() > 0 {
        lemma_enabled_cols_len(groups.drop_last(), names);
    }
}

proof fn lemma_mul_le(a: int, b: int, c: int, d: int)
    by (nonlinear_arith)
    requires
        0 <= a <= b,
        0 <= c <= d,
    ensures
        a * c <= b * d,
{
}

impl StructuralBuilder {
    /// Builds the structural model: gates the FEM channels by the
    /// requested names, prunes the modes to the eigenfrequency window,
    /// slices the modal matrices accordingly and attaches damping, static
    /// gain, optional gain correction and optional optical sensitivity.
    ///
    /// After the build, `b` has one row and `c` one column per retained
    /// eigenfrequency.
    pub fn build(self, fem: &RawFem) -> (r: Result<StructuralModel, StructuralError>)
        requires
            fem.wf(),
            (self.optical_senses matches Some(s) ==> s.wf()),
            (self.static_gain_mismatch matches Some(m) ==> m.delta_gain.wf()),
        ensures
            ({
                let ivs = name_views(self.inputs@);
                let ovs = name_views(self.outputs@);
                let ws = fem.eigen_frequencies@;
                let s = window_start(ws, self.min_eigen_frequency);
                let e = window_end(ws, self.max_eigen_frequency);
                let y = enabled_cols(fem.outputs@, ovs).len();
                let u = enabled_cols(fem.inputs@, ivs).len();
                let bad_inputs = exists|k: int|
                    0 <= k < self.inputs@.len() && !name_in_groups(
                        fem.inputs@,
                        #[trigger] self.inputs@[k]@,
                    );
                let bad_outputs = exists|k: int|
                    0 <= k < self.outputs@.len() && !name_in_groups(
                        fem.outputs@,
                        #[trigger] self.outputs@[k]@,
                    );
                let no_channels = self.inputs@.len() == 0 || self.outputs@.len() == 0;
                let empty_window = e <= s;
                let bad_optical = self.optical_senses matches Some(sm) && sm.spec_ncols() != y;
                let bad_mismatch = self.static_gain_mismatch matches Some(m) && !(
                m.delta_gain.spec_nrows() == y && m.delta_gain.spec_ncols() == u);
                &&& match r {
                    Ok(m) => {
                        &&& m.wf()
                        &&& m.inputs == self.inputs
                        &&& m.outputs == self.outputs
                        &&& m.z == self.z
                        &&& m.static_gain_mismatch == self.static_gain_mismatch
                        &&& m.optical_senses == self.optical_senses
                        &&& m.w@ == ws.subrange(s, e)
                        &&& m.b@ == gated_b(*fem, ivs).subrange(s, e)
                        &&& m.c@ == cols_selected(gated_c(*fem, ovs), index_range(s, e - s))
                        &&& (m.g_ssol is Some <==> fem.static_gain is Some)
                        &&& (fem.static_gain matches Some(g0) ==> m.g_ssol matches Some(g)
                            && g.wf() && g@ == gated_static_gain(g0@, *fem, ivs, ovs))
                        &&& m.b.spec_nrows() == m.w@.len()
                        &&& m.c.spec_ncols() == m.w@.len()
                        &&& m.b.spec_ncols() == u
                        &&& m.c.spec_nrows() == y
                    },
                    Err(err) => {
                        &&& (err matches StructuralError::IOMismatch(nm) ==> {
                            ||| exists|k: int|
                                0 <= k < self.inputs@.len() && self.inputs@[k]@ == nm@
                                    && !name_in_groups(fem.inputs@, nm@)
                            ||| exists|k: int|
                                0 <= k < self.outputs@.len() && self.outputs@[k]@ == nm@
                                    && !name_in_groups(fem.outputs@, nm@)
                        })
                        &&& (err matches StructuralError::EmptyEigenFrequencyWindow {
                            min: bmin,
                            max: bmax,
                        } ==> bmin == self.min_eigen_frequency && bmax == self.max_eigen_frequency
                            && empty_window)
                        &&& (err is ShapeMismatch ==> bad_optical || bad_mismatch)
                        &&& (err is NoChannels ==> no_channels)
                    },
                }
                &&& (r is Err <==> (no_channels || bad_inputs || bad_outputs || empty_window
                    || bad_optical || bad_mismatch))
            }),
    {
        let ghost ivs = name_views(self.inputs@);
        let ghost ovs = name_views(self.outputs@);
        if self.inputs.len() == 0 || self.outputs.len() == 0 {
            return Err(StructuralError::NoChannels);
        }
        let in_cols = match enabled_columns(&fem.inputs, &self.inputs) {
            Ok(v) => v,
            Err(e) => {
                return Err(e);
            },
        };
        let out_rows = match enabled_columns(&fem.outputs, &self.outputs) {
            Ok(v) => v,
            Err(e) => {
                return Err(e);
            },
        };
        proof {
            lemma_enabled_cols_bounds(fem.inputs@, ivs);
            lemma_enabled_cols_bounds(fem.outputs@, ovs);
            lemma_enabled_cols_len(fem.inputs@, ivs);
            lemma_enabled_cols_len(fem.outputs@, ovs);
            lemma_window_monotonicity(
                fem.eigen_frequencies@,
                self.min_eigen_frequency,
                self.max_eigen_frequency,
            );
            assert forall|k: int| 0 <= k < in_cols@.len() implies #[trigger] in_cols@[k]
                < fem.inputs2modes.spec_ncols() by {
                assert(in_cols@.map_values(|i: usize| i as int)[k] == in_cols@[k] as int);
            }
            assert forall|k: int| 0 <= k < out_rows@.len() implies #[trigger] out_rows@[k]
                < fem.modes2outputs.spec_nrows() by {
                assert(out_rows@.map_values(|i: usize| i as int)[k] == out_rows@[k] as int);
            }
            crate::matrix::lemma_matrix_data_bound(&fem.inputs2modes);
            crate::matrix::lemma_matrix_data_bound(&fem.modes2outputs);
            lemma_mul_le(
                fem.inputs2modes.spec_nrows() as int,
                fem.inputs2modes.spec_nrows() as int,
                in_cols@.len() as int,
                fem.inputs2modes.spec_ncols() as int,
            );
            lemma_mul_le(
                out_rows@.len() as int,
                fem.modes2outputs.spec_nrows() as int,
                fem.modes2outputs.spec_ncols() as int,
                fem.modes2outputs.spec_ncols() as int,
            );
        }
        let b_full = fem.inputs2modes.select_cols(&in_cols);
        let c_full = fem.modes2outputs.select_rows(&out_rows);
        let (s, n) = match eigen_window(
            &fem.eigen_frequencies,
            self.min_eigen_frequency,
            self.max_eigen_frequency,
        ) {
            Ok(p) => p,
            Err(e) => {
                return Err(e);
            },
        };
        let b = b_full.rows(s, n);
        let c = c_full.columns(s, n);
        let w = vec_slice(&fem.eigen_frequencies, s, n);
        let g_ssol = match &fem.static_gain {
            Some(g) => {
                proof {
                    crate::matrix::lemma_matrix_data_bound(g);
                    lemma_mul_le(
                        out_rows@.len() as int,
                        g.spec_nrows() as int,
                        g.spec_ncols() as int,
                        g.spec_ncols() as int,
                    );
                    lemma_mul_le(
                        out_rows@.len() as int,
                        g.spec_nrows() as int,
                        in_cols@.len() as int,
                        g.spec_ncols() as int,
                    );
                }
                Some(g.select_rows(&out_rows).select_cols(&in_cols))
            },
            None => None,
        };
        let y = c.nrows();
        let u = b.ncols();
        match &self.optical_senses {
            Some(sm) => {
                if sm.ncols() != y {
                    return Err(StructuralError::ShapeMismatch);
                }
            },
            None => {},
        }
        match &self.static_gain_mismatch {
            Some(m) => {
                if m.delta_gain.re.nrows() != y || m.delta_gain.re.ncols() != u {
                    return Err(StructuralError::ShapeMismatch);
                }
            },
            None => {},
        }
        proof {
            let ws = fem.eigen_frequencies@;
            assert forall|i: int, j: int| 0 <= i < j < w@.len() implies w@[i] < w@[j] by {
                assert(w@[i] == ws[s + i]);
                assert(w@[j] == ws[s + j]);
            }
            assert forall|i: int| 0 <= i < w@.len() implies 0 < #[trigger] w@[i]
                <= MAX_FINITE_BITS by {
                assert(w@[i] == ws[s + i]);
            }
        }
        Ok(
            StructuralModel {
                inputs: self.inputs,
                outputs: self.outputs,
                b,
                c,
                g_ssol,
                static_gain_mismatch: self.static_gain_mismatch,
                w,
                z: self.z,
                optical_senses: self.optical_senses,
            },
        )
    }
}

} // verus!

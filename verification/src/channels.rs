//! FEM channel names and the three virtual optical outputs.
//!
//! Output lists given to the builder may name, besides mechanical FEM
//! channels, the virtual optical outputs `tip-tilt`, `segment_tip-tilt`
//! and `segment_piston`. Those are not FEM outputs: they are produced by
//! the linear optical model from the rigid-body motions of M1 and M2, so
//! each of them expands into the two mechanical channels `OSSM1Lcl` and
//! `MCM2Lcl6D`.

use vstd::prelude::*;

verus! {

/// Whether `nm` names one of the three virtual optical outputs.
pub open spec fn is_virtual_name(nm: Seq<char>) -> bool {
    ||| nm == "tip-tilt"@
    ||| nm == "segment_tip-tilt"@
    ||| nm == "segment_piston"@
}

/// The mechanical (non-virtual) names of `outs`, in order.
pub open spec fn mechanical_names(outs: Seq<Seq<char>>) -> Seq<Seq<char>>
    decreases outs.len(),
{
    if outs.len() == 0 {
        Seq::empty()
    } else if is_virtual_name(outs.last()) {
        mechanical_names(outs.drop_last())
    } else {
        mechanical_names(outs.drop_last()).push(outs.last())
    }
}

/// The virtual names of `outs`, in order.
pub open spec fn virtual_names(outs: Seq<Seq<char>>) -> Seq<Seq<char>>
    decreases outs.len(),
{
    if outs.len() == 0 {
        Seq::empty()
    } else if is_virtual_name(outs.last()) {
        virtual_names(outs.drop_last()).push(outs.last())
    } else {
        virtual_names(outs.drop_last())
    }
}

/// Names of a sequence of strings.
pub open spec fn name_views(names: Seq<String>) -> Seq<Seq<char>> {
    names.map_values(|s: String| s@)
}

/// Whether some element of `s` has view `nm`.
pub open spec fn has_name(s: Seq<Seq<char>>, nm: Seq<char>) -> bool {
    exists|k: int| 0 <= k < s.len() && s[k] == nm
}

/// The FEM output names that a requested output list engages: the
/// mechanical names as given, followed, when at least one virtual optical
/// output is requested, by the channels the optical model depends on,
/// `OSSM1Lcl` and `MCM2Lcl6D`, each appended only if not already present.
pub open spec fn fem_output_names(outs: Seq<Seq<char>>) -> Seq<Seq<char>> {
    let mech = mechanical_names(outs);
    if virtual_names(outs).len() > 0 {
        let with_m1 = if has_name(mech, "OSSM1Lcl"@) {
            mech
        } else {
            mech.push("OSSM1Lcl"@)
        };
        if has_name(with_m1, "MCM2Lcl6D"@) {
            with_m1
        } else {
            with_m1.push("MCM2Lcl6D"@)
        }
    } else {
        mech
    }
}

/// Whether `name` is one of the three virtual optical outputs.
pub fn is_virtual_output(name: &String) -> (b: bool)
    ensures
        b == is_virtual_name(name@),
{
    *name == "tip-tilt".to_owned() || *name == "segment_tip-tilt".to_owned() || *name
        == "segment_piston".to_owned()
}

/// Whether some element of `list` equals `name`.
pub(crate) fn contains_name(list: &Vec<String>, name: &String) -> (b: bool)
    ensures
        b == has_name(list@.map_values(|s: String| s@), name@),
{
    let ghost views = list@.map_values(|s: String| s@);
    let n = list.len();
    let mut k: usize = 0;
    while k < n
        invariant
            k <= n,
            n == list@.len(),
            views == list@.map_values(|s: String| s@),
            forall|t: int| 0 <= t < k ==> views[t] != name@,
        decreases n - k,
    {
        if list[k] == *name {
            proof {
                assert(views[k as int] == name@);
            }
            return true;
        }
        k += 1;
    }
    proof {
        assert(views.len() == n);
    }
    false
}

/// Whether the requested output list names any virtual optical output.
pub fn has_virtual_output(outputs: &Vec<String>) -> (b: bool)
    ensures
        b == (virtual_names(name_views(outputs@)).len() > 0),
{
    let ghost all = name_views(outputs@);
    let n = outputs.len();
    let mut k: usize = 0;
    while k < n
        invariant
            k <= n,
            n == outputs@.len(),
            all == name_views(outputs@),
            virtual_names(all.take(k as int)).len() == 0,
        decreases n - k,
    {
        let name = &outputs[k];
        proof {
            assert(all.take(k + 1).drop_last() =~~= all.take(k as int));
            assert(all.take(k + 1).last() == name@);
        }
        if is_virtual_output(name) {
            proof {
                assert(virtual_names(all) =~~= virtual_names(all));
                lemma_virtual_names_prefix_le(all, k + 1);
            }
            return true;
        }
        k += 1;
    }
    proof {
        assert(all.take(n as int) =~~= all);
    }
    false
}

/// A prefix never holds more virtual names than the whole list.
proof fn lemma_virtual_names_prefix_le(outs: Seq<Seq<char>>, k: int)
    requires
        0 <= k <= outs.len(),
    ensures
        virtual_names(outs.take(k)).len() <= virtual_names(outs).len(),
    decreases outs.len() - k,
{
    if k < outs.len() {
        lemma_virtual_names_prefix_le(outs, k + 1);
        assert(outs.take(k + 1).drop_last() =~~= outs.take(k));
    } else {
        assert(outs.take(k) =~~= outs);
    }
}

/// The names of the FEM outputs that the requested output list engages
/// (virtual optical outputs expanded into the mechanical channels the
/// optical model reads, without duplicates).
pub fn fem_outputs(outputs: &Vec<String>) -> (r: Vec<String>)
    ensures
        r@.map_values(|s: String| s@) == fem_output_names(outputs@.map_values(|s: String| s@)),
{
    let ghost all = outputs@.map_values(|s: String| s@);
    let n = outputs.len();
    let mut mech: Vec<String> = Vec::new();
    let mut any_virtual = false;
    let mut k: usize = 0;
    while k < n
        invariant
            k <= n,
            n == outputs@.len(),
            all == outputs@.map_values(|s: String| s@),
            mech@.map_values(|s: String| s@) == mechanical_names(all.take(k as int)),
            any_virtual == (virtual_names(all.take(k as int)).len() > 0),
        decreases n - k,
    {
        let name = &outputs[k];
        proof {
            assert(all.take(k + 1).drop_last() =~~= all.take(k as int));
            assert(all.take(k + 1).last() == name@);
        }
        if is_virtual_output(name) {
            any_virtual = true;
        } else {
            mech.push(name.clone());
            proof {
                assert(mech@.map_values(|s: String| s@) =~~= mechanical_names(all.take(k as int)).push(
                    name@,
                ));
            }
        }
        k += 1;
    }
    proof {
        assert(all.take(n as int) =~~= all);
    }
    if any_virtual {
        let m1 = "OSSM1Lcl".to_owned();
        if !contains_name(&mech, &m1) {
            mech.push(m1);
            proof {
                assert(mech@.map_values(|s: String| s@) =~~= mechanical_names(all).push(
                    "OSSM1Lcl"@,
                ));
            }
        }
        let m2 = "MCM2Lcl6D".to_owned();
        if !contains_name(&mech, &m2) {
            let ghost before = mech@.map_values(|s: String| s@);
            mech.push(m2);
            proof {
                assert(mech@.map_values(|s: String| s@) =~~= before.push("MCM2Lcl6D"@));
            }
        }
    }
    mech
}

/// The virtual optical output names of the requested output list, in
/// order.
pub fn lom_outputs(outputs: &Vec<String>) -> (r: Vec<String>)
    ensures
        r@.map_values(|s: String| s@) == virtual_names(outputs@.map_values(|s: String| s@)),
{
    let ghost all = outputs@.map_values(|s: String| s@);
    let n = outputs.len();
    let mut v: Vec<String> = Vec::new();
    let mut k: usize = 0;
    while k < n
        invariant
            k <= n,
            n == outputs@.len(),
            all == outputs@.map_values(|s: String| s@),
            v@.map_values(|s: String| s@) == virtual_names(all.take(k as int)),
        decreases n - k,
    {
        let name = &outputs[k];
        proof {
            assert(all.take(k + 1).drop_last() =~~= all.take(k as int));
            assert(all.take(k + 1).last() == name@);
        }
        if is_virtual_output(name) {
            v.push(name.clone());
            proof {
                assert(v@.map_values(|s: String| s@) =~~= virtual_names(all.take(k as int)).push(
                    name@,
                ));
            }
        }
        k += 1;
    }
    proof {
        assert(all.take(n as int) =~~= all);
    }
    v
}

} // verus!

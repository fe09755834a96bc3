use vstd::prelude::*;

verus! {

/// One deviation measurement: the deviation and its uncertainty as IEEE 754
/// binary64 bit patterns, and the number of overlap windows it was computed
/// from.
#[derive(Clone, Copy, Debug, PartialEq, Eq, Structural)]
pub struct DevStat {
    pub dev_bits: u64,
    pub err_bits: u64,
    pub n: usize,
}

/// The elements of `s` at the positions listed in `idx`, in listed order.
pub open spec fn select_at<T>(s: Seq<T>, idx: Seq<int>) -> Seq<T> {
    idx.map_values(|i: int| s[i])
}

/// The positions whose sample count exceeds one, in ascending order: the rows
/// the result filter keeps.
pub open spec fn kept_indices(ns: Seq<usize>) -> Seq<int>
    decreases ns.len(),
{
    if ns.len() == 0 {
        Seq::empty()
    } else {
        let prefix = kept_indices(ns.drop_last());
        if ns.last() > 1 {
            prefix.push(ns.len() - 1)
        } else {
            prefix
        }
    }
}

/// Law of the result filter: it keeps no more rows than it was given; every
/// kept position carries a count greater than one; the kept positions are
/// strictly increasing, so relative order is preserved; and every position
/// whose count exceeds one is kept.
pub proof fn lemma_kept_indices_sound(ns: Seq<usize>)
    ensures
        kept_indices(ns).len() <= ns.len(),
        forall|j: int|
            0 <= j < kept_indices(ns).len() ==> 0 <= #[trigger] kept_indices(ns)[j] < ns.len()
                && ns[kept_indices(ns)[j]] > 1,
        forall|j1: int, j2: int|
            0 <= j1 < j2 < kept_indices(ns).len() ==> kept_indices(ns)[j1] < kept_indices(
                ns,
            )[j2],
        forall|i: int| 0 <= i < ns.len() && ns[i] > 1 ==> kept_indices(ns).contains(i),
    decreases ns.len(),
{
    if ns.len() == 0 {
    } else {
        let prefix = ns.drop_last();
        lemma_kept_indices_sound(prefix);
        assert forall|i: int| 0 <= i < ns.len() && ns[i] > 1 implies kept_indices(ns).contains(
            i,
        ) by {
            if i < ns.len() - 1 {
                assert(prefix[i] == ns[i]);
                assert(kept_indices(prefix).contains(i));
                let j = choose|j: int|
                    0 <= j < kept_indices(prefix).len() && kept_indices(prefix)[j] == i;
                assert(kept_indices(ns)[j] == i);
            } else {
                assert(ns.last() == ns[i]);
                assert(kept_indices(ns).last() == i);
            }
        }
    }
}

/// Records one result row per averaging factor, in order: a measured row is
/// taken as it came; an infeasible one (`None`) is degraded to zero-valued
/// fields (`0u64` is the bit pattern of `+0.0`) rather than dropped, so one
/// bad factor does not abort the batch.
pub fn assemble_rows(taus_bits: &Vec<u64>, outcomes: &Vec<Option<DevStat>>) -> (r: (
    Vec<u64>,
    Vec<u64>,
    Vec<u64>,
    Vec<usize>,
))
    requires
        taus_bits@.len() == outcomes@.len(),
    ensures
        r.0@ == taus_bits@,
        r.1@.len() == outcomes@.len(),
        r.2@.len() == outcomes@.len(),
        r.3@.len() == outcomes@.len(),
        forall|i: int|
            0 <= i < outcomes@.len() ==> match #[trigger] outcomes@[i] {
                Some(s) => r.1@[i] == s.dev_bits && r.2@[i] == s.err_bits && r.3@[i] == s.n,
                None => r.1@[i] == 0 && r.2@[i] == 0 && r.3@[i] == 0,
            },
{
    let mut out_taus: Vec<u64> = Vec::new();
    let mut out_devs: Vec<u64> = Vec::new();
    let mut out_errs: Vec<u64> = Vec::new();
    let mut out_ns: Vec<usize> = Vec::new();
    let len = outcomes.len();
    for i in 0..len
        invariant
            len == outcomes@.len(),
            taus_bits@.len() == outcomes@.len(),
            out_taus@ == taus_bits@.take(i as int),
            out_devs@.len() == i,
            out_errs@.len() == i,
            out_ns@.len() == i,
            forall|k: int|
                0 <= k < i ==> match #[trigger] outcomes@[k] {
                    Some(s) => out_devs@[k] == s.dev_bits && out_errs@[k] == s.err_bits
                        && out_ns@[k] == s.n,
                    None => out_devs@[k] == 0 && out_errs@[k] == 0 && out_ns@[k] == 0,
                },
    {
        out_taus.push(taus_bits[i]);
        match outcomes[i] {
            Some(s) => {
                out_devs.push(s.dev_bits);
                out_errs.push(s.err_bits);
                out_ns.push(s.n);
            },
            None => {
                out_devs.push(0);
                out_errs.push(0);
                out_ns.push(0);
            },
        }
        proof {
            assert(out_taus@ =~= taus_bits@.take(i + 1));
        }
    }
    proof {
        assert(taus_bits@.take(len as int) =~= taus_bits@);
    }
    (out_taus, out_devs, out_errs, out_ns)
}

/// The result filter: keeps only the rows whose effective sample count
/// exceeds one (a single overlap window is too weak to report), preserving
/// relative order and recomputing nothing.
pub fn remove_small_ns(taus: &Vec<u64>, devs: &Vec<u64>, deverrs: &Vec<u64>, ns: &Vec<usize>) -> (r:
    (Vec<u64>, Vec<u64>, Vec<u64>, Vec<usize>))
    requires
        taus@.len() == ns@.len(),
        devs@.len() == ns@.len(),
        deverrs@.len() == ns@.len(),
    ensures
        r.0@ == select_at(taus@, kept_indices(ns@)),
        r.1@ == select_at(devs@, kept_indices(ns@)),
        r.2@ == select_at(deverrs@, kept_indices(ns@)),
        r.3@ == select_at(ns@, kept_indices(ns@)),
        r.3@.len() <= ns@.len(),
        forall|j: int| 0 <= j < r.3@.len() ==> #[trigger] r.3@[j] > 1,
{
    let mut out_taus: Vec<u64> = Vec::new();
    let mut out_devs: Vec<u64> = Vec::new();
    let mut out_errs: Vec<u64> = Vec::new();
    let mut out_ns: Vec<usize> = Vec::new();
    let len = ns.len();
    for i in 0..len
        invariant
            len == ns@.len(),
            taus@.len() == ns@.len(),
            devs@.len() == ns@.len(),
            deverrs@.len() == ns@.len(),
            out_taus@ == select_at(taus@, kept_indices(ns@.take(i as int))),
            out_devs@ == select_at(devs@, kept_indices(ns@.take(i as int))),
            out_errs@ == select_at(deverrs@, kept_indices(ns@.take(i as int))),
            out_ns@ == select_at(ns@, kept_indices(ns@.take(i as int))),
    {
        proof {
            let pre = ns@.take(i as int);
            let post = ns@.take(i + 1);
            assert(post.drop_last() =~= pre);
            assert(post.last() == ns@[i as int]);
            if ns@[i as int] > 1 {
                assert(kept_indices(post) =~= kept_indices(pre).push(i as int));
                assert(select_at(taus@, kept_indices(post)) =~= select_at(
                    taus@,
                    kept_indices(pre),
                ).push(taus@[i as int]));
                assert(select_at(devs@, kept_indices(post)) =~= select_at(
                    devs@,
                    kept_indices(pre),
                ).push(devs@[i as int]));
                assert(select_at(deverrs@, kept_indices(post)) =~= select_at(
                    deverrs@,
                    kept_indices(pre),
                ).push(deverrs@[i as int]));
                assert(select_at(ns@, kept_indices(post)) =~= select_at(
                    ns@,
                    kept_indices(pre),
                ).push(ns@[i as int]));
            } else {
                assert(kept_indices(post) =~= kept_indices(pre));
            }
        }
        if ns[i] > 1 {
            out_taus.push(taus[i]);
            out_devs.push(devs[i]);
            out_errs.push(deverrs[i]);
            out_ns.push(ns[i]);
        }
    }
    proof {
        assert(ns@.take(len as int) =~= ns@);
        lemma_kept_indices_sound(ns@);
        assert forall|j: int| 0 <= j < out_ns@.len() implies #[trigger] out_ns@[j] > 1 by {
            assert(out_ns@[j] == ns@[kept_indices(ns@)[j]]);
        }
    }
    (out_taus, out_devs, out_errs, out_ns)
}

} // verus!

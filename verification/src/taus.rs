use vstd::prelude::*;

verus! {

use crate::errors::AllanError;
use vstd::arithmetic::div_mod::{
    lemma_div_decreases, lemma_div_is_ordered, lemma_div_multiples_vanish,
    lemma_fundamental_div_mod, lemma_mod_bound,
};
use vstd::arithmetic::power::{lemma_pow_increases, lemma_pow_positive, pow};

/// All bits of an IEEE 754 binary64 value except its sign bit.
pub const F64_MAGNITUDE_MASK: u64 = 0x7FFF_FFFF_FFFF_FFFF;

/// Whether a binary64 bit pattern encodes zero: positive and negative zero
/// are the only values whose bits are all clear apart from the sign.
pub open spec fn f64_bits_is_zero(bits: u64) -> bool {
    bits & F64_MAGNITUDE_MASK == 0
}

/// The tau-spacing policy: which candidate averaging factors to evaluate.
pub enum TauSpacing {
    /// One candidate per doubling of the averaging window: `2^k` for
    /// `k = 0 ..= floor(log2(N))`, where `N` is the phase series length.
    Octave,
    /// A coarse 1-2-4 ladder per decade: `1, 2, 4` times `10^k` for
    /// `k = 0 ..= floor(log10(N))`.
    Decade,
    /// Candidate factors computed elsewhere, already rounded to integers.
    /// The ten-per-decade logarithmic ladder (`round(10^(k/10))`) takes
    /// fractional powers of ten that this crate does not evaluate; its
    /// candidates enter here.
    Explicit(Vec<usize>),
}

/// A tau-mode tag as the pipeline entry points take it: absent means octave.
#[derive(Clone, Copy, Debug, PartialEq, Eq, Structural)]
pub enum TauMode {
    Octave,
    Log10,
    Decade,
    /// An unrecognized tag: the generator then has no candidates at all, and
    /// the result set is empty.
    Unrecognized,
}

/// Maps an optional tau-mode tag to the spacing policy it names: no tag
/// defaults to octave; a tag that names no policy yields `Unrecognized`.
pub fn parse_tau_mode(mode: Option<&str>) -> (r: TauMode)
    ensures
        mode is None ==> r == TauMode::Octave,
        mode matches Some(s) && s@ == "octave"@ ==> r == TauMode::Octave,
        mode matches Some(s) && s@ == "log10"@ ==> r == TauMode::Log10,
        mode matches Some(s) && s@ == "decade"@ ==> r == TauMode::Decade,
        mode matches Some(s) && s@ != "octave"@ && s@ != "log10"@ && s@ != "decade"@ ==> r
            == TauMode::Unrecognized,
{
    proof {
        reveal_strlit("octave");
        reveal_strlit("log10");
        reveal_strlit("decade");
        assert("octave"@.len() == 6);
        assert("log10"@.len() == 5);
        assert("decade"@.len() == 6);
        assert("octave"@[0] == 'o');
        assert("decade"@[0] == 'd');
    }
    match mode {
        None => TauMode::Octave,
        Some(s) => {
            let owned: String = s.to_owned();
            let octave_tag: String = "octave".to_owned();
            let log10_tag: String = "log10".to_owned();
            let decade_tag: String = "decade".to_owned();
            if owned == octave_tag {
                TauMode::Octave
            } else if owned == log10_tag {
                TauMode::Log10
            } else if owned == decade_tag {
                TauMode::Decade
            } else {
                TauMode::Unrecognized
            }
        },
    }
}

/// The series length as the ladder generators see it: never below one, so
/// every ladder starts at a factor of one even for an empty series.
pub open spec fn norm_len(data_len: usize) -> nat {
    if data_len == 0 {
        1nat
    } else {
        data_len as nat
    }
}

/// Floor of the base-`base` logarithm of `n`.
pub open spec fn log_floor(base: nat, n: nat) -> nat
    recommends
        2 <= base,
        1 <= n,
    decreases n,
    via log_floor_decreases
{
    if base < 2 || n < base {
        0
    } else {
        (1 + log_floor(base, n / base)) as nat
    }
}

#[via_fn]
proof fn log_floor_decreases(base: nat, n: nat) {
    if !(base < 2 || n < base) {
        lemma_div_decreases(n as int, base as int);
    }
}

/// `log_floor` is the unique exponent whose power brackets `n`.
proof fn lemma_log_floor_unique(base: nat, n: nat, k: nat)
    requires
        2 <= base,
        pow(base as int, k) <= n as int,
        (n as int) < pow(base as int, k + 1),
    ensures
        log_floor(base, n) == k,
    decreases k,
{
    reveal(pow);
    lemma_pow_positive(base as int, k);
    assert(pow(base as int, 0) == 1);
    assert(pow(base as int, 1) == base * pow(base as int, 0));
    if k == 0 {
        assert(n < base);
    } else {
        let p1 = pow(base as int, (k - 1) as nat);
        assert(pow(base as int, k) == base * p1);
        assert(pow(base as int, (k + 1) as nat) == base * pow(base as int, k));
        lemma_pow_increases(base, 1, k);
        assert(base <= n);
        let q = n as int / base as int;
        lemma_div_is_ordered(base as int * p1, n as int, base as int);
        lemma_div_multiples_vanish(p1, base as int);
        assert(p1 <= q);
        lemma_fundamental_div_mod(n as int, base as int);
        lemma_mod_bound(n as int, base as int);
        assert(base as int * q <= n as int);
        assert(q < pow(base as int, k)) by (nonlinear_arith)
            requires
                base as int * q <= n as int,
                (n as int) < base as int * pow(base as int, k),
                base >= 2,
        ;
        lemma_log_floor_unique(base, q as nat, (k - 1) as nat);
        assert(log_floor(base, n) == 1 + log_floor(base, q as nat));
    }
}

/// The octave ladder of candidate averaging factors for a series of length
/// `data_len`: the powers of two up to the largest one not exceeding the
/// length. In real arithmetic the raw tau is `2^k / rate` and the candidate
/// factor is `round(raw_tau * rate) = 2^k`, so the ladder needs no rate.
pub open spec fn octave_candidates_seq(data_len: usize) -> Seq<usize> {
    Seq::new(log_floor(2, norm_len(data_len)) + 1, |i: int| pow(2, i as nat) as usize)
}

/// The decade ladder of candidate averaging factors: `1, 2, 4` times each
/// power of ten whose unit step does not exceed the series length.
pub open spec fn decade_candidates_seq(data_len: usize) -> Seq<usize> {
    Seq::new(
        3 * (log_floor(10, norm_len(data_len)) + 1),
        |i: int| (decade_multiplier(i % 3) * pow(10, (i / 3) as nat)) as usize,
    )
}

/// The 1-2-4 pattern within one decade of the decade ladder.
pub open spec fn decade_multiplier(j: int) -> int {
    if j == 0 {
        1
    } else if j == 1 {
        2
    } else {
        4
    }
}

/// Generates the octave ladder: `2^k` for `k = 0 ..= floor(log2(N))`.
pub fn octave_m_candidates(data_len: usize) -> (r: Vec<usize>)
    ensures
        r@ == octave_candidates_seq(data_len),
{
    let n: usize = if data_len == 0 {
        1
    } else {
        data_len
    };
    let mut out: Vec<usize> = Vec::new();
    let mut cur: usize = 1;
    out.push(1);
    proof {
        reveal(pow);
        assert(pow(2, 0) == 1);
    }
    while cur <= n / 2
        invariant
            n as nat == norm_len(data_len),
            1 <= cur <= n,
            out@.len() >= 1,
            cur as int == pow(2, (out@.len() - 1) as nat),
            forall|i: int| 0 <= i < out@.len() ==> #[trigger] out@[i] as int == pow(2, i as nat),
        decreases n - cur,
    {
        proof {
            reveal(pow);
            assert(pow(2, out@.len() as nat) == 2 * pow(2, (out@.len() - 1) as nat));
        }
        cur = 2 * cur;
        out.push(cur);
    }
    proof {
        lemma_log_floor_unique(2, n as nat, (out@.len() - 1) as nat);
        assert(out@ =~= octave_candidates_seq(data_len));
    }
    out
}

/// Generates the decade ladder: `1, 2, 4` times `10^k` for
/// `k = 0 ..= floor(log10(N))`. The length bound keeps the widest rung of
/// the last decade within the machine's integer range.
pub fn decade_m_candidates(data_len: usize) -> (r: Vec<usize>)
    requires
        data_len <= usize::MAX / 4,
    ensures
        r@ == decade_candidates_seq(data_len),
{
    let n: usize = if data_len == 0 {
        1
    } else {
        data_len
    };
    let mut out: Vec<usize> = Vec::new();
    let mut cur: usize = 1;
    out.push(1);
    out.push(2);
    out.push(4);
    proof {
        reveal(pow);
        assert(pow(10, 0) == 1);
    }
    while cur <= n / 10
        invariant
            n as nat == norm_len(data_len),
            n <= usize::MAX / 4,
            1 <= cur <= n,
            out@.len() >= 3,
            out@.len() % 3 == 0,
            cur as int == pow(10, (out@.len() / 3 - 1) as nat),
            forall|i: int|
                0 <= i < out@.len() ==> #[trigger] out@[i] as int == decade_multiplier(i % 3)
                    * pow(10, (i / 3) as nat),
        decreases n - cur,
    {
        proof {
            reveal(pow);
            assert(pow(10, (out@.len() / 3) as nat) == 10 * pow(
                10,
                (out@.len() / 3 - 1) as nat,
            ));
        }
        cur = 10 * cur;
        out.push(cur);
        out.push(2 * cur);
        out.push(4 * cur);
    }
    proof {
        lemma_log_floor_unique(10, n as nat, (out@.len() / 3 - 1) as nat);
        assert(out@ =~= decade_candidates_seq(data_len));
    }
    out
}

/// Whether a candidate averaging factor is accepted: it must be positive,
/// must leave room in the series (`m < max_m`), and, when the even-only
/// option is on, must be even.
pub open spec fn m_accepted(m: usize, max_m: usize, even_only: bool) -> bool {
    0 < m && m < max_m && (even_only ==> m % 2 == 0)
}

/// The accepted subsequence of a candidate ladder, in ladder order.
pub open spec fn accepted_seq(s: Seq<usize>, max_m: usize, even_only: bool) -> Seq<usize>
    decreases s.len(),
{
    if s.len() == 0 {
        Seq::empty()
    } else {
        let prefix = accepted_seq(s.drop_last(), max_m, even_only);
        if m_accepted(s.last(), max_m, even_only) {
            prefix.push(s.last())
        } else {
            prefix
        }
    }
}

/// Law of the acceptance filter: every accepted factor satisfies the
/// acceptance predicate (in particular none reaches `max_m`), comes from the
/// candidate ladder, and no more factors are accepted than were offered.
pub proof fn lemma_accepted_seq_sound(s: Seq<usize>, max_m: usize, even_only: bool)
    ensures
        accepted_seq(s, max_m, even_only).len() <= s.len(),
        forall|j: int|
            0 <= j < accepted_seq(s, max_m, even_only).len() ==> m_accepted(
                #[trigger] accepted_seq(s, max_m, even_only)[j],
                max_m,
                even_only,
            ) && s.contains(accepted_seq(s, max_m, even_only)[j]),
    decreases s.len(),
{
    if s.len() == 0 {
    } else {
        let prefix = s.drop_last();
        lemma_accepted_seq_sound(prefix, max_m, even_only);
        assert forall|j: int|
            0 <= j < accepted_seq(s, max_m, even_only).len() implies m_accepted(
            #[trigger] accepted_seq(s, max_m, even_only)[j],
            max_m,
            even_only,
        ) && s.contains(accepted_seq(s, max_m, even_only)[j]) by {
            let acc = accepted_seq(s, max_m, even_only);
            if j < accepted_seq(prefix, max_m, even_only).len() {
                assert(acc[j] == accepted_seq(prefix, max_m, even_only)[j]);
                let i = choose|i: int| 0 <= i < prefix.len() && prefix[i] == acc[j];
                assert(s[i] == acc[j]);
            } else {
                assert(acc[j] == s.last());
                assert(s[s.len() - 1] == acc[j]);
            }
        }
    }
}

/// Applies the acceptance filter to a candidate ladder.
pub fn accepted_ms(candidates: &Vec<usize>, max_m: usize, even_only: bool) -> (r: Vec<usize>)
    ensures
        r@ == accepted_seq(candidates@, max_m, even_only),
{
    let mut out: Vec<usize> = Vec::new();
    let len = candidates.len();
    for i in 0..len
        invariant
            len == candidates@.len(),
            out@ == accepted_seq(candidates@.take(i as int), max_m, even_only),
    {
        proof {
            let pre = candidates@.take(i as int);
            let post = candidates@.take(i + 1);
            assert(post.drop_last() =~= pre);
            assert(post.last() == candidates@[i as int]);
        }
        let m = candidates[i];
        if 0 < m && m < max_m && (!even_only || m % 2 == 0) {
            out.push(m);
        }
    }
    proof {
        assert(candidates@.take(len as int) =~= candidates@);
    }
    out
}

/// The candidate ladder a spacing policy yields for a series length.
pub open spec fn candidates_of(spacing: TauSpacing, data_len: usize) -> Seq<usize> {
    match spacing {
        TauSpacing::Octave => octave_candidates_seq(data_len),
        TauSpacing::Decade => decade_candidates_seq(data_len),
        TauSpacing::Explicit(v) => v@,
    }
}

/// The acceptance bound on averaging factors: the caller's override, or the
/// phase series length when none is given.
pub open spec fn effective_max_m(maximum_m: Option<usize>, data_len: usize) -> usize {
    match maximum_m {
        Some(m) => m,
        None => data_len,
    }
}

/// The tau generator: refuses a zero sampling rate, then produces the
/// accepted averaging factors of the chosen spacing policy, in ladder order.
/// The tau actually achieved by a factor `m` is `m / rate`; deriving those
/// real values from the returned factors is the caller's part.
pub fn tau_generator(
    rate_bits: u64,
    data_len: usize,
    spacing: TauSpacing,
    even_only: bool,
    maximum_m: Option<usize>,
) -> (r: Result<Vec<usize>, AllanError>)
    requires
        spacing is Decade ==> data_len <= usize::MAX / 4,
    ensures
        f64_bits_is_zero(rate_bits) ==> r == Err::<Vec<usize>, AllanError>(
            AllanError::InvalidRate,
        ),
        !f64_bits_is_zero(rate_bits) ==> (r matches Ok(ms) && ms@ == accepted_seq(
            candidates_of(spacing, data_len),
            effective_max_m(maximum_m, data_len),
            even_only,
        )),
{
    if rate_bits & F64_MAGNITUDE_MASK == 0 {
        return Err(AllanError::InvalidRate);
    }
    let max_m: usize = match maximum_m {
        Some(m) => m,
        None => data_len,
    };
    let candidates: Vec<usize> = match spacing {
        TauSpacing::Octave => octave_m_candidates(data_len),
        TauSpacing::Decade => decade_m_candidates(data_len),
        TauSpacing::Explicit(v) => v,
    };
    Ok(accepted_ms(&candidates, max_m, even_only))
}

} // verus!

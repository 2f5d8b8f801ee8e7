use vstd::prelude::*;

verus! {

/// The two flattened input positions one output cell of the log-frequency
/// remapping interpolates between.
#[derive(Clone, Copy, Debug, PartialEq, Eq, Structural)]
pub struct InterpSource {
    pub low: usize,
    pub high: usize,
}

/// A fractional-index floor clamped to the valid linear-bin range
/// `[0, n_freq_bins - 1]`.
pub open spec fn clamped_bin(target: int, n_freq_bins: int) -> int {
    if target < n_freq_bins - 1 {
        target
    } else {
        n_freq_bins - 1
    }
}

/// The gather plan of the log-frequency remapping, row-major over
/// `(time frame, log bin)`: the cell for time `t` and log bin `j` reads the
/// two adjacent linear bins `min(targets[j], n - 1)` and
/// `min(targets[j] + 1, n - 1)` of input row `t`, where `targets[j]` is the
/// floor of the fractional linear bin index of log bin `j`.
pub open spec fn remap_plan(targets: Seq<usize>, n_freq_bins: int, n_time_frames: int)
    -> Seq<InterpSource>
    recommends
        n_freq_bins > 0,
        n_time_frames >= 0,
{
    Seq::new((n_time_frames * targets.len()) as nat, |k: int|
        InterpSource {
            low: ((k / targets.len() as int) * n_freq_bins
                + clamped_bin(targets[k % targets.len() as int] as int, n_freq_bins)) as usize,
            high: ((k / targets.len() as int) * n_freq_bins
                + clamped_bin(targets[k % targets.len() as int] as int + 1, n_freq_bins)) as usize,
        })
}

/// Row-major addressing of the plan: the entry at `t * targets.len() + j`
/// serves time frame `t` and log bin `j`, reads two adjacent clamped bins
/// of row `t`, and stays inside the `n_time_frames * n_freq_bins` input.
pub proof fn lemma_remap_plan_index(
    targets: Seq<usize>,
    n_freq_bins: int,
    n_time_frames: int,
    t: int,
    j: int,
)
    requires
        n_freq_bins > 0,
        0 <= t < n_time_frames,
        0 <= j < targets.len(),
        n_time_frames * n_freq_bins <= usize::MAX,
    ensures
        remap_plan(targets, n_freq_bins, n_time_frames).len() == n_time_frames * targets.len(),
        remap_plan(targets, n_freq_bins, n_time_frames)[t * targets.len() + j] == (InterpSource {
            low: (t * n_freq_bins + clamped_bin(targets[j] as int, n_freq_bins)) as usize,
            high: (t * n_freq_bins + clamped_bin(targets[j] as int + 1, n_freq_bins)) as usize,
        }),
        t * n_freq_bins + clamped_bin(targets[j] as int, n_freq_bins)
            <= t * n_freq_bins + clamped_bin(targets[j] as int + 1, n_freq_bins),
        t * n_freq_bins + clamped_bin(targets[j] as int + 1, n_freq_bins)
            < n_time_frames * n_freq_bins,
{
    let len = targets.len() as int;
    assert(0 <= t * len + j && t * len + j < n_time_frames * len) by (nonlinear_arith)
        requires 0 <= t < n_time_frames, 0 <= j < len;
    vstd::arithmetic::div_mod::lemma_fundamental_div_mod_converse(t * len + j, len, t, j);
    assert(t * n_freq_bins + n_freq_bins <= n_time_frames * n_freq_bins) by (nonlinear_arith)
        requires 0 <= t, t + 1 <= n_time_frames, n_freq_bins > 0;
    assert(t * n_freq_bins >= 0) by (nonlinear_arith)
        requires 0 <= t, n_freq_bins > 0;
}

/// Builds the gather plan for a remapping of `n_time_frames` rows of
/// `n_freq_bins` linear bins onto `targets.len()` log bins per row.
pub fn log_remap_plan(targets: &Vec<usize>, n_freq_bins: usize, n_time_frames: usize)
    -> (plan: Vec<InterpSource>)
    requires
        n_freq_bins > 0,
        n_time_frames * targets@.len() <= usize::MAX,
        n_time_frames * n_freq_bins <= usize::MAX,
    ensures
        plan@ == remap_plan(targets@, n_freq_bins as int, n_time_frames as int),
        plan@.len() == n_time_frames * targets@.len(),
        forall|k: int| 0 <= k < plan@.len() ==> (#[trigger] plan@[k]).low <= plan@[k].high
            && plan@[k].high <= plan@[k].low + 1
            && plan@[k].high < n_time_frames * n_freq_bins,
{
    let ghost goal = remap_plan(targets@, n_freq_bins as int, n_time_frames as int);
    let n_log_bins: usize = targets.len();
    let mut plan: Vec<InterpSource> = Vec::new();
    let mut t: usize = 0;
    proof {
        assert(n_time_frames as int * n_log_bins as int >= 0) by (nonlinear_arith);
        assert(0 * n_log_bins as int == 0) by (nonlinear_arith);
    }
    while t < n_time_frames
        invariant
            n_freq_bins > 0,
            n_log_bins == targets@.len(),
            n_time_frames * n_log_bins <= usize::MAX,
            n_time_frames * n_freq_bins <= usize::MAX,
            t <= n_time_frames,
            goal == remap_plan(targets@, n_freq_bins as int, n_time_frames as int),
            goal.len() == n_time_frames as int * n_log_bins as int,
            plan@.len() == t as int * n_log_bins as int,
            forall|k: int| 0 <= k < plan@.len() ==> #[trigger] plan@[k] == goal[k],
            forall|k: int| 0 <= k < plan@.len() ==> (#[trigger] plan@[k]).low <= plan@[k].high
                && plan@[k].high <= plan@[k].low + 1
                && plan@[k].high < n_time_frames * n_freq_bins,
        decreases n_time_frames - t,
    {
        let mut j: usize = 0;
        proof {
            assert(t as int * n_log_bins as int + n_log_bins as int
                == (t as int + 1) * n_log_bins as int) by (nonlinear_arith);
            assert((t as int + 1) * n_log_bins as int
                <= n_time_frames as int * n_log_bins as int) by (nonlinear_arith)
                requires 0 <= t as int + 1 <= n_time_frames as int, n_log_bins as int >= 0;
            assert(t as int * n_freq_bins as int + n_freq_bins as int
                <= n_time_frames as int * n_freq_bins as int) by (nonlinear_arith)
                requires 0 <= t, (t as int) < n_time_frames as int, n_freq_bins > 0;
            assert(t as int * n_freq_bins as int >= 0) by (nonlinear_arith)
                requires 0 <= t;
        }
        let row: usize = t * n_freq_bins;
        while j < n_log_bins
            invariant
                n_freq_bins > 0,
                n_log_bins == targets@.len(),
                n_time_frames * n_freq_bins <= usize::MAX,
                t < n_time_frames,
                j <= n_log_bins,
                row as int == t as int * n_freq_bins as int,
                row as int + n_freq_bins as int <= n_time_frames as int * n_freq_bins as int,
                goal == remap_plan(targets@, n_freq_bins as int, n_time_frames as int),
                goal.len() == n_time_frames as int * n_log_bins as int,
                t as int * n_log_bins as int + n_log_bins as int <= goal.len(),
                plan@.len() == t as int * n_log_bins as int + j as int,
                forall|k: int| 0 <= k < plan@.len() ==> #[trigger] plan@[k] == goal[k],
                forall|k: int| 0 <= k < plan@.len() ==> (#[trigger] plan@[k]).low <= plan@[k].high
                    && plan@[k].high <= plan@[k].low + 1
                    && plan@[k].high < n_time_frames * n_freq_bins,
            decreases n_log_bins - j,
        {
            let target_bin: usize = targets[j];
            let low_bin: usize = if target_bin < n_freq_bins - 1 {
                target_bin
            } else {
                n_freq_bins - 1
            };
            let high_bin: usize = if target_bin < n_freq_bins - 1 {
                target_bin + 1
            } else {
                n_freq_bins - 1
            };
            let cell = InterpSource { low: row + low_bin, high: row + high_bin };
            proof {
                lemma_remap_plan_index(
                    targets@, n_freq_bins as int, n_time_frames as int, t as int, j as int);
                assert(cell == goal[t as int * n_log_bins as int + j as int]);
            }
            plan.push(cell);
            j = j + 1;
        }
        t = t + 1;
    }
    proof {
        assert(plan@ =~= goal);
    }
    plan
}

} // verus!

use vstd::prelude::*;

verus! {

/// One weight of a triangular mel filter, as an exact rational.
///
/// `Rise { num, den }` stands for the value `num / den` on the rising edge,
/// `Fall { num, den }` for `1 - num / den` on the falling edge, and `Zero`
/// for a bin outside the triangle. Denominators are positive and numerators
/// strictly smaller, so every weight lies in `[0, 1)` or equals `1` exactly
/// at the center bin.
#[derive(Clone, Copy, Debug, PartialEq, Eq, Structural)]
pub enum MelWeight {
    Zero,
    Rise { num: usize, den: usize },
    Fall { num: usize, den: usize },
}

/// Weight of the triangle with bin edges `(left, center, right)` at `bin`:
/// a linear ramp from 0 at `left` up to 1 at `center`, back down towards 0
/// at `right`, and zero outside `[left, right)`. A degenerate edge
/// (`center == left` or `right == center`) contributes no ramp at all, so
/// no division by a zero width ever arises.
pub open spec fn mel_weight(left: int, center: int, right: int, bin: int) -> MelWeight {
    if left <= bin && bin < center {
        MelWeight::Rise { num: (bin - left) as usize, den: (center - left) as usize }
    } else if center <= bin && bin < right {
        MelWeight::Fall { num: (bin - center) as usize, den: (right - center) as usize }
    } else {
        MelWeight::Zero
    }
}

/// The flattened filter bank, row-major: row `f` (of `n_mels`) has length
/// `n_bins` and holds the weights of the triangle spanned by the bin edges
/// `bins[f], bins[f + 1], bins[f + 2]`.
pub open spec fn mel_bank(bins: Seq<usize>, n_mels: int, n_bins: int) -> Seq<MelWeight>
    recommends
        bins.len() == n_mels + 2,
        n_mels >= 0,
        n_bins >= 0,
{
    Seq::new((n_mels * n_bins) as nat, |k: int|
        mel_weight(
            bins[k / n_bins] as int,
            bins[k / n_bins + 1] as int,
            bins[k / n_bins + 2] as int,
            k % n_bins,
        ))
}

/// Row-major addressing of the flattened bank: the entry at
/// `f * n_bins + b` is the weight of filter `f` at bin `b`.
pub proof fn lemma_mel_bank_index(bins: Seq<usize>, n_mels: int, n_bins: int, f: int, b: int)
    requires
        bins.len() == n_mels + 2,
        0 <= f < n_mels,
        0 <= b < n_bins,
    ensures
        mel_bank(bins, n_mels, n_bins).len() == n_mels * n_bins,
        mel_bank(bins, n_mels, n_bins)[f * n_bins + b]
            == mel_weight(bins[f] as int, bins[f + 1] as int, bins[f + 2] as int, b),
{
    let k = f * n_bins + b;
    assert(0 <= f * n_bins + b && f * n_bins + b < n_mels * n_bins) by (nonlinear_arith)
        requires 0 <= f < n_mels, 0 <= b < n_bins;
    vstd::arithmetic::div_mod::lemma_fundamental_div_mod_converse(k, n_bins, f, b);
}

/// Every filter weight is a valid rational in `[0, 1]`: either zero, or a
/// ratio with positive denominator and strictly smaller numerator. In
/// particular no weight is negative and no denominator is zero.
pub proof fn lemma_mel_weight_bounded(left: int, center: int, right: int, bin: int)
    requires
        0 <= left <= usize::MAX,
        0 <= center <= usize::MAX,
        0 <= right <= usize::MAX,
        0 <= bin,
    ensures
        (match mel_weight(left, center, right, bin) {
            MelWeight::Zero => true,
            MelWeight::Rise { num, den } => num < den,
            MelWeight::Fall { num, den } => num < den,
        }),
{
}

/// At the edge bins of a non-degenerate triangle the ramp takes its exact
/// endpoint values: the weight at `left` is the rational `0 / (center - left)`,
/// that is zero, and the weight at `center` is `1 - 0 / (right - center)`,
/// that is one.
pub proof fn lemma_mel_triangle_endpoints(left: int, center: int, right: int)
    requires
        0 <= left <= usize::MAX,
        0 <= center <= usize::MAX,
        0 <= right <= usize::MAX,
        left < center,
    ensures
        mel_weight(left, center, right, left)
            == (MelWeight::Rise { num: 0, den: (center - left) as usize }),
        center < right ==> mel_weight(left, center, right, center)
            == (MelWeight::Fall { num: 0, den: (right - center) as usize }),
{
}

/// Builds the flattened triangular filter bank from the `n_mels + 2`
/// integer bin edges, `n_bins` weights per filter.
pub fn mel_filter_bank_weights(bin_points: &Vec<usize>, n_mels: usize, n_bins: usize)
    -> (r: Vec<MelWeight>)
    requires
        bin_points@.len() == n_mels + 2,
        n_mels * n_bins <= usize::MAX,
    ensures
        r@ == mel_bank(bin_points@, n_mels as int, n_bins as int),
        r@.len() == n_mels * n_bins,
{
    let ghost target = mel_bank(bin_points@, n_mels as int, n_bins as int);
    let total_points: usize = bin_points.len();
    let mut r: Vec<MelWeight> = Vec::new();
    let mut f: usize = 0;
    proof {
        assert(n_mels as int * n_bins as int >= 0) by (nonlinear_arith);
        assert(0 * n_bins as int == 0) by (nonlinear_arith);
    }
    while f < n_mels
        invariant
            bin_points@.len() == n_mels + 2,
            total_points == n_mels + 2,
            n_mels * n_bins <= usize::MAX,
            f <= n_mels,
            target == mel_bank(bin_points@, n_mels as int, n_bins as int),
            target.len() == n_mels as int * n_bins as int,
            r@.len() == f as int * n_bins as int,
            forall|k: int| 0 <= k < r@.len() ==> #[trigger] r@[k] == target[k],
        decreases n_mels - f,
    {
        let left: usize = bin_points[f];
        let center: usize = bin_points[f + 1];
        let right: usize = bin_points[f + 2];
        let mut b: usize = 0;
        proof {
            assert(f as int * n_bins as int + n_bins as int == (f as int + 1) * n_bins as int)
                by (nonlinear_arith);
            assert((f as int + 1) * n_bins as int <= n_mels as int * n_bins as int)
                by (nonlinear_arith)
                requires 0 <= f as int + 1 <= n_mels as int, n_bins as int >= 0;
        }
        while b < n_bins
            invariant
                bin_points@.len() == n_mels + 2,
                f < n_mels,
                b <= n_bins,
                left == bin_points@[f as int],
                center == bin_points@[f as int + 1],
                right == bin_points@[f as int + 2],
                target == mel_bank(bin_points@, n_mels as int, n_bins as int),
                target.len() == n_mels as int * n_bins as int,
                f as int * n_bins as int + n_bins as int <= target.len(),
                r@.len() == f as int * n_bins as int + b as int,
                forall|k: int| 0 <= k < r@.len() ==> #[trigger] r@[k] == target[k],
            decreases n_bins - b,
        {
            let w: MelWeight = if left <= b && b < center {
                MelWeight::Rise { num: b - left, den: center - left }
            } else if center <= b && b < right {
                MelWeight::Fall { num: b - center, den: right - center }
            } else {
                MelWeight::Zero
            };
            proof {
                lemma_mel_bank_index(bin_points@, n_mels as int, n_bins as int, f as int, b as int);
                assert(w == target[f as int * n_bins as int + b as int]);
            }
            r.push(w);
            b = b + 1;
        }
        f = f + 1;
    }
    proof {
        assert(r@ =~= target);
    }
    r
}

} // verus!

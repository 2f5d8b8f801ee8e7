use vstd::prelude::*;

verus! {

/// Shape of the analysis window applied to each frame before the transform.
///
/// The numeric coefficients are transcendental and live outside the verified
/// core; this closed enumeration is the policy value the pipeline dispatches on.
#[derive(Clone, Copy, Debug, PartialEq, Eq, Structural)]
pub enum WindowType {
    Hann,
    Hamming,
    Blackman,
}

/// Number of frames cut from a signal of length `len` with hop `hop`:
/// the ceiling of `len / hop`.
pub open spec fn frame_count(len: nat, hop: nat) -> nat
    recommends
        hop > 0,
{
    (((len + hop - 1) as int) / (hop as int)) as nat
}

/// Number of non-negative-frequency bins kept from a transform of size
/// `n_fft`: `n_fft / 2 + 1`.
pub open spec fn spec_bin_count(n_fft: nat) -> nat {
    n_fft / 2 + 1
}

/// Computes `n_fft / 2 + 1`, the length of one magnitude spectrum.
pub fn bin_count(n_fft: usize) -> (r: usize)
    ensures
        r == spec_bin_count(n_fft as nat),
{
    proof {
        vstd::arithmetic::div_mod::lemma_div_is_ordered(
            n_fft as int, usize::MAX as int, 2);
    }
    n_fft / 2 + 1
}

/// Computes the frame count `ceil(len / hop)` without overflow.
pub fn num_frames(len: usize, hop: usize) -> (r: usize)
    requires
        hop > 0,
    ensures
        r == frame_count(len as nat, hop as nat),
{
    if len == 0 {
        proof {
            vstd::arithmetic::div_mod::lemma_fundamental_div_mod_converse(
                (hop - 1) as int, hop as int, 0, (hop - 1) as int);
        }
        0
    } else {
        let q: usize = (len - 1) / hop;
        proof {
            vstd::arithmetic::div_mod::lemma_fundamental_div_mod((len - 1) as int, hop as int);
            vstd::arithmetic::div_mod::lemma_mod_bound((len - 1) as int, hop as int);
            let r0 = (len - 1) as int % hop as int;
            assert((len + hop - 1) as int == (q as int + 1) * hop as int + r0) by (nonlinear_arith)
                requires (len - 1) as int == hop as int * q as int + r0;
            vstd::arithmetic::div_mod::lemma_fundamental_div_mod_converse(
                (len + hop - 1) as int, hop as int, q as int + 1, r0);
        }
        q + 1
    }
}

/// One frame of the short-time analysis: where it starts in the signal and
/// how many samples it contributes before zero padding fills the rest of the
/// `n_fft`-sized transform buffer.
#[derive(Clone, Copy, Debug, PartialEq, Eq, Structural)]
pub struct Frame {
    pub start: usize,
    pub copy_len: usize,
}

/// The frame count is the least number of hops that covers the signal:
/// `frame_count(len, hop)` hops reach to or past the end, one hop fewer
/// falls short, and the count is zero exactly for the empty signal.
pub proof fn lemma_frame_count_covers(len: nat, hop: nat)
    requires
        hop > 0,
    ensures
        frame_count(len, hop) * hop >= len,
        len > 0 ==> (frame_count(len, hop) - 1) * hop < len,
        frame_count(len, hop) == 0 <==> len == 0,
{
    let d = hop as int;
    let x = (len + hop - 1) as int;
    vstd::arithmetic::div_mod::lemma_fundamental_div_mod(x, d);
    vstd::arithmetic::div_mod::lemma_mod_bound(x, d);
    vstd::arithmetic::div_mod::lemma_div_pos_is_pos(x, d);
    let q = x / d;
    let r = x % d;
    assert(q * d == d * q) by (nonlinear_arith);
    assert((q - 1) * d == d * q - d) by (nonlinear_arith);
    if len == 0 {
        vstd::arithmetic::div_mod::lemma_fundamental_div_mod_converse(x, d, 0, x);
    } else {
        assert(q > 0) by (nonlinear_arith)
            requires d * q > 0, d > 0;
    }
}

/// Cuts the signal of length `len` into frames: one start every `hop`
/// samples while starts remain inside the signal, each frame copying
/// `min(n_fft, len - start)` samples and zero-padding the rest.
pub fn frame_plan(len: usize, hop: usize, n_fft: usize) -> (plan: Vec<Frame>)
    requires
        hop > 0,
    ensures
        plan@.len() == frame_count(len as nat, hop as nat),
        forall|i: int| 0 <= i < plan@.len() ==> (#[trigger] plan@[i]).start == i * hop as int,
        forall|i: int| 0 <= i < plan@.len() ==> (#[trigger] plan@[i]).start < len,
        forall|i: int| 0 <= i < plan@.len() ==> (#[trigger] plan@[i]).copy_len == (
            if len - plan@[i].start < n_fft as int { len - plan@[i].start } else { n_fft as int }
        ),
{
    let total: usize = num_frames(len, hop);
    proof {
        lemma_frame_count_covers(len as nat, hop as nat);
    }
    let mut plan: Vec<Frame> = Vec::new();
    let mut k: usize = 0;
    while k < total
        invariant
            hop > 0,
            total == frame_count(len as nat, hop as nat),
            total > 0 ==> ((total - 1) * hop as int) < (len as int),
            k <= total,
            plan@.len() == k,
            forall|i: int| 0 <= i < plan@.len() ==> (#[trigger] plan@[i]).start == i * hop as int,
            forall|i: int| 0 <= i < plan@.len() ==> (#[trigger] plan@[i]).start < len,
            forall|i: int| 0 <= i < plan@.len() ==> (#[trigger] plan@[i]).copy_len == (
                if len - plan@[i].start < n_fft as int { len - plan@[i].start } else { n_fft as int }
            ),
        decreases total - k,
    {
        proof {
            assert(k as int * hop as int <= (total - 1) * hop as int) by (nonlinear_arith)
                requires 0 <= k as int <= total as int - 1, hop as int >= 0;
        }
        let start: usize = k * hop;
        let copy_len: usize = if len - start < n_fft { len - start } else { n_fft };
        plan.push(Frame { start, copy_len });
        k = k + 1;
    }
    plan
}

/// Length of the flattened output of one full analysis pass:
/// `frame_count` spectra of `n_fft / 2 + 1` magnitudes each, frame-major.
pub fn spectrum_len(len: usize, hop: usize, n_fft: usize) -> (r: usize)
    requires
        hop > 0,
        frame_count(len as nat, hop as nat) * spec_bin_count(n_fft as nat) <= usize::MAX,
    ensures
        r == frame_count(len as nat, hop as nat) * spec_bin_count(n_fft as nat),
{
    let frames: usize = num_frames(len, hop);
    let bins: usize = bin_count(n_fft);
    frames * bins
}

/// Integer state of one short-time transform processor: transform size,
/// hop between frame starts, and the window shape, kept under the validity
/// bounds the rest of the pipeline relies on. The numeric window
/// coefficients and the transform itself live with the host; every layout
/// decision of the processor is made here.
#[derive(Clone, Copy, Debug)]
pub struct StftLayout {
    n_fft: usize,
    hop_length: usize,
    window: WindowType,
}

impl StftLayout {
    /// Size of the transform, and with it of every zero-padded frame.
    pub closed spec fn spec_n_fft(&self) -> usize {
        self.n_fft
    }

    /// Offset between consecutive frame starts.
    pub closed spec fn spec_hop_length(&self) -> usize {
        self.hop_length
    }

    /// The window shape the host applies to each frame.
    pub closed spec fn spec_window(&self) -> WindowType {
        self.window
    }

    /// Both sizes are positive; constructors establish this and every
    /// method keeps it.
    pub open spec fn wf(&self) -> bool {
        self.spec_n_fft() > 0 && self.spec_hop_length() > 0
    }

    pub fn new(n_fft: usize, hop_length: usize, window: WindowType) -> (r: Self)
        requires
            n_fft > 0,
            hop_length > 0,
        ensures
            r.wf(),
            r.spec_n_fft() == n_fft,
            r.spec_hop_length() == hop_length,
            r.spec_window() == window,
    {
        StftLayout { n_fft, hop_length, window }
    }

    pub fn n_fft(&self) -> (r: usize)
        ensures
            r == self.spec_n_fft(),
    {
        self.n_fft
    }

    pub fn hop_length(&self) -> (r: usize)
        ensures
            r == self.spec_hop_length(),
    {
        self.hop_length
    }

    pub fn window(&self) -> (r: WindowType)
        ensures
            r == self.spec_window(),
    {
        self.window
    }

    /// Length of one magnitude spectrum under this layout.
    pub fn bin_count(&self) -> (r: usize)
        ensures
            r == spec_bin_count(self.spec_n_fft() as nat),
    {
        bin_count(self.n_fft)
    }

    /// Frame count for a signal of length `len`.
    pub fn num_frames(&self, len: usize) -> (r: usize)
        requires
            self.wf(),
        ensures
            r == frame_count(len as nat, self.spec_hop_length() as nat),
    {
        num_frames(len, self.hop_length)
    }

    /// The frame cut of a signal of length `len` under this layout.
    pub fn frame_plan(&self, len: usize) -> (plan: Vec<Frame>)
        requires
            self.wf(),
        ensures
            plan@.len() == frame_count(len as nat, self.spec_hop_length() as nat),
            forall|i: int| 0 <= i < plan@.len()
                ==> (#[trigger] plan@[i]).start == i * self.spec_hop_length() as int,
            forall|i: int| 0 <= i < plan@.len() ==> (#[trigger] plan@[i]).start < len,
            forall|i: int| 0 <= i < plan@.len() ==> (#[trigger] plan@[i]).copy_len == (
                if len - plan@[i].start < self.spec_n_fft() as int {
                    len - plan@[i].start
                } else {
                    self.spec_n_fft() as int
                }
            ),
    {
        frame_plan(len, self.hop_length, self.n_fft)
    }

    /// Length of the flattened output for a signal of length `len`.
    pub fn output_len(&self, len: usize) -> (r: usize)
        requires
            self.wf(),
            frame_count(len as nat, self.spec_hop_length() as nat)
                * spec_bin_count(self.spec_n_fft() as nat) <= usize::MAX,
        ensures
            r == frame_count(len as nat, self.spec_hop_length() as nat)
                * spec_bin_count(self.spec_n_fft() as nat),
    {
        spectrum_len(len, self.hop_length, self.n_fft)
    }
}

} // verus!

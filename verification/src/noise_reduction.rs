use vstd::prelude::*;

verus! {

/// Copies a spectrum buffer element by element.
fn copy_words(src: &Vec<u32>) -> (r: Vec<u32>)
    ensures
        r@ == src@,
{
    let mut r: Vec<u32> = Vec::new();
    let mut i: usize = 0;
    while i < src.len()
        invariant
            i <= src@.len(),
            r@ == src@.subrange(0, i as int),
        decreases src@.len() - i,
    {
        r.push(src[i]);
        i = i + 1;
        proof {
            assert(r@ =~= src@.subrange(0, i as int));
        }
    }
    proof {
        assert(r@ =~= src@);
    }
    r
}

/// Single-snapshot spectral-subtraction state: one noise magnitude
/// template, fully overwritten on each estimation call and never merged or
/// averaged.
///
/// Magnitudes are carried as the raw 32-bit words of the host's
/// single-precision values. This module never interprets them numerically;
/// it stores them, compares lengths, and hands them back, which is exactly
/// the part of the reducer that decides between pass-through and
/// subtraction.
pub struct SpectralSubtraction {
    noise_spectrum: Vec<u32>,
}

impl SpectralSubtraction {
    /// The stored noise template.
    pub closed spec fn template(&self) -> Seq<u32> {
        self.noise_spectrum@
    }

    /// A fresh reducer holds no noise template.
    pub fn new() -> (r: Self)
        ensures
            r.template() == Seq::<u32>::empty(),
    {
        let r = SpectralSubtraction { noise_spectrum: Vec::new() };
        proof {
            assert(r.template() =~= Seq::<u32>::empty());
        }
        r
    }

    /// Replaces the template with a verbatim copy of the segment; an empty
    /// segment is a no-op that leaves the template untouched.
    pub fn estimate_noise(&mut self, noise_segment: &Vec<u32>)
        ensures
            final(self).template() == (if noise_segment@.len() == 0 {
                old(self).template()
            } else {
                noise_segment@
            }),
    {
        if noise_segment.len() == 0 {
            return;
        }
        self.noise_spectrum = copy_words(noise_segment);
    }

    /// The fail-closed gate of the reduction: when the template is absent
    /// or its length differs from the spectrum's, reduction must pass the
    /// spectrum through unchanged, and this returns that unchanged copy.
    /// It returns `None` exactly when the template applies, bin for bin,
    /// and the subtraction step may proceed.
    pub fn reduce_passthrough(&self, magnitude_spectrum: &Vec<u32>) -> (r: Option<Vec<u32>>)
        ensures
            (match r {
                Option::Some(out) => out@ == magnitude_spectrum@
                    && (self.template().len() == 0
                        || self.template().len() != magnitude_spectrum@.len()),
                Option::None => self.template().len() == magnitude_spectrum@.len()
                    && self.template().len() != 0,
            }),
    {
        if self.noise_spectrum.len() == 0 || self.noise_spectrum.len() != magnitude_spectrum.len() {
            Option::Some(copy_words(magnitude_spectrum))
        } else {
            Option::None
        }
    }

    /// Read access to the template for the subtraction step itself.
    pub fn noise_template(&self) -> (r: &Vec<u32>)
        ensures
            r@ == self.template(),
    {
        &self.noise_spectrum
    }
}

} // verus!

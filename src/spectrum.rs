//! Spectral features of an analysis window: the magnitude spectrum, its peak
//! bin and the amplitude-weighted mean frequency (spectral centroid).
use rustfft::num_complex::Complex32;
use rustfft::num_traits::Zero;
use rustfft::FftPlannerScalar;
use vstd::arithmetic::div_mod::{lemma_div_is_ordered, lemma_div_multiples_vanish};
use vstd::prelude::*;

verus! {

/// Magnitude of every bin of the forward FFT of a window, rounded down.
pub uninterp spec fn fft_magnitudes_of(window: Seq<i16>) -> Seq<u32>;

/// Every sample of the window is zero.
pub open spec fn is_silent(window: Seq<i16>) -> bool {
    forall|i: int| 0 <= i < window.len() ==> window[i] == 0
}

/// The non-mirrored half of a full spectrum of `n` bins: bins `0 ..= n / 2`.
pub open spec fn half_spectrum(bins: Seq<u32>) -> Seq<u32> {
    if bins.len() == 0 {
        Seq::empty()
    } else {
        bins.take((bins.len() / 2 + 1) as int)
    }
}

/// Sum of the amplitudes.
pub open spec fn amplitude_sum(s: Seq<u32>) -> nat
    decreases s.len(),
{
    if s.len() == 0 {
        0
    } else {
        amplitude_sum(s.drop_last()) + (s.last() as nat)
    }
}

/// Sum over the bins of bin index times amplitude.
pub open spec fn weighted_bin_sum(s: Seq<u32>) -> nat
    decreases s.len(),
{
    if s.len() == 0 {
        0
    } else {
        weighted_bin_sum(s.drop_last()) + ((s.len() - 1) as nat) * (s.last() as nat)
    }
}

/// The frequency of bin `bin` of a window of `window_size` samples, rounded down.
pub open spec fn bin_frequency_of(bin: nat, window_size: nat, sample_rate: nat) -> nat {
    bin * sample_rate / window_size
}

/// The amplitude-weighted mean frequency `sum(freq_i * amp_i) / sum(amp_i)`
/// with `freq_i = i * sample_rate / window_size`, rounded down; zero for a
/// silent spectrum.
pub open spec fn centroid_of(spectrum: Seq<u32>, window_size: nat, sample_rate: nat) -> nat {
    if window_size == 0 || amplitude_sum(spectrum) == 0 {
        0
    } else {
        (weighted_bin_sum(spectrum) * sample_rate) / (window_size * amplitude_sum(spectrum))
    }
}

/// Bin `b` has the largest amplitude, and no earlier bin reaches it.
pub open spec fn is_peak(spectrum: Seq<u32>, b: int) -> bool {
    &&& 0 <= b < spectrum.len()
    &&& forall|j: int| 0 <= j < spectrum.len() ==> spectrum[j] <= spectrum[b]
    &&& forall|j: int| 0 <= j < b ==> spectrum[j] < spectrum[b]
}

/// Relies on rustfft's scalar forward FFT (`FftPlannerScalar::plan_fft_forward`,
/// `Fft::process`) and on num-complex's `Complex::norm` for each bin's
/// magnitude. The transform keeps the length and is linear, so a silent window
/// gives zero in every bin.
#[verifier::external_body]
fn fft_magnitudes(window: &[i16]) -> (r: Vec<u32>)
    requires
        window@.len() > 0,
    ensures
        r@ == fft_magnitudes_of(window@),
        r@.len() == window@.len(),
        is_silent(window@) ==> forall|k: int| 0 <= k < r@.len() ==> r@[k] == 0,
{
    let mut buffer: Vec<Complex32> = window.iter().map(
        |s| Complex32 { re: (*s).into(), im: Zero::zero() },
    ).collect();
    FftPlannerScalar::new().plan_fft_forward(buffer.len()).process(&mut buffer);
    buffer.iter().map(|c| c.norm() as u32).collect()
}

/// The magnitude spectrum of a window of `n` samples: bins `0 ..= n / 2` of its
/// forward FFT. Bin `i` stands for frequency `i * sample_rate / n`.
pub fn magnitude_spectrum(window: &[i16]) -> (r: Vec<u32>)
    ensures
        window@.len() == 0 ==> r@.len() == 0,
        window@.len() > 0 ==> r@ == half_spectrum(fft_magnitudes_of(window@)),
        window@.len() > 0 ==> r@.len() == window@.len() / 2 + 1,
        is_silent(window@) ==> forall|k: int| 0 <= k < r@.len() ==> r@[k] == 0,
{
    if window.len() == 0 {
        return Vec::new();
    }
    let bins = fft_magnitudes(window);
    let half = window.len() / 2 + 1;
    let mut r: Vec<u32> = Vec::with_capacity(half);
    let mut i: usize = 0;
    while i < half
        invariant
            half == bins@.len() / 2 + 1,
            half <= bins@.len(),
            i <= half,
            r@ == bins@.take(i as int),
        decreases half - i,
    {
        r.push(bins[i]);
        i = i + 1;
        assert(r@ =~= bins@.take(i as int));
    }
    r
}

proof fn lemma_sums_bound(s: Seq<u32>)
    ensures
        amplitude_sum(s) <= s.len() * (u32::MAX as nat),
        weighted_bin_sum(s) <= s.len() * amplitude_sum(s),
    decreases s.len(),
{
    if s.len() > 0 {
        let t = s.drop_last();
        lemma_sums_bound(t);
        let n = s.len();
        let a = s.last() as nat;
        assert(amplitude_sum(s) <= n * (u32::MAX as nat)) by (nonlinear_arith)
            requires
                amplitude_sum(s) == amplitude_sum(t) + a,
                amplitude_sum(t) <= (n - 1) * (u32::MAX as nat),
                a <= u32::MAX,
                n >= 1,
        ;
        assert(weighted_bin_sum(s) <= n * amplitude_sum(s)) by (nonlinear_arith)
            requires
                weighted_bin_sum(s) == weighted_bin_sum(t) + (n - 1) * a,
                weighted_bin_sum(t) <= (n - 1) * amplitude_sum(t),
                amplitude_sum(s) == amplitude_sum(t) + a,
                n >= 1,
        ;
    }
}

/// The spectral centroid of a magnitude spectrum taken from a window of
/// `window_size` samples at `sample_rate` Hz, in Hz rounded down. A silent
/// spectrum has centroid zero rather than a division by zero.
pub fn spectral_centroid(spectrum: &[u32], window_size: usize, sample_rate: u32) -> (r: u64)
    requires
        spectrum@.len() <= u32::MAX,
        window_size <= u32::MAX,
    ensures
        r == centroid_of(spectrum@, window_size as nat, sample_rate as nat),
{
    let n = spectrum.len();
    let mut total: u128 = 0;
    let mut weighted: u128 = 0;
    let mut i: usize = 0;
    while i < n
        invariant
            n == spectrum@.len(),
            n <= u32::MAX,
            i <= n,
            total == amplitude_sum(spectrum@.take(i as int)),
            weighted == weighted_bin_sum(spectrum@.take(i as int)),
        decreases n - i,
    {
        proof {
            lemma_sums_bound(spectrum@.take(i as int));
            let ai = total as nat;
            assert(ai * (i as nat) <= (u32::MAX as nat) * (u32::MAX as nat) * (u32::MAX as nat))
                by (nonlinear_arith)
                requires
                    ai <= (i as nat) * (u32::MAX as nat),
                    i <= u32::MAX,
            ;
            assert(spectrum@.take(i + 1).drop_last() =~= spectrum@.take(i as int));
            let m = u32::MAX as nat;
            let a = spectrum@[i as int] as nat;
            let w = weighted as nat;
            assert(w + (i as nat) * a <= m * m * m + m * m) by (nonlinear_arith)
                requires
                    w <= (i as nat) * (total as nat),
                    total <= (i as nat) * m,
                    i <= m,
                    a <= m,
            ;
            assert((i as nat) * a <= m * m) by (nonlinear_arith)
                requires
                    i <= m,
                    a <= m,
            ;
            assert(m * m * m + m * m < u128::MAX);
        }
        let a = spectrum[i];
        total = total + a as u128;
        weighted = weighted + (i as u128) * (a as u128);
        i = i + 1;
    }
    assert(spectrum@.take(n as int) =~= spectrum@);
    if window_size == 0 || total == 0 {
        return 0;
    }
    proof {
        lemma_sums_bound(spectrum@);
        let w = weighted as nat;
        let t = total as nat;
        let m = u32::MAX as nat;
        assert(w * (sample_rate as nat) <= m * m * m * m) by (nonlinear_arith)
            requires
                t <= (n as nat) * m,
                w <= (n as nat) * t,
                n <= m,
                sample_rate <= m,
        ;
        assert(m * m * m * m < u128::MAX);
        assert((window_size as nat) * t <= m * m * m) by (nonlinear_arith)
            requires
                t <= (n as nat) * m,
                n <= m,
                window_size <= m,
        ;
        let d = (window_size as nat) * t;
        let bound = (n as nat) * (sample_rate as nat);
        let x = w * (sample_rate as nat);
        assert(d > 0) by (nonlinear_arith)
            requires
                d == (window_size as nat) * t,
                window_size >= 1,
                t >= 1,
        ;
        assert(x <= (n as nat) * t * (sample_rate as nat)) by (nonlinear_arith)
            requires
                w <= (n as nat) * t,
                x == w * (sample_rate as nat),
        ;
        assert((n as nat) * t * (sample_rate as nat) <= d * bound) by (nonlinear_arith)
            requires
                d == (window_size as nat) * t,
                bound == (n as nat) * (sample_rate as nat),
                window_size >= 1,
        ;
        lemma_div_is_ordered(x as int, (d * bound) as int, d as int);
        lemma_div_multiples_vanish(bound as int, d as int);
        assert(bound <= m * m) by (nonlinear_arith)
            requires
                n <= m,
                sample_rate <= m,
                bound == (n as nat) * (sample_rate as nat),
        ;
        assert(m * m < u64::MAX);
    }
    let r = (weighted * (sample_rate as u128)) / ((window_size as u128) * total);
    r as u64
}

/// The first bin of largest amplitude; `None` for an empty spectrum.
pub fn peak_bin(spectrum: &[u32]) -> (r: Option<usize>)
    ensures
        spectrum@.len() == 0 <==> r is None,
        r matches Some(b) ==> is_peak(spectrum@, b as int),
{
    if spectrum.len() == 0 {
        return None;
    }
    let mut best: usize = 0;
    let mut i: usize = 1;
    while i < spectrum.len()
        invariant
            spectrum@.len() > 0,
            best < i <= spectrum@.len(),
            forall|j: int| 0 <= j < i ==> spectrum@[j] <= spectrum@[best as int],
            forall|j: int| 0 <= j < best ==> spectrum@[j] < spectrum@[best as int],
        decreases spectrum@.len() - i,
    {
        if spectrum[i] > spectrum[best] {
            best = i;
        }
        i = i + 1;
    }
    Some(best)
}

/// The frequency in Hz, rounded down, that bin `bin` of a window of
/// `window_size` samples at `sample_rate` Hz stands for.
pub fn bin_frequency(bin: usize, window_size: usize, sample_rate: u32) -> (r: u64)
    requires
        window_size > 0,
        bin <= window_size,
    ensures
        r == bin_frequency_of(bin as nat, window_size as nat, sample_rate as nat),
        r <= sample_rate,
{
    proof {
        let x = (bin as nat) * (sample_rate as nat);
        let y = (window_size as nat) * (sample_rate as nat);
        assert(x <= y) by (nonlinear_arith)
            requires
                bin <= window_size,
                x == (bin as nat) * (sample_rate as nat),
                y == (window_size as nat) * (sample_rate as nat),
        ;
        assert(x <= (u64::MAX as nat) * (u32::MAX as nat)) by (nonlinear_arith)
            requires
                bin <= u64::MAX,
                sample_rate <= u32::MAX,
                x == (bin as nat) * (sample_rate as nat),
        ;
        assert((u64::MAX as nat) * (u32::MAX as nat) < u128::MAX);
        lemma_div_is_ordered(x as int, y as int, window_size as int);
        assert(y == (sample_rate as nat) * (window_size as nat)) by (nonlinear_arith)
            requires
                y == (window_size as nat) * (sample_rate as nat),
        ;
        lemma_div_multiples_vanish(sample_rate as int, window_size as int);
    }
    let r = ((bin as u128) * (sample_rate as u128)) / (window_size as u128);
    r as u64
}

/// Which feature the extractor reduces a window to; fixed when it is built.
#[derive(Clone, Copy, Debug, PartialEq, Eq, Structural)]
pub enum FeatureMode {
    /// The magnitude spectrum, one value per bin.
    Spectrum,
    /// The spectral centroid in Hz.
    Centroid,
}

/// What one analysis window is reduced to.
#[derive(Debug)]
pub enum SpectralFeature {
    Spectrum(Vec<u32>),
    Centroid(u64),
}

/// `f` is the feature of kind `mode` for the magnitude spectrum `spectrum` of a
/// window of `window_size` samples at `sample_rate` Hz.
pub open spec fn feature_matches(
    mode: FeatureMode,
    f: SpectralFeature,
    spectrum: Seq<u32>,
    window_size: nat,
    sample_rate: nat,
) -> bool {
    match f {
        SpectralFeature::Spectrum(v) => mode == FeatureMode::Spectrum && v@ == spectrum,
        SpectralFeature::Centroid(c) => mode == FeatureMode::Centroid && c == centroid_of(
            spectrum,
            window_size,
            sample_rate,
        ),
    }
}

/// The feature of a silent window: zero in every bin, or a zero centroid.
pub open spec fn is_zero_feature(f: SpectralFeature) -> bool {
    match f {
        SpectralFeature::Spectrum(v) => forall|k: int| 0 <= k < v@.len() ==> v@[k] == 0,
        SpectralFeature::Centroid(c) => c == 0,
    }
}

proof fn lemma_silent_spectrum_sum(s: Seq<u32>)
    requires
        forall|k: int| 0 <= k < s.len() ==> s[k] == 0,
    ensures
        amplitude_sum(s) == 0,
    decreases s.len(),
{
    if s.len() > 0 {
        lemma_silent_spectrum_sum(s.drop_last());
    }
}

/// Reduces analysis windows of a configured size to a spectral feature.
pub struct SpectralFeatureExtractor {
    pub mode: FeatureMode,
    pub window_size: usize,
    pub sample_rate: u32,
}

impl SpectralFeatureExtractor {
    pub open spec fn wf(&self) -> bool {
        0 < self.window_size <= u32::MAX
    }

    pub fn new(mode: FeatureMode, window_size: usize, sample_rate: u32) -> (r: Self)
        requires
            0 < window_size <= u32::MAX,
        ensures
            r.wf(),
            r.mode == mode,
            r.window_size == window_size,
            r.sample_rate == sample_rate,
    {
        SpectralFeatureExtractor { mode, window_size, sample_rate }
    }

    /// The feature of the first `window_size` samples of `window`. A chunk
    /// shorter than the configured window is skipped: the result is `None`.
    pub fn extract(&self, window: &[i16]) -> (r: Option<SpectralFeature>)
        requires
            self.wf(),
        ensures
            window@.len() < self.window_size <==> r is None,
            r matches Some(f) ==> feature_matches(
                self.mode,
                f,
                half_spectrum(fft_magnitudes_of(window@.take(self.window_size as int))),
                self.window_size as nat,
                self.sample_rate as nat,
            ),
            r matches Some(f) ==> (is_silent(window@.take(self.window_size as int))
                ==> is_zero_feature(f)),
    {
        if window.len() < self.window_size {
            return None;
        }
        let mut frame: Vec<i16> = Vec::with_capacity(self.window_size);
        let mut i: usize = 0;
        while i < self.window_size
            invariant
                self.window_size <= window@.len(),
                i <= self.window_size,
                frame@ == window@.take(i as int),
            decreases self.window_size - i,
        {
            frame.push(window[i]);
            i = i + 1;
            assert(frame@ =~= window@.take(i as int));
        }
        let spectrum = magnitude_spectrum(frame.as_slice());
        match self.mode {
            FeatureMode::Spectrum => Some(SpectralFeature::Spectrum(spectrum)),
            FeatureMode::Centroid => {
                proof {
                    if is_silent(frame@) {
                        lemma_silent_spectrum_sum(spectrum@);
                    }
                }
                let c = spectral_centroid(spectrum.as_slice(), self.window_size, self.sample_rate);
                Some(SpectralFeature::Centroid(c))
            },
        }
    }
}

} // verus!

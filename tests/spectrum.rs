use audio_visualizer::spectrum::{
    bin_frequency, magnitude_spectrum, peak_bin, spectral_centroid, FeatureMode, SpectralFeature,
    SpectralFeatureExtractor,
};

fn sine(freq: f64, rate: f64, n: usize, amplitude: f64) -> Vec<i16> {
    (0..n)
        .map(|i| (amplitude * (2.0 * std::f64::consts::PI * freq * i as f64 / rate).sin()).round() as i16)
        .collect()
}

fn spectrum_of(extractor: &SpectralFeatureExtractor, window: &[i16]) -> Vec<u32> {
    match extractor.extract(window) {
        Some(SpectralFeature::Spectrum(v)) => v,
        other => panic!("expected a spectrum, got {:?}", other),
    }
}

#[test]
fn sine_440_peaks_at_bin_10() {
    let extractor = SpectralFeatureExtractor::new(FeatureMode::Spectrum, 1024, 44100);
    let window = sine(440.0, 44100.0, 1024, 16000.0);
    let spectrum = spectrum_of(&extractor, &window);
    assert_eq!(spectrum.len(), 513);
    assert_eq!(peak_bin(&spectrum), Some(10));
}

#[test]
fn sine_peak_within_one_bin() {
    for &(freq, n) in &[(1000.0, 2048usize), (2500.0, 1024), (5000.0, 1411), (300.0, 4096), (12000.0, 3150)] {
        let extractor = SpectralFeatureExtractor::new(FeatureMode::Spectrum, n, 44100);
        let spectrum = spectrum_of(&extractor, &sine(freq, 44100.0, n, 12000.0));
        let peak = peak_bin(&spectrum).unwrap();
        let found = bin_frequency(peak, n, 44100) as f64;
        let resolution = 44100.0 / n as f64;
        assert!((found - freq).abs() <= resolution, "freq {} n {} found {}", freq, n, found);
    }
}

#[test]
fn silent_windows_give_zero_features() {
    for &n in &[1usize, 2, 3, 7, 8, 100, 256, 1000, 1024, 1411] {
        let window = vec![0i16; n];
        let spectrum_mode = SpectralFeatureExtractor::new(FeatureMode::Spectrum, n, 44100);
        let spectrum = spectrum_of(&spectrum_mode, &window);
        assert_eq!(spectrum.len(), n / 2 + 1);
        assert!(spectrum.iter().all(|&m| m == 0));
        let centroid_mode = SpectralFeatureExtractor::new(FeatureMode::Centroid, n, 44100);
        match centroid_mode.extract(&window) {
            Some(SpectralFeature::Centroid(c)) => assert_eq!(c, 0),
            other => panic!("expected a centroid, got {:?}", other),
        }
    }
}

#[test]
fn short_chunk_is_skipped() {
    let extractor = SpectralFeatureExtractor::new(FeatureMode::Centroid, 1024, 44100);
    assert!(extractor.extract(&vec![1i16; 1023]).is_none());
    assert!(extractor.extract(&[]).is_none());
    assert!(extractor.extract(&vec![1i16; 1024]).is_some());
}

#[test]
fn longer_chunk_uses_its_first_window() {
    let extractor = SpectralFeatureExtractor::new(FeatureMode::Spectrum, 4, 44100);
    let spectrum = spectrum_of(&extractor, &[1, 1, 1, 1, 9, 9]);
    assert_eq!(spectrum, vec![4, 0, 0]);
}

#[test]
fn spectrum_of_constant_and_impulse() {
    assert_eq!(magnitude_spectrum(&[1, 1, 1, 1]), vec![4, 0, 0]);
    assert_eq!(magnitude_spectrum(&[3, 0, 0, 0, 0]), vec![3, 3, 3]);
    assert_eq!(magnitude_spectrum(&[]), Vec::<u32>::new());
}

#[test]
fn centroid_exact_values() {
    assert_eq!(spectral_centroid(&[0, 1, 0, 0], 8, 800), 100);
    assert_eq!(spectral_centroid(&[2, 0, 2], 4, 44100), 11025);
    assert_eq!(spectral_centroid(&[1, 1, 1], 4, 44100), 11025);
    assert_eq!(spectral_centroid(&[5, 0, 0], 4, 44100), 0);
    assert_eq!(spectral_centroid(&[0, 0, 0], 4, 44100), 0);
    assert_eq!(spectral_centroid(&[1, 2], 0, 44100), 0);
    assert_eq!(spectral_centroid(&[], 4, 44100), 0);
    assert_eq!(spectral_centroid(&[u32::MAX, u32::MAX], 2, u32::MAX), 1073741823);
}

#[test]
fn centroid_mode_of_a_window() {
    let extractor = SpectralFeatureExtractor::new(FeatureMode::Centroid, 4, 44100);
    match extractor.extract(&[1, 1, 1, 1]) {
        Some(SpectralFeature::Centroid(c)) => assert_eq!(c, 0),
        other => panic!("expected a centroid, got {:?}", other),
    }
    match extractor.extract(&[3, 0, 0, 0]) {
        Some(SpectralFeature::Centroid(c)) => assert_eq!(c, 11025),
        other => panic!("expected a centroid, got {:?}", other),
    }
}

#[test]
fn peak_bin_prefers_the_first_maximum() {
    assert_eq!(peak_bin(&[1, 3, 3, 2]), Some(1));
    assert_eq!(peak_bin(&[7]), Some(0));
    assert_eq!(peak_bin(&[]), None);
}

#[test]
fn bin_frequencies() {
    assert_eq!(bin_frequency(10, 1024, 44100), 430);
    assert_eq!(bin_frequency(0, 1024, 44100), 0);
    assert_eq!(bin_frequency(512, 1024, 44100), 22050);
    assert_eq!(bin_frequency(1024, 1024, 44100), 44100);
}

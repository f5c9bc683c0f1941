use vstd::prelude::*;

verus! {

/// The FFT bin index that holds frequency `freq` (Hz) for a transform of
/// `fft_size` points at `sample_rate` samples per second, rounded down.
///
/// The size is taken modulo 2^32 (as a `u32`), as the detector does.
pub open spec fn spec_freq_to_bin(freq: u32, fft_size: usize, sample_rate: u32) -> int {
    (freq * (fft_size as u32)) / (sample_rate as int)
}

/// Maps a frequency to the index of the FFT bin that contains it.
pub fn freq_to_bin(freq: u32, fft_size: usize, sample_rate: u32) -> (bin: usize)
    requires
        sample_rate > 0,
        freq * (fft_size as u32) <= u32::MAX,
    ensures
        bin == spec_freq_to_bin(freq, fft_size, sample_rate),
        bin * sample_rate <= freq * (fft_size as u32) < (bin + 1) * sample_rate,
{
    proof {
        freq_to_bin_is_floor(freq, fft_size, sample_rate);
    }
    let size: u32 = fft_size as u32;
    let product: u32 = freq * size;
    (product / sample_rate) as usize
}

/// The bin is the rounded-down quotient of `freq * size` by the sample rate:
/// `bin * sample_rate <= freq * size < (bin + 1) * sample_rate`, where `size`
/// is the FFT size taken as a `u32`.
pub proof fn freq_to_bin_is_floor(freq: u32, fft_size: usize, sample_rate: u32)
    requires
        sample_rate > 0,
    ensures
        spec_freq_to_bin(freq, fft_size, sample_rate) >= 0,
        spec_freq_to_bin(freq, fft_size, sample_rate) * sample_rate <= freq * (fft_size as u32),
        freq * (fft_size as u32) < (spec_freq_to_bin(freq, fft_size, sample_rate) + 1)
            * sample_rate,
{
    let x: int = freq * (fft_size as u32);
    let r: int = sample_rate as int;
    let q: int = spec_freq_to_bin(freq, fft_size, sample_rate);
    assert(x >= 0) by (nonlinear_arith)
        requires
            x == freq * (fft_size as u32),
    ;
    vstd::arithmetic::div_mod::lemma_fundamental_div_mod(x, r);
    assert(q == x / r);
    assert(0 <= q * r <= x < (q + 1) * r) by (nonlinear_arith)
        requires
            x == r * (x / r) + x % r,
            0 <= x % r < r,
            q == x / r,
            x >= 0,
            r > 0,
    ;
}

/// A detector of speech in a frame of 16-bit samples.
pub trait VADDetector {
    /// Whether the frame, sampled at `sample_rate` Hz, holds speech.
    fn detect_speech(&mut self, frame: &[i16], sample_rate: u32) -> bool;
}

/// A higher frequency never falls into a lower bin.
pub proof fn freq_to_bin_monotone(f1: u32, f2: u32, fft_size: usize, sample_rate: u32)
    requires
        sample_rate > 0,
        f1 <= f2,
    ensures
        spec_freq_to_bin(f1, fft_size, sample_rate) <= spec_freq_to_bin(f2, fft_size, sample_rate),
{
    let size = (fft_size as u32) as int;
    let rate = sample_rate as int;
    assert(f1 * size <= f2 * size) by (nonlinear_arith)
        requires
            f1 <= f2,
            size >= 0,
    ;
    assert((f1 * size) / rate <= (f2 * size) / rate) by (nonlinear_arith)
        requires
            f1 * size <= f2 * size,
            rate > 0,
    ;
}

/// The part of the spectrum that an FFT bin is counted in.
#[derive(PartialEq, Eq, Structural, Debug, Clone, Copy)]
pub enum Band {
    /// Below the low-frequency limit.
    Low,
    /// Inside the speech range.
    Speech,
    /// Neither.
    Other,
}

/// The bin limits of the bands, for one FFT size and sample rate.
#[derive(PartialEq, Eq, Structural, Debug, Clone, Copy)]
pub struct SpeechBands {
    /// Bins below this one are low-frequency bins.
    pub low_bin: usize,
    /// First bin of the speech range.
    pub speech_start: usize,
    /// Last bin of the speech range, inclusive.
    pub speech_end: usize,
}

impl SpeechBands {
    /// The band of `bin`: low below `low_bin`, otherwise speech from
    /// `speech_start` to `speech_end` inclusive, otherwise neither.
    pub open spec fn spec_band_of(self, bin: int) -> Band {
        if bin < self.low_bin {
            Band::Low
        } else if self.speech_start <= bin <= self.speech_end {
            Band::Speech
        } else {
            Band::Other
        }
    }

    /// The bins of the three limiting frequencies.
    pub fn new(
        low_freq: u32,
        speech_freq_start: u32,
        speech_freq_end: u32,
        fft_size: usize,
        sample_rate: u32,
    ) -> (bands: Self)
        requires
            sample_rate > 0,
            low_freq * (fft_size as u32) <= u32::MAX,
            speech_freq_start * (fft_size as u32) <= u32::MAX,
            speech_freq_end * (fft_size as u32) <= u32::MAX,
        ensures
            bands.low_bin == spec_freq_to_bin(low_freq, fft_size, sample_rate),
            bands.speech_start == spec_freq_to_bin(speech_freq_start, fft_size, sample_rate),
            bands.speech_end == spec_freq_to_bin(speech_freq_end, fft_size, sample_rate),
    {
        SpeechBands {
            low_bin: freq_to_bin(low_freq, fft_size, sample_rate),
            speech_start: freq_to_bin(speech_freq_start, fft_size, sample_rate),
            speech_end: freq_to_bin(speech_freq_end, fft_size, sample_rate),
        }
    }

    /// The band that the energy of `bin` is added to.
    pub fn band_of(&self, bin: usize) -> (band: Band)
        ensures
            band == self.spec_band_of(bin as int),
            bin < self.low_bin ==> band == Band::Low,
            bin >= self.low_bin && self.speech_start <= bin && bin <= self.speech_end ==> band
                == Band::Speech,
            bin >= self.low_bin && (bin < self.speech_start || bin > self.speech_end) ==> band
                == Band::Other,
    {
        proof {
            band_of_classifies(*self, bin as int);
        }
        if bin < self.low_bin {
            Band::Low
        } else if bin >= self.speech_start && bin <= self.speech_end {
            Band::Speech
        } else {
            Band::Other
        }
    }
}

/// Every bin falls in exactly the band its position says: low below
/// `low_bin`; from there on, speech inside `[speech_start, speech_end]`, and
/// neither outside it.
pub proof fn band_of_classifies(bands: SpeechBands, bin: int)
    ensures
        bin < bands.low_bin ==> bands.spec_band_of(bin) == Band::Low,
        bin >= bands.low_bin && bands.speech_start <= bin && bin <= bands.speech_end
            ==> bands.spec_band_of(bin) == Band::Speech,
        bin >= bands.low_bin && (bin < bands.speech_start || bin > bands.speech_end)
            ==> bands.spec_band_of(bin) == Band::Other,
{
}

} // verus!

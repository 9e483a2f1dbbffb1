//! WAV files: how long they last and how loud they are.
//!
//! Levels are kept as exact sums over the samples. Decibels, which need
//! logarithms, reach this module as text with one decimal.
use vstd::prelude::*;

use crate::error::ComlinkError;
use crate::strings::{
    cat3, cat4, contains, join, lemma_holds, lemma_texts_push, lossy_text, str_join, str_trim,
    text_lossy, texts, trim,
};

verus! {

/// A little-endian 16-bit number.
pub open spec fn le16(b: Seq<u8>, i: int) -> nat {
    (b[i] + 256 * b[i + 1]) as nat
}

/// A little-endian 32-bit number.
pub open spec fn le32(b: Seq<u8>, i: int) -> nat {
    (le16(b, i) + 65536 * le16(b, i + 2)) as nat
}

/// A little-endian 16-bit sample.
pub open spec fn sample_at(b: Seq<u8>, i: int) -> int {
    if le16(b, i) >= 32768 {
        le16(b, i) - 65536
    } else {
        le16(b, i) as int
    }
}

/// The distance of a sample from silence.
pub open spec fn amplitude(x: int) -> int {
    if x < 0 {
        -x
    } else {
        x
    }
}

/// Four bytes that name a part of the file.
pub open spec fn tag_at(b: Seq<u8>, i: int, t: (u8, u8, u8, u8)) -> bool {
    b[i] == t.0 && b[i + 1] == t.1 && b[i + 2] == t.2 && b[i + 3] == t.3
}

/// `RIFF`
pub open spec fn riff_tag() -> (u8, u8, u8, u8) {
    (82, 73, 70, 70)
}

/// `WAVE`
pub open spec fn wave_tag() -> (u8, u8, u8, u8) {
    (87, 65, 86, 69)
}

/// `fmt `
pub open spec fn fmt_tag() -> (u8, u8, u8, u8) {
    (102, 109, 116, 32)
}

/// `data`
pub open spec fn data_tag() -> (u8, u8, u8, u8) {
    (100, 97, 116, 97)
}

/// Whether the bytes start like a WAV file.
pub open spec fn has_wav_header(b: Seq<u8>) -> bool {
    b.len() >= 12 && tag_at(b, 0, riff_tag()) && tag_at(b, 8, wave_tag())
}

/// Where the chunk after the one at `p` starts: its body is padded to an even
/// length.
pub open spec fn next_chunk(b: Seq<u8>, p: int) -> int {
    p + 8 + le32(b, p + 4) + le32(b, p + 4) % 2
}

/// The energy of some samples: their squares added up, the largest distance from
/// silence, and how many they are.
#[derive(Debug, Clone, Copy, PartialEq, Eq, Structural)]
pub struct WavLevelSamples {
    pub sum_squares: u128,
    pub peak_abs: u32,
    pub sample_count: u64,
}

/// The squares of `n` samples from `at` on, added up.
pub open spec fn squares(b: Seq<u8>, at: int, n: int) -> int
    decreases n,
{
    if n <= 0 {
        0
    } else {
        squares(b, at, n - 1) + sample_at(b, at + 2 * (n - 1)) * sample_at(b, at + 2 * (n - 1))
    }
}

/// The largest distance from silence among `n` samples from `at` on.
pub open spec fn peak(b: Seq<u8>, at: int, n: int) -> int
    decreases n,
{
    if n <= 0 {
        0
    } else if amplitude(sample_at(b, at + 2 * (n - 1))) > peak(b, at, n - 1) {
        amplitude(sample_at(b, at + 2 * (n - 1)))
    } else {
        peak(b, at, n - 1)
    }
}

/// Energy adds up: that of some samples and of those that follow is that of all of them
/// together, and that of one sample, a signed 16-bit number, is its square.
pub proof fn law_energy_adds_up(b: Seq<u8>, at: int, n: int, m: int)
    requires
        0 <= n,
        0 <= m,
    ensures
        squares(b, at, n + m) == squares(b, at, n) + squares(b, at + 2 * n, m),
        squares(b, at, 0) == 0,
        b[at + 1] < 128 ==> squares(b, at, 1) == (b[at] + 256 * b[at + 1]) * (b[at] + 256 * b[at
            + 1]),
        b[at + 1] >= 128 ==> squares(b, at, 1) == (b[at] + 256 * b[at + 1] - 65536) * (b[at] + 256
            * b[at + 1] - 65536),
    decreases m,
{
    assert(squares(b, at, 0) == 0);
    if m > 0 {
        law_energy_adds_up(b, at, n, m - 1);
        assert(at + 2 * (n + m - 1) == (at + 2 * n) + 2 * (m - 1));
    }
    assert(at + 2 * (1 - 1) == at);
    assert(squares(b, at, 1) == squares(b, at, 0) + sample_at(b, at) * sample_at(b, at));
}

/// A steady signal has the square of its sample as often as there are samples.
pub proof fn law_energy_of_a_steady_signal(b: Seq<u8>, at: int, n: int, x: int)
    requires
        0 <= n,
        -32768 <= x < 32768,
        forall|i: int|
            0 <= i < n ==> #[trigger] b[at + 2 * i] + 256 * b[at + 2 * i + 1] == if x < 0 {
                x + 65536
            } else {
                x
            },
    ensures
        squares(b, at, n) == n * x * x,
        n > 0 ==> peak(b, at, n) == if x < 0 {
            -x
        } else {
            x
        },
        n > 0 ==> (is_quiet(squares(b, at, n), n) <==> -32 <= x <= 32),
    decreases n,
{
    if n > 0 {
        law_energy_of_a_steady_signal(b, at, n - 1, x);
        assert(sample_at(b, at + 2 * (n - 1)) == x) by {
            assert(b[at + 2 * (n - 1)] + 256 * b[at + 2 * (n - 1) + 1] == if x < 0 {
                x + 65536
            } else {
                x
            });
        }
        assert((n - 1) * x * x + x * x == n * x * x) by (nonlinear_arith);
        if n == 1 {
            assert(peak(b, at, 0) == 0);
        }
        let e = squares(b, at, n);
        if -32 <= x <= 32 {
            assert(e * 1_000_000 <= 1_073_741_824 * n) by (nonlinear_arith)
                requires
                    e == n * x * x,
                    -32 <= x <= 32,
                    n > 0,
            ;
        } else {
            assert(e * 1_000_000 > 1_073_741_824 * n) by (nonlinear_arith)
                requires
                    e == n * x * x,
                    x <= -33 || x >= 33,
                    n > 0,
            ;
        }
    } else {
        assert(n * x * x == 0) by (nonlinear_arith)
            requires
                n == 0,
        ;
    }
}

/// The peak of some samples is the largest distance of any of them from silence.
pub proof fn law_peak_is_the_loudest_sample(b: Seq<u8>, at: int, n: int)
    requires
        0 <= n,
    ensures
        forall|i: int|
            0 <= i < n ==> -peak(b, at, n) <= #[trigger] sample_at(b, at + 2 * i) <= peak(b, at, n),
        n > 0 ==> exists|i: int|
            0 <= i < n && (#[trigger] sample_at(b, at + 2 * i) == peak(b, at, n) || sample_at(
                b,
                at + 2 * i,
            ) == -peak(b, at, n)),
        n == 0 ==> peak(b, at, n) == 0,
    decreases n,
{
    if n > 0 {
        law_peak_is_the_loudest_sample(b, at, n - 1);
        assert(0 <= n - 1 < n);
        let x = sample_at(b, at + 2 * (n - 1));
        if n > 1 {
            let k = choose|i: int|
                0 <= i < n - 1 && (#[trigger] sample_at(b, at + 2 * i) == peak(b, at, n - 1)
                    || sample_at(b, at + 2 * i) == -peak(b, at, n - 1));
            assert(sample_at(b, at + 2 * k) == peak(b, at, n - 1) || sample_at(b, at + 2 * k)
                == -peak(b, at, n - 1));
        }
    }
}

/// What a reader knows after some chunks: the sample width that was announced,
/// and the energy of the samples so far.
pub struct LevelState {
    pub bits: Option<nat>,
    pub sum_squares: int,
    pub peak_abs: int,
    pub sample_count: int,
}

/// How many samples the data chunk at `p` holds, as far as the file goes.
pub open spec fn samples_in(b: Seq<u8>, p: int) -> int {
    let n = le32(b, p + 4);
    let there = b.len() - (p + 8);
    if n <= there {
        n as int / 2
    } else {
        there / 2
    }
}

/// The state after the samples of the data chunk at `p`.
pub open spec fn with_data(b: Seq<u8>, p: int, s: LevelState) -> LevelState {
    let k = samples_in(b, p);
    let top = peak(b, p + 8, k);
    LevelState {
        bits: s.bits,
        sum_squares: s.sum_squares + squares(b, p + 8, k),
        peak_abs: if top > s.peak_abs {
            top
        } else {
            s.peak_abs
        },
        sample_count: s.sample_count + k,
    }
}

/// The state after all chunks from `p` on, or nothing where the format chunk is
/// cut short or samples are not 16 bits wide.
pub open spec fn levels_from(b: Seq<u8>, p: int, s: LevelState) -> Option<LevelState>
    decreases
            if p < b.len() {
                b.len() - p
            } else {
                0
            },
{
    if p < 0 || p + 8 > b.len() {
        Some(s)
    } else {
        let n = le32(b, p + 4);
        if tag_at(b, p, fmt_tag()) {
            if p + 8 + n > b.len() {
                None
            } else {
                levels_from(
                    b,
                    next_chunk(b, p),
                    LevelState {
                        bits: if n >= 16 {
                            Some(le16(b, p + 22))
                        } else {
                            s.bits
                        },
                        ..s
                    },
                )
            }
        } else if tag_at(b, p, data_tag()) {
            if s.bits != Some(16nat) {
                None
            } else {
                levels_from(b, next_chunk(b, p), with_data(b, p, s))
            }
        } else {
            levels_from(b, next_chunk(b, p), s)
        }
    }
}

/// A reader that has seen nothing.
pub open spec fn no_levels() -> LevelState {
    LevelState { bits: None, sum_squares: 0, peak_abs: 0, sample_count: 0 }
}

/// The energy of a WAV file, where it holds 16-bit samples.
pub open spec fn wav_levels(b: Seq<u8>) -> Option<LevelState> {
    if !has_wav_header(b) {
        None
    } else {
        match levels_from(b, 12, no_levels()) {
            Some(s) => if s.sample_count > 0 {
                Some(s)
            } else {
                None
            },
            None => None,
        }
    }
}

/// Reads a little-endian 16-bit number.
fn read16(b: &[u8], i: usize) -> (r: u16)
    requires
        i + 2 <= b@.len(),
    ensures
        r as nat == le16(b@, i as int),
{
    b[i] as u16 + 256 * b[i + 1] as u16
}

/// Reads a little-endian 32-bit number.
fn read32(b: &[u8], i: usize) -> (r: u32)
    requires
        i + 4 <= b@.len(),
    ensures
        r as nat == le32(b@, i as int),
{
    let total: usize = b.len();
    assert(i + 4 <= total);
    read16(b, i) as u32 + 65536 * read16(b, i + 2) as u32
}

/// Whether four bytes at `i` name a part of the file.
fn has_tag(b: &[u8], i: usize, t: (u8, u8, u8, u8)) -> (r: bool)
    requires
        i + 4 <= b@.len(),
    ensures
        r == tag_at(b@, i as int, t),
{
    b[i] == t.0 && b[i + 1] == t.1 && b[i + 2] == t.2 && b[i + 3] == t.3
}

/// Whether the bytes start like a WAV file.
fn starts_like_wav(b: &[u8]) -> (r: bool)
    ensures
        r == has_wav_header(b@),
{
    b.len() >= 12 && has_tag(b, 0, (82, 73, 70, 70)) && has_tag(b, 8, (87, 65, 86, 69))
}

/// The energy of `n` samples from `at` on.
fn measure(b: &[u8], at: usize, n: usize) -> (r: WavLevelSamples)
    requires
        at + 2 * n <= b@.len(),
    ensures
        r.sum_squares == squares(b@, at as int, n as int),
        r.peak_abs == peak(b@, at as int, n as int),
        r.peak_abs <= 32768,
        r.sample_count == n,
        r.sum_squares <= 1073741824 * n,
{
    let total: usize = b.len();
    let mut sum: u128 = 0;
    let mut top: u32 = 0;
    let mut k: usize = 0;
    while k < n
        invariant
            k <= n,
            at + 2 * n <= total == b@.len(),
            sum == squares(b@, at as int, k as int),
            top == peak(b@, at as int, k as int),
            top <= 32768,
            sum <= 1073741824 * k,
        decreases n - k,
    {
        let raw: u16 = read16(b, at + 2 * k);
        let size: u32 = if raw >= 32768 {
            65536 - raw as u32
        } else {
            raw as u32
        };
        let ghost x = sample_at(b@, at + 2 * k);
        assert(size == amplitude(x));
        assert(size * size == x * x && size * size <= 1073741824) by (nonlinear_arith)
            requires
                size == x || size == -x,
                size <= 32768,
        ;
        assert(at + 2 * ((k + 1) - 1) == at + 2 * k);
        sum = sum + (size as u128) * (size as u128);
        if size > top {
            top = size;
        }
        k += 1;
    }
    WavLevelSamples { sum_squares: sum, peak_abs: top, sample_count: n as u64 }
}

/// The energy of a WAV file. Gives nothing where the bytes are not a WAV file
/// with 16-bit samples, or hold no sample; the channels are not told apart.
pub fn read_wav_level_samples(b: &[u8]) -> (r: Option<WavLevelSamples>)
    ensures
        match wav_levels(b@) {
            Some(s) => r matches Some(m) && m.sum_squares == s.sum_squares && m.peak_abs
                == s.peak_abs && m.sample_count == s.sample_count,
            None => r is None,
        },
{
    if !starts_like_wav(b) {
        return None;
    }
    let total: usize = b.len();
    let mut bits: Option<u16> = None;
    let mut sum: u128 = 0;
    let mut top: u32 = 0;
    let mut count: u64 = 0;
    let mut p: usize = 12;
    let ghost mut s = no_levels();
    while p <= total && total - p >= 8
        invariant
            has_wav_header(b@),
            p >= 12,
            total == b@.len(),
            s.bits == match bits {
                Some(n) => Some(n as nat),
                None => None,
            },
            s.sum_squares == sum,
            s.peak_abs == top,
            s.sample_count == count,
            count <= p,
            count <= total,
            top <= 32768,
            sum <= 1073741824 * count,
            levels_from(b@, 12, no_levels()) == levels_from(b@, p as int, s),
            p <= total || levels_from(b@, p as int, s) == Some(s),
        decreases total - p,
    {
        let n: u32 = read32(b, p + 4);
        let body: usize = p + 8;
        let there: usize = total - body;
        if has_tag(b, p, (102, 109, 116, 32)) {
            if n as u64 > there as u64 {
                return None;
            }
            if n >= 16 {
                bits = Some(read16(b, body + 14));
                proof {
                    s = LevelState { bits: Some(le16(b@, p + 22)), ..s };
                }
            }
        } else if has_tag(b, p, (100, 97, 116, 97)) {
            match bits {
                Some(16) => {},
                _ => {
                    return None;
                },
            }
            let k: usize = if n as u64 <= there as u64 {
                n as usize / 2
            } else {
                there / 2
            };
            let m = measure(b, body, k);
            proof {
                s = with_data(b@, p as int, s);
            }
            sum = sum + m.sum_squares;
            if m.peak_abs > top {
                top = m.peak_abs;
            }
            count = count + m.sample_count;
        }
        let padded: u64 = n as u64 + n as u64 % 2;
        if padded > there as u64 {
            // The next chunk would start past the end.
            assert(next_chunk(b@, p as int) > total);
            assert(levels_from(b@, next_chunk(b@, p as int), s) == Some(s));
            if count == 0 {
                return None;
            }
            return Some(WavLevelSamples { sum_squares: sum, peak_abs: top, sample_count: count });
        }
        p = body + padded as usize;
    }
    if count == 0 {
        return None;
    }
    Some(WavLevelSamples { sum_squares: sum, peak_abs: top, sample_count: count })
}

/// What a reader knows of the length of a file after some chunks.
pub struct DurationState {
    pub byte_rate: Option<nat>,
    pub data_len: Option<nat>,
}

/// The state after all chunks from `p` on, or nothing where the format chunk is
/// cut short.
pub open spec fn duration_from(b: Seq<u8>, p: int, s: DurationState) -> Option<DurationState>
    decreases
            if p < b.len() {
                b.len() - p
            } else {
                0
            },
{
    if p < 0 || p + 8 > b.len() {
        Some(s)
    } else {
        let n = le32(b, p + 4);
        if tag_at(b, p, fmt_tag()) {
            if p + 8 + n > b.len() {
                None
            } else {
                duration_from(
                    b,
                    next_chunk(b, p),
                    DurationState {
                        byte_rate: if n >= 12 {
                            Some(le32(b, p + 16))
                        } else {
                            s.byte_rate
                        },
                        ..s
                    },
                )
            }
        } else if tag_at(b, p, data_tag()) {
            duration_from(b, next_chunk(b, p), DurationState { data_len: Some(n), ..s })
        } else {
            duration_from(b, next_chunk(b, p), s)
        }
    }
}

/// How many milliseconds a WAV file lasts: zero where it does not say, nothing
/// where the file is cut off before its chunks or within its format.
pub open spec fn wav_duration(b: Seq<u8>) -> Option<nat> {
    if b.len() < 12 {
        None
    } else if !has_wav_header(b) {
        Some(0)
    } else {
        match duration_from(b, 12, DurationState { byte_rate: None, data_len: None }) {
            Some(s) => Some(
                match (s.byte_rate, s.data_len) {
                    (Some(rate), Some(len)) => if rate > 0 {
                        len * 1000 / rate
                    } else {
                        0
                    },
                    _ => 0,
                },
            ),
            None => None,
        }
    }
}

/// The length of a file from what its chunks say.
fn duration_of(byte_rate: Option<u32>, data_len: Option<u32>) -> (r: u64)
    ensures
        r as nat == match (byte_rate, data_len) {
            (Some(rate), Some(len)) => if rate > 0 {
                (len as nat) * 1000 / (rate as nat)
            } else {
                0
            },
            _ => 0,
        },
{
    match (byte_rate, data_len) {
        (Some(rate), Some(len)) => if rate > 0 {
            len as u64 * 1000 / rate as u64
        } else {
            0
        },
        _ => 0,
    }
}

/// How many milliseconds a WAV file lasts.
pub fn wav_duration_ms(b: &[u8]) -> (r: Option<u64>)
    ensures
        match wav_duration(b@) {
            Some(ms) => r matches Some(v) && v as nat == ms,
            None => r is None,
        },
{
    let total: usize = b.len();
    if total < 12 {
        return None;
    }
    if !starts_like_wav(b) {
        return Some(0);
    }
    let mut byte_rate: Option<u32> = None;
    let mut data_len: Option<u32> = None;
    let mut p: usize = 12;
    let ghost mut s = DurationState { byte_rate: None, data_len: None };
    let ghost start = s;
    while p <= total && total - p >= 8
        invariant
            has_wav_header(b@),
            start == (DurationState { byte_rate: None, data_len: None }),
            p >= 12,
            total == b@.len(),
            s.byte_rate == match byte_rate {
                Some(n) => Some(n as nat),
                None => None,
            },
            s.data_len == match data_len {
                Some(n) => Some(n as nat),
                None => None,
            },
            duration_from(b@, 12, start) == duration_from(b@, p as int, s),
            p <= total || duration_from(b@, p as int, s) == Some(s),
        decreases total - p,
    {
        let n: u32 = read32(b, p + 4);
        let body: usize = p + 8;
        let there: usize = total - body;
        if has_tag(b, p, (102, 109, 116, 32)) {
            if n as u64 > there as u64 {
                return None;
            }
            if n >= 12 {
                byte_rate = Some(read32(b, body + 8));
                proof {
                    s = DurationState { byte_rate: Some(le32(b@, p + 16)), ..s };
                }
            }
        } else if has_tag(b, p, (100, 97, 116, 97)) {
            data_len = Some(n);
            proof {
                s = DurationState { data_len: Some(n as nat), ..s };
            }
        }
        let padded: u64 = n as u64 + n as u64 % 2;
        if padded > there as u64 {
            // The next chunk would start past the end.
            assert(next_chunk(b@, p as int) > total);
            assert(duration_from(b@, next_chunk(b@, p as int), s) == Some(s));
            return Some(duration_of(byte_rate, data_len));
        }
        p = body + padded as usize;
    }
    Some(duration_of(byte_rate, data_len))
}

/// How many milliseconds an audio file lasts: what a probe measured, else what
/// the file says of itself.
pub fn probe_duration_ms(probed: Option<u64>, file: Option<&[u8]>) -> (r: Option<u64>)
    ensures
        match probed {
            Some(ms) => r == Some(ms),
            None => match file {
                Some(b) => match wav_duration(b@) {
                    Some(ms) => r matches Some(v) && v as nat == ms,
                    None => r is None,
                },
                None => r is None,
            },
        },
{
    match probed {
        Some(ms) => Some(ms),
        None => match file {
            Some(b) => wav_duration_ms(b),
            None => None,
        },
    }
}

// ---------------------------------------------------------------------------
// Levels
// ---------------------------------------------------------------------------

/// Whether a mean level lies at or below -60 dBFS: the mean of the squared
/// samples is at most a millionth of the squared full scale of 32768.
///
/// Live speech usually sits around -30 dBFS, and even a quiet but occupied room
/// rarely averages below roughly -55 dBFS. A wrong or muted device or a missing
/// microphone permission instead yields digital silence. The boundary counts as
/// near-silent.
pub open spec fn is_quiet(sum_squares: int, sample_count: int) -> bool {
    sum_squares * 1_000_000 <= 1_073_741_824 * sample_count
}

impl WavLevelSamples {
    /// Whether the mean level is at or below the near-silent threshold.
    pub fn is_near_silent(&self) -> (r: bool)
        ensures
            r == is_quiet(self.sum_squares as int, self.sample_count as int),
    {
        if self.sum_squares > 1_073_741_824 * 18_446_744_073_709_551_615 {
            return false;
        }
        self.sum_squares * 1_000_000 <= 1_073_741_824 * self.sample_count as u128
    }
}

/// The sum, or the largest number that is held.
pub open spec fn capped(n: int, max: int) -> int {
    if n > max {
        max
    } else {
        n
    }
}

/// The energies of several files together.
pub open spec fn combined(m: Seq<WavLevelSamples>) -> WavLevelSamples
    decreases m.len(),
{
    if m.len() == 0 {
        WavLevelSamples { sum_squares: 0, peak_abs: 0, sample_count: 0 }
    } else {
        let a = combined(m.drop_last());
        let x = m.last();
        WavLevelSamples {
            sum_squares: capped(a.sum_squares + x.sum_squares, u128::MAX as int) as u128,
            peak_abs: if x.peak_abs > a.peak_abs {
                x.peak_abs
            } else {
                a.peak_abs
            },
            sample_count: capped(a.sample_count + x.sample_count, u64::MAX as int) as u64,
        }
    }
}

/// The level of a session: the energies of its files together, so that each
/// weighs by its length. There is none where no sample was measured.
pub fn session_audio_level(measurements: &Vec<WavLevelSamples>) -> (r: Option<WavLevelSamples>)
    ensures
        if combined(measurements@).sample_count == 0 {
            r is None
        } else {
            r == Some(combined(measurements@))
        },
{
    let mut sum: u128 = 0;
    let mut top: u32 = 0;
    let mut count: u64 = 0;
    let mut i: usize = 0;
    while i < measurements.len()
        invariant
            i <= measurements@.len(),
            (WavLevelSamples { sum_squares: sum, peak_abs: top, sample_count: count }) == combined(
                measurements@.take(i as int),
            ),
        decreases measurements@.len() - i,
    {
        let m = measurements[i];
        assert(measurements@.take(i + 1).drop_last() =~= measurements@.take(i as int));
        sum = sum.saturating_add(m.sum_squares);
        if m.peak_abs > top {
            top = m.peak_abs;
        }
        count = count.saturating_add(m.sample_count);
        i += 1;
    }
    assert(measurements@.take(measurements@.len() as int) =~= measurements@);
    if count == 0 {
        None
    } else {
        Some(WavLevelSamples { sum_squares: sum, peak_abs: top, sample_count: count })
    }
}

/// Files that are all near-silent make a near-silent session.
pub proof fn law_quiet_files_make_a_quiet_session(m: Seq<WavLevelSamples>)
    requires
        forall|i: int|
            0 <= i < m.len() ==> is_quiet(
                (#[trigger] m[i]).sum_squares as int,
                m[i].sample_count as int,
            ),
        total_samples(m) <= u64::MAX,
    ensures
        is_quiet(combined(m).sum_squares as int, combined(m).sample_count as int),
        combined(m).sample_count == total_samples(m),
    decreases m.len(),
{
    if m.len() > 0 {
        let t = m.drop_last();
        assert forall|i: int| 0 <= i < t.len() implies is_quiet(
            (#[trigger] t[i]).sum_squares as int,
            t[i].sample_count as int,
        ) by {
            assert(t[i] == m[i]);
        }
        law_quiet_files_make_a_quiet_session(t);
        assert(m.last() == m[m.len() - 1]);
    }
}

/// The usual file, a format chunk of sixteen bytes and then the samples, is measured over
/// all of its samples, and lasts as long as its bytes at the rate that it announces.
pub proof fn law_plain_file_is_measured_whole(b: Seq<u8>, k: int)
    requires
        0 < k,
        b.len() == 44 + 2 * k,
        b.subrange(0, 4) == seq![82u8, 73, 70, 70],
        b.subrange(8, 12) == seq![87u8, 65, 86, 69],
        b.subrange(12, 20) == seq![102u8, 109, 116, 32, 16, 0, 0, 0],
        b.subrange(34, 40) == seq![16u8, 0, 100, 97, 116, 97],
        b[40] + 256 * b[41] + 65536 * b[42] + 16777216 * b[43] == 2 * k,
    ensures
        wav_levels(b) matches Some(s) && s.sample_count == k && s.sum_squares == squares(b, 44, k)
            && s.peak_abs == peak(b, 44, k),
        ({
            let rate = b[28] + 256 * b[29] + 65536 * b[30] + 16777216 * b[31];
            wav_duration(b) == Some(
                if rate > 0 {
                    (2 * k * 1000 / rate) as nat
                } else {
                    0
                },
            )
        }),
{
    assert forall|i: int| 0 <= i < 4 implies #[trigger] b[i] == b.subrange(0, 4)[i] by {}
    assert forall|i: int| 8 <= i < 12 implies #[trigger] b[i] == b.subrange(8, 12)[i - 8] by {}
    assert forall|i: int| 12 <= i < 20 implies #[trigger] b[i] == b.subrange(12, 20)[i - 12] by {}
    assert forall|i: int| 34 <= i < 40 implies #[trigger] b[i] == b.subrange(34, 40)[i - 34] by {}
    assert(le32(b, 16) == 16);
    assert(le16(b, 34) == 16);
    assert(le32(b, 40) == 2 * k);
    assert(tag_at(b, 12, fmt_tag()));
    assert(tag_at(b, 36, data_tag()) && !tag_at(b, 36, fmt_tag()));
    assert(next_chunk(b, 12) == 36);
    assert(next_chunk(b, 36) == b.len());
    reveal_with_fuel(levels_from, 4);
    reveal_with_fuel(duration_from, 4);
    law_peak_is_the_loudest_sample(b, 44, k);
}

/// A chunk that is neither format nor samples is passed over, with the byte that pads an
/// odd one.
pub proof fn law_other_chunks_are_passed_over(b: Seq<u8>, p: int, s: LevelState, d: DurationState)
    requires
        0 <= p,
        p + 8 <= b.len(),
        b.subrange(p, p + 4) != seq![102u8, 109, 116, 32],
        b.subrange(p, p + 4) != seq![100u8, 97, 116, 97],
    ensures
        ({
            let n = b[p + 4] + 256 * b[p + 5] + 65536 * b[p + 6] + 16777216 * b[p + 7];
            let q = if n % 2 == 0 {
                p + 8 + n
            } else {
                p + 9 + n
            };
            levels_from(b, p, s) == levels_from(b, q, s) && duration_from(b, p, d)
                == duration_from(b, q, d)
        }),
{
    if tag_at(b, p, fmt_tag()) {
        assert(b.subrange(p, p + 4) =~= seq![102u8, 109, 116, 32]);
    }
    if tag_at(b, p, data_tag()) {
        assert(b.subrange(p, p + 4) =~= seq![100u8, 97, 116, 97]);
    }
}

/// The energies of files add up, each file weighing by its samples: one file alone keeps
/// its own, and those of two lists together are those of both, as long as the sums can
/// be held. The peak is the largest of any file.
pub proof fn law_files_weigh_by_their_samples(
    x: WavLevelSamples,
    a: Seq<WavLevelSamples>,
    b: Seq<WavLevelSamples>,
)
    requires
        combined(a).sum_squares + combined(b).sum_squares < u128::MAX,
        combined(a).sample_count + combined(b).sample_count < u64::MAX,
    ensures
        combined(seq![x]) == x,
        combined(a + b).sum_squares == combined(a).sum_squares + combined(b).sum_squares,
        combined(a + b).sample_count == combined(a).sample_count + combined(b).sample_count,
        forall|i: int| 0 <= i < a.len() ==> (#[trigger] a[i]).peak_abs <= combined(a).peak_abs,
        combined(a).peak_abs > 0 ==> exists|i: int|
            0 <= i < a.len() && (#[trigger] a[i]).peak_abs == combined(a).peak_abs,
    decreases b.len(),
{
    assert(seq![x].drop_last() =~= Seq::empty());
    reveal_with_fuel(combined, 2);
    lemma_combined_peak(a);
    if b.len() == 0 {
        assert(a + b =~= a);
    } else {
        let t = b.drop_last();
        assert((a + b).drop_last() =~= a + t);
        assert((a + b).last() == b.last());
        law_files_weigh_by_their_samples(x, a, t);
    }
}

/// The peak of files is the largest of any of them.
proof fn lemma_combined_peak(a: Seq<WavLevelSamples>)
    ensures
        forall|i: int| 0 <= i < a.len() ==> (#[trigger] a[i]).peak_abs <= combined(a).peak_abs,
        combined(a).peak_abs > 0 ==> exists|i: int|
            0 <= i < a.len() && (#[trigger] a[i]).peak_abs == combined(a).peak_abs,
    decreases a.len(),
{
    if a.len() > 0 {
        let t = a.drop_last();
        lemma_combined_peak(t);
        assert forall|i: int| 0 <= i < a.len() implies (#[trigger] a[i]).peak_abs <= combined(
            a,
        ).peak_abs by {
            if i < t.len() {
                assert(t[i] == a[i]);
            }
        }
        if combined(a).peak_abs > 0 {
            if a.last().peak_abs > combined(t).peak_abs {
                assert(a[a.len() - 1].peak_abs == combined(a).peak_abs);
            } else {
                let k = choose|i: int|
                    0 <= i < t.len() && (#[trigger] t[i]).peak_abs == combined(t).peak_abs;
                assert(a[k].peak_abs == combined(a).peak_abs);
            }
        }
    }
}

/// How many samples some files hold together.
pub open spec fn total_samples(m: Seq<WavLevelSamples>) -> int
    decreases m.len(),
{
    if m.len() == 0 {
        0
    } else {
        total_samples(m.drop_last()) + m.last().sample_count
    }
}

/// A measured level: the mean and the peak in dBFS with one decimal, and whether
/// the mean is near-silent.
#[derive(Debug, PartialEq, Eq)]
pub struct AudioLevel {
    pub mean_dbfs: String,
    pub peak_dbfs: String,
    pub near_silent: bool,
}

impl Clone for AudioLevel {
    fn clone(&self) -> (r: Self)
        ensures
            r == *self,
    {
        AudioLevel {
            mean_dbfs: self.mean_dbfs.clone(),
            peak_dbfs: self.peak_dbfs.clone(),
            near_silent: self.near_silent,
        }
    }
}

impl AudioLevel {
    /// Whether the mean level is at or below the near-silent threshold.
    pub fn is_near_silent(&self) -> (r: bool)
        ensures
            r == self.near_silent,
    {
        self.near_silent
    }
}

/// The warning for a near-silent session.
pub open spec fn near_silent_warning(mean_dbfs: Seq<char>) -> Seq<char> {
    "captured audio was near-silent ("@ + mean_dbfs
        + " dBFS avg); check that the intended input device is selected and not muted, and that microphone permission is granted (see `comlink doctor`); transcript may be unreliable"@
}

/// The warning for a near-silent session.
pub fn near_silent_warning_message(mean_dbfs: &str) -> (r: String)
    ensures
        r@ == near_silent_warning(mean_dbfs@),
{
    cat3(
        "captured audio was near-silent (",
        mean_dbfs,
        " dBFS avg); check that the intended input device is selected and not muted, and that microphone permission is granted (see `comlink doctor`); transcript may be unreliable",
    )
}

/// What is known of a device that gave no sound.
pub struct DeviceHintContext<'a> {
    /// The ffmpeg input.
    pub selector: &'a str,
    /// The name of the device, where it is known.
    pub name: Option<&'a str>,
    /// The devices that could be used, where they could be listed.
    pub available: Option<&'a Vec<String>>,
}

/// A device by its name and its ffmpeg input, or by the input alone.
pub open spec fn device_label(name: Option<Seq<char>>, input: Seq<char>) -> Seq<char> {
    match name {
        Some(n) => n + " ("@ + input + ")"@,
        None => input,
    }
}

/// The text of an optional string slice.
pub open spec fn opt_str(o: Option<&str>) -> Option<Seq<char>> {
    match o {
        Some(s) => Some(s@),
        None => None,
    }
}

/// What to do about a device that gave no sound.
pub open spec fn device_hint(
    name: Option<Seq<char>>,
    selector: Seq<char>,
    available: Option<Seq<Seq<char>>>,
) -> Seq<char> {
    let advice = "check that "@ + device_label(name, selector)
        + " is the intended input device and not muted, and that microphone permission is granted; choose another device with COMLINK_RECORD_DEVICE or --device"@;
    match available {
        Some(d) => if d.len() > 0 {
            advice + "; available input devices: "@ + join(d, ", "@)
        } else {
            advice
        },
        None => advice,
    }
}

/// What to do about a device that gave no sound.
pub fn near_silent_device_hint(context: DeviceHintContext<'_>) -> (r: String)
    ensures
        r@ == device_hint(
            opt_str(context.name),
            context.selector@,
            match context.available {
                Some(d) => Some(texts(d@)),
                None => None,
            },
        ),
{
    let label = match context.name {
        Some(n) => cat4(n, " (", context.selector, ")"),
        None => context.selector.to_owned(),
    };
    let mut advice = cat3(
        "check that ",
        &label,
        " is the intended input device and not muted, and that microphone permission is granted; choose another device with COMLINK_RECORD_DEVICE or --device",
    );
    if let Some(d) = context.available {
        if d.len() > 0 {
            advice.append("; available input devices: ");
            advice.append(&str_join(d, ", "));
        }
    }
    advice
}

// ---------------------------------------------------------------------------
// Conversion
// ---------------------------------------------------------------------------

/// The arguments that make ffmpeg write any input as a WAV file that whisper.cpp
/// reads: one channel, 16 kHz, no picture.
pub open spec fn conversion_arguments(input: Seq<char>, wav: Seq<char>) -> Seq<Seq<char>> {
    seq![
        "-hide_banner"@, "-loglevel"@, "error"@, "-y"@, "-i"@, input, "-vn"@, "-ac"@, "1"@,
        "-ar"@, "16000"@, "-f"@, "wav"@, wav,
    ]
}

/// The arguments that make ffmpeg write any input as a WAV file that whisper.cpp reads.
pub fn normalize_arguments(input: &str, wav_path: &str) -> (r: Vec<String>)
    ensures
        texts(r@) == conversion_arguments(input@, wav_path@),
{
    broadcast use lemma_texts_push;

    let mut r: Vec<String> = Vec::new();
    r.push("-hide_banner".to_owned());
    r.push("-loglevel".to_owned());
    r.push("error".to_owned());
    r.push("-y".to_owned());
    r.push("-i".to_owned());
    r.push(input.to_owned());
    r.push("-vn".to_owned());
    r.push("-ac".to_owned());
    r.push("1".to_owned());
    r.push("-ar".to_owned());
    r.push("16000".to_owned());
    r.push("-f".to_owned());
    r.push("wav".to_owned());
    r.push(wav_path.to_owned());
    assert(texts(r@) =~= conversion_arguments(input@, wav_path@));
    r
}

/// Checks that there is an input to convert.
pub fn require_input(path: &str, present: bool) -> (r: Result<(), ComlinkError>)
    ensures
        if present {
            r == Ok::<(), ComlinkError>(())
        } else {
            r matches Err(ComlinkError::InputMissing(p)) && p@ == path@
        },
{
    if present {
        Ok(())
    } else {
        Err(ComlinkError::InputMissing(path.to_owned()))
    }
}

/// How long a converted input lasts; a failed conversion is told with what ffmpeg said.
pub fn normalized_duration(success: bool, stderr: &[u8], probed_ms: Option<u64>) -> (r: Result<
    u64,
    ComlinkError,
>)
    ensures
        if !success {
            r matches Err(ComlinkError::FfmpegFailed(m)) && m@ == trim(lossy_text(stderr@))
        } else {
            r == Ok::<u64, ComlinkError>(
                match probed_ms {
                    Some(ms) => ms,
                    None => 0,
                },
            )
        },
{
    if !success {
        return Err(ComlinkError::FfmpegFailed(str_trim(&text_lossy(stderr))));
    }
    Ok(
        match probed_ms {
            Some(ms) => ms,
            None => 0,
        },
    )
}

/// A conversion reads the given input and writes, last, the given file, with one channel at
/// 16 kHz.
pub proof fn law_conversions_name_their_files(input: Seq<char>, wav: Seq<char>)
    ensures
        ({
            let r = conversion_arguments(input, wav);
            &&& r.subrange(4, 6) == seq!["-i"@, input]
            &&& r.subrange(7, 11) == seq!["-ac"@, "1"@, "-ar"@, "16000"@]
            &&& r.last() == wav
        }),
{
    let r = conversion_arguments(input, wav);
    assert(r.subrange(4, 6) =~= seq!["-i"@, input]);
    assert(r.subrange(7, 11) =~= seq!["-ac"@, "1"@, "-ar"@, "16000"@]);
}

/// A warning about silence tells the level, and what to do about a device names it, by its
/// name where it is known, and lists the others.
pub proof fn law_silence_is_told_with_its_device(
    mean: Seq<char>,
    name: Option<Seq<char>>,
    selector: Seq<char>,
    available: Option<Seq<Seq<char>>>,
)
    ensures
        contains(near_silent_warning(mean), mean + " dBFS"@),
        contains(device_hint(name, selector, available), device_label(name, selector)),
        contains(device_label(name, selector), selector),
        name matches Some(n) ==> contains(device_label(name, selector), n),
        available matches Some(d) ==> (d.len() > 0 ==> contains(
            device_hint(name, selector, available),
            join(d, ", "@),
        )),
{
    let none = Seq::<char>::empty();
    let w = near_silent_warning(mean);
    reveal_strlit(
        " dBFS avg); check that the intended input device is selected and not muted, and that microphone permission is granted (see `comlink doctor`); transcript may be unreliable",
    );
    reveal_strlit(" dBFS");
    let a = "captured audio was near-silent ("@;
    let x = mean + " dBFS"@;
    let rest = w.skip((a + x).len() as int);
    assert(w.take((a + x).len() as int) =~= a + x);
    lemma_holds(a, x, rest);
    assert(w =~= a + x + rest);
    let label = device_label(name, selector);
    match name {
        Some(n) => {
            lemma_holds(none, n, " ("@ + selector + ")"@);
            assert(label =~= none + n + (" ("@ + selector + ")"@));
            lemma_holds(n + " ("@, selector, ")"@);
            assert(label =~= n + " ("@ + selector + ")"@);
        },
        None => {
            lemma_holds(none, selector, none);
            assert(label =~= none + selector + none);
        },
    }
    let h = device_hint(name, selector, available);
    let b = "check that "@;
    let after = h.skip((b + label).len() as int);
    assert(h.take((b + label).len() as int) =~= b + label);
    lemma_holds(b, label, after);
    assert(h =~= b + label + after);
    if let Some(d) = available {
        if d.len() > 0 {
            let l = join(d, ", "@);
            let front = h.take(h.len() - l.len());
            lemma_holds(front, l, none);
            assert(h =~= front + l + none);
        }
    }
}

/// Bytes that do not start as a WAV file does are not measured, nor is a file whose samples
/// are not 16 bits wide.
pub proof fn law_other_files_are_not_measured(b: Seq<u8>)
    ensures
        b.len() < 12 || b.subrange(0, 4) != seq![82u8, 73, 70, 70] || b.subrange(8, 12) != seq![
            87u8,
            65,
            86,
            69,
        ] ==> wav_levels(b) is None,
        b.len() >= 44 && b.subrange(12, 20) == seq![102u8, 109, 116, 32, 16, 0, 0, 0]
            && b.subrange(36, 40) == seq![100u8, 97, 116, 97] && b[34] + 256 * b[35] != 16
            ==> wav_levels(b) is None,
{
    if has_wav_header(b) {
        assert(b.subrange(0, 4) =~= seq![82u8, 73, 70, 70]);
        assert(b.subrange(8, 12) =~= seq![87u8, 65, 86, 69]);
    }
    if b.len() >= 44 && b.subrange(12, 20) == seq![102u8, 109, 116, 32, 16, 0, 0, 0] && b.subrange(
        36,
        40,
    ) == seq![100u8, 97, 116, 97] && b[34] + 256 * b[35] != 16 {
        assert forall|i: int| 12 <= i < 20 implies #[trigger] b[i] == b.subrange(12, 20)[i
            - 12] by {}
        assert forall|i: int| 36 <= i < 40 implies #[trigger] b[i] == b.subrange(36, 40)[i
            - 36] by {}
        assert(le32(b, 16) == 16);
        assert(tag_at(b, 12, fmt_tag()));
        assert(tag_at(b, 36, data_tag()) && !tag_at(b, 36, fmt_tag()));
        assert(next_chunk(b, 12) == 36);
        assert(le16(b, 34) != 16);
        reveal_with_fuel(levels_from, 3);
    }
}

} // verus!

use vstd::prelude::*;

verus! {

/// Sum of `s1[start1 + i] * s2[start2 + i]` over `0 <= i < len`.
pub open spec fn window_dot(s1: Seq<i16>, s2: Seq<i16>, start1: int, start2: int, len: nat) -> int
    decreases len,
{
    if len == 0 {
        0
    } else {
        window_dot(s1, s2, start1, start2, (len - 1) as nat) + s1[start1 + len - 1] * s2[start2
            + len - 1]
    }
}

/// Where the window of the first signal starts for a given lag.
pub open spec fn lag_start1(lag: int) -> int {
    if lag < 0 {
        -lag
    } else {
        0
    }
}

/// Where the window of the second signal starts for a given lag.
pub open spec fn lag_start2(lag: int) -> int {
    if lag > 0 {
        lag
    } else {
        0
    }
}

/// Cross-correlation of `s1` and `s2` at `lag`: the sum of `s1[i] * s2[i + lag]`
/// over every `i` for which both `i` and `i + lag` lie in `[0, s1.len())`;
/// zero when there is no such `i`.
pub open spec fn correlation_at(s1: Seq<i16>, s2: Seq<i16>, lag: int) -> int {
    let overlap = s1.len() - (lag_start1(lag) + lag_start2(lag));
    if overlap > 0 {
        window_dot(s1, s2, lag_start1(lag), lag_start2(lag), overlap as nat)
    } else {
        0
    }
}

/// `lag` is the largest lag in `[-max_lag, max_lag]` at which the correlation
/// of `s1` and `s2` reaches its maximum over that range.
pub open spec fn is_last_peak(s1: Seq<i16>, s2: Seq<i16>, max_lag: int, lag: int) -> bool {
    &&& -max_lag <= lag <= max_lag
    &&& forall|l: int|
        -max_lag <= l <= max_lag ==> #[trigger] correlation_at(s1, s2, l) <= correlation_at(
            s1,
            s2,
            lag,
        )
    &&& forall|l: int|
        lag < l <= max_lag ==> #[trigger] correlation_at(s1, s2, l) < correlation_at(s1, s2, lag)
}

/// No other lag in `[-max_lag, max_lag]` reaches the correlation at `lag`.
pub open spec fn is_unique_peak(s1: Seq<i16>, s2: Seq<i16>, max_lag: int, lag: int) -> bool {
    &&& -max_lag <= lag <= max_lag
    &&& forall|l: int|
        -max_lag <= l <= max_lag && l != lag ==> #[trigger] correlation_at(s1, s2, l)
            < correlation_at(s1, s2, lag)
}

/// The product of two samples lies within `[-2^30, 2^30]`.
proof fn lemma_sample_product_bound(a: int, b: int)
    requires
        -32768 <= a <= 32767,
        -32768 <= b <= 32767,
    ensures
        -0x4000_0000 <= a * b <= 0x4000_0000,
{
    assert(-0x4000_0000 <= a * b <= 0x4000_0000) by (nonlinear_arith)
        requires
            -32768 <= a <= 32767,
            -32768 <= b <= 32767,
    ;
}

/// Computes `window_dot` over slices, exactly.
fn window_dot_exec(mic1: &[i16], mic2: &[i16], start1: usize, start2: usize, len: usize) -> (sum:
    i128)
    requires
        start1 + len <= mic1@.len(),
        start2 + len <= mic2@.len(),
    ensures
        sum == window_dot(mic1@, mic2@, start1 as int, start2 as int, len as nat),
{
    let mut sum: i128 = 0;
    let mut i: usize = 0;
    while i < len
        invariant
            i <= len,
            start1 + len <= mic1.len(),
            start2 + len <= mic2.len(),
            sum == window_dot(mic1@, mic2@, start1 as int, start2 as int, i as nat),
            -(i * 0x4000_0000) <= sum <= i * 0x4000_0000,
        decreases len - i,
    {
        let a: i128 = mic1[start1 + i] as i128;
        let b: i128 = mic2[start2 + i] as i128;
        proof {
            lemma_sample_product_bound(a as int, b as int);
        }
        let p: i128 = a * b;
        sum = sum + p;
        i = i + 1;
    }
    sum
}

/// Cross-correlation of `mic1` and `mic2` at every lag from `-max_lag` to
/// `max_lag`, in that order: entry `k` holds the correlation at lag `k - max_lag`.
/// The sums are exact.
pub fn cross_correlation(mic1: &[i16], mic2: &[i16], max_lag: usize) -> (corr: Vec<i128>)
    requires
        mic1@.len() <= mic2@.len(),
        2 * max_lag + 1 <= isize::MAX,
    ensures
        corr@.len() == 2 * max_lag + 1,
        forall|k: int|
            0 <= k < corr@.len() ==> #[trigger] corr@[k] == correlation_at(
                mic1@,
                mic2@,
                k - max_lag,
            ),
{
    let n: usize = mic1.len();
    let count: usize = 2 * max_lag + 1;
    let mut corr: Vec<i128> = Vec::with_capacity(count);
    let mut k: usize = 0;
    while k < count
        invariant
            n == mic1@.len(),
            n <= mic2@.len(),
            count == 2 * max_lag + 1,
            k <= count,
            corr@.len() == k,
            forall|j: int|
                0 <= j < k ==> #[trigger] corr@[j] == correlation_at(mic1@, mic2@, j - max_lag),
        decreases count - k,
    {
        let start1: usize = if k < max_lag {
            max_lag - k
        } else {
            0
        };
        let start2: usize = if k < max_lag {
            0
        } else {
            k - max_lag
        };
        let shift: usize = start1 + start2;
        let value: i128 = if shift < n {
            window_dot_exec(mic1, mic2, start1, start2, n - shift)
        } else {
            0
        };
        assert(lag_start1(k - max_lag) == start1 && lag_start2(k - max_lag) == start2);
        corr.push(value);
        k = k + 1;
    }
    corr
}

/// Index of the largest value; where several values are equally largest,
/// the last of them.
pub fn last_peak_index(values: &[i128]) -> (idx: usize)
    requires
        values@.len() > 0,
    ensures
        idx < values@.len(),
        forall|j: int| 0 <= j < values@.len() ==> #[trigger] values@[j] <= values@[idx as int],
        forall|j: int| idx < j < values@.len() ==> #[trigger] values@[j] < values@[idx as int],
{
    let mut best: usize = 0;
    let mut j: usize = 1;
    while j < values.len()
        invariant
            1 <= j <= values@.len(),
            best < j,
            forall|t: int| 0 <= t < j ==> #[trigger] values@[t] <= values@[best as int],
            forall|t: int| best < t < j ==> #[trigger] values@[t] < values@[best as int],
        decreases values@.len() - j,
    {
        if values[j] >= values[best] {
            best = j;
        }
        j = j + 1;
    }
    best
}

/// The lag, in samples, at which the cross-correlation of the two signals is
/// largest over `[-max_lag, max_lag]`; the largest such lag where several tie.
/// A positive lag means that the second signal lags behind the first.
pub fn best_lag(mic1: &[i16], mic2: &[i16], max_lag: usize) -> (lag: isize)
    requires
        mic1@.len() <= mic2@.len(),
        2 * max_lag + 1 <= isize::MAX,
    ensures
        is_last_peak(mic1@, mic2@, max_lag as int, lag as int),
{
    let corr = cross_correlation(mic1, mic2, max_lag);
    let idx: usize = last_peak_index(corr.as_slice());
    let lag: isize = idx as isize - max_lag as isize;
    assert forall|l: int| -max_lag <= l <= max_lag implies #[trigger] correlation_at(
        mic1@,
        mic2@,
        l,
    ) <= correlation_at(mic1@, mic2@, lag as int) by {
        assert(corr@[l + max_lag] == correlation_at(mic1@, mic2@, l));
    }
    assert forall|l: int| lag < l <= max_lag implies #[trigger] correlation_at(mic1@, mic2@, l)
        < correlation_at(mic1@, mic2@, lag as int) by {
        assert(corr@[l + max_lag] == correlation_at(mic1@, mic2@, l));
    }
    lag
}

/// Exchanging the two signals (and their windows) leaves a windowed dot product unchanged.
proof fn lemma_window_dot_swap(s1: Seq<i16>, s2: Seq<i16>, start1: int, start2: int, len: nat)
    ensures
        window_dot(s1, s2, start1, start2, len) == window_dot(s2, s1, start2, start1, len),
    decreases len,
{
    if len > 0 {
        lemma_window_dot_swap(s1, s2, start1, start2, (len - 1) as nat);
        let x = s1[start1 + len - 1] as int;
        let y = s2[start2 + len - 1] as int;
        assert(x * y == y * x) by (nonlinear_arith);
    }
}

/// A window of `j + k` samples is the window of its first `j` samples followed
/// by the window of the next `k`.
proof fn lemma_window_dot_split(
    s1: Seq<i16>,
    s2: Seq<i16>,
    start1: int,
    start2: int,
    j: nat,
    k: nat,
)
    ensures
        window_dot(s1, s2, start1, start2, j + k) == window_dot(s1, s2, start1, start2, j)
            + window_dot(s1, s2, start1 + j, start2 + j, k),
    decreases k,
{
    if k > 0 {
        lemma_window_dot_split(s1, s2, start1, start2, j, (k - 1) as nat);
        assert((j + k - 1) as nat == j + (k - 1) as nat);
    }
}

/// The energy of a window of a signal is never negative.
proof fn lemma_energy_nonnegative(s: Seq<i16>, start: int, len: nat)
    ensures
        0 <= window_dot(s, s, start, start, len),
    decreases len,
{
    if len > 0 {
        lemma_energy_nonnegative(s, start, (len - 1) as nat);
        let x = s[start + len - 1] as int;
        assert(x * x >= 0) by (nonlinear_arith);
    }
}

/// The energy of the first samples of a window never decreases as more samples are taken.
proof fn lemma_energy_monotone(s: Seq<i16>, start: int, short: nat, long: nat)
    requires
        short <= long,
    ensures
        0 <= window_dot(s, s, start, start, short) <= window_dot(s, s, start, start, long),
    decreases long,
{
    lemma_energy_nonnegative(s, start, short);
    if short < long {
        lemma_energy_monotone(s, start, short, (long - 1) as nat);
        let x = s[start + long - 1] as int;
        assert(x * x >= 0) by (nonlinear_arith);
    }
}

/// Twice a windowed dot product of a signal with itself is at most the sum of
/// the energies of the two windows.
proof fn lemma_window_dot_bounded_by_energy(s: Seq<i16>, a: int, b: int, len: nat)
    ensures
        2 * window_dot(s, s, a, b, len) <= window_dot(s, s, a, a, len) + window_dot(
            s,
            s,
            b,
            b,
            len,
        ),
    decreases len,
{
    if len > 0 {
        lemma_window_dot_bounded_by_energy(s, a, b, (len - 1) as nat);
        let x = s[a + len - 1] as int;
        let y = s[b + len - 1] as int;
        assert(2 * (x * y) <= x * x + y * y) by (nonlinear_arith);
    }
}

/// Correlating the second signal against the first mirrors the lag: when the
/// two signals have the same length, the correlation at `lag` equals the
/// correlation of the exchanged signals at `-lag`.
pub proof fn correlation_swap_mirrors_lag(s1: Seq<i16>, s2: Seq<i16>, lag: int)
    requires
        s1.len() == s2.len(),
    ensures
        correlation_at(s1, s2, lag) == correlation_at(s2, s1, -lag),
{
    let overlap = s1.len() - (lag_start1(lag) + lag_start2(lag));
    if overlap > 0 {
        lemma_window_dot_swap(s1, s2, lag_start1(lag), lag_start2(lag), overlap as nat);
    }
}

/// Exchanging two microphones of equal length mirrors a unique correlation
/// peak: the peak of the exchanged pair is unique too, lies at the negated
/// lag, and is the lag that `best_lag` reports for the exchanged pair.
pub proof fn swapped_microphones_mirror_peak(s1: Seq<i16>, s2: Seq<i16>, max_lag: int, lag: int)
    requires
        s1.len() == s2.len(),
        is_unique_peak(s1, s2, max_lag, lag),
    ensures
        is_unique_peak(s2, s1, max_lag, -lag),
        is_last_peak(s2, s1, max_lag, -lag),
{
    correlation_swap_mirrors_lag(s1, s2, lag);
    assert forall|l: int| -max_lag <= l <= max_lag implies #[trigger] correlation_at(s2, s1, l)
        <= correlation_at(s2, s1, -lag) by {
        correlation_swap_mirrors_lag(s1, s2, -l);
        assert(correlation_at(s1, s2, -l) <= correlation_at(s1, s2, lag));
    }
    assert forall|l: int| -max_lag <= l <= max_lag && l != -lag implies #[trigger] correlation_at(
        s2,
        s1,
        l,
    ) < correlation_at(s2, s1, -lag) by {
        correlation_swap_mirrors_lag(s1, s2, -l);
        assert(correlation_at(s1, s2, -l) < correlation_at(s1, s2, lag));
    }
}

/// For a lag that is not negative, the autocorrelation is at most its value at lag zero.
proof fn lemma_autocorrelation_nonnegative_lag(s: Seq<i16>, lag: int)
    requires
        lag >= 0,
    ensures
        correlation_at(s, s, lag) <= correlation_at(s, s, 0),
{
    let n = s.len();
    lemma_energy_monotone(s, 0, 0, n);
    if lag > 0 && n - lag > 0 {
        let o = (n - lag) as nat;
        lemma_window_dot_bounded_by_energy(s, 0, lag, o);
        lemma_energy_monotone(s, 0, o, n);
        lemma_window_dot_split(s, s, 0, 0, lag as nat, o);
        lemma_energy_monotone(s, 0, 0, lag as nat);
        lemma_energy_monotone(s, lag, o, o);
        assert(lag as nat + o == n);
    }
}

/// The correlation of a signal with itself is largest at lag zero.
pub proof fn autocorrelation_peaks_at_zero(s: Seq<i16>, lag: int)
    ensures
        correlation_at(s, s, lag) <= correlation_at(s, s, 0),
{
    if lag < 0 {
        correlation_swap_mirrors_lag(s, s, lag);
        lemma_autocorrelation_nonnegative_lag(s, -lag);
    } else {
        lemma_autocorrelation_nonnegative_lag(s, lag);
    }
}

/// For two identical signals the reported lag is never negative, and the
/// correlation there equals the correlation at lag zero.
pub proof fn identical_signals_peak_not_negative(s: Seq<i16>, max_lag: int, lag: int)
    requires
        is_last_peak(s, s, max_lag, lag),
    ensures
        lag >= 0,
        correlation_at(s, s, lag) == correlation_at(s, s, 0),
{
    autocorrelation_peaks_at_zero(s, lag);
    assert(correlation_at(s, s, 0) <= correlation_at(s, s, lag));
    if lag < 0 {
        correlation_swap_mirrors_lag(s, s, lag);
        assert(correlation_at(s, s, -lag) < correlation_at(s, s, lag));
    }
}

/// `s` is zero everywhere except at position `p`, where it holds `v`.
pub open spec fn is_impulse(s: Seq<i16>, p: int, v: i16) -> bool {
    &&& 0 <= p < s.len()
    &&& s[p] == v
    &&& forall|i: int| 0 <= i < s.len() && i != p ==> #[trigger] s[i] == 0
}

/// The signal with every sample negated.
pub open spec fn negated(s: Seq<i16>) -> Seq<i16> {
    Seq::new(s.len(), |i: int| (-s[i]) as i16)
}

/// A window over two impulses holds their product when it pairs the two
/// impulse positions, and zero otherwise.
proof fn lemma_window_dot_impulses(
    s1: Seq<i16>,
    s2: Seq<i16>,
    p: int,
    v1: i16,
    q: int,
    v2: i16,
    start1: int,
    start2: int,
    len: nat,
)
    requires
        is_impulse(s1, p, v1),
        is_impulse(s2, q, v2),
        0 <= start1,
        start1 + len <= s1.len(),
        0 <= start2,
        start2 + len <= s2.len(),
    ensures
        window_dot(s1, s2, start1, start2, len) == (if start1 <= p < start1 + len && q - start2
            == p - start1 {
            v1 * v2
        } else {
            0
        }),
    decreases len,
{
    if len > 0 {
        lemma_window_dot_impulses(s1, s2, p, v1, q, v2, start1, start2, (len - 1) as nat);
        let i = start1 + len - 1;
        let j = start2 + len - 1;
        if i != p {
            assert(s1[i] == 0);
            assert(s1[i] * s2[j] == 0);
        } else if j != q {
            assert(s2[j] == 0);
            assert(s1[i] * s2[j] == 0);
        }
    }
}

/// Correlating two impulses of equal-length signals gives the product of
/// their values at the lag that carries the first impulse onto the second,
/// and zero at every other lag, wherever in the signals the impulses lie.
pub proof fn impulse_correlation(
    s1: Seq<i16>,
    s2: Seq<i16>,
    p: int,
    v1: i16,
    q: int,
    v2: i16,
    lag: int,
)
    requires
        s1.len() == s2.len(),
        is_impulse(s1, p, v1),
        is_impulse(s2, q, v2),
    ensures
        correlation_at(s1, s2, lag) == (if lag == q - p {
            v1 * v2
        } else {
            0
        }),
{
    let overlap = s1.len() - (lag_start1(lag) + lag_start2(lag));
    if overlap > 0 {
        lemma_window_dot_impulses(
            s1,
            s2,
            p,
            v1,
            q,
            v2,
            lag_start1(lag),
            lag_start2(lag),
            overlap as nat,
        );
    }
}

/// For an impulse on each microphone whose product is positive and whose
/// distance is within the searched range, the reported lag is that distance.
pub proof fn impulse_pair_best_lag(
    s1: Seq<i16>,
    s2: Seq<i16>,
    p: int,
    v1: i16,
    q: int,
    v2: i16,
    max_lag: int,
    lag: int,
)
    requires
        s1.len() == s2.len(),
        is_impulse(s1, p, v1),
        is_impulse(s2, q, v2),
        v1 * v2 > 0,
        -max_lag <= q - p <= max_lag,
        is_last_peak(s1, s2, max_lag, lag),
    ensures
        lag == q - p,
{
    impulse_correlation(s1, s2, p, v1, q, v2, q - p);
    impulse_correlation(s1, s2, p, v1, q, v2, lag);
    assert(correlation_at(s1, s2, q - p) <= correlation_at(s1, s2, lag));
}

/// Negating the second signal negates a windowed dot product.
proof fn lemma_window_dot_negated(s1: Seq<i16>, s2: Seq<i16>, start1: int, start2: int, len: nat)
    requires
        0 <= start2,
        start2 + len <= s2.len(),
        forall|i: int| 0 <= i < s2.len() ==> #[trigger] s2[i] != i16::MIN,
    ensures
        window_dot(s1, negated(s2), start1, start2, len) == -window_dot(
            s1,
            s2,
            start1,
            start2,
            len,
        ),
    decreases len,
{
    if len > 0 {
        lemma_window_dot_negated(s1, s2, start1, start2, (len - 1) as nat);
        let x = s1[start1 + len - 1] as int;
        let y = s2[start2 + len - 1];
        assert(y != i16::MIN);
        assert(negated(s2)[start2 + len - 1] == -y);
        assert(x * (-y) == -(x * y)) by (nonlinear_arith);
    }
}

/// Negating every sample of the second microphone negates the correlation at
/// every lag (for signals without the one sample value that has no negation).
pub proof fn correlation_of_negated_signal(s1: Seq<i16>, s2: Seq<i16>, lag: int)
    requires
        s1.len() <= s2.len(),
        forall|i: int| 0 <= i < s2.len() ==> #[trigger] s2[i] != i16::MIN,
    ensures
        correlation_at(s1, negated(s2), lag) == -correlation_at(s1, s2, lag),
{
    let overlap = s1.len() - (lag_start1(lag) + lag_start2(lag));
    if overlap > 0 {
        lemma_window_dot_negated(s1, s2, lag_start1(lag), lag_start2(lag), overlap as nat);
    }
}

/// The signal whose samples are the sums of the samples of `s` and `t`.
pub open spec fn added(s: Seq<i16>, t: Seq<i16>) -> Seq<i16> {
    Seq::new(s.len(), |i: int| (s[i] + t[i]) as i16)
}

/// A windowed dot product distributes over a sum of second signals.
proof fn lemma_window_dot_added(
    s1: Seq<i16>,
    s2: Seq<i16>,
    s3: Seq<i16>,
    start1: int,
    start2: int,
    len: nat,
)
    requires
        s2.len() == s3.len(),
        0 <= start2,
        start2 + len <= s2.len(),
        forall|i: int| 0 <= i < s2.len() ==> i16::MIN <= #[trigger] s2[i] + s3[i] <= i16::MAX,
    ensures
        window_dot(s1, added(s2, s3), start1, start2, len) == window_dot(
            s1,
            s2,
            start1,
            start2,
            len,
        ) + window_dot(s1, s3, start1, start2, len),
    decreases len,
{
    if len > 0 {
        lemma_window_dot_added(s1, s2, s3, start1, start2, (len - 1) as nat);
        let j = start2 + len - 1;
        let x = s1[start1 + len - 1] as int;
        let y = s2[j] as int;
        let z = s3[j] as int;
        assert(i16::MIN <= s2[j] + s3[j] <= i16::MAX);
        assert(added(s2, s3)[j] == y + z);
        assert(x * (y + z) == x * y + x * z) by (nonlinear_arith);
    }
}

/// Superposition: the correlation with a sum of two signals is the sum of the
/// two correlations, at every lag (when no sample sum leaves the 16-bit range).
pub proof fn correlation_of_added_signals(s1: Seq<i16>, s2: Seq<i16>, s3: Seq<i16>, lag: int)
    requires
        s1.len() <= s2.len(),
        s2.len() == s3.len(),
        forall|i: int| 0 <= i < s2.len() ==> i16::MIN <= #[trigger] s2[i] + s3[i] <= i16::MAX,
    ensures
        correlation_at(s1, added(s2, s3), lag) == correlation_at(s1, s2, lag) + correlation_at(
            s1,
            s3,
            lag,
        ),
{
    let overlap = s1.len() - (lag_start1(lag) + lag_start2(lag));
    if overlap > 0 {
        lemma_window_dot_added(s1, s2, s3, lag_start1(lag), lag_start2(lag), overlap as nat);
    }
}

} // verus!

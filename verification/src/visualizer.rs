//! The whole-number side of the visualizer: which frequency bins make up which
//! band, and when enough samples have come for the next frame.

use vstd::prelude::*;

verus! {

pub const FFT_SIZE: usize = 1024;

/// New samples consumed per FFT frame (overlap = FFT_SIZE - HOP_SIZE).
pub const HOP_SIZE: usize = 128;

pub const NUM_BANDS: usize = 128;

// ---------------------------------------------------------------------------
// Bands
// ---------------------------------------------------------------------------

/// The bins of a band, from the first to behind the last, where the bins below
/// `used` are taken and the band would naturally go from `from` to `to`: a band has
/// a bin of its own as long as there is one, and the last bin after that.
pub open spec fn band(num_bins: int, used: int, from: int, to: int) -> (int, int) {
    if used >= num_bins {
        (num_bins - 1, num_bins)
    } else {
        let wanted = if from > used {
            from
        } else {
            used
        };
        let start = if wanted < num_bins - 1 {
            wanted
        } else {
            num_bins - 1
        };
        let least = if to > start + 1 {
            to
        } else {
            start + 1
        };
        let end = if least < num_bins {
            least
        } else {
            num_bins
        };
        (start, end)
    }
}

/// The bins of the first `k` bands, whose natural edges are given.
pub open spec fn bands(num_bins: int, edges: Seq<usize>, k: int) -> Seq<(int, int)>
    decreases k,
{
    if k <= 0 {
        Seq::empty()
    } else {
        bands(num_bins, edges, k - 1).push(
            band(
                num_bins,
                used_up_to(num_bins, edges, k - 1),
                edges[k - 1] as int,
                edges[k] as int,
            ),
        )
    }
}

/// The first bin that the first `k` bands leave; they leave out the very first.
pub open spec fn used_up_to(num_bins: int, edges: Seq<usize>, k: int) -> int
    decreases k,
{
    if k <= 0 {
        1
    } else {
        let used = used_up_to(num_bins, edges, k - 1);
        if used >= num_bins {
            used
        } else {
            band(num_bins, used, edges[k - 1] as int, edges[k] as int).1
        }
    }
}

/// Ranges as whole numbers.
pub open spec fn whole_ranges(s: Seq<(usize, usize)>) -> Seq<(int, int)> {
    s.map_values(|r: (usize, usize)| (r.0 as int, r.1 as int))
}

/// The bins of the bands between natural edges: one band fewer than there are
/// edges.
pub fn precompute_band_ranges(num_bins: usize, edges: &[usize]) -> (r: Vec<(usize, usize)>)
    requires
        num_bins > 0,
        edges@.len() > 0,
    ensures
        whole_ranges(r@) == bands(num_bins as int, edges@, edges@.len() - 1),
{
    let mut used: usize = 1;
    let mut out: Vec<(usize, usize)> = Vec::new();
    let mut k: usize = 0;
    assert(whole_ranges(out@) =~= bands(num_bins as int, edges@, 0));
    while k < edges.len() - 1
        invariant
            num_bins > 0,
            edges@.len() > 0,
            k + 1 <= edges@.len(),
            used == used_up_to(num_bins as int, edges@, k as int),
            whole_ranges(out@) == bands(num_bins as int, edges@, k as int),
        decreases edges@.len() - k,
    {
        let ghost before = out@;
        let (start, end): (usize, usize) = if used >= num_bins {
            (num_bins - 1, num_bins)
        } else {
            let wanted: usize = if edges[k] > used {
                edges[k]
            } else {
                used
            };
            let start: usize = if wanted < num_bins - 1 {
                wanted
            } else {
                num_bins - 1
            };
            let least: usize = if edges[k + 1] > start + 1 {
                edges[k + 1]
            } else {
                start + 1
            };
            let end: usize = if least < num_bins {
                least
            } else {
                num_bins
            };
            used = end;
            (start, end)
        };
        out.push((start, end));
        k += 1;
        assert(whole_ranges(out@) =~= whole_ranges(before).push((start as int, end as int)));
    }
    out
}

/// Every band has at least one bin, and all its bins exist.
pub proof fn law_bands_are_not_empty(num_bins: int, edges: Seq<usize>, k: int, i: int)
    requires
        num_bins > 0,
        0 <= i < k,
    ensures
        bands(num_bins, edges, k).len() == k,
        0 <= bands(num_bins, edges, k)[i].0 < bands(num_bins, edges, k)[i].1 <= num_bins,
    decreases k,
{
    lemma_bands_len(num_bins, edges, k);
    lemma_bands_len(num_bins, edges, k - 1);
    lemma_used_is_positive(num_bins, edges, k - 1);
    if i < k - 1 {
        law_bands_are_not_empty(num_bins, edges, k - 1, i);
    }
}

proof fn lemma_bands_len(num_bins: int, edges: Seq<usize>, k: int)
    requires
        k >= 0,
    ensures
        bands(num_bins, edges, k).len() == k,
    decreases k,
{
    if k > 0 {
        lemma_bands_len(num_bins, edges, k - 1);
    }
}

proof fn lemma_used_is_positive(num_bins: int, edges: Seq<usize>, k: int)
    requires
        num_bins > 0,
    ensures
        used_up_to(num_bins, edges, k) >= 1,
    decreases k,
{
    if k > 0 {
        lemma_used_is_positive(num_bins, edges, k - 1);
    }
}

/// A band begins where the band before it has ended, or later: no bin belongs to
/// two bands, except the last, which serves all bands for which none is left.
pub proof fn law_bands_do_not_overlap(num_bins: int, edges: Seq<usize>, k: int, i: int)
    requires
        num_bins > 1,
        0 <= i,
        i + 1 < k,
    ensures
        ({
            let b = bands(num_bins, edges, k);
            b[i].1 <= b[i + 1].0 || (b[i].1 == num_bins && b[i + 1] == (num_bins - 1, num_bins))
        }),
    decreases k,
{
    lemma_bands_len(num_bins, edges, k);
    lemma_bands_len(num_bins, edges, k - 1);
    lemma_bands_len(num_bins, edges, k - 2);
    if i + 1 < k - 1 {
        law_bands_do_not_overlap(num_bins, edges, k - 1, i);
    } else {
        lemma_used_is_positive(num_bins, edges, k - 2);
        lemma_used_at_most(num_bins, edges, k - 2);
    }
}

/// Between natural edges that lie within the bins no bin is left out: a band begins
/// where the band before it has ended, or is the last bin where none is left; the
/// first begins at the second bin where its natural edge does.
pub proof fn law_bands_leave_no_gap(num_bins: int, edges: Seq<usize>, k: int, i: int)
    requires
        num_bins > 1,
        0 <= i < k < edges.len(),
        forall|j: int| 0 <= j <= k ==> (#[trigger] edges[j]) <= num_bins,
    ensures
        ({
            let b = bands(num_bins, edges, k);
            &&& edges[0] <= 1 ==> b[0].0 == 1
            &&& i + 1 < k ==> b[i].1 == b[i + 1].0 || (b[i].1 == num_bins && b[i + 1] == (
                num_bins - 1,
                num_bins,
            ))
        }),
    decreases k,
{
    lemma_bands_len(num_bins, edges, k);
    lemma_bands_len(num_bins, edges, k - 1);
    lemma_used_is_positive(num_bins, edges, k - 1);
    if k > 1 {
        lemma_bands_len(num_bins, edges, k - 2);
        lemma_used_is_positive(num_bins, edges, k - 2);
        lemma_used_at_most(num_bins, edges, k - 2);
        lemma_used_at_most(num_bins, edges, k - 1);
        assert(edges[k - 1] <= num_bins);
        law_bands_leave_no_gap(
            num_bins,
            edges,
            k - 1,
            if i < k - 1 {
                i
            } else {
                i - 1
            },
        );
    } else {
        reveal_with_fuel(bands, 2);
        assert(bands(num_bins, edges, 1)[0] == band(num_bins, 1, edges[0] as int, edges[1] as int));
    }
}

proof fn lemma_used_at_most(num_bins: int, edges: Seq<usize>, k: int)
    requires
        num_bins > 1,
    ensures
        used_up_to(num_bins, edges, k) <= num_bins,
    decreases k,
{
    if k > 0 {
        lemma_used_at_most(num_bins, edges, k - 1);
    }
}

/// The bands beside a band; at an end, the band itself.
pub fn neighbours(i: usize, n: usize) -> (r: (usize, usize))
    requires
        i < n,
    ensures
        r.0 == (if i > 0 {
            i - 1
        } else {
            0
        }),
        r.1 == (if i + 1 < n {
            i + 1
        } else {
            n - 1
        }),
        r.0 < n,
        r.1 < n,
{
    let before: usize = if i > 0 {
        i - 1
    } else {
        0
    };
    let after: usize = if i + 1 < n {
        i + 1
    } else {
        n - 1
    };
    (before, after)
}

// ---------------------------------------------------------------------------
// Frames
// ---------------------------------------------------------------------------

/// How many samples of the channels have been gathered for the next mixed sample,
/// and how many mixed samples wait for the next frame.
#[derive(Debug, Clone, Copy, PartialEq, Eq, Structural)]
pub struct SampleClock {
    pub gathered: usize,
    pub buffered: usize,
}

/// What a sample completes.
#[derive(Debug, Clone, Copy, PartialEq, Eq, Structural)]
pub enum SampleStep {
    /// Nothing yet: more channels are to come.
    Waiting,
    /// A mixed sample.
    Mixed,
    /// A mixed sample, and with it a frame.
    Frame,
}

impl SampleClock {
    /// Less than a frame is waiting.
    pub open spec fn wf(self) -> bool {
        self.buffered < FFT_SIZE && self.gathered < u16::MAX
    }

    pub open spec fn empty() -> SampleClock {
        SampleClock { gathered: 0, buffered: 0 }
    }

    /// After one more mixed sample: a full frame leaves, but for its overlap.
    pub open spec fn mixed(self) -> (SampleClock, SampleStep) {
        if self.buffered + 1 >= FFT_SIZE {
            (
                SampleClock {
                    gathered: 0,
                    buffered: (self.buffered + 1 - HOP_SIZE) as usize,
                },
                SampleStep::Frame,
            )
        } else {
            (
                SampleClock { gathered: 0, buffered: (self.buffered + 1) as usize },
                SampleStep::Mixed,
            )
        }
    }

    /// After one more sample of one channel.
    pub open spec fn sampled(self, channels: u16) -> (SampleClock, SampleStep) {
        if self.gathered + 1 >= channels {
            self.mixed()
        } else {
            (
                SampleClock { gathered: (self.gathered + 1) as usize, ..self },
                SampleStep::Waiting,
            )
        }
    }

    pub fn new() -> (r: SampleClock)
        ensures
            r == SampleClock::empty(),
            r.wf(),
    {
        SampleClock { gathered: 0, buffered: 0 }
    }

    /// Takes a sample of one channel.
    pub fn process_sample(&mut self, channels: u16) -> (r: SampleStep)
        requires
            old(self).wf(),
        ensures
            (*final(self), r) == old(self).sampled(channels),
            final(self).wf(),
    {
        if self.gathered + 1 < channels as usize {
            self.gathered = self.gathered + 1;
            return SampleStep::Waiting;
        }
        self.gathered = 0;
        self.buffered = self.buffered + 1;
        if self.buffered >= FFT_SIZE {
            self.buffered = self.buffered - HOP_SIZE;
            SampleStep::Frame
        } else {
            SampleStep::Mixed
        }
    }
}

/// The clock after `n` mixed samples, and how many frames they made.
pub open spec fn after_samples(n: nat) -> (SampleClock, nat)
    decreases n,
{
    if n == 0 {
        (SampleClock::empty(), 0)
    } else {
        let (clock, frames) = after_samples((n - 1) as nat);
        let (next, step) = clock.mixed();
        (
            next,
            if step == SampleStep::Frame {
                frames + 1
            } else {
                frames
            },
        )
    }
}

/// The first frame comes when a frame is full, and then one comes with every hop.
pub proof fn law_a_frame_with_every_hop(n: nat)
    ensures
        after_samples(n).0.wf(),
        n < FFT_SIZE ==> after_samples(n).1 == 0,
        n >= FFT_SIZE ==> after_samples(n).1 == (n - FFT_SIZE) / HOP_SIZE as int + 1,
    decreases n,
{
    lemma_after_samples(n);
}

proof fn lemma_after_samples(n: nat)
    ensures
        after_samples(n).0.gathered == 0,
        n < FFT_SIZE ==> after_samples(n).0.buffered == n && after_samples(n).1 == 0,
        n >= FFT_SIZE ==> after_samples(n).0.buffered == FFT_SIZE - HOP_SIZE + (n - FFT_SIZE)
            % HOP_SIZE as int && after_samples(n).1 == (n - FFT_SIZE) / HOP_SIZE as int + 1,
    decreases n,
{
    if n > 0 {
        lemma_after_samples((n - 1) as nat);
        if n > FFT_SIZE {
            let m = n - 1 - FFT_SIZE;
            assert((m + 1) % 128 == (if m % 128 == 127 {
                0
            } else {
                m % 128 + 1
            }));
            assert((m + 1) / 128 == (if m % 128 == 127 {
                m / 128 + 1
            } else {
                m / 128
            }));
        }
    }
}

/// Bands whose natural edges rise by at least a bin, behind the first bin and within
/// the bins there are, keep their natural edges.
pub proof fn law_bands_keep_natural_edges(num_bins: int, edges: Seq<usize>, k: int, i: int)
    requires
        0 <= i < k < edges.len(),
        1 <= edges[0],
        forall|j: int, l: int| 0 <= j < l <= k ==> (#[trigger] edges[j]) < #[trigger] edges[l],
        edges[k] <= num_bins,
    ensures
        bands(num_bins, edges, k)[i] == (edges[i] as int, edges[i + 1] as int),
    decreases k,
{
    lemma_bands_len(num_bins, edges, k);
    lemma_bands_len(num_bins, edges, k - 1);
    lemma_used_is_the_edge(num_bins, edges, k - 1);
    assert(edges[k - 1] < edges[k]);
    if i < k - 1 {
        law_bands_keep_natural_edges(num_bins, edges, k - 1, i);
    }
}

proof fn lemma_used_is_the_edge(num_bins: int, edges: Seq<usize>, k: int)
    requires
        0 <= k < edges.len(),
        1 <= edges[0],
        forall|j: int, l: int| 0 <= j < l <= k ==> (#[trigger] edges[j]) < #[trigger] edges[l],
        edges[k] <= num_bins,
    ensures
        k == 0 ==> used_up_to(num_bins, edges, k) == 1,
        k > 0 ==> used_up_to(num_bins, edges, k) == edges[k],
    decreases k,
{
    if k > 0 {
        assert(edges[k - 1] < edges[k]);
        lemma_used_is_the_edge(num_bins, edges, k - 1);
        assert(k - 1 > 0 ==> edges[0] < edges[k - 1]);
    }
}

/// A sample of every channel makes up a mixed sample, and only the last of them
/// completes it.
pub proof fn law_channels_are_mixed(c: SampleClock, channels: u16)
    requires
        c.wf(),
        c.gathered < channels,
    ensures
        ({
            let (next, step) = c.sampled(channels);
            &&& c.gathered + 1 < channels ==> step == SampleStep::Waiting && next.gathered
                == c.gathered + 1 && next.buffered == c.buffered
            &&& c.gathered + 1 == channels ==> step != SampleStep::Waiting && next.gathered == 0
            &&& c.gathered + 1 == channels && c.buffered + 1 < FFT_SIZE ==> step
                == SampleStep::Mixed && next.buffered == c.buffered + 1
            &&& c.gathered + 1 == channels && c.buffered + 1 == FFT_SIZE ==> step
                == SampleStep::Frame && next.buffered == FFT_SIZE - HOP_SIZE
        }),
{
}

} // verus!

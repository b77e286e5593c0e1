//! How much a session reads.
use crate::clock::Interval;
use vstd::prelude::*;

verus! {

/// The sum as a counter shows it: it wraps around at the end of its range.
pub open spec fn counted(count: u64, more: u64) -> u64 {
    if count + more > u64::MAX {
        (count + more - 0x1_0000_0000_0000_0000) as u64
    } else {
        (count + more) as u64
    }
}

fn count(total: u64, more: u64) -> (sum: u64)
    ensures
        sum == counted(total, more),
{
    total.wrapping_add(more)
}

/// What was read in one window of time.
#[derive(Clone, Copy, Debug, PartialEq, Eq)]
pub struct MetricsReport {
    pub bytes_read: u64,
    /// The length of the window
    pub elapsed_nanos: u128,
    pub read_cnt: u64,
    pub read_zero_cnt: u64,
    pub read_max_cnt: u64,
}

/// What one read adds to the records.
#[derive(Clone, Copy, Debug, PartialEq, Eq)]
pub struct MetricsUpdate {
    /// The number of bytes to go into the moving average
    pub sample: Option<u64>,
    /// The window that this read closes
    pub report: Option<MetricsReport>,
}

/// Counts reads in windows of time.
#[derive(Clone, Copy, Debug, PartialEq, Eq, Structural)]
pub struct Metrics {
    pub rtt_buffer_size: u64,
    pub window_start: Interval,
    pub read_cnt: u64,
    pub bytes_read: u64,
    pub read_zero_cnt: u64,
    pub read_max_cnt: u64,
}

impl Metrics {
    /// The length of a window, in nanoseconds
    pub const WINDOW_DURATION_NANOS: u128 = 2_000_000_000;

    /// No reads yet in a window that starts at `now`.
    pub open spec fn fresh(rtt_buffer_size: u64, now: Interval) -> Metrics {
        Metrics {
            rtt_buffer_size,
            window_start: now,
            read_cnt: 0,
            bytes_read: 0,
            read_zero_cnt: 0,
            read_max_cnt: 0,
        }
    }

    /// The counts with one more read.
    pub open spec fn with_read(self, bytes: u64) -> Metrics {
        Metrics {
            read_cnt: counted(self.read_cnt, 1),
            bytes_read: counted(self.bytes_read, bytes),
            read_zero_cnt: if bytes == 0 {
                counted(self.read_zero_cnt, 1)
            } else {
                self.read_zero_cnt
            },
            read_max_cnt: if bytes != 0 && bytes == self.rtt_buffer_size {
                counted(self.read_max_cnt, 1)
            } else {
                self.read_max_cnt
            },
            ..self
        }
    }

    /// Whether the window is over at `now`.
    pub open spec fn window_is_over(self, now: Interval) -> bool {
        now.nanos_since(self.window_start) >= Self::WINDOW_DURATION_NANOS
    }

    /// The counts after a read at `now`: a read that comes when the window is
    /// over is the last one in it.
    pub open spec fn updated(self, bytes: u64, now: Interval) -> Metrics {
        if self.window_is_over(now) {
            Metrics::fresh(self.rtt_buffer_size, now)
        } else {
            self.with_read(bytes)
        }
    }

    /// What a read at `now` adds to the records.
    pub open spec fn update_of(self, bytes: u64, now: Interval) -> MetricsUpdate {
        MetricsUpdate {
            sample: if bytes == 0 {
                None
            } else {
                Some(bytes)
            },
            report: if self.window_is_over(now) {
                let window = self.with_read(bytes);
                Some(
                    MetricsReport {
                        bytes_read: window.bytes_read,
                        elapsed_nanos: now.nanos_since(self.window_start) as u128,
                        read_cnt: window.read_cnt,
                        read_zero_cnt: window.read_zero_cnt,
                        read_max_cnt: window.read_max_cnt,
                    },
                )
            } else {
                None
            },
        }
    }

    /// No reads yet.
    pub fn new(host_rtt_buffer_size: usize, now: Interval) -> (metrics: Self)
        ensures
            metrics == Metrics::fresh(host_rtt_buffer_size as u64, now),
    {
        Metrics {
            rtt_buffer_size: host_rtt_buffer_size as u64,
            window_start: now,
            read_cnt: 0,
            bytes_read: 0,
            read_zero_cnt: 0,
            read_max_cnt: 0,
        }
    }

    /// Opens a new window.
    pub fn reset(&mut self, now: Interval)
        ensures
            *final(self) == Metrics::fresh(old(self).rtt_buffer_size, now),
    {
        self.read_cnt = 0;
        self.bytes_read = 0;
        self.read_zero_cnt = 0;
        self.read_max_cnt = 0;
        self.window_start = now;
    }

    /// Counts a read.
    pub fn update(&mut self, bytes_read: usize, now: Interval) -> (update: MetricsUpdate)
        ensures
            *final(self) == old(self).updated(bytes_read as u64, now),
            update == old(self).update_of(bytes_read as u64, now),
    {
        let elapsed: u128 = now.since(&self.window_start);
        let bytes: u64 = bytes_read as u64;
        self.read_cnt = count(self.read_cnt, 1);
        self.bytes_read = count(self.bytes_read, bytes);
        let sample: Option<u64> = if bytes == 0 {
            self.read_zero_cnt = count(self.read_zero_cnt, 1);
            None
        } else {
            if bytes == self.rtt_buffer_size {
                self.read_max_cnt = count(self.read_max_cnt, 1);
            }
            Some(bytes)
        };
        let report = if elapsed >= Self::WINDOW_DURATION_NANOS {
            let report = MetricsReport {
                bytes_read: self.bytes_read,
                elapsed_nanos: elapsed,
                read_cnt: self.read_cnt,
                read_zero_cnt: self.read_zero_cnt,
                read_max_cnt: self.read_max_cnt,
            };
            self.reset(now);
            Some(report)
        } else {
            None
        };
        MetricsUpdate { sample, report }
    }
}

/// Every read in a window counts once: as one without data, as one that filled the
/// buffer, or as neither.
pub proof fn reads_add_up(metrics: Metrics, bytes: u64, now: Interval)
    requires
        metrics.read_cnt < u64::MAX,
        metrics.read_zero_cnt + metrics.read_max_cnt <= metrics.read_cnt,
    ensures
        ({
            let next = metrics.updated(bytes, now);
            &&& next.read_zero_cnt + next.read_max_cnt <= next.read_cnt
            &&& next.read_cnt == (if metrics.window_is_over(now) {
                0
            } else {
                metrics.read_cnt + 1
            })
            &&& metrics.update_of(bytes, now).report matches Some(report) ==> report.read_cnt
                == metrics.read_cnt + 1 && report.read_zero_cnt + report.read_max_cnt
                <= report.read_cnt
        }),
{
}

/// A counter goes on from zero past the end of its range.
pub proof fn counters_wrap_around(count: u64, more: u64)
    ensures
        counted(count, more) == (count + more) % 0x1_0000_0000_0000_0000,
{
}

/// The counts after a row of reads, each with its size and its time.
pub open spec fn after_reads(metrics: Metrics, reads: Seq<(u64, Interval)>) -> Metrics
    decreases reads.len(),
{
    if reads.len() == 0 {
        metrics
    } else {
        after_reads(metrics, reads.drop_last()).updated(reads.last().0, reads.last().1)
    }
}

/// The number of bytes that a row of reads gave.
pub open spec fn bytes_of(reads: Seq<(u64, Interval)>) -> nat
    decreases reads.len(),
{
    if reads.len() == 0 {
        0
    } else {
        bytes_of(reads.drop_last()) + reads.last().0 as nat
    }
}

/// How many of a row of reads gave that many bytes.
pub open spec fn reads_of_size(reads: Seq<(u64, Interval)>, size: u64) -> nat {
    reads.filter(|read: (u64, Interval)| read.0 == size).len()
}

/// All reads that come less than two seconds after the start of a window are counted in
/// it, and so are their bytes; those without data, and those that filled the buffer, are
/// counted once more by themselves.
pub proof fn reads_of_a_window_are_counted(size: u64, start: Interval, reads: Seq<(u64, Interval)>)
    requires
        size > 0,
        reads.len() <= u64::MAX,
        bytes_of(reads) <= u64::MAX,
        forall|k: int|
            0 <= k < reads.len() ==> (#[trigger] reads[k]).1.total() < start.total()
                + 2_000_000_000,
    ensures
        ({
            let counts = after_reads(Metrics::fresh(size, start), reads);
            &&& counts.read_cnt == reads.len()
            &&& counts.bytes_read == bytes_of(reads)
            &&& counts.read_zero_cnt == reads_of_size(reads, 0)
            &&& counts.read_max_cnt == reads_of_size(reads, size)
            &&& counts.window_start == start
            &&& counts.rtt_buffer_size == size
        }),
        reads_of_size(reads, 0) <= reads.len(),
        reads_of_size(reads, size) <= reads.len(),
    decreases reads.len(),
{
    reveal(Seq::filter);
    if reads.len() > 0 {
        let front = reads.drop_last();
        assert forall|k: int| 0 <= k < front.len() implies (#[trigger] front[k]).1.total()
            < start.total() + 2_000_000_000 by {
            assert(front[k] == reads[k]);
        }
        reads_of_a_window_are_counted(size, start, front);
        let last = reads.last();
        assert(last == reads[reads.len() - 1]);
    }
}

/// The first read that comes two seconds or more after the start of a window closes it: it
/// is counted in, what is reported are the counts of all reads of the window, and the next
/// window starts with none. Until then nothing is reported.
pub proof fn window_is_reported_when_it_is_over(
    size: u64,
    start: Interval,
    reads: Seq<(u64, Interval)>,
    bytes: u64,
    now: Interval,
)
    requires
        size > 0,
        reads.len() < u64::MAX,
        bytes_of(reads) + bytes <= u64::MAX,
        forall|k: int|
            0 <= k < reads.len() ==> (#[trigger] reads[k]).1.total() < start.total()
                + 2_000_000_000,
    ensures
        ({
            let counts = after_reads(Metrics::fresh(size, start), reads);
            let all = reads.push((bytes, now));
            let update = counts.update_of(bytes, now);
            &&& update.report is Some <==> now.total() - start.total() >= 2_000_000_000
            &&& update.report matches Some(report) ==> {
                &&& report.read_cnt == reads.len() + 1
                &&& report.bytes_read == bytes_of(reads) + bytes
                &&& report.read_zero_cnt == reads_of_size(all, 0)
                &&& report.read_max_cnt == reads_of_size(all, size)
                &&& report.elapsed_nanos == now.total() - start.total()
                &&& counts.updated(bytes, now) == Metrics::fresh(size, now)
            }
        }),
{
    reveal(Seq::filter);
    reads_of_a_window_are_counted(size, start, reads);
    let all = reads.push((bytes, now));
    assert(all.drop_last() =~= reads);
}

/// A new window has no reads in it.
pub proof fn new_window_is_empty(size: u64, now: Interval)
    ensures
        ({
            let counts = Metrics::fresh(size, now);
            &&& counts.read_cnt == 0 && counts.bytes_read == 0
            &&& counts.read_zero_cnt == 0 && counts.read_max_cnt == 0
            &&& counts.rtt_buffer_size == size
            &&& counts.window_start == now
        }),
{
}

/// The sizes of the reads that gave data, and no others, go into the moving average.
pub proof fn reads_with_data_are_sampled(metrics: Metrics, bytes: u64, now: Interval)
    ensures
        metrics.update_of(bytes, now).sample is None <==> bytes == 0,
        metrics.update_of(bytes, now).sample matches Some(sample) ==> sample == bytes,
{
}

} // verus!

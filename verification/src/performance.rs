//! Counting and timing the steps of a run.
use std::time::Instant;
use vstd::prelude::*;

verus! {

/// `std::time::Instant`, taken as it is: nothing of its inside is known
/// here.
#[verifier::external_type_specification]
#[verifier::external_body]
pub struct ExInstant(Instant);

/// The number of nanoseconds in a millisecond.
pub const NANOS_PER_MILLI: u128 = 1_000_000;

/// How often each step ran, how long the runs took together, in
/// nanoseconds, and how many bytes were copied.
#[derive(Debug)]
pub struct PerformanceMetrics {
    pub exif_reads: u32,
    pub geocoding_lookups: u32,
    pub geocoding_cache_hits: u32,
    pub file_copies: u32,
    pub directory_creations: u32,
    pub total_exif_time: u128,
    pub total_geocoding_time: u128,
    pub total_file_copy_time: u128,
    pub total_directory_creation_time: u128,
    pub total_bytes_copied: u64,
}

/// The averages that a report shows, in whole milliseconds; `None` for a
/// step that never ran.
#[derive(Debug)]
pub struct PerformanceSummary {
    pub exif_average: Option<u128>,
    pub geocoding_average: Option<u128>,
    pub file_copy_average: Option<u128>,
    pub directory_creation_average: Option<u128>,
}

/// The average of `count` runs that took `total` nanoseconds together, in
/// whole milliseconds: the total is cut to milliseconds first, then divided.
pub open spec fn average_of(total: u128, count: u32) -> Option<u128> {
    if count == 0 {
        None
    } else {
        Some(((total / NANOS_PER_MILLI) / (count as u128)) as u128)
    }
}

/// The average duration of a step in whole milliseconds.
pub fn average_millis(total: u128, count: u32) -> (r: Option<u128>)
    ensures
        r == average_of(total, count),
{
    if count == 0 {
        None
    } else {
        Some((total / NANOS_PER_MILLI) / (count as u128))
    }
}

impl PerformanceMetrics {
    /// Metrics of a run in which nothing has happened yet.
    pub open spec fn zero() -> PerformanceMetrics {
        PerformanceMetrics {
            exif_reads: 0,
            geocoding_lookups: 0,
            geocoding_cache_hits: 0,
            file_copies: 0,
            directory_creations: 0,
            total_exif_time: 0,
            total_geocoding_time: 0,
            total_file_copy_time: 0,
            total_directory_creation_time: 0,
            total_bytes_copied: 0,
        }
    }

    /// Metrics of a run in which nothing has happened yet.
    pub fn new() -> (m: PerformanceMetrics)
        ensures
            m == PerformanceMetrics::zero(),
    {
        PerformanceMetrics {
            exif_reads: 0,
            geocoding_lookups: 0,
            geocoding_cache_hits: 0,
            file_copies: 0,
            directory_creations: 0,
            total_exif_time: 0,
            total_geocoding_time: 0,
            total_file_copy_time: 0,
            total_directory_creation_time: 0,
            total_bytes_copied: 0,
        }
    }

    /// Records that metadata was read, in `duration` nanoseconds.
    pub fn record_exif_read(&mut self, duration: u128)
        requires
            old(self).exif_reads < u32::MAX,
            old(self).total_exif_time + duration <= u128::MAX,
        ensures
            *final(self) == (PerformanceMetrics {
                exif_reads: (old(self).exif_reads + 1) as u32,
                total_exif_time: (old(self).total_exif_time + duration) as u128,
                ..*old(self)
            }),
    {
        self.exif_reads += 1;
        self.total_exif_time += duration;
    }

    /// Records that a place was looked up, in `duration` nanoseconds, and
    /// whether the cache had it.
    pub fn record_geocoding(&mut self, duration: u128, cache_hit: bool)
        requires
            old(self).geocoding_lookups < u32::MAX,
            old(self).geocoding_cache_hits < u32::MAX,
            old(self).total_geocoding_time + duration <= u128::MAX,
        ensures
            *final(self) == (PerformanceMetrics {
                geocoding_lookups: (old(self).geocoding_lookups + 1) as u32,
                total_geocoding_time: (old(self).total_geocoding_time + duration) as u128,
                geocoding_cache_hits: if cache_hit {
                    (old(self).geocoding_cache_hits + 1) as u32
                } else {
                    old(self).geocoding_cache_hits
                },
                ..*old(self)
            }),
    {
        self.geocoding_lookups += 1;
        self.total_geocoding_time += duration;
        if cache_hit {
            self.geocoding_cache_hits += 1;
        }
    }

    /// Records that a file of `bytes` bytes was copied, in `duration`
    /// nanoseconds.
    pub fn record_file_copy(&mut self, duration: u128, bytes: u64)
        requires
            old(self).file_copies < u32::MAX,
            old(self).total_file_copy_time + duration <= u128::MAX,
            old(self).total_bytes_copied + bytes <= u64::MAX,
        ensures
            *final(self) == (PerformanceMetrics {
                file_copies: (old(self).file_copies + 1) as u32,
                total_file_copy_time: (old(self).total_file_copy_time + duration) as u128,
                total_bytes_copied: (old(self).total_bytes_copied + bytes) as u64,
                ..*old(self)
            }),
    {
        self.file_copies += 1;
        self.total_file_copy_time += duration;
        self.total_bytes_copied += bytes;
    }

    /// Records that a directory was created, in `duration` nanoseconds.
    pub fn record_directory_creation(&mut self, duration: u128)
        requires
            old(self).directory_creations < u32::MAX,
            old(self).total_directory_creation_time + duration <= u128::MAX,
        ensures
            *final(self) == (PerformanceMetrics {
                directory_creations: (old(self).directory_creations + 1) as u32,
                total_directory_creation_time: (old(self).total_directory_creation_time
                    + duration) as u128,
                ..*old(self)
            }),
    {
        self.directory_creations += 1;
        self.total_directory_creation_time += duration;
    }

    /// Forgets everything that was recorded.
    pub fn _reset(&mut self)
        ensures
            *final(self) == PerformanceMetrics::zero(),
    {
        *self = PerformanceMetrics::new();
    }

    /// The time that all recorded steps took together, in nanoseconds;
    /// `None` where that is more than a `u128` holds.
    pub fn total_measured(&self) -> (r: Option<u128>)
        ensures
            match r {
                Some(t) => t == self.total_exif_time + self.total_geocoding_time
                    + self.total_file_copy_time + self.total_directory_creation_time,
                None => self.total_exif_time + self.total_geocoding_time
                    + self.total_file_copy_time + self.total_directory_creation_time > u128::MAX,
            },
    {
        match self.total_exif_time.checked_add(self.total_geocoding_time) {
            Some(a) => match a.checked_add(self.total_file_copy_time) {
                Some(b) => b.checked_add(self.total_directory_creation_time),
                None => None,
            },
            None => None,
        }
    }

    /// The average duration of each step.
    pub fn summary(&self) -> (s: PerformanceSummary)
        ensures
            s.exif_average == average_of(self.total_exif_time, self.exif_reads),
            s.geocoding_average == average_of(self.total_geocoding_time, self.geocoding_lookups),
            s.file_copy_average == average_of(self.total_file_copy_time, self.file_copies),
            s.directory_creation_average == average_of(
                self.total_directory_creation_time,
                self.directory_creations,
            ),
    {
        PerformanceSummary {
            exif_average: average_millis(self.total_exif_time, self.exif_reads),
            geocoding_average: average_millis(self.total_geocoding_time, self.geocoding_lookups),
            file_copy_average: average_millis(self.total_file_copy_time, self.file_copies),
            directory_creation_average: average_millis(
                self.total_directory_creation_time,
                self.directory_creations,
            ),
        }
    }
}

impl Default for PerformanceMetrics {
    fn default() -> (m: Self)
        ensures
            m == PerformanceMetrics::zero(),
    {
        PerformanceMetrics::new()
    }
}

/// A stopwatch that runs from its making on.
#[derive(Debug)]
pub struct Timer {
    start: Instant,
}

impl Timer {
    /// Starts a stopwatch now. Wraps `Instant::now`; nothing is known of
    /// the instant it gives.
    #[verifier::external_body]
    pub fn new() -> Timer {
        Timer { start: Instant::now() }
    }

    /// The nanoseconds gone by since the stopwatch was started. Wraps
    /// `Instant::elapsed`; nothing is known of the time it gives.
    #[verifier::external_body]
    pub fn elapsed(&self) -> u128 {
        self.start.elapsed().as_nanos()
    }
}

impl Default for Timer {
    fn default() -> Self {
        Timer::new()
    }
}

} // verus!

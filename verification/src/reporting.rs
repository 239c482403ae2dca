//! What a run has done so far: how many files ended in which way, where and
//! with which devices the images were taken, the span of time they cover,
//! and what went wrong.
use crate::performance::Timer;
use crate::text::{lex_less, text_less};
use vstd::prelude::*;

verus! {

/// One more than `n`, starting over at zero after the largest `u32`.
pub open spec fn next_count(n: nat) -> nat {
    if n >= u32::MAX {
        0
    } else {
        n + 1
    }
}

/// Where `name` stands first in `places` from `start` on, or -1.
pub open spec fn place_index_from(places: Seq<(Seq<char>, nat)>, name: Seq<char>, start: int) -> int
    decreases places.len() - start,
{
    if start < 0 || start >= places.len() {
        -1
    } else if places[start].0 == name {
        start
    } else {
        place_index_from(places, name, start + 1)
    }
}

/// The places after one more image was taken at `name`: its count goes up
/// by one, or it joins the list with the count one.
pub open spec fn place_counted(places: Seq<(Seq<char>, nat)>, name: Seq<char>) -> Seq<
    (Seq<char>, nat),
> {
    let i = place_index_from(places, name, 0);
    if i >= 0 {
        places.update(i, (name, next_count(places[i].1)))
    } else {
        places.push((name, 1))
    }
}

/// The devices after one more image was taken with `name`: it joins the
/// list unless it is there.
pub open spec fn device_noted(devices: Seq<Seq<char>>, name: Seq<char>) -> Seq<Seq<char>> {
    if devices.contains(name) {
        devices
    } else {
        devices.push(name)
    }
}

/// The earlier of a bound and a new period, in dictionary order.
pub open spec fn earlier(bound: Option<Seq<char>>, period: Seq<char>) -> Option<Seq<char>> {
    match bound {
        Some(b) => if lex_less(period, b) {
            Some(period)
        } else {
            bound
        },
        None => Some(period),
    }
}

/// The later of a bound and a new period, in dictionary order.
pub open spec fn later(bound: Option<Seq<char>>, period: Seq<char>) -> Option<Seq<char>> {
    match bound {
        Some(b) => if lex_less(b, period) {
            Some(period)
        } else {
            bound
        },
        None => Some(period),
    }
}

/// The content of a [`Reporting`] as plain values. Places and devices stand
/// in the order in which they were first seen.
pub struct Report {
    pub timer_started: bool,
    pub directories: nat,
    pub images: nat,
    pub sorted: nat,
    pub unsorted: nat,
    pub errors: nat,
    pub duplicates: nat,
    pub places: Seq<(Seq<char>, nat)>,
    pub devices: Seq<Seq<char>>,
    pub error_details: Seq<(Seq<char>, Seq<char>)>,
    pub oldest: Option<Seq<char>>,
    pub newest: Option<Seq<char>>,
}

impl Report {
    /// The report of a run in which nothing has happened yet.
    pub open spec fn empty() -> Report {
        Report {
            timer_started: false,
            directories: 0,
            images: 0,
            sorted: 0,
            unsorted: 0,
            errors: 0,
            duplicates: 0,
            places: Seq::empty(),
            devices: Seq::empty(),
            error_details: Seq::empty(),
            oldest: None,
            newest: None,
        }
    }

    /// An image was sorted.
    pub open spec fn with_sorted(self) -> Report {
        Report { images: next_count(self.images), sorted: next_count(self.sorted), ..self }
    }

    /// An image was put aside unsorted.
    pub open spec fn with_unsorted(self) -> Report {
        Report { images: next_count(self.images), unsorted: next_count(self.unsorted), ..self }
    }

    /// A file ended in an error.
    pub open spec fn with_error(self) -> Report {
        Report { errors: next_count(self.errors), ..self }
    }

    /// The detail of an error was noted.
    pub open spec fn with_error_detail(self, file: Seq<char>, reason: Seq<char>) -> Report {
        Report { error_details: self.error_details.push((file, reason)), ..self }
    }

    /// An image was classified by period, place and device.
    pub open spec fn with_classification(
        self,
        period: Seq<char>,
        place: Seq<char>,
        device: Seq<char>,
    ) -> Report {
        Report {
            places: place_counted(self.places, place),
            devices: device_noted(self.devices, device),
            oldest: earlier(self.oldest, period),
            newest: later(self.newest, period),
            ..self
        }
    }
}

/// The end that the processing of one file has come to.
#[derive(Debug)]
pub enum Outcome {
    /// The image was copied to its place in the sorted tree.
    Sorted,
    /// The image could not be classified and was copied aside.
    Unsorted,
    /// The file is no image and was left alone.
    Skipped,
    /// Something failed; the text says what.
    Errored(String),
}

/// An [`Outcome`] as plain value.
pub enum End {
    Sorted,
    Unsorted,
    Skipped,
    Errored(Seq<char>),
}

impl View for Outcome {
    type V = End;

    open spec fn view(&self) -> End {
        match *self {
            Outcome::Sorted => End::Sorted,
            Outcome::Unsorted => End::Unsorted,
            Outcome::Skipped => End::Skipped,
            Outcome::Errored(reason) => End::Errored(reason@),
        }
    }
}

impl Report {
    /// A file has come to its end.
    pub open spec fn with_outcome(self, file: Seq<char>, end: End) -> Report {
        match end {
            End::Sorted => self.with_sorted(),
            End::Unsorted => self.with_unsorted(),
            End::Skipped => self,
            End::Errored(reason) => self.with_error().with_error_detail(file, reason),
        }
    }

    /// Files have come to their ends, one after the other.
    pub open spec fn with_outcomes(self, ends: Seq<(Seq<char>, End)>) -> Report
        decreases ends.len(),
    {
        if ends.len() == 0 {
            self
        } else {
            self.with_outcomes(ends.drop_last()).with_outcome(ends.last().0, ends.last().1)
        }
    }
}

/// How many of the files were sorted.
pub open spec fn sorted_among(ends: Seq<(Seq<char>, End)>) -> nat
    decreases ends.len(),
{
    if ends.len() == 0 {
        0
    } else {
        sorted_among(ends.drop_last()) + if ends.last().1 is Sorted {
            1nat
        } else {
            0nat
        }
    }
}

/// How many of the files were put aside unsorted.
pub open spec fn unsorted_among(ends: Seq<(Seq<char>, End)>) -> nat
    decreases ends.len(),
{
    if ends.len() == 0 {
        0
    } else {
        unsorted_among(ends.drop_last()) + if ends.last().1 is Unsorted {
            1nat
        } else {
            0nat
        }
    }
}

/// How many of the files were skipped.
pub open spec fn skipped_among(ends: Seq<(Seq<char>, End)>) -> nat
    decreases ends.len(),
{
    if ends.len() == 0 {
        0
    } else {
        skipped_among(ends.drop_last()) + if ends.last().1 is Skipped {
            1nat
        } else {
            0nat
        }
    }
}

/// How many of the files ended in an error.
pub open spec fn errored_among(ends: Seq<(Seq<char>, End)>) -> nat
    decreases ends.len(),
{
    if ends.len() == 0 {
        0
    } else {
        errored_among(ends.drop_last()) + if ends.last().1 is Errored {
            1nat
        } else {
            0nat
        }
    }
}

/// Every file ends in exactly one way: the four kinds of end add up to the
/// number of files.
pub proof fn lemma_every_file_ends_once(ends: Seq<(Seq<char>, End)>)
    ensures
        sorted_among(ends) + unsorted_among(ends) + errored_among(ends) + skipped_among(ends)
            == ends.len(),
    decreases ends.len(),
{
    if ends.len() > 0 {
        lemma_every_file_ends_once(ends.drop_last());
    }
}

/// A tally that stood at `n` after it went up `by` times: it starts over at
/// zero after the largest `u32`.
pub open spec fn advanced(n: nat, by: nat) -> nat {
    (n + by) % 0x1_0000_0000
}

impl Report {
    /// Every tally lies in the range of a `u32`, as it does in the view of
    /// every [`Reporting`].
    pub open spec fn tallies_fit(self) -> bool {
        &&& self.directories <= u32::MAX
        &&& self.images <= u32::MAX
        &&& self.sorted <= u32::MAX
        &&& self.unsorted <= u32::MAX
        &&& self.errors <= u32::MAX
        &&& self.duplicates <= u32::MAX
    }
}

/// The tallies of the view of a [`Reporting`] lie in the range of a `u32`.
pub proof fn lemma_tallies_fit(reporting: Reporting)
    ensures
        reporting@.tallies_fit(),
{
}

/// The tallies follow the ends, for every number of files and in whatever
/// order the files come to their ends: each tally has gone up once for each
/// file that ended that way, and nothing else has changed but the list of
/// errors, which has grown by one entry for each error. A tally that does
/// not pass the largest `u32` has grown by exactly that number of files.
pub proof fn lemma_tallies_follow_ends(start: Report, ends: Seq<(Seq<char>, End)>)
    requires
        start.tallies_fit(),
    ensures
        ({
            let after = start.with_outcomes(ends);
            &&& after.tallies_fit()
            &&& after.sorted == advanced(start.sorted, sorted_among(ends))
            &&& after.unsorted == advanced(start.unsorted, unsorted_among(ends))
            &&& after.errors == advanced(start.errors, errored_among(ends))
            &&& after.images == advanced(start.images, sorted_among(ends) + unsorted_among(ends))
            &&& after.error_details.len() == start.error_details.len() + errored_among(ends)
            &&& after == (Report {
                sorted: after.sorted,
                unsorted: after.unsorted,
                errors: after.errors,
                images: after.images,
                error_details: after.error_details,
                ..start
            })
            &&& start.sorted + sorted_among(ends) <= u32::MAX ==> after.sorted == start.sorted
                + sorted_among(ends)
            &&& start.unsorted + unsorted_among(ends) <= u32::MAX ==> after.unsorted
                == start.unsorted + unsorted_among(ends)
            &&& start.errors + errored_among(ends) <= u32::MAX ==> after.errors == start.errors
                + errored_among(ends)
        }),
    decreases ends.len(),
{
    lemma_advanced(start.sorted, sorted_among(ends));
    lemma_advanced(start.unsorted, unsorted_among(ends));
    lemma_advanced(start.errors, errored_among(ends));
    lemma_advanced(start.images, sorted_among(ends) + unsorted_among(ends));
    if ends.len() > 0 {
        let before = ends.drop_last();
        let earlier = start.with_outcomes(before);
        lemma_tallies_follow_ends(start, before);
        lemma_advanced(start.sorted, sorted_among(before));
        lemma_advanced(start.unsorted, unsorted_among(before));
        lemma_advanced(start.errors, errored_among(before));
        lemma_advanced(start.images, sorted_among(before) + unsorted_among(before));
        let after = earlier.with_outcome(ends.last().0, ends.last().1);
        assert(start.with_outcomes(ends) == after);
        match ends.last().1 {
            End::Sorted => {
                assert(after == earlier.with_sorted());
            },
            End::Unsorted => {
                assert(after == earlier.with_unsorted());
            },
            End::Skipped => {
                assert(after == earlier);
            },
            End::Errored(reason) => {
                assert(after == earlier.with_error().with_error_detail(ends.last().0, reason));
            },
        }
    }
}

/// A tally that goes up once more starts over after the largest `u32`, and
/// stays what it was plus the number of times it went up as long as that
/// does not pass the largest `u32`.
pub proof fn lemma_advanced(n: nat, by: nat)
    requires
        n <= u32::MAX,
    ensures
        advanced(n, 0) == n,
        advanced(n, by) <= u32::MAX,
        next_count(advanced(n, by)) == advanced(n, by + 1),
        n + by <= u32::MAX ==> advanced(n, by) == n + by,
{
}

/// However many files there are, in whatever order and by however many
/// workers they are processed, every file ends in exactly one way, and the
/// tallies of a run that starts with empty tallies count these ends: the
/// files sorted, put aside, failed and skipped add up to the number of
/// files, and the tallies of the first three count them, starting over at
/// zero after the largest `u32`. In a run of no more files than a `u32`
/// counts, the three tallies and the files skipped add up to the number of
/// files.
pub proof fn lemma_tallies_add_up(ends: Seq<(Seq<char>, End)>)
    ensures
        ({
            let report = Report::empty().with_outcomes(ends);
            &&& sorted_among(ends) + unsorted_among(ends) + errored_among(ends) + skipped_among(
                ends,
            ) == ends.len()
            &&& report.sorted == advanced(0, sorted_among(ends))
            &&& report.unsorted == advanced(0, unsorted_among(ends))
            &&& report.errors == advanced(0, errored_among(ends))
            &&& ends.len() <= u32::MAX ==> report.sorted + report.unsorted + report.errors
                + skipped_among(ends) == ends.len()
        }),
{
    lemma_tallies_follow_ends(Report::empty(), ends);
    lemma_every_file_ends_once(ends);
}

/// The tallies of a run, shared by all that work on it.
#[derive(Debug)]
pub struct Reporting {
    start_time: Option<Timer>,
    nb_directories: u32,
    nb_images: u32,
    nb_sorted_images: u32,
    nb_unsorted_images: u32,
    nb_error_on_images: u32,
    nb_duplicates_renamed: u32,
    places_found: Vec<(String, u32)>,
    devices_found: Vec<String>,
    errors_details: Vec<(String, String)>,
    oldest_date: Option<String>,
    newest_date: Option<String>,
}

/// A text that may be absent, as plain value.
pub open spec fn text_of(text: Option<String>) -> Option<Seq<char>> {
    match text {
        Some(t) => Some(t@),
        None => None,
    }
}

/// Places with their counts, as plain values.
pub open spec fn places_of(places: Seq<(String, u32)>) -> Seq<(Seq<char>, nat)> {
    Seq::new(places.len(), |i: int| (places[i].0@, places[i].1 as nat))
}

/// Texts as plain values.
pub open spec fn texts_of(texts: Seq<String>) -> Seq<Seq<char>> {
    Seq::new(texts.len(), |i: int| texts[i]@)
}

/// Pairs of texts as plain values.
pub open spec fn pairs_of(pairs: Seq<(String, String)>) -> Seq<(Seq<char>, Seq<char>)> {
    Seq::new(pairs.len(), |i: int| (pairs[i].0@, pairs[i].1@))
}

impl View for Reporting {
    type V = Report;

    closed spec fn view(&self) -> Report {
        Report {
            timer_started: self.start_time.is_some(),
            directories: self.nb_directories as nat,
            images: self.nb_images as nat,
            sorted: self.nb_sorted_images as nat,
            unsorted: self.nb_unsorted_images as nat,
            errors: self.nb_error_on_images as nat,
            duplicates: self.nb_duplicates_renamed as nat,
            places: places_of(self.places_found@),
            devices: texts_of(self.devices_found@),
            error_details: pairs_of(self.errors_details@),
            oldest: text_of(self.oldest_date),
            newest: text_of(self.newest_date),
        }
    }
}

impl Default for Reporting {
    fn default() -> (r: Self)
        ensures
            r@ == Report::empty(),
    {
        Reporting::new()
    }
}

/// The number of nanoseconds in a second.
pub const NANOS_PER_SECOND: u128 = 1_000_000_000;

/// The whole seconds in a number of nanoseconds, at most the largest `u64`.
pub open spec fn whole_seconds_of(nanos: u128) -> u64 {
    if nanos / NANOS_PER_SECOND > u64::MAX {
        u64::MAX
    } else {
        (nanos / NANOS_PER_SECOND) as u64
    }
}

/// Cuts a number of nanoseconds to whole seconds, at most the largest
/// `u64`.
pub fn whole_seconds(nanos: u128) -> (s: u64)
    ensures
        s == whole_seconds_of(nanos),
{
    let seconds = nanos / NANOS_PER_SECOND;
    if seconds > 0xffff_ffff_ffff_ffff {
        0xffff_ffff_ffff_ffff
    } else {
        seconds as u64
    }
}

fn next(n: u32) -> (r: u32)
    ensures
        r == next_count(n as nat),
{
    if n == u32::MAX {
        0
    } else {
        n + 1
    }
}

impl Reporting {
    /// The tallies of a run in which nothing has happened yet.
    pub fn new() -> (r: Reporting)
        ensures
            r@ == Report::empty(),
    {
        let r = Reporting {
            start_time: None,
            nb_directories: 0,
            nb_images: 0,
            nb_sorted_images: 0,
            nb_unsorted_images: 0,
            nb_error_on_images: 0,
            nb_duplicates_renamed: 0,
            places_found: Vec::new(),
            devices_found: Vec::new(),
            errors_details: Vec::new(),
            oldest_date: None,
            newest_date: None,
        };
        assert(r@.places =~= Seq::empty());
        assert(r@.devices =~= Seq::empty());
        assert(r@.error_details =~= Seq::empty());
        r
    }

    /// Starts the stopwatch of the run, anew if it was running.
    pub fn start_timer(&mut self)
        ensures
            final(self)@ == (Report { timer_started: true, ..old(self)@ }),
    {
        self.start_time = Some(Timer::new());
    }

    /// Counts an image that was sorted.
    pub fn image_processed_sorted(&mut self)
        ensures
            final(self)@ == old(self)@.with_sorted(),
    {
        self.nb_images = next(self.nb_images);
        self.nb_sorted_images = next(self.nb_sorted_images);
    }

    /// Counts an image that was put aside unsorted.
    pub fn image_processed_unsorted(&mut self)
        ensures
            final(self)@ == old(self)@.with_unsorted(),
    {
        self.nb_images = next(self.nb_images);
        self.nb_unsorted_images = next(self.nb_unsorted_images);
    }

    /// Counts a directory whose files were all gone through.
    pub fn directory_processed(&mut self)
        ensures
            final(self)@ == (Report {
                directories: next_count(old(self)@.directories),
                ..old(self)@
            }),
    {
        self.nb_directories = next(self.nb_directories);
    }

    /// Counts a file that ended in an error.
    pub fn error_on_image(&mut self)
        ensures
            final(self)@ == old(self)@.with_error(),
    {
        self.nb_error_on_images = next(self.nb_error_on_images);
    }

    /// Counts a file that got a new name because its own was taken.
    pub fn duplicate_renamed(&mut self)
        ensures
            final(self)@ == (Report {
                duplicates: next_count(old(self)@.duplicates),
                ..old(self)@
            }),
    {
        self.nb_duplicates_renamed = next(self.nb_duplicates_renamed);
    }

    /// Counts one more image for a place.
    pub fn add_place(&mut self, place: String)
        ensures
            final(self)@ == (Report {
                places: place_counted(old(self)@.places, place@),
                ..old(self)@
            }),
    {
        let ghost before = self@.places;
        let mut i: usize = 0;
        while i < self.places_found.len()
            invariant
                i <= self.places_found.len(),
                *self == *old(self),
                before == places_of(self.places_found@),
                place_index_from(before, place@, 0) == place_index_from(before, place@, i as int),
            decreases self.places_found.len() - i,
        {
            if self.places_found[i].0 == place {
                let count = next(self.places_found[i].1);
                self.places_found.set(i, (place, count));
                assert(places_of(self.places_found@) =~= place_counted(before, place@));
                return ;
            }
            i += 1;
        }
        self.places_found.push((place, 1));
        assert(places_of(self.places_found@) =~= place_counted(before, place@));
    }

    /// Notes a device that an image was taken with.
    pub fn add_device(&mut self, device: String)
        ensures
            final(self)@ == (Report {
                devices: device_noted(old(self)@.devices, device@),
                ..old(self)@
            }),
    {
        let ghost before = self@.devices;
        let mut i: usize = 0;
        while i < self.devices_found.len()
            invariant
                i <= self.devices_found.len(),
                *self == *old(self),
                before == texts_of(self.devices_found@),
                forall|j: int| 0 <= j < i ==> before[j] != device@,
            decreases self.devices_found.len() - i,
        {
            if self.devices_found[i] == device {
                assert(before[i as int] == device@);
                return ;
            }
            i += 1;
        }
        self.devices_found.push(device);
        assert(texts_of(self.devices_found@) =~= device_noted(before, device@));
    }

    /// Notes what went wrong with a file.
    pub fn add_error(&mut self, file: String, reason: String)
        ensures
            final(self)@ == old(self)@.with_error_detail(file@, reason@),
    {
        let ghost before = self@.error_details;
        self.errors_details.push((file, reason));
        assert(pairs_of(self.errors_details@) =~= before.push((file@, reason@)));
    }

    /// Widens the span of periods to hold `date`: the earliest period goes
    /// back to it if it comes before, in dictionary order, and the latest
    /// forward if it comes after.
    pub fn update_date_range(&mut self, date: &str)
        ensures
            final(self)@ == (Report {
                oldest: earlier(old(self)@.oldest, date@),
                newest: later(old(self)@.newest, date@),
                ..old(self)@
            }),
    {
        let older = match &self.oldest_date {
            Some(bound) => text_less(date, bound.as_str()),
            None => true,
        };
        if older {
            self.oldest_date = Some(date.to_owned());
        }
        let newer = match &self.newest_date {
            Some(bound) => text_less(bound.as_str(), date),
            None => true,
        };
        if newer {
            self.newest_date = Some(date.to_owned());
        }
    }

    /// The number of directories gone through.
    pub fn directories(&self) -> (n: u32)
        ensures
            n == self@.directories,
    {
        self.nb_directories
    }

    /// The number of images that were sorted or put aside.
    pub fn images(&self) -> (n: u32)
        ensures
            n == self@.images,
    {
        self.nb_images
    }

    /// The number of images that were sorted.
    pub fn sorted_images(&self) -> (n: u32)
        ensures
            n == self@.sorted,
    {
        self.nb_sorted_images
    }

    /// The number of images that were put aside unsorted.
    pub fn unsorted_images(&self) -> (n: u32)
        ensures
            n == self@.unsorted,
    {
        self.nb_unsorted_images
    }

    /// The number of files that ended in an error.
    pub fn errors(&self) -> (n: u32)
        ensures
            n == self@.errors,
    {
        self.nb_error_on_images
    }

    /// The number of files that got a new name.
    pub fn duplicates_renamed(&self) -> (n: u32)
        ensures
            n == self@.duplicates,
    {
        self.nb_duplicates_renamed
    }

    /// The places seen, each with the number of its images.
    pub fn places(&self) -> (r: &Vec<(String, u32)>)
        ensures
            places_of(r@) == self@.places,
    {
        &self.places_found
    }

    /// The devices seen.
    pub fn devices(&self) -> (r: &Vec<String>)
        ensures
            texts_of(r@) == self@.devices,
    {
        &self.devices_found
    }

    /// What went wrong: file and reason, in the order of noting.
    pub fn error_details(&self) -> (r: &Vec<(String, String)>)
        ensures
            pairs_of(r@) == self@.error_details,
    {
        &self.errors_details
    }

    /// The earliest period seen.
    pub fn oldest_date(&self) -> (r: &Option<String>)
        ensures
            text_of(*r) == self@.oldest,
    {
        &self.oldest_date
    }

    /// The latest period seen.
    pub fn newest_date(&self) -> (r: &Option<String>)
        ensures
            text_of(*r) == self@.newest,
    {
        &self.newest_date
    }

    /// The whole seconds gone by since the stopwatch was started, at most
    /// the largest `u64`; `None` where it was not started.
    pub fn elapsed_seconds(&self) -> (r: Option<u64>)
        ensures
            r.is_some() == self@.timer_started,
    {
        match &self.start_time {
            Some(timer) => Some(whole_seconds(timer.elapsed())),
            None => None,
        }
    }

    /// Notes what an image is classified by: one more image for its place,
    /// its device, and its period in the span of periods.
    pub fn record_classification(&mut self, period: &str, place: &str, device: &str)
        ensures
            final(self)@ == old(self)@.with_classification(period@, place@, device@),
    {
        self.add_place(place.to_owned());
        self.add_device(device.to_owned());
        self.update_date_range(period);
    }

    /// Counts the end that a file has come to. A sorted or unsorted image
    /// is counted as such; an error is counted and noted with the file;
    /// a file that was skipped leaves no trace.
    pub fn record_outcome(&mut self, file: &str, outcome: &Outcome)
        ensures
            final(self)@ == old(self)@.with_outcome(file@, outcome@),
    {
        match outcome {
            Outcome::Sorted => self.image_processed_sorted(),
            Outcome::Unsorted => self.image_processed_unsorted(),
            Outcome::Skipped => {},
            Outcome::Errored(reason) => {
                self.error_on_image();
                self.add_error(file.to_owned(), reason.clone());
            },
        }
    }

    /// Forgets everything that was counted and noted.
    pub fn _reset(&mut self)
        ensures
            final(self)@ == Report::empty(),
    {
        *self = Reporting::new();
    }
}

} // verus!

//! What the closing report of a run shows, computed from the tallies.
use crate::reporting::{pairs_of, places_of, texts_of, Report, Reporting};
use crate::text::{decimal, join_with, joined_with, push_char, to_decimal, views_of};
use vstd::prelude::*;
use vstd::string::StringExecFns;

verus! {

/// How many places the report names.
pub const TOP_PLACES: usize = 5;

/// How many devices the report names.
pub const SHOWN_DEVICES: usize = 5;

/// How many errors the report details.
pub const SHOWN_ERRORS: usize = 10;

/// The width of the line of devices, in characters.
pub const DEVICES_WIDTH: usize = 48;

/// How a duration in whole seconds is shown: below a minute as seconds,
/// from a minute on as minutes and seconds; `N/A` where there is none.
pub open spec fn duration_text(seconds: Option<u64>) -> Seq<char> {
    match seconds {
        Some(s) => if s < 60 {
            decimal(s as nat) + seq!['s']
        } else {
            decimal((s / 60) as nat) + seq!['m', ' '] + decimal((s % 60) as nat) + seq!['s']
        },
        None => seq!['N', '/', 'A'],
    }
}

/// Shows a duration in whole seconds.
pub fn format_duration(seconds: Option<u64>) -> (r: String)
    ensures
        r@ == duration_text(seconds),
{
    match seconds {
        Some(s) => {
            if s < 60 {
                let mut out = to_decimal(s);
                push_char(&mut out, 's');
                out
            } else {
                let mut out = to_decimal(s / 60);
                push_char(&mut out, 'm');
                push_char(&mut out, ' ');
                out.append(to_decimal(s % 60).as_str());
                push_char(&mut out, 's');
                assert(out@ =~= duration_text(seconds));
                out
            }
        },
        None => {
            let mut out = String::new();
            push_char(&mut out, 'N');
            push_char(&mut out, '/');
            push_char(&mut out, 'A');
            assert(out@ =~= duration_text(seconds));
            out
        },
    }
}

/// A ranking with one more place: it stands behind every place with as many
/// images or more, and before every place with fewer.
pub open spec fn insert_ranked(ranking: Seq<(Seq<char>, nat)>, place: (Seq<char>, nat)) -> Seq<
    (Seq<char>, nat),
>
    decreases ranking.len(),
{
    if ranking.len() == 0 {
        seq![place]
    } else if ranking.last().1 >= place.1 {
        ranking.push(place)
    } else {
        insert_ranked(ranking.drop_last(), place).push(ranking.last())
    }
}

/// The places by falling number of images; places with the same number keep
/// the order in which they were first seen.
pub open spec fn ranked(places: Seq<(Seq<char>, nat)>) -> Seq<(Seq<char>, nat)>
    decreases places.len(),
{
    if places.len() == 0 {
        Seq::empty()
    } else {
        insert_ranked(ranked(places.drop_last()), places.last())
    }
}

/// Numbers of images never rise along the sequence.
pub open spec fn is_descending(ranking: Seq<(Seq<char>, nat)>) -> bool {
    forall|i: int, j: int|
        0 <= i < j < ranking.len() ==> (#[trigger] ranking[i]).1 >= (#[trigger] ranking[j]).1
}

/// Inserting at the place where the numbers of images turn smaller is
/// inserting by rank.
pub proof fn lemma_insert_ranked_at(
    ranking: Seq<(Seq<char>, nat)>,
    place: (Seq<char>, nat),
    at: int,
)
    requires
        0 <= at <= ranking.len(),
        forall|k: int| at <= k < ranking.len() ==> (#[trigger] ranking[k]).1 < place.1,
        at > 0 ==> ranking[at - 1].1 >= place.1,
    ensures
        insert_ranked(ranking, place) == ranking.insert(at, place),
    decreases ranking.len(),
{
    if ranking.len() == 0 {
        assert(seq![place] =~= ranking.insert(at, place));
    } else if ranking.last().1 >= place.1 {
        assert(at == ranking.len()) by {
            if at < ranking.len() {
                assert(ranking[ranking.len() - 1].1 < place.1);
            }
        }
        assert(ranking.push(place) =~= ranking.insert(at, place));
    } else {
        let shorter = ranking.drop_last();
        assert forall|k: int| at <= k < shorter.len() implies (#[trigger] shorter[k]).1
            < place.1 by {
            assert(shorter[k] == ranking[k]);
        }
        if at > 0 {
            assert(shorter[at - 1] == ranking[at - 1]);
        }
        lemma_insert_ranked_at(shorter, place, at);
        assert(shorter.insert(at, place).push(ranking.last()) =~= ranking.insert(at, place));
    }
}

/// Inserting by rank keeps a descending ranking descending and adds just
/// the one place.
pub proof fn lemma_insert_ranked_descending(
    ranking: Seq<(Seq<char>, nat)>,
    place: (Seq<char>, nat),
)
    requires
        is_descending(ranking),
    ensures
        is_descending(insert_ranked(ranking, place)),
        insert_ranked(ranking, place).len() == ranking.len() + 1,
        insert_ranked(ranking, place).to_multiset() == ranking.to_multiset().insert(place),
    decreases ranking.len(),
{
    broadcast use vstd::seq_lib::group_to_multiset_ensures;

    let after = insert_ranked(ranking, place);
    if ranking.len() == 0 {
        assert(ranking =~= Seq::empty());
        assert(seq![place] =~= Seq::<(Seq<char>, nat)>::empty().push(place));
    } else if ranking.last().1 >= place.1 {
        assert forall|i: int, j: int| 0 <= i < j < after.len() implies (#[trigger] after[i]).1
            >= (#[trigger] after[j]).1 by {
            if j == ranking.len() {
                assert(after[i] == ranking[i]);
                if i < ranking.len() - 1 {
                    assert(ranking[i].1 >= ranking[ranking.len() - 1].1);
                }
            } else {
                assert(after[i] == ranking[i] && after[j] == ranking[j]);
            }
        }
    } else {
        let shorter = ranking.drop_last();
        assert forall|i: int, j: int| 0 <= i < j < shorter.len() implies (#[trigger] shorter[i]).1
            >= (#[trigger] shorter[j]).1 by {
            assert(shorter[i] == ranking[i] && shorter[j] == ranking[j]);
        }
        lemma_insert_ranked_descending(shorter, place);
        let inner = insert_ranked(shorter, place);
        // every place of `inner` is `place` or a place of `shorter`, so none has
        // fewer images than the last place of `ranking`
        assert forall|i: int| 0 <= i < inner.len() implies (#[trigger] inner[i]).1
            >= ranking.last().1 by {
            assert(inner.to_multiset().count(inner[i]) > 0);
            if inner[i] != place {
                assert(shorter.to_multiset().count(inner[i]) > 0);
                let k = choose|k: int| 0 <= k < shorter.len() && shorter[k] == inner[i];
                assert(ranking[k] == shorter[k]);
                assert(ranking[k].1 >= ranking[ranking.len() - 1].1);
            }
        }
        assert forall|i: int, j: int| 0 <= i < j < after.len() implies (#[trigger] after[i]).1
            >= (#[trigger] after[j]).1 by {
            if j == inner.len() {
                assert(after[i] == inner[i]);
            } else {
                assert(after[i] == inner[i] && after[j] == inner[j]);
            }
        }
        assert(ranking =~= shorter.push(ranking.last()));
        assert(after.to_multiset() =~= ranking.to_multiset().insert(place));
    }
}

/// The ranking holds the places that were seen, each once, by falling
/// number of images.
pub proof fn lemma_ranked_is_sorted_permutation(places: Seq<(Seq<char>, nat)>)
    ensures
        is_descending(ranked(places)),
        ranked(places).len() == places.len(),
        ranked(places).to_multiset() == places.to_multiset(),
    decreases places.len(),
{
    broadcast use vstd::seq_lib::group_to_multiset_ensures;

    if places.len() == 0 {
        assert(places =~= Seq::empty());
    } else {
        lemma_ranked_is_sorted_permutation(places.drop_last());
        lemma_insert_ranked_descending(ranked(places.drop_last()), places.last());
        assert(places =~= places.drop_last().push(places.last()));
    }
}

/// Ranks the places by falling number of images; places with the same
/// number keep their order.
pub fn rank_places(places: &Vec<(String, u32)>) -> (r: Vec<(String, u32)>)
    ensures
        places_of(r@) == ranked(places_of(places@)),
{
    let ghost all = places_of(places@);
    let mut ranking: Vec<(String, u32)> = Vec::new();
    let mut i: usize = 0;
    assert(all.take(0) =~= Seq::empty());
    assert(places_of(ranking@) =~= Seq::empty());
    while i < places.len()
        invariant
            i <= places.len(),
            all == places_of(places@),
            places_of(ranking@) == ranked(all.take(i as int)),
            ranking.len() == i,
        decreases places.len() - i,
    {
        let count = places[i].1;
        let mut at: usize = ranking.len();
        while at > 0 && ranking[at - 1].1 < count
            invariant
                at <= ranking.len(),
                forall|k: int| at <= k < ranking.len() ==> (#[trigger] ranking@[k]).1 < count,
            decreases at,
        {
            at -= 1;
        }
        let ghost before = places_of(ranking@);
        let ghost place = (places@[i as int].0@, count as nat);
        proof {
            assert forall|k: int| at <= k < before.len() implies (#[trigger] before[k]).1
                < place.1 by {
                assert(ranking@[k].1 < count);
            }
            lemma_insert_ranked_at(before, place, at as int);
            assert(all.take(i + 1).drop_last() =~= all.take(i as int));
            assert(all.take(i + 1).last() == place);
        }
        ranking.insert(at, (places[i].0.clone(), count));
        assert(places_of(ranking@) =~= before.insert(at as int, place));
        i += 1;
    }
    assert(all.take(i as int) =~= all);
    ranking
}

/// How a place is shown: its name, and the number of its images in
/// brackets.
pub open spec fn place_label(place: (Seq<char>, nat)) -> Seq<char> {
    place.0 + seq![' ', '('] + decimal(place.1) + seq![')']
}

/// The first `limit` elements of a sequence, or all where it has fewer.
pub open spec fn first<A>(s: Seq<A>, limit: nat) -> Seq<A> {
    if s.len() <= limit {
        s
    } else {
        s.take(limit as int)
    }
}

/// The line of the most frequent places: the first [`TOP_PLACES`] of the
/// ranking, each with its number, with `, ` between them.
pub open spec fn top_places_text(places: Seq<(Seq<char>, nat)>) -> Seq<char> {
    joined_with(
        first(ranked(places), TOP_PLACES as nat).map_values(
            |p: (Seq<char>, nat)| place_label(p),
        ),
        seq![',', ' '],
    )
}

/// Writes the line of the most frequent places.
pub fn top_places_line(places: &Vec<(String, u32)>) -> (r: String)
    ensures
        r@ == top_places_text(places_of(places@)),
{
    let ranking = rank_places(places);
    let ghost shown = first(places_of(ranking@), TOP_PLACES as nat);
    let mut labels: Vec<String> = Vec::new();
    let mut i: usize = 0;
    while i < ranking.len() && i < TOP_PLACES
        invariant
            i <= ranking.len(),
            i <= TOP_PLACES,
            labels.len() == i,
            forall|j: int| 0 <= j < i ==> (#[trigger] labels@[j])@ == place_label(
                places_of(ranking@)[j],
            ),
        decreases ranking.len() - i,
    {
        let mut label = ranking[i].0.clone();
        push_char(&mut label, ' ');
        push_char(&mut label, '(');
        label.append(to_decimal(ranking[i].1 as u64).as_str());
        push_char(&mut label, ')');
        assert(label@ =~= place_label(places_of(ranking@)[i as int]));
        labels.push(label);
        i += 1;
    }
    proof {
        reveal_strlit(", ");
        assert(", "@ =~= seq![',', ' ']);
        assert(views_of(labels@) =~= shown.map_values(|p: (Seq<char>, nat)| place_label(p)));
    }
    join_with(&labels, ", ")
}

/// A line cut to [`DEVICES_WIDTH`] characters: one that is longer keeps its
/// first characters, three fewer than the width, and ends in three dots.
pub open spec fn fitted(line: Seq<char>) -> Seq<char> {
    if line.len() > DEVICES_WIDTH {
        line.take(DEVICES_WIDTH - 3) + seq!['.', '.', '.']
    } else {
        line
    }
}

/// The line of devices: the first [`SHOWN_DEVICES`] that were seen, with
/// `, ` between them, cut to the width of the line.
pub open spec fn devices_text(devices: Seq<Seq<char>>) -> Seq<char> {
    fitted(joined_with(first(devices, SHOWN_DEVICES as nat), seq![',', ' ']))
}

/// Writes the line of devices.
pub fn devices_line(devices: &Vec<String>) -> (r: String)
    ensures
        r@ == devices_text(texts_of(devices@)),
{
    let mut shown: Vec<String> = Vec::new();
    let mut i: usize = 0;
    while i < devices.len() && i < SHOWN_DEVICES
        invariant
            i <= devices.len(),
            i <= SHOWN_DEVICES,
            shown.len() == i,
            forall|j: int| 0 <= j < i ==> (#[trigger] shown@[j])@ == devices@[j]@,
        decreases devices.len() - i,
    {
        shown.push(devices[i].clone());
        i += 1;
    }
    proof {
        reveal_strlit(", ");
        assert(", "@ =~= seq![',', ' ']);
        assert(views_of(shown@) =~= first(texts_of(devices@), SHOWN_DEVICES as nat));
    }
    let line = join_with(&shown, ", ");
    let n = line.as_str().unicode_len();
    if n > DEVICES_WIDTH {
        let mut out = line.as_str().substring_char(0, DEVICES_WIDTH - 3).to_owned();
        push_char(&mut out, '.');
        push_char(&mut out, '.');
        push_char(&mut out, '.');
        assert(out@ =~= fitted(line@));
        out
    } else {
        line
    }
}

/// What the closing report shows.
#[derive(Debug)]
pub struct Summary {
    /// The time the run took.
    pub duration: String,
    pub directories: u32,
    pub images: u32,
    pub sorted: u32,
    pub unsorted: u32,
    pub duplicates: u32,
    pub errors: u32,
    /// The number of places seen.
    pub locations: usize,
    /// The most frequent places; empty where none was seen.
    pub top_places: String,
    /// The number of devices seen.
    pub devices: usize,
    /// The first devices seen; empty where none was seen.
    pub devices_line: String,
    /// The earliest and the latest period, where both are known.
    pub date_range: Option<(String, String)>,
    /// The number of errors noted.
    pub error_count: usize,
    /// The first errors noted, [`SHOWN_ERRORS`] at most.
    pub shown_errors: Vec<(String, String)>,
}

/// The span of periods, where both ends are known.
pub open spec fn span_of(report: Report) -> Option<(Seq<char>, Seq<char>)> {
    match (report.oldest, report.newest) {
        (Some(a), Some(b)) => Some((a, b)),
        _ => None,
    }
}

/// The span held in a summary, as plain values.
pub open spec fn span_text(range: Option<(String, String)>) -> Option<(Seq<char>, Seq<char>)> {
    match range {
        Some((a, b)) => Some((a@, b@)),
        None => None,
    }
}

/// Computes what the closing report shows, from the tallies and the time
/// the run took in whole seconds.
pub fn summarize(reporting: &Reporting, elapsed: Option<u64>) -> (s: Summary)
    ensures
        s.duration@ == duration_text(elapsed),
        s.directories == reporting@.directories,
        s.images == reporting@.images,
        s.sorted == reporting@.sorted,
        s.unsorted == reporting@.unsorted,
        s.duplicates == reporting@.duplicates,
        s.errors == reporting@.errors,
        s.locations == reporting@.places.len(),
        s.top_places@ == top_places_text(reporting@.places),
        s.devices == reporting@.devices.len(),
        s.devices_line@ == devices_text(reporting@.devices),
        span_text(s.date_range) == span_of(reporting@),
        s.error_count == reporting@.error_details.len(),
        pairs_of(s.shown_errors@) == first(reporting@.error_details, SHOWN_ERRORS as nat),
{
    let details = reporting.error_details();
    let mut shown_errors: Vec<(String, String)> = Vec::new();
    let mut i: usize = 0;
    while i < details.len() && i < SHOWN_ERRORS
        invariant
            i <= details.len(),
            i <= SHOWN_ERRORS,
            shown_errors.len() == i,
            forall|j: int|
                0 <= j < i ==> (#[trigger] shown_errors@[j]).0@ == details@[j].0@
                    && shown_errors@[j].1@ == details@[j].1@,
        decreases details.len() - i,
    {
        shown_errors.push((details[i].0.clone(), details[i].1.clone()));
        i += 1;
    }
    assert(pairs_of(shown_errors@) =~= first(pairs_of(details@), SHOWN_ERRORS as nat));
    let date_range = match (reporting.oldest_date(), reporting.newest_date()) {
        (Some(a), Some(b)) => Some((a.clone(), b.clone())),
        _ => None,
    };
    Summary {
        duration: format_duration(elapsed),
        directories: reporting.directories(),
        images: reporting.images(),
        sorted: reporting.sorted_images(),
        unsorted: reporting.unsorted_images(),
        duplicates: reporting.duplicates_renamed(),
        errors: reporting.errors(),
        locations: reporting.places().len(),
        top_places: top_places_line(reporting.places()),
        devices: reporting.devices().len(),
        devices_line: devices_line(reporting.devices()),
        date_range,
        error_count: details.len(),
        shown_errors,
    }
}

} // verus!

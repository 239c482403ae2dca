use image_sort::reporting::Reporting;
use image_sort::summary::{
    devices_line, format_duration, rank_places, summarize, top_places_line,
};

fn places(list: &[(&str, u32)]) -> Vec<(String, u32)> {
    list.iter().map(|(name, count)| (String::from(*name), *count)).collect()
}

#[test]
fn duration_below_a_minute_is_seconds() {
    assert_eq!(format_duration(Some(0)), "0s");
    assert_eq!(format_duration(Some(59)), "59s");
}

#[test]
fn duration_from_a_minute_on_is_minutes_and_seconds() {
    assert_eq!(format_duration(Some(60)), "1m 0s");
    assert_eq!(format_duration(Some(3725)), "62m 5s");
}

#[test]
fn duration_of_a_run_without_timer_is_not_available() {
    assert_eq!(format_duration(None), "N/A");
}

#[test]
fn ranking_is_by_falling_count_and_stable() {
    let ranked = rank_places(&places(&[("a", 1), ("b", 3), ("c", 2), ("d", 3), ("e", 1)]));
    assert_eq!(ranked, places(&[("b", 3), ("d", 3), ("c", 2), ("a", 1), ("e", 1)]));
    assert_eq!(rank_places(&Vec::new()), Vec::new());
}

#[test]
fn top_places_are_five_at_most() {
    let line = top_places_line(&places(&[
        ("Arezzo", 4),
        ("Rome", 9),
        ("Pisa", 1),
        ("Lucca", 2),
        ("Siena", 3),
        ("Milan", 7),
    ]));
    assert_eq!(line, "Rome (9), Milan (7), Arezzo (4), Siena (3), Lucca (2)");
    assert_eq!(top_places_line(&places(&[("Arezzo", 4)])), "Arezzo (4)");
    assert_eq!(top_places_line(&Vec::new()), "");
}

#[test]
fn devices_line_names_five_at_most() {
    let devices: Vec<String> = ["a", "b", "c", "d", "e", "f"].iter().map(|d| String::from(*d)).collect();
    assert_eq!(devices_line(&devices), "a, b, c, d, e");
    assert_eq!(devices_line(&Vec::new()), "");
}

#[test]
fn devices_line_is_cut_to_its_width() {
    let devices = vec![String::from("COOLPIX P6000"), String::from("Canon PowerShot S95"), String::from("iPhone 12 Pro Max")];
    // 13 + 2 + 19 + 2 + 17 = 53 characters
    let line = devices_line(&devices);
    assert_eq!(line, "COOLPIX P6000, Canon PowerShot S95, iPhone 12...");
    assert_eq!(line.chars().count(), 48);
    let exactly = vec![String::from("x").repeat(48)];
    assert_eq!(devices_line(&exactly), String::from("x").repeat(48));
    let longer = vec![String::from("x").repeat(49)];
    assert_eq!(devices_line(&longer), format!("{}...", String::from("x").repeat(45)));
}

#[test]
fn summary_of_an_empty_run() {
    let summary = summarize(&Reporting::new(), None);
    assert_eq!(summary.duration, "N/A");
    assert_eq!(summary.images, 0);
    assert_eq!(summary.locations, 0);
    assert_eq!(summary.top_places, "");
    assert_eq!(summary.devices, 0);
    assert_eq!(summary.devices_line, "");
    assert_eq!(summary.date_range, None);
    assert_eq!(summary.error_count, 0);
    assert!(summary.shown_errors.is_empty());
}

#[test]
fn summary_shows_the_tallies() {
    let mut reporting = Reporting::new();
    reporting.directory_processed();
    reporting.record_classification("2008 10", "Arezzo", "COOLPIX P6000");
    reporting.image_processed_sorted();
    reporting.record_classification("2023 10", "Rome", "Nikkon");
    reporting.image_processed_sorted();
    reporting.record_classification("2010 01", "Rome", "Nikkon");
    reporting.image_processed_sorted();
    reporting.image_processed_unsorted();
    reporting.duplicate_renamed();
    for i in 0..12 {
        reporting.error_on_image();
        reporting.add_error(format!("file {}", i), format!("reason {}", i));
    }
    let summary = summarize(&reporting, Some(75));
    assert_eq!(summary.duration, "1m 15s");
    assert_eq!(summary.directories, 1);
    assert_eq!(summary.images, 4);
    assert_eq!(summary.sorted, 3);
    assert_eq!(summary.unsorted, 1);
    assert_eq!(summary.duplicates, 1);
    assert_eq!(summary.errors, 12);
    assert_eq!(summary.locations, 2);
    assert_eq!(summary.top_places, "Rome (2), Arezzo (1)");
    assert_eq!(summary.devices, 2);
    assert_eq!(summary.devices_line, "COOLPIX P6000, Nikkon");
    assert_eq!(summary.date_range, Some((String::from("2008 10"), String::from("2023 10"))));
    assert_eq!(summary.error_count, 12);
    assert_eq!(summary.shown_errors.len(), 10);
    assert_eq!(summary.shown_errors[0], (String::from("file 0"), String::from("reason 0")));
    assert_eq!(summary.shown_errors[9], (String::from("file 9"), String::from("reason 9")));
}

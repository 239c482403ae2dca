use image_sort::exif::{analyze_exif_data, Analysis, ExifData, ExifError, ExifFields};
use image_sort::global_configuration::GlobalConfiguration;
use image_sort::images_manager::{ClassificationKey, FileAction, FileEvent, FileState, FileTask};
use image_sort::place_finder::GeocodeCache;
use image_sort::reporting::{Outcome, Reporting};

fn configuration(use_device: bool) -> GlobalConfiguration {
    let mut configuration = GlobalConfiguration::new();
    *configuration.use_device_mut() = use_device;
    *configuration.source_directory_mut() = String::from("./");
    *configuration.sorted_images_directory_mut() = String::from("./test_sort_image");
    *configuration.unsorted_images_directory_mut() = String::from("./test_cp_unsorted");
    configuration
}

/// Metadata with the given period, place and device, at position zero.
fn exif_data(period: &str, place: &str, device: &str) -> ExifData {
    let mut cache = GeocodeCache::new();
    let fields = ExifFields {
        date_time_original: Some(String::from(period)),
        date_time_digitized: None,
        model: Some(String::from(device)),
        gps_latitude: None,
        gps_latitude_ref: None,
        gps_longitude: None,
        gps_longitude_ref: None,
    };
    let mut data = match analyze_exif_data(&fields, &mut cache).unwrap() {
        Analysis::Complete(data) => data,
        other => panic!("unexpected {:?}", other),
    };
    data.place = image_sort::sanitizer::Directory::parse(String::from(place));
    data
}

/// Runs a task to its end. Everything that is asked for succeeds; a free
/// name is the desired one. Returns the actions in the order asked for.
fn run(
    file: &str,
    metadata: Result<ExifData, ExifError>,
    configuration: &GlobalConfiguration,
    reporting: &mut Reporting,
) -> (Vec<FileAction>, Outcome) {
    let mut task = FileTask::new(String::from(file));
    let mut metadata = Some(metadata);
    let mut actions = Vec::new();
    loop {
        let action = match task.action() {
            Some(action) => action,
            None => break,
        };
        let event = match &action {
            FileAction::ReadMetadata { .. } => match metadata.take().unwrap() {
                Ok(data) => FileEvent::MetadataRead(data),
                Err(error) => FileEvent::MetadataFailed(error),
            },
            FileAction::EnsureDirectory { .. } => FileEvent::DirectoryEnsured,
            FileAction::ResolvePlacement { desired } => FileEvent::PlacementResolved(desired.clone()),
            FileAction::CopyFile { .. } | FileAction::CopyUnsorted { .. } => FileEvent::Copied,
        };
        actions.push(action);
        task = task.step(event, configuration, reporting);
    }
    let outcome = match task.state() {
        FileState::Finished(Outcome::Sorted) => Outcome::Sorted,
        FileState::Finished(Outcome::Unsorted) => Outcome::Unsorted,
        FileState::Finished(Outcome::Skipped) => Outcome::Skipped,
        FileState::Finished(Outcome::Errored(reason)) => Outcome::Errored(reason.clone()),
        other => panic!("unexpected {:?}", other),
    };
    (actions, outcome)
}

fn copy_destination(actions: &[FileAction]) -> Option<(String, String)> {
    actions.iter().find_map(|action| match action {
        FileAction::CopyFile { from, to } => Some((from.clone(), to.clone())),
        FileAction::CopyUnsorted { from, to } => Some((from.clone(), to.clone())),
        _ => None,
    })
}

#[test]
fn test_sort_image_from_exif_data() {
    let mut reporting = Reporting::new();
    let file = "./data_4_tests/DSCN0025.jpg";

    let (actions, outcome) = run(
        file,
        Ok(exif_data("2023 10", "Null_Island", "Nikkon")),
        &configuration(false),
        &mut reporting,
    );
    assert!(matches!(outcome, Outcome::Sorted));
    assert_eq!(
        copy_destination(&actions),
        Some((
            String::from(file),
            String::from("./test_sort_image/2023 10/Null_Island/DSCN0025.jpg")
        ))
    );

    let (actions, outcome) = run(
        file,
        Ok(exif_data("2023 10", "Null_Island", "Nikkon")),
        &configuration(true),
        &mut reporting,
    );
    assert!(matches!(outcome, Outcome::Sorted));
    assert_eq!(
        copy_destination(&actions),
        Some((
            String::from(file),
            String::from("./test_sort_image/2023 10/Null_Island/Nikkon/DSCN0025.jpg")
        ))
    );
}

#[test]
fn test_copy_unsorted_image_in_specific_dir() {
    let mut reporting = Reporting::new();
    let (actions, outcome) =
        run("foo_test.txt", Err(ExifError::NoExifData), &configuration(true), &mut reporting);
    assert!(matches!(outcome, Outcome::Unsorted));
    assert_eq!(actions.len(), 2);
    match &actions[1] {
        FileAction::CopyUnsorted { from, to } => {
            assert_eq!(from, "foo_test.txt");
            assert_eq!(to, "./test_cp_unsorted/foo_test.txt");
        }
        other => panic!("unexpected {:?}", other),
    }
}

#[test]
fn an_image_goes_to_period_and_place() {
    let mut configuration = configuration(false);
    *configuration.sorted_images_directory_mut() = String::from("sorted_root");
    let mut reporting = Reporting::new();
    let (actions, outcome) = run(
        "source/DSCN0025.jpg",
        Ok(exif_data("2008-10", "Arezzo", "COOLPIXP6000")),
        &configuration,
        &mut reporting,
    );
    assert!(matches!(outcome, Outcome::Sorted));
    let described: Vec<String> = actions.iter().map(|a| format!("{:?}", a)).collect();
    assert_eq!(
        described,
        vec![
            String::from("ReadMetadata { file: \"source/DSCN0025.jpg\" }"),
            String::from("EnsureDirectory { parent: \"sorted_root\", child: \"2008 10\" }"),
            String::from("EnsureDirectory { parent: \"sorted_root/2008 10\", child: \"Arezzo\" }"),
            String::from("ResolvePlacement { desired: \"sorted_root/2008 10/Arezzo/DSCN0025.jpg\" }"),
            String::from(
                "CopyFile { from: \"source/DSCN0025.jpg\", to: \"sorted_root/2008 10/Arezzo/DSCN0025.jpg\" }"
            ),
        ]
    );
    assert_eq!(reporting.sorted_images(), 1);
    assert_eq!(reporting.images(), 1);
    assert_eq!(reporting.errors(), 0);
    assert_eq!(reporting.places(), &vec![(String::from("Arezzo"), 1)]);
    assert_eq!(reporting.devices(), &vec![String::from("COOLPIXP6000")]);
    assert_eq!(reporting.oldest_date(), &Some(String::from("2008 10")));
}

#[test]
fn an_image_goes_to_period_place_and_device() {
    let mut configuration = configuration(true);
    *configuration.sorted_images_directory_mut() = String::from("sorted_root");
    let mut reporting = Reporting::new();
    let (actions, outcome) = run(
        "source/DSCN0025.jpg",
        Ok(exif_data("2008-10", "Arezzo", "COOLPIXP6000")),
        &configuration,
        &mut reporting,
    );
    assert!(matches!(outcome, Outcome::Sorted));
    assert_eq!(actions.len(), 6);
    assert_eq!(
        copy_destination(&actions),
        Some((
            String::from("source/DSCN0025.jpg"),
            String::from("sorted_root/2008 10/Arezzo/COOLPIXP6000/DSCN0025.jpg")
        ))
    );
    let ensured = actions.iter().filter(|a| matches!(a, FileAction::EnsureDirectory { .. })).count();
    assert_eq!(ensured, 3);
}

#[test]
fn an_image_without_metadata_is_copied_aside() {
    let mut configuration = configuration(true);
    *configuration.unsorted_images_directory_mut() = String::from("unsorted_root");
    let mut reporting = Reporting::new();
    let (actions, outcome) =
        run("holiday/img.jpg", Err(ExifError::NoExifData), &configuration, &mut reporting);
    assert!(matches!(outcome, Outcome::Unsorted));
    assert_eq!(
        copy_destination(&actions),
        Some((String::from("holiday/img.jpg"), String::from("unsorted_root/holiday/img.jpg")))
    );
    assert_eq!(reporting.unsorted_images(), 1);
    assert_eq!(reporting.errors(), 0);
    assert_eq!(reporting.sorted_images(), 0);
    assert_eq!(reporting.images(), 1);
}

#[test]
fn coordinates_that_cannot_be_decoded_put_the_image_aside() {
    let mut reporting = Reporting::new();
    let (actions, outcome) = run(
        "img.jpg",
        Err(ExifError::Decoding(String::from("[]"))),
        &configuration(true),
        &mut reporting,
    );
    assert!(matches!(outcome, Outcome::Unsorted));
    assert!(matches!(actions[1], FileAction::CopyUnsorted { .. }));
}

#[test]
fn a_file_that_is_no_image_is_skipped_without_trace() {
    let mut reporting = Reporting::new();
    let (actions, outcome) = run(
        "notes.txt",
        Err(ExifError::NotImageFile(String::from("Unknown image format"))),
        &configuration(true),
        &mut reporting,
    );
    assert!(matches!(outcome, Outcome::Skipped));
    assert_eq!(actions.len(), 1);
    assert_eq!(reporting.images(), 0);
    assert_eq!(reporting.errors(), 0);
    assert!(reporting.error_details().is_empty());
}

#[test]
fn a_file_that_cannot_be_read_is_an_error() {
    let mut reporting = Reporting::new();
    let (_, outcome) = run(
        "gone.jpg",
        Err(ExifError::IO(String::from("No such file or directory"))),
        &configuration(true),
        &mut reporting,
    );
    match outcome {
        Outcome::Errored(reason) => assert_eq!(reason, "IO error: No such file or directory"),
        other => panic!("unexpected {:?}", other),
    }
    assert_eq!(reporting.errors(), 1);
    assert_eq!(reporting.images(), 0);
    assert_eq!(
        reporting.error_details(),
        &vec![(String::from("gone.jpg"), String::from("IO error: No such file or directory"))]
    );
}

#[test]
fn a_step_that_fails_ends_the_task_as_error() {
    let configuration = configuration(false);
    for failing_step in 1..5 {
        let mut reporting = Reporting::new();
        let mut task = FileTask::new(String::from("a/b.jpg"));
        task = task.step(
            FileEvent::MetadataRead(exif_data("2008-10", "Arezzo", "X")),
            &configuration,
            &mut reporting,
        );
        let mut step = 1;
        while task.outcome().is_none() {
            let event = if step == failing_step {
                FileEvent::Failed(format!("failed at {}", step))
            } else {
                match task.action().unwrap() {
                    FileAction::EnsureDirectory { .. } => FileEvent::DirectoryEnsured,
                    FileAction::ResolvePlacement { desired } => FileEvent::PlacementResolved(desired),
                    _ => FileEvent::Copied,
                }
            };
            task = task.step(event, &configuration, &mut reporting);
            step += 1;
        }
        match task.outcome().unwrap() {
            Outcome::Errored(reason) => assert_eq!(reason, &format!("failed at {}", failing_step)),
            other => panic!("unexpected {:?}", other),
        }
        assert_eq!(reporting.errors(), 1);
        assert_eq!(reporting.sorted_images(), 0);
        assert_eq!(reporting.error_details().len(), 1);
        assert_eq!(reporting.error_details()[0].0, "a/b.jpg");
        assert!(task.action().is_none());
    }
}

#[test]
fn the_file_is_copied_to_the_name_that_is_free() {
    let configuration = configuration(false);
    let mut reporting = Reporting::new();
    let mut task = FileTask::new(String::from("a/b.jpg"));
    task = task.step(
        FileEvent::MetadataRead(exif_data("2008-10", "Arezzo", "X")),
        &configuration,
        &mut reporting,
    );
    task = task.step(FileEvent::DirectoryEnsured, &configuration, &mut reporting);
    task = task.step(FileEvent::DirectoryEnsured, &configuration, &mut reporting);
    task = task.step(
        FileEvent::PlacementResolved(String::from("elsewhere/b_duplicate_123.jpg")),
        &configuration,
        &mut reporting,
    );
    match task.action() {
        Some(FileAction::CopyFile { from, to }) => {
            assert_eq!(from, "a/b.jpg");
            assert_eq!(to, "elsewhere/b_duplicate_123.jpg");
        }
        other => panic!("unexpected {:?}", other),
    }
}

#[test]
fn a_path_without_file_name_is_an_error() {
    let mut reporting = Reporting::new();
    let (actions, outcome) = run(
        "a/..",
        Ok(exif_data("2008-10", "Arezzo", "X")),
        &configuration(false),
        &mut reporting,
    );
    match outcome {
        Outcome::Errored(reason) => assert_eq!(reason, "the path has no file name"),
        other => panic!("unexpected {:?}", other),
    }
    assert_eq!(actions.len(), 3);
    assert_eq!(reporting.errors(), 1);
}

#[test]
fn an_event_that_was_not_asked_for_is_an_error() {
    let configuration = configuration(false);
    let mut reporting = Reporting::new();
    let task = FileTask::new(String::from("a.jpg"));
    let task = task.step(FileEvent::Copied, &configuration, &mut reporting);
    match task.outcome() {
        Some(Outcome::Errored(reason)) => assert_eq!(reason, "unexpected event"),
        other => panic!("unexpected {:?}", other),
    }
    assert_eq!(reporting.errors(), 1);
}

#[test]
fn a_finished_task_stays_finished_and_counts_nothing_more() {
    let configuration = configuration(false);
    let mut reporting = Reporting::new();
    let (_, _) = run("a.jpg", Err(ExifError::NoExifData), &configuration, &mut reporting);
    let mut task = FileTask::new(String::from("a.jpg"));
    task = task.step(FileEvent::MetadataFailed(ExifError::NoExifData), &configuration, &mut reporting);
    task = task.step(FileEvent::Copied, &configuration, &mut reporting);
    assert_eq!(reporting.unsorted_images(), 2);
    task = task.step(FileEvent::Copied, &configuration, &mut reporting);
    task = task.step(FileEvent::Failed(String::from("late")), &configuration, &mut reporting);
    assert!(matches!(task.outcome(), Some(Outcome::Unsorted)));
    assert_eq!(task.path(), "a.jpg");
    assert_eq!(reporting.unsorted_images(), 2);
    assert_eq!(reporting.errors(), 0);
}

#[test]
fn tallies_of_a_batch_add_up_to_the_number_of_files() {
    let configuration = configuration(true);
    let mut reporting = Reporting::new();
    let mut skipped = 0;
    let n = 40;
    for i in 0..n {
        let metadata = match i % 5 {
            0 => Ok(exif_data("2008-10", "Arezzo", "X")),
            1 => Err(ExifError::NoExifData),
            2 => Err(ExifError::NotImageFile(String::from("text"))),
            3 => Err(ExifError::IO(String::from("gone"))),
            _ => Err(ExifError::Decoding(String::from("[]"))),
        };
        let (_, outcome) = run(&format!("dir/file{}.jpg", i), metadata, &configuration, &mut reporting);
        if matches!(outcome, Outcome::Skipped) {
            skipped += 1;
        }
    }
    assert_eq!(
        reporting.sorted_images() + reporting.unsorted_images() + reporting.errors() + skipped,
        n
    );
    assert_eq!(reporting.sorted_images(), 8);
    assert_eq!(reporting.unsorted_images(), 16);
    assert_eq!(reporting.errors(), 8);
    assert_eq!(skipped, 8);
}

#[test]
fn the_key_has_two_or_three_parts() {
    let data = exif_data("2008-10", "Saint-Denis", "COOLPIX P6000");
    let key = ClassificationKey::new(&data, false);
    assert!(key.device.is_none());
    assert_eq!(key.segments(), vec![String::from("2008 10"), String::from("Saint Denis")]);
    let key = ClassificationKey::new(&data, true);
    assert_eq!(key.period.get(), "2008 10");
    assert_eq!(key.place.get(), "Saint Denis");
    assert_eq!(
        key.segments(),
        vec![
            String::from("2008 10"),
            String::from("Saint Denis"),
            String::from("COOLPIX P6000")
        ]
    );
}

#[test]
fn an_unsorted_copy_of_a_rooted_path_goes_below_the_unsorted_root() {
    let mut configuration = configuration(true);
    *configuration.source_directory_mut() = String::from("/home/me/photos");
    *configuration.unsorted_images_directory_mut() = String::from("/out/Images-x/Unsorted/");
    let mut reporting = Reporting::new();
    let (actions, outcome) = run(
        "/home/me/photos/holiday/img.jpg",
        Err(ExifError::NoExifData),
        &configuration,
        &mut reporting,
    );
    assert!(matches!(outcome, Outcome::Unsorted));
    assert_eq!(
        copy_destination(&actions),
        Some((
            String::from("/home/me/photos/holiday/img.jpg"),
            String::from("/out/Images-x/Unsorted/holiday/img.jpg")
        ))
    );
    assert_eq!(reporting.unsorted_images(), 1);
    assert_eq!(reporting.sorted_images(), 0);
    assert_eq!(reporting.errors(), 0);
}

#[test]
fn an_unsorted_copy_never_lands_on_its_source() {
    let mut configuration = configuration(true);
    *configuration.source_directory_mut() = String::from("photos");
    *configuration.unsorted_images_directory_mut() = String::from("out/Unsorted");
    let files = ["/abs/a.jpg", "photos/a.jpg", "photos/b/a.jpg", "elsewhere/a.jpg", "//x/a.jpg"];
    let expected = [
        "out/Unsorted/abs/a.jpg",
        "out/Unsorted/a.jpg",
        "out/Unsorted/b/a.jpg",
        "out/Unsorted/elsewhere/a.jpg",
        "out/Unsorted/x/a.jpg",
    ];
    for (file, expected) in files.iter().zip(expected) {
        let mut reporting = Reporting::new();
        let (actions, _) = run(
            file,
            Err(ExifError::Decoding(String::from("[]"))),
            &configuration,
            &mut reporting,
        );
        let (from, to) = copy_destination(&actions).unwrap();
        assert_eq!(from, *file);
        assert_eq!(to, expected);
        assert_ne!(to, from);
        assert!(to.starts_with("out/Unsorted/"));
    }
}

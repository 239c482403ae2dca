use image_sort::global_configuration::GlobalConfiguration;

#[test]
fn test_global_configuration() {
    let mut conf = GlobalConfiguration::new();
    assert_eq!(conf.use_device(), &true);
    let b = conf.use_device_mut();
    *b = false;
    assert_eq!(conf.use_device(), &false);
}

#[test]
fn new_configuration_has_empty_paths() {
    let conf = GlobalConfiguration::new();
    assert_eq!(conf.source_directory(), "");
    assert_eq!(conf.source_directory_as_path(), "");
    assert_eq!(conf.dest_directory_as_path(), "");
    assert_eq!(conf.sorted_images_directory_as_path(), "");
    assert_eq!(conf.unsorted_images_directory_as_path(), "");
    assert_eq!(conf.not_images_directory_as_path(), "");
}

#[test]
fn each_path_is_changed_on_its_own() {
    let mut conf = GlobalConfiguration::new();
    *conf.source_directory_mut() = String::from("./");
    *conf.dest_directory_mut() = String::from("dest");
    *conf.sorted_images_directory_mut() = String::from("test_sort_images");
    *conf.unsorted_images_directory_mut() = String::from("test_sort_images/unsorted");
    *conf.not_images_directory_mut() = String::from("test_sort_images/other");
    assert_eq!(conf.source_directory(), "./");
    assert_eq!(conf.source_directory_as_path(), "./");
    assert_eq!(conf._dest_directory(), "dest");
    assert_eq!(conf.dest_directory_as_path(), "dest");
    assert_eq!(conf._sorted_images_directory(), "test_sort_images");
    assert_eq!(conf.sorted_images_directory_as_path(), "test_sort_images");
    assert_eq!(conf._unsorted_images_directory(), "test_sort_images/unsorted");
    assert_eq!(conf.unsorted_images_directory_as_path(), "test_sort_images/unsorted");
    assert_eq!(conf._not_images_directory(), "test_sort_images/other");
    assert_eq!(conf.not_images_directory_as_path(), "test_sort_images/other");
    assert_eq!(conf.use_device(), &true);
}

use image_sort::paths::{
    file_name, join, relative_path, split_extension, split_last_component,
};

#[test]
fn join_puts_one_separator_between() {
    assert_eq!(join("a", "b"), "a/b");
    assert_eq!(join("a/", "b"), "a/b");
    assert_eq!(join("./", "test_create"), "./test_create");
    assert_eq!(join("", "b"), "b");
    assert_eq!(join("a", ""), "a/");
}

#[test]
fn join_with_a_rooted_child_gives_the_child() {
    assert_eq!(join("a/b", "/c"), "/c");
}

#[test]
fn join_agrees_with_std_on_these() {
    let parents = ["", "a", "a/", "/", "./x y", "a/b/c"];
    let children = ["", "b", "b/c", "/b", "2008 10", "."];
    for p in parents {
        for c in children {
            let expected = std::path::Path::new(p).join(c);
            assert_eq!(join(p, c), expected.to_str().unwrap());
        }
    }
}

#[test]
fn file_name_is_the_last_component() {
    assert_eq!(file_name("./data_4_tests/DSCN0025.jpg"), Some(String::from("DSCN0025.jpg")));
    assert_eq!(file_name("foo_test.txt"), Some(String::from("foo_test.txt")));
    assert_eq!(file_name("/a/.hidden"), Some(String::from(".hidden")));
}

#[test]
fn file_name_of_special_components_is_none() {
    assert_eq!(file_name(""), None);
    assert_eq!(file_name("a/"), None);
    assert_eq!(file_name("a/.."), None);
    assert_eq!(file_name(".."), None);
    assert_eq!(file_name("."), None);
}

#[test]
fn split_last_component_splits_after_the_last_separator() {
    assert_eq!(
        split_last_component("./test_check_dir/foo.txt"),
        (String::from("./test_check_dir/"), String::from("foo.txt"))
    );
    assert_eq!(split_last_component("foo.txt"), (String::new(), String::from("foo.txt")));
}

#[test]
fn split_extension_splits_at_the_last_dot() {
    assert_eq!(split_extension("foo.txt"), (String::from("foo"), String::from(".txt")));
    assert_eq!(split_extension("a.tar.gz"), (String::from("a.tar"), String::from(".gz")));
    assert_eq!(split_extension("foo"), (String::from("foo"), String::new()));
    assert_eq!(split_extension(".hidden"), (String::from(".hidden"), String::new()));
    assert_eq!(split_extension("foo."), (String::from("foo"), String::from(".")));
}

#[test]
fn split_extension_agrees_with_std_on_these() {
    let names = ["foo.txt", "a.tar.gz", "foo", ".hidden", "foo.", ".a.b", "x y.JPG"];
    for name in names {
        let path = std::path::Path::new(name);
        let (stem, extension) = split_extension(name);
        assert_eq!(stem, path.file_stem().unwrap().to_str().unwrap());
        match path.extension() {
            Some(e) => assert_eq!(extension, format!(".{}", e.to_str().unwrap())),
            None => assert_eq!(extension, ""),
        }
    }
}

#[test]
fn relative_path_is_what_follows_the_base() {
    assert_eq!(relative_path("photos", "photos/holiday/img.jpg"), "holiday/img.jpg");
    assert_eq!(relative_path("photos/", "photos/holiday/img.jpg"), "holiday/img.jpg");
    assert_eq!(relative_path("/home/me/photos", "/home/me/photos/img.jpg"), "img.jpg");
    assert_eq!(relative_path(".", "./holiday/img.jpg"), "holiday/img.jpg");
    assert_eq!(relative_path("./", "./holiday/img.jpg"), "holiday/img.jpg");
    assert_eq!(relative_path("", "holiday/img.jpg"), "holiday/img.jpg");
    assert_eq!(relative_path("photos", "photos"), "");
}

#[test]
fn relative_path_of_a_path_elsewhere_is_the_path_without_its_root() {
    assert_eq!(relative_path("photos", "/other/img.jpg"), "other/img.jpg");
    assert_eq!(relative_path("photos", "other/img.jpg"), "other/img.jpg");
    assert_eq!(relative_path("", "/img.jpg"), "img.jpg");
    assert_eq!(relative_path("/", "///img.jpg"), "img.jpg");
    assert_eq!(relative_path("a", "//"), "");
}

#[test]
fn relative_path_takes_the_base_at_the_end_of_a_component_only() {
    assert_eq!(relative_path("photos", "photos2/img.jpg"), "photos2/img.jpg");
    assert_eq!(relative_path("/a/b", "/a/bc/img.jpg"), "a/bc/img.jpg");
}

#[test]
fn relative_path_is_never_rooted() {
    let bases = ["", "/", "a", "/a", "a/", "./", "/a/b"];
    let paths = ["", "/", "//x", "/a", "/a/b/c.jpg", "a/b", "./x", "/a//b"];
    for base in bases {
        for path in paths {
            let way = relative_path(base, path);
            assert!(!way.starts_with('/'), "{:?} from {:?} is {:?}", path, base, way);
            assert!(path.ends_with(&way));
            assert!(join("root", &way).starts_with("root/"));
        }
    }
}

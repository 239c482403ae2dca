use image_sort::directories::{
    sorted_images_dir, sorted_images_dir_named, unsorted_images_dir, DirectoryCache,
    DirectoryWalk, SORTED_IMAGES_DIRNAME_PREFIX, UNSORTED_IMAGES_SUBDIR_NAME,
};
use std::collections::HashMap;

/// Walks a tree that is given as the list of the directories in each
/// directory.
fn get_subdirectories_recursive(top: &str, tree: &HashMap<&str, Vec<&str>>) -> Vec<String> {
    let mut walk = DirectoryWalk::new(String::from(top));
    while let Some(directory) = walk.next() {
        let children = match tree.get(directory.as_str()) {
            Some(children) => children.iter().map(|c| String::from(*c)).collect(),
            None => Vec::new(),
        };
        walk.add(children);
    }
    walk.into_found()
}

#[test]
fn test_get_subdirectories_recursive() {
    let tree = HashMap::from([
        ("./test_get_sub_r", vec!["./test_get_sub_r/1first", "./test_get_sub_r/2second"]),
        (
            "./test_get_sub_r/2second",
            vec!["./test_get_sub_r/2second/test1", "./test_get_sub_r/2second/test2"],
        ),
        ("./test_get_sub_r/2second/test2", vec!["./test_get_sub_r/2second/test2/last"]),
    ]);
    let v = get_subdirectories_recursive("./test_get_sub_r", &tree);
    assert_eq!(5, v.iter().count());
    assert!(v.contains(&String::from("./test_get_sub_r/1first")));
    assert!(v.contains(&String::from("./test_get_sub_r/2second/test1")));
    assert!(v.contains(&String::from("./test_get_sub_r/2second/test2/last")));
}

#[test]
fn walk_finds_children_before_grandchildren() {
    let tree = HashMap::from([
        ("top", vec!["top/a", "top/b"]),
        ("top/a", vec!["top/a/1", "top/a/2"]),
        ("top/a/1", vec!["top/a/1/x"]),
        ("top/b", vec!["top/b/1"]),
    ]);
    assert_eq!(
        get_subdirectories_recursive("top", &tree),
        vec!["top/a", "top/b", "top/a/1", "top/a/2", "top/a/1/x", "top/b/1"]
    );
    assert!(get_subdirectories_recursive("empty", &tree).is_empty());
}


#[test]
fn test_create_subdir() {
    let mut cache = DirectoryCache::new();
    assert!(!cache.contains("./test_create"));
    let ensured = cache.ensure("./", "test_create");
    assert_eq!(ensured.path, "./test_create");
    assert!(!ensured.cached);
    cache.confirm(&ensured.path);
    assert!(cache.contains("./test_create"));
}

#[test]
fn ensure_twice_gives_the_same_path_and_a_hit() {
    let mut cache = DirectoryCache::new();
    let first = cache.ensure("sorted/2008 10", "Arezzo");
    assert!(!first.cached);
    cache.confirm(&first.path);
    cache.confirm("sorted/2008 10/Rome");
    let second = cache.ensure("sorted/2008 10", "Arezzo");
    assert_eq!(second.path, first.path);
    assert_eq!(second.path, "sorted/2008 10/Arezzo");
    assert!(second.cached);
}

#[test]
fn confirm_twice_is_confirm_once() {
    let mut cache = DirectoryCache::new();
    cache.confirm("a");
    cache.confirm("a");
    assert!(cache.contains("a"));
    assert!(!cache.contains("b"));
    assert!(!cache.contains(""));
}

#[test]
fn sorted_root_is_named_by_prefix_and_suffix() {
    assert_eq!(sorted_images_dir_named(".", "20240102-030405"), "./Images-20240102-030405");
    assert_eq!(SORTED_IMAGES_DIRNAME_PREFIX, "Images-");
}

#[test]
fn sorted_root_of_now_is_named_by_the_time() {
    let path = sorted_images_dir("top");
    assert!(path.starts_with("top/Images-"));
    let suffix = &path["top/Images-".len()..];
    assert_eq!(suffix.len(), 15);
    assert!(suffix.chars().enumerate().all(|(i, c)| if i == 8 {
        c == '-'
    } else {
        c.is_ascii_digit()
    }));
}

#[test]
fn unsorted_directory_lies_below_its_parent() {
    assert_eq!(unsorted_images_dir("top/Images-x"), "top/Images-x/Unsorted/");
    assert_eq!(UNSORTED_IMAGES_SUBDIR_NAME, "Unsorted/");
}

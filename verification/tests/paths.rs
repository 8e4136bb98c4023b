use ebook_playback::paths::{components_le, sort_by_path, PathComponent, ScannedFile};
use std::path::{Component, Path};

fn components(path: &str) -> Vec<PathComponent> {
    Path::new(path)
        .components()
        .map(|part| match part {
            Component::Prefix(p) => PathComponent::Prefix(p.as_os_str().to_string_lossy().into_owned()),
            Component::RootDir => PathComponent::RootDir,
            Component::CurDir => PathComponent::CurDir,
            Component::ParentDir => PathComponent::ParentDir,
            Component::Normal(n) => PathComponent::Normal(n.to_string_lossy().into_owned()),
        })
        .collect()
}

fn file(path: &str, stem: &str) -> ScannedFile {
    ScannedFile {
        path: path.to_string(),
        components: components(path),
        stem: Some(stem.to_string()),
        extension: None,
    }
}

const SAMPLES: [&str; 16] = [
    "",
    "/",
    ".",
    "..",
    "a",
    "a/b",
    "a-b",
    "a/b/c",
    "/a",
    "/a/b",
    "./a",
    "../a",
    "A",
    "b",
    "é/x",
    "a/./b",
];

#[test]
fn the_order_of_paths_agrees_with_the_standard_library() {
    for a in SAMPLES {
        for b in SAMPLES {
            assert_eq!(components_le(&components(a), &components(b)), Path::new(a) <= Path::new(b));
        }
    }
}

#[test]
fn kinds_come_before_names() {
    let root = vec![PathComponent::RootDir];
    let current = vec![PathComponent::CurDir];
    let parent = vec![PathComponent::ParentDir];
    let name = vec![PathComponent::Normal(String::new())];
    let prefix = vec![PathComponent::Prefix("z".to_string())];
    assert!(components_le(&prefix, &root));
    assert!(components_le(&root, &current));
    assert!(components_le(&current, &parent));
    assert!(components_le(&parent, &name));
    assert!(!components_le(&name, &parent));
    assert!(!components_le(&root, &prefix));
    assert!(components_le(&Vec::new(), &prefix));
    assert!(!components_le(&prefix, &Vec::new()));
}

#[test]
fn files_are_sorted_by_path_and_stay_in_order_where_paths_are_the_same() {
    let sorted = sort_by_path(vec![
        file("b/2", "first b"),
        file("a/9", "a nine"),
        file("b/2", "second b"),
        file("a", "a"),
        file("a-1", "a one"),
        file("b/2", "third b"),
    ]);
    let stems: Vec<&str> = sorted.iter().map(|f| f.stem.as_deref().unwrap()).collect();
    assert_eq!(stems, vec!["a", "a nine", "a one", "first b", "second b", "third b"]);
    assert!(sort_by_path(Vec::new()).is_empty());
}

#[test]
fn sorting_agrees_with_the_standard_library() {
    let files: Vec<ScannedFile> = SAMPLES.iter().map(|p| file(p, p)).collect();
    let mut expected: Vec<&str> = SAMPLES.to_vec();
    expected.sort_by(|a, b| Path::new(a).cmp(Path::new(b)));
    let sorted = sort_by_path(files);
    let paths: Vec<&str> = sorted.iter().map(|f| f.path.as_str()).collect();
    // `a/./b` and `a/b` are the same path and keep their order
    assert_eq!(paths, expected);
}

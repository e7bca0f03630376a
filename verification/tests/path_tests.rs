use std::path::{Component, Path, PathBuf};

use dockdash::normalize_archive_path;
use dockdash::order::is_names_less;
use dockdash::path::{join_path, parent_directories, path_key_of, path_names};

/// All texts up to a length over an alphabet that makes interesting paths.
fn sample_paths(length: usize) -> Vec<String> {
    let mut all = vec![String::new()];
    let mut last = vec![String::new()];
    for _ in 0..length {
        let mut next = Vec::new();
        for text in &last {
            for c in ['a', 'b', '.', '/'] {
                next.push(format!("{text}{c}"));
            }
        }
        all.extend(next.iter().cloned());
        last = next;
    }
    all
}

#[test]
fn absolute_paths_become_relative() {
    assert_eq!(normalize_archive_path("/app/hello.txt"), "app/hello.txt");
    assert_eq!(normalize_archive_path("/"), "");
    assert_eq!(normalize_archive_path("//"), "");
    assert_eq!(normalize_archive_path("/a//b/./c/"), "a/b/c");
    assert_eq!(normalize_archive_path("/../x"), "../x");
    assert_eq!(normalize_archive_path("/größe/日本"), "größe/日本");
}

#[test]
fn relative_paths_stay() {
    assert_eq!(normalize_archive_path(""), "");
    assert_eq!(normalize_archive_path("app/hello.txt"), "app/hello.txt");
    assert_eq!(normalize_archive_path("./app//x/"), "./app//x/");
    assert_eq!(normalize_archive_path("."), ".");
}

#[test]
fn normalizing_agrees_with_std() {
    for text in sample_paths(6) {
        let path = Path::new(&text);
        let expected = if path.is_absolute() {
            path.components().skip(1).collect::<PathBuf>()
        } else {
            path.to_path_buf()
        };
        let normalized = normalize_archive_path(&text);
        assert_eq!(normalized, expected.to_str().unwrap(), "{text}");
        assert!(!normalized.starts_with('/'), "{text}");
        assert_eq!(normalize_archive_path(&normalized), normalized, "{text}");
        assert_eq!(path_names(&normalized), path_names(&text), "{text}");
    }
}

#[test]
fn names_agree_with_std() {
    for text in sample_paths(6) {
        let mut expected: Vec<String> = Vec::new();
        for component in Path::new(&text).components() {
            if component != Component::RootDir {
                expected.push(component.as_os_str().to_str().unwrap().to_string());
            }
        }
        assert_eq!(path_names(&text), expected, "{text}");
    }
}

#[test]
fn parent_directories_agree_with_std() {
    for text in sample_paths(6) {
        if text.starts_with('/') {
            continue;
        }
        let mut expected: Vec<String> = Vec::new();
        let mut current = Path::new(&text).parent();
        while let Some(path) = current {
            if !path.as_os_str().is_empty() {
                expected.insert(0, path.to_str().unwrap().to_string());
            }
            current = path.parent();
        }
        assert_eq!(parent_directories(&text), expected, "{text}");
    }
}

#[test]
fn parent_directories_come_outermost_first() {
    assert_eq!(parent_directories("app/foo/bar.txt"), vec!["app", "app/foo"]);
    assert_eq!(parent_directories("hello.txt"), Vec::<String>::new());
    assert_eq!(parent_directories("./my-app"), vec!["."]);
    assert_eq!(parent_directories("a/./b/c"), vec!["a", "a/./b"]);
}

#[test]
fn joining_agrees_with_std() {
    let paths = sample_paths(3);
    for base in &paths {
        for relative in &paths {
            let expected = Path::new(base).join(relative);
            assert_eq!(join_path(base, relative), expected.to_str().unwrap());
        }
    }
    assert_eq!(join_path("archived_dir", ""), "archived_dir/");
}

#[test]
fn order_agrees_with_std() {
    let paths = sample_paths(4);
    for a in &paths {
        for b in &paths {
            let less = is_names_less(&path_key_of(a), &path_key_of(b));
            assert_eq!(less, Path::new(a) < Path::new(b), "{a} {b}");
            let same = path_key_of(a) == path_key_of(b);
            assert_eq!(same, Path::new(a) == Path::new(b), "{a} {b}");
        }
    }
}

#[test]
fn order_goes_by_code_points() {
    let less = |a: &str, b: &str| is_names_less(&path_key_of(a), &path_key_of(b));
    assert!(less("z", "é"));
    assert!(less("é", "日"));
    assert!(less("\u{ffff}", "\u{10000}"));
    assert!(!less("\u{10000}", "\u{ffff}"));
}

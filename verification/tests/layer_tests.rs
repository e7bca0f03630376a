use std::collections::HashMap;
use std::io::{Read, Seek, Write};

use dockdash::compress::CompressFailure;
use dockdash::json::{parse_json, Json};
use dockdash::layer_build::{digests_in, store_layer};
use dockdash::layer_input::{calculate_input_key, FileMetadata};
use dockdash::{
    normalize_archive_path, BlobCache, EntryHeader, Error, Layer, LayerBuilder, LayerStep,
    SourceFailure, SourceFile, WalkFailure, WalkedEntry,
};
use sha2::Digest;
use tempfile::NamedTempFile;

type Cache = HashMap<String, Vec<u8>>;

/// Builds a layer with a cache in memory; gives the keys that were looked up too.
fn build_with(builder: LayerBuilder, cache: &mut Cache) -> (Layer, Vec<String>) {
    let (_, lookup) = builder.build();
    let mut looked_up = Vec::new();
    let mut step = LayerStep::Lookup(lookup);
    loop {
        step = match step {
            LayerStep::Lookup(lookup) => {
                looked_up.push(lookup.key().to_string());
                let found = cache.get(lookup.key()).cloned();
                lookup.resume(found).unwrap()
            }
            LayerStep::Store(store) => {
                cache.insert(store.key().to_string(), store.data().clone());
                store.resume()
            }
            LayerStep::Done(layer) => return (layer, looked_up),
        }
    }
}

fn build(builder: LayerBuilder) -> Layer {
    build_with(builder, &mut Cache::new()).0
}

fn tar_of(layer: &Layer) -> Vec<u8> {
    zstd::decode_all(layer.blob().as_slice()).unwrap()
}

/// The paths in an archive with their contents; those of directories end in a separator.
fn list_tar_contents(layer: &Layer) -> HashMap<String, String> {
    let tar = tar_of(layer);
    let mut found = HashMap::new();
    for entry in tar::Archive::new(tar.as_slice()).entries().unwrap() {
        let mut entry = entry.unwrap();
        let mut path = entry.path().unwrap().to_string_lossy().into_owned();
        let mut content = String::new();
        if entry.header().entry_type().is_dir() {
            if !path.ends_with('/') {
                path.push('/');
            }
        } else {
            entry.read_to_string(&mut content).unwrap();
        }
        found.insert(path, content);
    }
    found
}

fn paths_in_order(layer: &Layer) -> Vec<String> {
    let tar = tar_of(layer);
    let mut paths = Vec::new();
    for entry in tar::Archive::new(tar.as_slice()).entries().unwrap() {
        paths.push(entry.unwrap().path().unwrap().to_string_lossy().into_owned());
    }
    paths
}

fn written(content: &str) -> NamedTempFile {
    let mut file = NamedTempFile::new().unwrap();
    file.write_all(content.as_bytes()).unwrap();
    file.rewind().unwrap();
    file
}

fn header_of(header: &tar::Header) -> EntryHeader {
    let raw = header.as_gnu().unwrap();
    EntryHeader {
        mode: header.mode().unwrap(),
        size: header.size().unwrap(),
        mtime: header.mtime().unwrap(),
        uid: header.uid().unwrap(),
        gid: header.gid().unwrap(),
        type_flag: raw.typeflag[0],
        device_major: u64::from_be_bytes(raw.dev_major),
        device_minor: u64::from_be_bytes(raw.dev_minor),
    }
}

/// What the file system says of a file.
fn source(file: &mut NamedTempFile) -> SourceFile {
    let metadata = file.as_file().metadata().unwrap();
    let mut header = tar::Header::new_gnu();
    header.set_metadata(&metadata);
    file.rewind().unwrap();
    let mut content = Vec::new();
    file.read_to_end(&mut content).unwrap();
    SourceFile {
        size: metadata.len(),
        mtime: header.mtime().unwrap(),
        mode: header.mode().unwrap(),
        header: header_of(&header),
        content: Ok(content),
        sparse_entry: None,
    }
}

fn add_file(
    builder: LayerBuilder,
    file: &mut NamedTempFile,
    archive_path: &str,
    mode: Option<u32>,
) -> Result<LayerBuilder, Error> {
    let disk_path = file.path().to_str().unwrap().to_string();
    let source = source(file);
    builder.file(&disk_path, archive_path, mode, Ok(source))
}

/// Makes a directory with files in it; a name that ends in a separator is a directory.
fn directory_with(files: &[(&str, &str)]) -> tempfile::TempDir {
    let root = tempfile::tempdir().unwrap();
    let runtime = tokio::runtime::Runtime::new().unwrap();
    for (name, content) in files {
        let path = root.path().join(name);
        let made = async {
            if name.ends_with('/') {
                tokio::fs::create_dir_all(&path).await.unwrap();
            } else {
                tokio::fs::create_dir_all(path.parent().unwrap()).await.unwrap();
                tokio::fs::write(&path, content).await.unwrap();
            }
        };
        runtime.block_on(made);
    }
    root
}

fn add_directory(
    builder: LayerBuilder,
    directory: &std::path::Path,
    archive_path: &str,
) -> Result<LayerBuilder, Error> {
    let mut tar = tar::Builder::new(Vec::new());
    tar.follow_symlinks(false);
    tar.append_dir_all(normalize_archive_path(archive_path), directory).unwrap();
    let segment = std::mem::take(tar.get_mut());
    let mut walked = Vec::new();
    for entry in walkdir::WalkDir::new(directory).sort_by_file_name() {
        let entry = entry.unwrap();
        let metadata = entry.metadata().unwrap();
        let mut header = tar::Header::new_gnu();
        header.set_metadata(&metadata);
        walked.push(WalkedEntry {
            relative: entry.path().strip_prefix(directory).unwrap().to_str().unwrap().to_string(),
            size: metadata.len(),
            mtime: header.mtime().unwrap(),
            mode: header.mode().unwrap(),
            is_dir: metadata.is_dir(),
        });
    }
    builder.directory(directory.to_str().unwrap(), archive_path, Ok(segment), Ok(walked))
}

#[test]
fn test_layer_creation_empty() {
    let layer = build(Layer::builder());
    assert!(layer.diff_id().starts_with("sha256:"));
    assert_eq!(tar_of(&layer), vec![0u8; 1024]);
}

#[test]
fn test_layer_with_data_absolute_path() {
    let content = b"hello absolute world";
    let layer = build(Layer::builder().data("/app/hello_abs.txt", content, None).unwrap());

    let entries = list_tar_contents(&layer);
    assert_eq!(entries.get("app/hello_abs.txt").unwrap(), "hello absolute world");
}

#[test]
fn test_layer_with_data_relative_path() {
    let content = b"hello relative world";
    let layer = build(Layer::builder().data("app/hello_rel.txt", content, None).unwrap());

    let entries = list_tar_contents(&layer);
    assert_eq!(entries.get("app/hello_rel.txt").unwrap(), "hello relative world");
}

#[test]
fn test_layer_with_data_root_path_error() {
    match Layer::builder().data("/", b"root data", None) {
        Err(Error::InvalidPath { message }) => {
            assert!(message.contains("Archive path for data cannot be the root directory"));
        }
        Err(other_error) => {
            panic!("Expected Error::InvalidPath from .data(), but got {other_error:?}");
        }
        Ok(_) => panic!("Expected .data(\"/\", ...) to fail for root path data"),
    }
}

#[test]
fn test_layer_with_file_absolute_path() {
    let mut file = written("absolute file content");
    let layer = build(add_file(Layer::builder(), &mut file, "/app/file_abs.txt", None).unwrap());

    let entries = list_tar_contents(&layer);
    assert_eq!(entries.get("app/file_abs.txt").unwrap(), "absolute file content");
}

#[test]
fn test_layer_with_file_root_path_error() {
    let source = SourceFailure::Open(std::io::Error::from(std::io::ErrorKind::NotFound));
    match Layer::builder().file("source_root.txt", "/", None, Err(source)) {
        Err(Error::InvalidPath { message }) => {
            assert!(message.contains("Archive path for file"));
            assert_eq!(
                message,
                "Archive path for file 'source_root.txt' cannot be the root directory ('/') or empty."
            );
        }
        Err(other_error) => {
            panic!("Expected Error::InvalidPath from .file(), but got {other_error:?}");
        }
        Ok(_) => panic!("Expected .file(\"/\", ...) to fail for root path file"),
    }
}

#[test]
fn test_layer_with_directory_absolute_path() {
    let root = directory_with(&[("my_dir_abs/sub/file_in_dir.txt", "dir content abs")]);
    let source = root.path().join("my_dir_abs");
    let layer = build(add_directory(Layer::builder(), &source, "/archived_dir_abs").unwrap());

    let entries = list_tar_contents(&layer);
    assert!(entries.contains_key("archived_dir_abs/sub/"));
    assert_eq!(
        entries.get("archived_dir_abs/sub/file_in_dir.txt").unwrap(),
        "dir content abs"
    );
}

#[test]
fn test_layer_with_directory_root_path() {
    let root = directory_with(&[
        ("my_dir_for_root/sub_at_root/", ""),
        ("my_dir_for_root/file_at_root.txt", "root dir content"),
        ("my_dir_for_root/sub_at_root/nested.txt", "nested root"),
    ]);
    let source = root.path().join("my_dir_for_root");
    let layer = build(add_directory(Layer::builder(), &source, "/").unwrap());

    let entries = list_tar_contents(&layer);
    assert!(entries.contains_key("sub_at_root/"));
    assert_eq!(entries.get("file_at_root.txt").unwrap(), "root dir content");
    assert_eq!(entries.get("sub_at_root/nested.txt").unwrap(), "nested root");
    assert!(!entries.contains_key("my_dir_for_root/file_at_root.txt"));
}

#[test]
fn test_layer_with_data() {
    let content = b"hello world";
    let layer = build(Layer::builder().data("hello.txt", content, Some(0o755)).unwrap());

    assert!(layer.diff_id().starts_with("sha256:"));
    let entries = list_tar_contents(&layer);
    assert_eq!(
        entries.get("hello.txt").expect("File 'hello.txt' not found in layer"),
        "hello world"
    );
}

#[test]
fn test_layer_with_file_and_dir() {
    let root = directory_with(&[
        ("mydir_on_disk/file1.txt", "content1"),
        ("mydir_on_disk/file2.txt", "content2"),
        ("mydir_on_disk/my_subdir/nested_file.txt", "nested_content"),
    ]);
    let source = root.path().join("mydir_on_disk");
    let mut file = written("individual_content");

    let builder = add_directory(Layer::builder(), &source, "archived_dir").unwrap();
    let builder =
        add_file(builder, &mut file, "archived_dir/renamed_individual.txt", None).unwrap();
    let layer = build(builder.data("root_file.txt", b"root data", None).unwrap());

    assert!(layer.diff_id().starts_with("sha256:"));
    let entries = list_tar_contents(&layer);
    assert_eq!(entries.get("archived_dir/file1.txt").unwrap(), "content1");
    assert_eq!(entries.get("archived_dir/file2.txt").unwrap(), "content2");
    assert_eq!(
        entries.get("archived_dir/renamed_individual.txt").unwrap(),
        "individual_content"
    );
    assert_eq!(entries.get("root_file.txt").unwrap(), "root data");
    assert!(entries.contains_key("archived_dir/"));
    assert_eq!(
        entries.get("archived_dir/my_subdir/nested_file.txt").unwrap(),
        "nested_content"
    );
    assert!(
        entries.contains_key("archived_dir/my_subdir/"),
        "Directory entry 'archived_dir/my_subdir[/]' not found or not a directory"
    );
}

#[test]
fn test_directory_to_archive_root() {
    let root = directory_with(&[
        ("my_app_files/app.js", "console.log('app');"),
        ("my_app_files/styles.css", "body { color: blue; }"),
    ]);
    let source = root.path().join("my_app_files");
    let layer = build(add_directory(Layer::builder(), &source, ".").unwrap());

    assert!(layer.diff_id().starts_with("sha256:"));
    let entries = list_tar_contents(&layer);
    assert_eq!(entries.get("app.js").unwrap(), "console.log('app');");
    assert_eq!(entries.get("styles.css").unwrap(), "body { color: blue; }");
    assert!(
        !entries.contains_key("my_app_files/app.js"),
        "Path should not include source dir name"
    );
    assert!(
        !entries.contains_key("my_app_files/"),
        "Source directory itself should not be an entry when copied to root"
    );
}

#[test]
fn test_layer_with_file_mode_override() {
    let file = || {
        let mut file = source(&mut written("mode test content"));
        file.mode = 0o100644;
        file.header.mode = 0o100644;
        Ok(file)
    };
    let builder = Layer::builder()
        .file("test_mode.txt", "app/executable.txt", Some(0o755), file())
        .and_then(|builder| builder.file("test_mode.txt", "app/normal.txt", None, file()));
    let layer = build(builder.unwrap());

    let tar = tar_of(&layer);
    let mut modes = HashMap::new();
    for entry in tar::Archive::new(tar.as_slice()).entries().unwrap() {
        let entry = entry.unwrap();
        let path = entry.path().unwrap().to_string_lossy().into_owned();
        modes.insert(path, entry.header().mode().unwrap());
    }
    assert_eq!(
        modes.get("app/executable.txt").unwrap(),
        &0o755,
        "Mode for executable.txt should be overridden to 0o755"
    );
    assert_eq!(
        modes.get("app/normal.txt").unwrap() & 0o777,
        0o644,
        "Mode for normal.txt should be original 0o644"
    );
}

#[test]
fn the_archive_is_what_one_tar_builder_writes() {
    let mut expected = tar::Builder::new(Vec::new());
    for directory in ["app", "app/etc"] {
        let mut header = tar::Header::new_gnu();
        header.set_size(0);
        header.set_mtime(0);
        header.set_uid(0);
        header.set_gid(0);
        header.set_mode(0o755);
        header.set_entry_type(tar::EntryType::Directory);
        expected.append_data(&mut header, directory, &[] as &[u8]).unwrap();
    }
    for (path, content, mode) in
        [("app/etc/a.toml", b"one".as_slice(), 0o644), ("app/b.bin", b"two!".as_slice(), 0o755)]
    {
        let mut header = tar::Header::new_gnu();
        header.set_size(content.len() as u64);
        header.set_mtime(0);
        header.set_uid(0);
        header.set_gid(0);
        header.set_mode(mode);
        expected.append_data(&mut header, path, content).unwrap();
    }
    let expected = expected.into_inner().unwrap();

    let builder = Layer::builder().data("/app/etc/a.toml", b"one", None).unwrap();
    let layer = build(builder.data("app/b.bin", b"two!", Some(0o755)).unwrap());
    assert_eq!(tar_of(&layer), expected);
    assert_eq!(layer.diff_id(), format!("sha256:{:x}", sha2::Sha256::digest(&expected)));
    let blob = zstd::encode_all(expected.as_slice(), 3).unwrap();
    assert_eq!(layer.blob(), &blob);
    assert_eq!(layer.blob_digest(), format!("sha256:{:x}", sha2::Sha256::digest(&blob)));
    assert_eq!(layer.media_type(), "application/vnd.oci.image.layer.v1.tar+zstd");
}

#[test]
fn a_file_with_a_mode_is_what_a_tar_builder_writes() {
    let mut file = written("some content");
    let metadata = file.as_file().metadata().unwrap();
    let mut header = tar::Header::new_gnu();
    header.set_metadata(&metadata);
    header.set_mode(0o750);
    header.set_mtime(0);
    header.set_uid(0);
    header.set_gid(0);
    let mut expected = tar::Builder::new(Vec::new());
    expected.append_data(&mut header, "run.sh", file.as_file_mut()).unwrap();
    let expected = expected.into_inner().unwrap();

    let layer = build(add_file(Layer::builder(), &mut file, "run.sh", Some(0o750)).unwrap());
    assert_eq!(tar_of(&layer), expected);
}

#[test]
fn a_file_with_its_own_mode_is_what_a_tar_builder_writes() {
    let mut file = written("some content");
    let mut expected = tar::Builder::new(Vec::new());
    expected.append_file("run.sh", file.as_file_mut()).unwrap();
    let expected = expected.into_inner().unwrap();

    let layer = build(add_file(Layer::builder(), &mut file, "run.sh", None).unwrap());
    assert_eq!(tar_of(&layer), expected);
}

#[test]
fn the_entry_of_a_file_with_holes_is_taken_over() {
    let mut file = written("some content");
    let mut sparse = source(&mut file);
    sparse.sparse_entry = Some(vec![7; 512]);
    let layer = build(Layer::builder().file("/x", "x", None, Ok(sparse)).unwrap());
    let mut expected = vec![7; 512];
    expected.extend([0; 1024]);
    assert_eq!(tar_of(&layer), expected);

    let mut sparse = source(&mut file);
    sparse.sparse_entry = Some(vec![7; 512]);
    let layer = build(Layer::builder().file("/x", "x", Some(0o600), Ok(sparse)).unwrap());
    assert_eq!(list_tar_contents(&layer)["x"], "some content");
}

#[test]
fn directories_are_added_once_and_outermost_first() {
    let builder = Layer::builder().data("a/b/one", b"1", None).unwrap();
    let builder = builder.data("a//b/./two", b"2", None).unwrap();
    let layer = build(builder.data("/a/c/three", b"3", None).unwrap());
    assert_eq!(
        paths_in_order(&layer),
        vec!["a", "a/b", "a/b/one", "a/b/two", "a/c", "a/c/three"]
    );
}

#[test]
fn long_file_names_are_taken_but_long_directories_are_not() {
    let long = "x".repeat(150);
    let layer = build(Layer::builder().data(&long, b"1", None).unwrap());
    assert_eq!(paths_in_order(&layer), vec![long.clone()]);

    match Layer::builder().data(&format!("{long}/file"), b"1", None) {
        Err(Error::Io { message, .. }) => {
            assert_eq!(message, format!("Failed to set path for directory header: {long}"));
        }
        Err(other) => panic!("{other:?}"),
        Ok(_) => panic!("a directory name of 150 bytes was taken"),
    }
}

#[test]
fn paths_that_leave_the_layer_are_refused() {
    match Layer::builder().data("..", b"1", None) {
        Err(Error::Io { message, .. }) => {
            assert_eq!(message, "Failed to append data as .. to tar");
        }
        Err(other) => panic!("{other:?}"),
        Ok(_) => panic!("`..` was taken"),
    }
    match Layer::builder().data("../x", b"1", None) {
        Err(Error::Io { message, .. }) => {
            assert_eq!(message, "Failed to set path for directory header: ..");
        }
        Err(other) => panic!("{other:?}"),
        Ok(_) => panic!("`../x` was taken"),
    }
}

#[test]
fn an_empty_path_is_no_place_for_data() {
    assert!(matches!(
        Layer::builder().data("", b"1", None),
        Err(Error::InvalidPath { message })
            if message == "Archive path for data cannot be the root directory ('/') or empty."
    ));
}

#[test]
fn files_that_cannot_be_read_are_errors() {
    let gone = || std::io::Error::from(std::io::ErrorKind::NotFound);
    let message_of = |result: Result<LayerBuilder, Error>| match result {
        Err(Error::Io { message, source }) => {
            assert_eq!(source.kind(), std::io::ErrorKind::NotFound);
            message
        }
        Err(other) => panic!("{other:?}"),
        Ok(_) => panic!("a failure was expected"),
    };
    let failure = SourceFailure::Open(gone());
    assert_eq!(
        message_of(Layer::builder().file("/d", "a", None, Err(failure))),
        "Failed to open file /d for tar"
    );
    let failure = SourceFailure::Metadata(gone());
    assert_eq!(
        message_of(Layer::builder().file("/d", "a", None, Err(failure))),
        "Failed to get metadata for file /d"
    );
    let mut file = written("x");
    for (mode, message) in [
        (None, "Failed to append file /d (as a) to tar"),
        (Some(0o600), "Failed to append file /d (as a) with custom mode to tar"),
    ] {
        let mut broken = source(&mut file);
        broken.content = Err(gone());
        assert_eq!(message_of(Layer::builder().file("/d", "/a", mode, Ok(broken))), message);
    }
}

#[test]
fn directories_that_cannot_be_read_are_errors() {
    let gone = || std::io::Error::from(std::io::ErrorKind::NotFound);
    let message_of = |result: Result<LayerBuilder, Error>| match result {
        Err(Error::Io { message, .. }) => message,
        Err(other) => panic!("{other:?}"),
        Ok(_) => panic!("a failure was expected"),
    };
    assert_eq!(
        message_of(Layer::builder().directory("/d", "/a", Err(gone()), Ok(Vec::new()))),
        "Failed to append directory /d (as a) to tar"
    );
    let failure = WalkFailure::Walk(gone());
    assert_eq!(
        message_of(Layer::builder().directory("/d", "/a", Ok(Vec::new()), Err(failure))),
        "Failed to walk directory /d for cache key metadata"
    );
    let failure = WalkFailure::Metadata("/d/x".to_string(), gone());
    assert_eq!(
        message_of(Layer::builder().directory("/d", "/a", Ok(Vec::new()), Err(failure))),
        "Failed to get metadata for /d/x"
    );
}

fn metadata(path: &str, size: u64, content: Option<&[u8]>) -> FileMetadata {
    FileMetadata {
        archive_path: path.to_string(),
        size,
        mtime: 7,
        mode: 0o644,
        is_dir: false,
        content_hash: content.map(|c| sha2::Sha256::digest(c).to_vec()),
    }
}

#[test]
fn the_input_key_hashes_the_metadata_sorted_by_path() {
    let mut hashed: Vec<u8> = Vec::new();
    for (path, size, hash) in [("a/x", 3u64, None), ("b", 5u64, Some(b"12345"))] {
        hashed.extend(path.as_bytes());
        hashed.extend(size.to_le_bytes());
        hashed.extend(7u64.to_le_bytes());
        hashed.extend(0o644u32.to_le_bytes());
        hashed.push(0);
        if let Some(content) = hash {
            hashed.extend(sha2::Sha256::digest(content));
        }
    }
    let expected = format!("layer-input-{:x}", sha2::Sha256::digest(&hashed));
    let files = vec![metadata("b", 5, Some(b"12345")), metadata("a/x", 3, None)];
    assert_eq!(calculate_input_key(&files), expected);
}

#[test]
fn the_input_key_ignores_the_order_of_inputs() {
    let one = vec![metadata("a", 1, None), metadata("b", 2, None), metadata("a/c", 3, None)];
    let other = vec![metadata("a/c", 3, None), metadata("b", 2, None), metadata("a", 1, None)];
    assert_eq!(calculate_input_key(&one), calculate_input_key(&other));
}

#[test]
fn the_input_key_tells_contents_apart() {
    let one = vec![metadata("a", 3, Some(b"one"))];
    let two = vec![metadata("a", 3, Some(b"two"))];
    assert_ne!(calculate_input_key(&one), calculate_input_key(&two));
}

#[test]
fn inputs_at_one_path_keep_their_order() {
    let one = vec![metadata("a", 1, None), metadata("a/", 2, None)];
    let other = vec![metadata("a/", 2, None), metadata("a", 1, None)];
    assert_ne!(calculate_input_key(&one), calculate_input_key(&other));
}

#[test]
fn a_directory_counts_in_the_input_key() {
    let walked = |mode| {
        vec![WalkedEntry { relative: "f".to_string(), size: 1, mtime: 2, mode, is_dir: true }]
    };
    let key = |mode| {
        let builder = Layer::builder();
        let builder = builder.directory("/d", "/base", Ok(Vec::new()), Ok(walked(mode))).unwrap();
        builder.build().1.key().to_string()
    };
    let mut hashed: Vec<u8> = b"base/f".to_vec();
    hashed.extend(1u64.to_le_bytes());
    hashed.extend(2u64.to_le_bytes());
    hashed.extend(0o40755u32.to_le_bytes());
    hashed.push(1);
    assert_eq!(key(0o40755), format!("layer-input-{:x}", sha2::Sha256::digest(&hashed)));
    assert_ne!(key(0o40755), key(0o40700));
}

#[test]
fn a_second_build_finds_the_layer_by_its_inputs() {
    let mut cache = Cache::new();
    let builder = || Layer::builder().data("app/x", b"data", None).unwrap();
    let (first, keys) = build_with(builder(), &mut cache);
    assert_eq!(keys.len(), 2);
    assert!(keys[0].starts_with("layer-input-"));
    assert!(keys[1].starts_with("layer-content-"));
    assert_eq!(cache.len(), 3);
    let (second, keys) = build_with(builder(), &mut cache);
    assert_eq!(keys.len(), 2);
    assert_eq!(keys[1], first.blob_digest());
    assert_eq!(second.diff_id(), first.diff_id());
    assert_eq!(second.blob_digest(), first.blob_digest());
    assert_eq!(second.blob(), first.blob());
}

#[test]
fn a_build_with_the_same_archive_finds_the_layer_by_its_content() {
    let mut cache = Cache::new();
    let mut file = written("same bytes");
    let (first, _) =
        build_with(add_file(Layer::builder(), &mut file, "x", Some(0o644)).unwrap(), &mut cache);
    let mut touched = source(&mut file);
    touched.mtime += 1;
    let builder = Layer::builder().file("/x", "x", Some(0o644), Ok(touched)).unwrap();
    let (second, keys) = build_with(builder, &mut cache);
    assert_eq!(keys.len(), 3);
    assert_eq!(keys[2], first.blob_digest());
    assert_eq!(second.blob(), first.blob());
}

#[test]
fn records_that_cannot_be_used_count_as_none() {
    let builder = || Layer::builder().data("x", b"data", None).unwrap();
    let key = builder().build().1.key().to_string();
    for record in [
        b"no json".to_vec(),
        b"[1]".to_vec(),
        b"{\"diff_id\":\"sha256:a\"}".to_vec(),
        b"{\"diff_id\":1,\"blob_digest\":\"sha256:b\"}".to_vec(),
        b"{\"diff_id\":\"sha256:a\",\"blob_digest\":\"sha256:gone\"}".to_vec(),
        vec![0xff, 0xfe],
    ] {
        let mut cache = Cache::new();
        cache.insert(key.clone(), record);
        let (layer, _) = build_with(builder(), &mut cache);
        assert_eq!(layer.diff_id(), build(builder()).diff_id());
    }
}

#[test]
fn a_record_is_believed() {
    let builder = Layer::builder().data("x", b"data", None).unwrap();
    let mut cache = Cache::new();
    let record = b"{\"diff_id\":\"sha256:a\",\"blob_digest\":\"sha256:b\"}".to_vec();
    cache.insert(builder.build().1.key().to_string(), record);
    cache.insert("sha256:b".to_string(), b"blob".to_vec());
    let builder = Layer::builder().data("x", b"data", None).unwrap();
    let (layer, keys) = build_with(builder, &mut cache);
    assert_eq!(keys.len(), 2);
    assert_eq!(layer.diff_id(), "sha256:a");
    assert_eq!(layer.blob_digest(), "sha256:b");
    assert_eq!(layer.blob(), b"blob");
}

#[test]
fn a_cache_that_was_set_is_handed_out() {
    let cache = BlobCache::with_path("/blobs".to_string(), Ok(())).unwrap();
    let (cache, _) = Layer::builder().blob_cache(cache).build();
    assert_eq!(cache.unwrap().path(), "/blobs");
    assert!(Layer::builder().build().0.is_none());
}

#[test]
fn an_archive_that_cannot_be_compressed_is_an_error() {
    let full = || std::io::Error::from(std::io::ErrorKind::StorageFull);
    let failures = [
        (CompressFailure::Create(full()), "Failed to create zstd encoder"),
        (CompressFailure::Write(full()), "Failed to compress tar data with zstd"),
        (CompressFailure::Finish(full()), "Failed to finalize zstd stream"),
    ];
    for (failure, expected) in failures {
        match store_layer("key".to_string(), b"tar".to_vec(), Err(failure)) {
            Err(Error::Io { message, source }) => {
                assert_eq!(message, expected);
                assert_eq!(source.kind(), std::io::ErrorKind::StorageFull);
            }
            other => panic!("{other:?}"),
        }
    }
}

#[test]
fn a_layer_is_stored_with_two_records() {
    let step = store_layer("key".to_string(), b"tar".to_vec(), Ok(b"blob".to_vec())).unwrap();
    let digest = |data: &[u8]| format!("{:x}", sha2::Sha256::digest(data));
    let (tar, blob) = (digest(b"tar"), digest(b"blob"));
    let record = format!("{{\"blob_digest\":\"sha256:{blob}\",\"diff_id\":\"sha256:{tar}\"}}");
    let mut expected = vec![
        (format!("sha256:{blob}"), "blob".to_string()),
        (format!("layer-content-{tar}"), record.clone()),
        ("key".to_string(), record),
    ]
    .into_iter();
    let mut step = step;
    loop {
        step = match step {
            LayerStep::Store(store) => {
                let (key, data) = expected.next().unwrap();
                assert_eq!(store.key(), key);
                assert_eq!(store.data().as_slice(), data.as_bytes());
                store.resume()
            }
            LayerStep::Done(layer) => {
                assert!(expected.next().is_none());
                assert_eq!(layer.diff_id(), format!("sha256:{tar}"));
                assert_eq!(layer.blob_digest(), format!("sha256:{blob}"));
                assert_eq!(layer.blob(), b"blob");
                return;
            }
            LayerStep::Lookup(lookup) => panic!("{lookup:?}"),
        }
    }
}

#[test]
fn a_record_needs_both_digests() {
    let record = parse_json(br#"{"diff_id":"d","blob_digest":"b","more":1}"#).unwrap();
    assert_eq!(digests_in(&record), Some(("d".to_string(), "b".to_string())));
    for text in ["{}", r#"{"diff_id":"d"}"#, r#"{"diff_id":"d","blob_digest":2}"#, "[]"] {
        assert_eq!(digests_in(&parse_json(text.as_bytes()).unwrap()), None);
    }
    assert_eq!(digests_in(&Json::Null), None);
}

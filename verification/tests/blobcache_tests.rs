use dockdash::{BlobCache, CacheFailure, Cause, Error};
use tempfile::tempdir;

fn failure(error: cacache::Error) -> CacheFailure {
    match error {
        cacache::Error::EntryNotFound(_, _) => CacheFailure::EntryNotFound,
        other => CacheFailure::Other(other),
    }
}

fn put(cache: &BlobCache, digest: &str, data: &[u8]) -> Result<(), Error> {
    let written = cacache::write_sync(cache.path(), digest, data).map(|_| ());
    cache.put_blob(digest, written)
}

fn get(cache: &BlobCache, digest: &str) -> Result<Option<Vec<u8>>, Error> {
    cache.get_blob(digest, cacache::read_sync(cache.path(), digest).map_err(failure))
}

fn remove(cache: &BlobCache, digest: &str) -> Result<(), Error> {
    cache.remove_blob(digest, cacache::remove_sync(cache.path(), digest).map_err(failure))
}

fn cache_in(directory: &tempfile::TempDir) -> BlobCache {
    BlobCache::with_path(directory.path().to_str().unwrap().to_string(), Ok(())).unwrap()
}

fn some_cache_error() -> cacache::Error {
    cacache::Error::SizeMismatch(1, 2)
}

#[test]
fn test_put_get_blob() {
    let temp_dir = tempdir().expect("Failed to create temp dir");
    let cache = cache_in(&temp_dir);

    let digest = "sha256:testdigest123";
    let data = b"hello cache data";

    put(&cache, digest, data).unwrap();

    let retrieved_data = get(&cache, digest).unwrap().expect("Blob should be found");
    assert_eq!(retrieved_data, data);
}

#[test]
fn test_get_non_existent_blob() {
    let temp_dir = tempdir().expect("Failed to create temp dir");
    let cache = cache_in(&temp_dir);

    let digest = "sha256:nonexistent123";
    let retrieved_data = get(&cache, digest).unwrap();
    assert!(retrieved_data.is_none());
}

#[test]
fn test_put_remove_get_blob() {
    let temp_dir = tempdir().expect("Failed to create temp dir");
    let cache = cache_in(&temp_dir);

    let digest = "sha256:toberemoved456";
    let data = b"this will be removed";

    put(&cache, digest, data).unwrap();
    let retrieved_data_before_remove = get(&cache, digest)
        .unwrap()
        .expect("Blob should be found before remove");
    assert_eq!(retrieved_data_before_remove, data);

    remove(&cache, digest).unwrap();
    let retrieved_data_after_remove = get(&cache, digest).unwrap();
    assert!(retrieved_data_after_remove.is_none());

    // Removing again should be fine
    remove(&cache, digest).unwrap();
}

#[test]
fn default_cache_lies_below_home() {
    assert_eq!(
        BlobCache::default_path(Some("/home/user"), true),
        "/home/user/.dockdash/cache/blobs"
    );
    assert_eq!(
        BlobCache::default_path(Some("/home/user"), false),
        "/tmp/.dockdash/cache/blobs"
    );
    assert_eq!(BlobCache::default_path(None, true), "/tmp/.dockdash/cache/blobs");
    let cache = BlobCache::new(Some("/root/"), true, Ok(())).unwrap();
    assert_eq!(cache.path(), "/root/.dockdash/cache/blobs");
}

#[test]
fn a_path_is_taken_as_it_is() {
    let cache = BlobCache::with_path("/var/cache/my-tool/blobs".to_string(), Ok(())).unwrap();
    assert_eq!(cache.path(), "/var/cache/my-tool/blobs");
}

#[test]
fn a_directory_that_cannot_be_created_is_an_error() {
    let denied = std::io::Error::from(std::io::ErrorKind::PermissionDenied);
    match BlobCache::with_path("/blobs".to_string(), Err(denied)) {
        Err(Error::Io { message, source }) => {
            assert_eq!(message, "Failed to create cache directory: /blobs");
            assert_eq!(source.kind(), std::io::ErrorKind::PermissionDenied);
        }
        other => panic!("{other:?}"),
    }
}

#[test]
fn cache_failures_name_the_blob_and_the_directory() {
    let cache = BlobCache::with_path("/blobs".to_string(), Ok(())).unwrap();
    match cache.get_blob("sha256:a", Err(CacheFailure::Other(some_cache_error()))) {
        Err(Error::Cache { message, source: Some(Cause::Cache(_)) }) => {
            assert_eq!(message, "Failed to read blob 'sha256:a' from cache at /blobs");
        }
        other => panic!("{other:?}"),
    }
    match cache.put_blob("sha256:b", Err(some_cache_error())) {
        Err(Error::Cache { message, source: Some(Cause::Cache(_)) }) => {
            assert_eq!(message, "Failed to write blob 'sha256:b' to cache at /blobs");
        }
        other => panic!("{other:?}"),
    }
    match cache.remove_blob("sha256:c", Err(CacheFailure::Other(some_cache_error()))) {
        Err(Error::Cache { message, source: Some(Cause::Cache(_)) }) => {
            assert_eq!(message, "Failed to remove blob 'sha256:c' from cache at /blobs");
        }
        other => panic!("{other:?}"),
    }
}

#[test]
fn a_plain_io_error_converts() {
    let error = Error::from(std::io::Error::from(std::io::ErrorKind::NotFound));
    match error {
        Error::Io { message, source } => {
            assert_eq!(message, "An I/O error occurred");
            assert_eq!(source.kind(), std::io::ErrorKind::NotFound);
        }
        other => panic!("{other:?}"),
    }
}

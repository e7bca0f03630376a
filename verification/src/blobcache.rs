use vstd::prelude::*;

use crate::error::{is_cache, is_io, Cause, Error};
use crate::path::{join_path, path_under};
use crate::text::join;

verus! {

/// The default place of the cache below the home directory.
pub const DEFAULT_CACHE_SUBDIR: &'static str = ".dockdash/cache/blobs";

/// A content-addressable cache of blobs in a directory.
///
/// The cache keeps layers that have been built or pulled, so that they need not be compressed or
/// pulled again.
#[derive(Debug, Clone)]
pub struct BlobCache {
    cache_path: String,
}

/// What the cache directory answered where it did not do what was asked.
#[derive(Debug)]
pub enum CacheFailure {
    /// There is no entry for the key.
    EntryNotFound,
    /// Anything else.
    Other(cacache::Error),
}

/// The cache directory below `home`.
pub open spec fn home_cache_path(home: Seq<char>) -> Seq<char> {
    path_under(home, DEFAULT_CACHE_SUBDIR@)
}

/// The cache directory where there is no home directory to write to.
pub open spec fn fallback_cache_path() -> Seq<char> {
    path_under("/tmp"@, DEFAULT_CACHE_SUBDIR@)
}

/// The default directory of the cache: below the home directory, or below `/tmp` where there is no
/// home directory or it cannot be written to.
pub open spec fn default_cache_path(home: Option<&str>, home_is_writable: bool) -> Seq<char> {
    match home {
        Some(h) => if home_is_writable {
            home_cache_path(h@)
        } else {
            fallback_cache_path()
        },
        None => fallback_cache_path(),
    }
}

impl BlobCache {
    /// The directory of this cache.
    pub closed spec fn location(&self) -> Seq<char> {
        self.cache_path@
    }

    /// The directory of this cache.
    pub fn path(&self) -> (path: &str)
        ensures
            path@ == self.location(),
    {
        self.cache_path.as_str()
    }

    /// The directory in which a cache below `home` would lie.
    pub fn home_path(home: &str) -> (path: String)
        ensures
            path@ == home_cache_path(home@),
    {
        join_path(home, DEFAULT_CACHE_SUBDIR)
    }

    /// The default directory of the cache: below the home directory, or below `/tmp` where there
    /// is no home directory or it cannot be written to.
    pub fn default_path(home: Option<&str>, home_is_writable: bool) -> (path: String)
        ensures
            path@ == default_cache_path(home, home_is_writable),
    {
        match home {
            Some(home) => if home_is_writable {
                Self::home_path(home)
            } else {
                join_path("/tmp", DEFAULT_CACHE_SUBDIR)
            },
            None => join_path("/tmp", DEFAULT_CACHE_SUBDIR),
        }
    }

    /// A cache in the default directory, where `directory` says whether that directory exists or
    /// could be created.
    pub fn new(
        home: Option<&str>,
        home_is_writable: bool,
        directory: Result<(), std::io::Error>,
    ) -> (cache: Result<Self, Error>)
        ensures
            match directory {
                Ok(_) => cache matches Ok(c) && c.location() == default_cache_path(
                    home,
                    home_is_writable,
                ),
                Err(e) => cache matches Err(error) && is_io(
                    error,
                    "Failed to create cache directory: "@ + default_cache_path(
                        home,
                        home_is_writable,
                    ),
                    e,
                ),
            },
    {
        Self::with_path(Self::default_path(home, home_is_writable), directory)
    }

    /// A cache in the directory `path`, taken as it is, where `directory` says whether that
    /// directory exists or could be created.
    pub fn with_path(path: String, directory: Result<(), std::io::Error>) -> (cache: Result<
        Self,
        Error,
    >)
        ensures
            match directory {
                Ok(_) => cache matches Ok(c) && c.location() == path@,
                Err(e) => cache matches Err(error) && is_io(
                    error,
                    "Failed to create cache directory: "@ + path@,
                    e,
                ),
            },
    {
        match directory {
            Ok(_) => Ok(BlobCache { cache_path: path }),
            Err(source) => Err(
                Error::Io {
                    message: join("Failed to create cache directory: ", path.as_str()),
                    source,
                },
            ),
        }
    }

    /// What a lookup of `digest` gives: the blob, or nothing where the cache has no entry.
    pub fn get_blob(&self, digest: &str, read: Result<Vec<u8>, CacheFailure>) -> (blob: Result<
        Option<Vec<u8>>,
        Error,
    >)
        ensures
            match read {
                Ok(data) => blob == Ok::<Option<Vec<u8>>, Error>(Some(data)),
                Err(CacheFailure::EntryNotFound) => blob == Ok::<Option<Vec<u8>>, Error>(None),
                Err(CacheFailure::Other(e)) => blob matches Err(error) && is_cache(
                    error,
                    "Failed to read blob '"@ + digest@ + "' from cache at "@ + self.location(),
                    Some(Cause::Cache(e)),
                ),
            },
    {
        match read {
            Ok(data) => Ok(Some(data)),
            Err(CacheFailure::EntryNotFound) => Ok(None),
            Err(CacheFailure::Other(error)) => Err(
                Error::Cache {
                    message: join("Failed to read blob '", digest).concat(
                        "' from cache at ",
                    ).concat(self.cache_path.as_str()),
                    source: Some(Cause::Cache(error)),
                },
            ),
        }
    }

    /// What storing `digest` gives.
    pub fn put_blob(&self, digest: &str, written: Result<(), cacache::Error>) -> (stored: Result<
        (),
        Error,
    >)
        ensures
            match written {
                Ok(_) => stored is Ok,
                Err(e) => stored matches Err(error) && is_cache(
                    error,
                    "Failed to write blob '"@ + digest@ + "' to cache at "@ + self.location(),
                    Some(Cause::Cache(e)),
                ),
            },
    {
        match written {
            Ok(_) => Ok(()),
            Err(error) => Err(
                Error::Cache {
                    message: join("Failed to write blob '", digest).concat(
                        "' to cache at ",
                    ).concat(self.cache_path.as_str()),
                    source: Some(Cause::Cache(error)),
                },
            ),
        }
    }

    /// What removing `digest` gives; it is no failure that there was no such entry.
    pub fn remove_blob(&self, digest: &str, removed: Result<(), CacheFailure>) -> (gone: Result<
        (),
        Error,
    >)
        ensures
            match removed {
                Ok(_) => gone is Ok,
                Err(CacheFailure::EntryNotFound) => gone is Ok,
                Err(CacheFailure::Other(e)) => gone matches Err(error) && is_cache(
                    error,
                    "Failed to remove blob '"@ + digest@ + "' from cache at "@ + self.location(),
                    Some(Cause::Cache(e)),
                ),
            },
    {
        match removed {
            Ok(_) => Ok(()),
            Err(CacheFailure::EntryNotFound) => Ok(()),
            Err(CacheFailure::Other(error)) => Err(
                Error::Cache {
                    message: join("Failed to remove blob '", digest).concat(
                        "' from cache at ",
                    ).concat(self.cache_path.as_str()),
                    source: Some(Cause::Cache(error)),
                },
            ),
        }
    }
}

} // verus!

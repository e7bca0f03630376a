use vstd::prelude::*;

use crate::archive::{tar_append, tar_entry, tar_header_holds, tar_set_path, EntryHeader};
use crate::blobcache::BlobCache;
use crate::digest::{sha256, sha256_of};
use crate::error::{is_invalid_path, is_io, is_io_saying, Error};
use crate::layer_build::{first_lookup, LayerLookup};
use crate::layer_input::{calculate_input_key, entries_of, input_key, FileEntry, FileMetadata};
use crate::path::{
    ancestors, join_path, normalize_archive_path, normalized, parent_directories, path_key,
    path_key_of, path_under, same_texts,
};
use crate::text::{append_bytes, join, join3, join5, texts};

verus! {

/// Builds a layer out of directories, files and data in memory.
///
/// What is added goes to the end of a tar archive. `build` ends the archive, compresses it and
/// gives the layer.
pub struct LayerBuilder {
    archive: Vec<u8>,
    blob_cache: Option<BlobCache>,
    created_archive_dirs: Vec<String>,
    file_metadata: Vec<FileMetadata>,
}

/// The contents of a `LayerBuilder`.
pub struct LayerBuilderView {
    /// The archive so far.
    pub archive: Seq<u8>,
    /// The directory of the cache to use, where one was set.
    pub blob_cache: Option<Seq<char>>,
    /// The directories that were added to the archive for the files in them.
    pub directories: Seq<Seq<char>>,
    /// What was added.
    pub entries: Seq<FileEntry>,
}

/// What the file system said of a file, and what the archive is to hold of it.
#[derive(Debug)]
pub struct SourceFile {
    pub size: u64,
    /// The modification time, in seconds since the epoch.
    pub mtime: u64,
    pub mode: u32,
    /// The header that the file's metadata gives.
    pub header: EntryHeader,
    pub content: Result<Vec<u8>, std::io::Error>,
    /// The archive entry of a file with holes, which leaves the holes out. It is used where the
    /// file keeps its own mode.
    pub sparse_entry: Option<Vec<u8>>,
}

/// Why nothing is known of a file.
#[derive(Debug)]
pub enum SourceFailure {
    /// The file could not be opened.
    Open(std::io::Error),
    /// The file's metadata could not be read.
    Metadata(std::io::Error),
}

/// A file or directory that was found in a directory.
#[derive(Debug)]
pub struct WalkedEntry {
    /// The path from the directory that was walked.
    pub relative: String,
    pub size: u64,
    /// The modification time, in seconds since the epoch.
    pub mtime: u64,
    pub mode: u32,
    pub is_dir: bool,
}

/// Why a directory could not be walked.
#[derive(Debug)]
pub enum WalkFailure {
    /// The walk itself failed.
    Walk(std::io::Error),
    /// The metadata of the file or directory at this path could not be read.
    Metadata(String, std::io::Error),
}

/// The mode of data that was added without one.
pub const DEFAULT_DATA_MODE: u32 = 0o644;

/// The mode of directories that are added for the files in them.
pub const DIRECTORY_MODE: u32 = 0o755;

/// The type flag of a directory in a tar header.
pub const DIRECTORY_FLAG: u8 = 53;

/// The header of data that was handed over in memory.
pub open spec fn data_header(size: u64, mode: u32) -> EntryHeader {
    EntryHeader {
        mode,
        size,
        mtime: 0,
        uid: 0,
        gid: 0,
        type_flag: 0,
        device_major: 0,
        device_minor: 0,
    }
}

/// The header of a directory.
pub open spec fn directory_header() -> EntryHeader {
    EntryHeader { type_flag: DIRECTORY_FLAG, ..data_header(0, DIRECTORY_MODE) }
}

/// The header of a file that is added with a mode of the caller's.
pub open spec fn file_header(header: EntryHeader, mode: u32) -> EntryHeader {
    EntryHeader { mode, mtime: 0, uid: 0, gid: 0, ..header }
}

/// Whether the directory was added to the archive before.
pub open spec fn is_created(created: Seq<Seq<char>>, directory: Seq<char>) -> bool {
    exists|i: int|
        0 <= i < created.len() && path_key(#[trigger] created[i]) == path_key(directory)
}

/// The archive and the directories in it after the directories `wanted` have been added, each
/// unless it was added before; or the message of the failure.
pub open spec fn with_directories(
    archive: Seq<u8>,
    created: Seq<Seq<char>>,
    wanted: Seq<Seq<char>>,
) -> Result<(Seq<u8>, Seq<Seq<char>>), Seq<char>>
    decreases wanted.len(),
{
    if wanted.len() == 0 {
        Ok((archive, created))
    } else {
        match with_directories(archive, created, wanted.drop_last()) {
            Err(message) => Err(message),
            Ok((longer, more)) => if is_created(more, wanted.last()) {
                Ok((longer, more))
            } else if !tar_header_holds(wanted.last()) {
                Err("Failed to set path for directory header: "@ + wanted.last())
            } else {
                match tar_entry(directory_header(), wanted.last(), Seq::empty()) {
                    Some(entry) => Ok((longer + entry, more.push(wanted.last()))),
                    None => Err("Failed to append directory header for: "@ + wanted.last()),
                }
            },
        }
    }
}

/// Whether no directory occurs twice.
pub open spec fn are_distinct_paths(paths: Seq<Seq<char>>) -> bool {
    forall|i: int, j: int|
        0 <= i < j < paths.len() ==> path_key(#[trigger] paths[i]) != path_key(#[trigger] paths[j])
}

/// The entry for something that was found in a directory that lies at `base` in the archive.
pub open spec fn walked_entry(base: Seq<char>, walked: WalkedEntry) -> FileEntry {
    FileEntry {
        archive_path: path_under(base, walked.relative@),
        size: walked.size,
        mtime: walked.mtime,
        mode: walked.mode,
        is_dir: walked.is_dir,
        content_hash: None,
    }
}

/// The entries for what was found in a directory that lies at `base` in the archive.
pub open spec fn walked_entries(base: Seq<char>, walked: Seq<WalkedEntry>) -> Seq<FileEntry> {
    Seq::new(walked.len(), |i: int| walked_entry(base, walked[i]))
}

/// The archive entry for a file: with a header of its own where a mode was given, else with what
/// the file system says of the file. None where the file cannot be added.
pub open spec fn file_archive_entry(
    file: SourceFile,
    path: Seq<char>,
    mode: Option<u32>,
) -> Option<Seq<u8>> {
    match (file.content, mode, file.sparse_entry) {
        (Err(_), _, _) => None,
        (Ok(content), Some(m), _) => tar_entry(file_header(file.header, m), path, content@),
        (Ok(content), None, None) => tar_entry(file.header, path, content@),
        (Ok(_), None, Some(entry)) => Some(entry@),
    }
}

/// The message of the error for a file that cannot be added.
pub open spec fn append_message(
    disk_path: Seq<char>,
    path: Seq<char>,
    mode: Option<u32>,
) -> Seq<char> {
    "Failed to append file "@ + disk_path + " (as "@ + path + match mode {
        Some(_) => ") with custom mode to tar"@,
        None => ") to tar"@,
    }
}

impl View for LayerBuilder {
    type V = LayerBuilderView;

    closed spec fn view(&self) -> LayerBuilderView {
        LayerBuilderView {
            archive: self.archive@,
            blob_cache: match self.blob_cache {
                Some(cache) => Some(cache.location()),
                None => None,
            },
            directories: texts(self.created_archive_dirs@),
            entries: entries_of(self.file_metadata@),
        }
    }
}

/// Whether the directory was added to the archive before.
fn contains_directory(created: &Vec<String>, directory: &str) -> (found: bool)
    ensures
        found == is_created(texts(created@), directory@),
{
    let key = path_key_of(directory);
    for i in 0..created.len()
        invariant
            texts(key@) == path_key(directory@),
            forall|j: int|
                0 <= j < i ==> path_key(#[trigger] texts(created@)[j]) != path_key(directory@),
    {
        let other = path_key_of(created[i].as_str());
        assert(texts(created@)[i as int] == created@[i as int]@);
        if same_texts(&other, &key) {
            return true;
        }
    }
    false
}

/// Adds the directories that lead to `path` to the archive, from the outermost one down, each
/// unless it was added before.
#[verifier::loop_isolation(false)]
fn ensure_parent_dirs_exist(
    archive: Vec<u8>,
    created: Vec<String>,
    path: &str,
) -> (added: Result<(Vec<u8>, Vec<String>), Error>)
    requires
        are_distinct_paths(texts(created@)),
    ensures
        match with_directories(archive@, texts(created@), ancestors(path@)) {
            Ok((longer, more)) => added matches Ok((a, c)) && a@ == longer && texts(c@) == more
                && are_distinct_paths(more),
            Err(message) => added matches Err(error) && is_io_saying(error, message),
        },
{
    let wanted = parent_directories(path);
    let ghost paths = texts(wanted@);
    let mut archive = archive;
    let mut created = created;
    let ghost start = archive@;
    let ghost first = texts(created@);
    assert(paths.take(0).len() == 0);
    for i in 0..wanted.len()
        invariant
            paths == texts(wanted@),
            are_distinct_paths(texts(created@)),
            with_directories(start, first, paths.take(i as int)) == Ok::<
                (Seq<u8>, Seq<Seq<char>>),
                Seq<char>,
            >((archive@, texts(created@))),
            paths == ancestors(path@),
    {
        proof {
            assert(paths.take(i + 1).drop_last() == paths.take(i as int));
            assert(paths.take(i + 1).last() == wanted@[i as int]@);
        }
        let directory = wanted[i].as_str();
        if !contains_directory(&created, directory) {
            if let Err(source) = tar_set_path(directory) {
                proof {
                    lemma_failure_stays(start, first, paths, i + 1);
                }
                return Err(
                    Error::Io {
                        message: join("Failed to set path for directory header: ", directory),
                        source,
                    },
                );
            }
            let header = EntryHeader {
                mode: DIRECTORY_MODE,
                size: 0,
                mtime: 0,
                uid: 0,
                gid: 0,
                type_flag: DIRECTORY_FLAG,
                device_major: 0,
                device_minor: 0,
            };
            let empty: Vec<u8> = Vec::new();
            archive =
            match tar_append(archive, header, directory, empty.as_slice()) {
                Ok(longer) => longer,
                Err(source) => {
                    proof {
                        lemma_failure_stays(start, first, paths, i + 1);
                    }
                    return Err(
                        Error::Io {
                            message: join("Failed to append directory header for: ", directory),
                            source,
                        },
                    );
                },
            };
            let ghost before = texts(created@);
            created.push(directory.to_owned());
            proof {
                assert(texts(created@) == before.push(directory@));
                assert forall|j: int, k: int| 0 <= j < k < texts(created@).len() implies path_key(
                    #[trigger] texts(created@)[j],
                ) != path_key(#[trigger] texts(created@)[k]) by {
                    assert(texts(created@)[j] == before[j]);
                    if k < before.len() {
                        assert(texts(created@)[k] == before[k]);
                    }
                }
            }
        }
    }
    assert(paths.take(wanted@.len() as int) == paths);
    Ok((archive, created))
}

/// A failure on the first directories is a failure on all of them.
proof fn lemma_failure_stays(
    archive: Seq<u8>,
    created: Seq<Seq<char>>,
    wanted: Seq<Seq<char>>,
    count: int,
)
    requires
        0 <= count <= wanted.len(),
        with_directories(archive, created, wanted.take(count)) is Err,
    ensures
        with_directories(archive, created, wanted) == with_directories(
            archive,
            created,
            wanted.take(count),
        ),
    decreases wanted.len() - count,
{
    if count == wanted.len() {
        assert(wanted.take(count) == wanted);
    } else {
        assert(wanted.take(count + 1).drop_last() == wanted.take(count));
        lemma_failure_stays(archive, created, wanted, count + 1);
    }
}

impl LayerBuilder {
    #[verifier::type_invariant]
    closed spec fn has_distinct_directories(self) -> bool {
        are_distinct_paths(texts(self.created_archive_dirs@))
    }

    /// A builder with nothing in it.
    pub fn new() -> (builder: Self)
        ensures
            builder@ == (LayerBuilderView {
                archive: Seq::empty(),
                blob_cache: None,
                directories: Seq::empty(),
                entries: Seq::empty(),
            }),
    {
        let builder = LayerBuilder {
            archive: Vec::new(),
            blob_cache: None,
            created_archive_dirs: Vec::new(),
            file_metadata: Vec::new(),
        };
        assert(builder@.directories == Seq::<Seq<char>>::empty());
        assert(builder@.entries == Seq::<FileEntry>::empty());
        builder
    }

    /// Sets the cache to use. Without one, the default cache is used.
    pub fn blob_cache(self, cache: BlobCache) -> (builder: Self)
        ensures
            builder@ == (LayerBuilderView { blob_cache: Some(cache.location()), ..self@ }),
    {
        proof {
            use_type_invariant(&self);
        }
        LayerBuilder { blob_cache: Some(cache), ..self }
    }

    /// Adds data in memory as a file.
    ///
    /// - `archive_path`: where the data will lie in the layer. `/foo/bar.txt` means `foo/bar.txt`
    ///   below the layer's root; `/` is no place for data.
    /// - `mode`: the file mode, `0o644` where none is given.
    pub fn data(self, archive_path: &str, content: &[u8], mode: Option<u32>) -> (result: Result<
        Self,
        Error,
    >)
        ensures
            ({
                let path = normalized(archive_path@);
                let size = content@.len() as u64;
                let used_mode = match mode {
                    Some(m) => m,
                    None => DEFAULT_DATA_MODE,
                };
                if path.len() == 0 {
                    result matches Err(error) && is_invalid_path(
                        error,
                        "Archive path for data cannot be the root directory ('/') or empty."@,
                    )
                } else {
                    match with_directories(self@.archive, self@.directories, ancestors(path)) {
                        Err(message) => result matches Err(error) && is_io_saying(error, message),
                        Ok((archive, directories)) => match tar_entry(
                            data_header(size, used_mode),
                            path,
                            content@,
                        ) {
                            None => result matches Err(error) && is_io_saying(
                                error,
                                "Failed to append data as "@ + path + " to tar"@,
                            ),
                            Some(entry) => result matches Ok(builder) && builder@ == (
                            LayerBuilderView {
                                archive: archive + entry,
                                blob_cache: self@.blob_cache,
                                directories,
                                entries: self@.entries.push(
                                    FileEntry {
                                        archive_path: path,
                                        size,
                                        mtime: 0,
                                        mode: used_mode,
                                        is_dir: false,
                                        content_hash: Some(sha256(content@)),
                                    },
                                ),
                            }),
                        },
                    }
                }
            }),
    {
        proof {
            use_type_invariant(&self);
        }
        let path = normalize_archive_path(archive_path);
        if path.as_str().is_empty() {
            let message = "Archive path for data cannot be the root directory ('/') or empty.";
            return Err(Error::InvalidPath { message: message.to_owned() });
        }
        let ghost entries = self@.entries;
        let LayerBuilder { archive, blob_cache, created_archive_dirs, mut file_metadata } = self;
        let (archive, created_archive_dirs) = match ensure_parent_dirs_exist(
            archive,
            created_archive_dirs,
            path.as_str(),
        ) {
            Ok(added) => added,
            Err(error) => {
                return Err(error);
            },
        };
        let size: u64 = content.len() as u64;
        let mode: u32 = match mode {
            Some(mode) => mode,
            None => DEFAULT_DATA_MODE,
        };
        let header = EntryHeader {
            mode,
            size,
            mtime: 0,
            uid: 0,
            gid: 0,
            type_flag: 0,
            device_major: 0,
            device_minor: 0,
        };
        let archive = match tar_append(archive, header, path.as_str(), content) {
            Ok(longer) => longer,
            Err(source) => {
                return Err(
                    Error::Io {
                        message: join3("Failed to append data as ", path.as_str(), " to tar"),
                        source,
                    },
                );
            },
        };
        let content_hash = Some(sha256_of(content));
        file_metadata.push(
            FileMetadata { archive_path: path, size, mtime: 0, mode, is_dir: false, content_hash },
        );
        let builder = LayerBuilder { archive, blob_cache, created_archive_dirs, file_metadata };
        assert(builder@.entries =~= entries.push(builder@.entries.last()));
        Ok(builder)
    }

    /// Adds a file of the file system.
    ///
    /// - `disk_path`: the path of the file in the file system.
    /// - `archive_path`: where the file will lie in the layer. `/foo/bar.txt` means `foo/bar.txt`
    ///   below the layer's root; `/` is no place for a file.
    /// - `mode`: the file mode to set; without one, the file keeps its own.
    /// - `source`: what was found at `disk_path`.
    pub fn file(
        self,
        disk_path: &str,
        archive_path: &str,
        mode: Option<u32>,
        source: Result<SourceFile, SourceFailure>,
    ) -> (result: Result<Self, Error>)
        ensures
            ({
                let path = normalized(archive_path@);
                if path.len() == 0 {
                    result matches Err(error) && is_invalid_path(
                        error,
                        "Archive path for file '"@ + disk_path@
                            + "' cannot be the root directory ('/') or empty."@,
                    )
                } else {
                    match with_directories(self@.archive, self@.directories, ancestors(path)) {
                        Err(message) => result matches Err(error) && is_io_saying(error, message),
                        Ok((archive, directories)) => match source {
                            Err(SourceFailure::Open(e)) => result matches Err(error) && is_io(
                                error,
                                "Failed to open file "@ + disk_path@ + " for tar"@,
                                e,
                            ),
                            Err(SourceFailure::Metadata(e)) => result matches Err(error) && is_io(
                                error,
                                "Failed to get metadata for file "@ + disk_path@,
                                e,
                            ),
                            Ok(file) => match file_archive_entry(file, path, mode) {
                                None => result matches Err(error) && match file.content {
                                    Err(e) => is_io(
                                        error,
                                        append_message(disk_path@, path, mode),
                                        e,
                                    ),
                                    Ok(_) => is_io_saying(
                                        error,
                                        append_message(disk_path@, path, mode),
                                    ),
                                },
                                Some(entry) => result matches Ok(builder) && builder@ == (
                                LayerBuilderView {
                                    archive: archive + entry,
                                    blob_cache: self@.blob_cache,
                                    directories,
                                    entries: self@.entries.push(
                                        FileEntry {
                                            archive_path: path,
                                            size: file.size,
                                            mtime: file.mtime,
                                            mode: match mode {
                                                Some(m) => m,
                                                None => file.mode,
                                            },
                                            is_dir: false,
                                            content_hash: None,
                                        },
                                    ),
                                }),
                            },
                        },
                    }
                }
            }),
    {
        proof {
            use_type_invariant(&self);
        }
        let path = normalize_archive_path(archive_path);
        if path.as_str().is_empty() {
            return Err(
                Error::InvalidPath {
                    message: join3(
                        "Archive path for file '",
                        disk_path,
                        "' cannot be the root directory ('/') or empty.",
                    ),
                },
            );
        }
        let ghost entries = self@.entries;
        let LayerBuilder { archive, blob_cache, created_archive_dirs, mut file_metadata } = self;
        let (mut archive, created_archive_dirs) = match ensure_parent_dirs_exist(
            archive,
            created_archive_dirs,
            path.as_str(),
        ) {
            Ok(added) => added,
            Err(error) => {
                return Err(error);
            },
        };
        let file = match source {
            Ok(file) => file,
            Err(SourceFailure::Open(source)) => {
                return Err(
                    Error::Io {
                        message: join3("Failed to open file ", disk_path, " for tar"),
                        source,
                    },
                );
            },
            Err(SourceFailure::Metadata(source)) => {
                return Err(
                    Error::Io {
                        message: join("Failed to get metadata for file ", disk_path),
                        source,
                    },
                );
            },
        };
        let SourceFile { size, mtime, mode: own_mode, header, content, sparse_entry } = file;
        let appended = match (content, mode, sparse_entry) {
            (Err(source), _, _) => Err(source),
            (Ok(content), Some(mode), _) => {
                let header = EntryHeader { mode, mtime: 0, uid: 0, gid: 0, ..header };
                tar_append(archive, header, path.as_str(), content.as_slice())
            },
            (Ok(content), None, None) => {
                tar_append(archive, header, path.as_str(), content.as_slice())
            },
            (Ok(_), None, Some(entry)) => {
                append_bytes(&mut archive, entry.as_slice());
                Ok(archive)
            },
        };
        let archive = match appended {
            Ok(longer) => longer,
            Err(source) => {
                let end = match mode {
                    Some(_) => ") with custom mode to tar",
                    None => ") to tar",
                };
                return Err(
                    Error::Io {
                        message: join5(
                            "Failed to append file ",
                            disk_path,
                            " (as ",
                            path.as_str(),
                            end,
                        ),
                        source,
                    },
                );
            },
        };
        let mode: u32 = match mode {
            Some(mode) => mode,
            None => own_mode,
        };
        file_metadata.push(
            FileMetadata {
                archive_path: path,
                size,
                mtime,
                mode,
                is_dir: false,
                content_hash: None,
            },
        );
        let builder = LayerBuilder { archive, blob_cache, created_archive_dirs, file_metadata };
        assert(builder@.entries =~= entries.push(builder@.entries.last()));
        Ok(builder)
    }

    /// Adds a directory of the file system with all that is in it.
    ///
    /// - `disk_path`: the path of the directory in the file system.
    /// - `archive_path`: where what is in the directory will lie in the layer.
    /// - `appended`: the archive entries that hold the directory and what is in it.
    /// - `walked`: what was found on a walk through the directory, the directory itself first.
    pub fn directory(
        self,
        disk_path: &str,
        archive_path: &str,
        appended: Result<Vec<u8>, std::io::Error>,
        walked: Result<Vec<WalkedEntry>, WalkFailure>,
    ) -> (result: Result<Self, Error>)
        ensures
            ({
                let path = normalized(archive_path@);
                match appended {
                    Err(e) => result matches Err(error) && is_io(
                        error,
                        "Failed to append directory "@ + disk_path@ + " (as "@ + path
                            + ") to tar"@,
                        e,
                    ),
                    Ok(segment) => match walked {
                        Err(WalkFailure::Walk(e)) => result matches Err(error) && is_io(
                            error,
                            "Failed to walk directory "@ + disk_path@
                                + " for cache key metadata"@,
                            e,
                        ),
                        Err(WalkFailure::Metadata(at, e)) => result matches Err(error) && is_io(
                            error,
                            "Failed to get metadata for "@ + at@,
                            e,
                        ),
                        Ok(found) => result matches Ok(builder) && builder@ == (LayerBuilderView {
                            archive: self@.archive + segment@,
                            entries: self@.entries + walked_entries(path, found@),
                            ..self@
                        }),
                    },
                }
            }),
    {
        proof {
            use_type_invariant(&self);
        }
        let path = normalize_archive_path(archive_path);
        let segment = match appended {
            Ok(segment) => segment,
            Err(source) => {
                return Err(
                    Error::Io {
                        message: join5(
                            "Failed to append directory ",
                            disk_path,
                            " (as ",
                            path.as_str(),
                            ") to tar",
                        ),
                        source,
                    },
                );
            },
        };
        let found = match walked {
            Ok(found) => found,
            Err(WalkFailure::Walk(source)) => {
                return Err(
                    Error::Io {
                        message: join3(
                            "Failed to walk directory ",
                            disk_path,
                            " for cache key metadata",
                        ),
                        source,
                    },
                );
            },
            Err(WalkFailure::Metadata(at, source)) => {
                return Err(
                    Error::Io {
                        message: join("Failed to get metadata for ", at.as_str()),
                        source,
                    },
                );
            },
        };
        let ghost entries = self@.entries;
        let LayerBuilder { mut archive, blob_cache, created_archive_dirs, mut file_metadata } =
            self;
        append_bytes(&mut archive, segment.as_slice());
        for i in 0..found.len()
            invariant
                path@ == normalized(archive_path@),
                entries_of(file_metadata@) == entries + walked_entries(
                    path@,
                    found@.take(i as int),
                ),
        {
            let entry = &found[i];
            let ghost before = file_metadata@;
            file_metadata.push(
                FileMetadata {
                    archive_path: join_path(path.as_str(), entry.relative.as_str()),
                    size: entry.size,
                    mtime: entry.mtime,
                    mode: entry.mode,
                    is_dir: entry.is_dir,
                    content_hash: None,
                },
            );
            proof {
                let added = walked_entry(path@, *entry);
                assert(file_metadata@.last()@ == added);
                assert(entries_of(file_metadata@) =~= entries_of(before).push(added));
                assert(walked_entries(path@, found@.take(i + 1)) =~= walked_entries(
                    path@,
                    found@.take(i as int),
                ).push(added));
            }
        }
        assert(found@.take(found@.len() as int) == found@);
        Ok(LayerBuilder { archive, blob_cache, created_archive_dirs, file_metadata })
    }

    /// Starts the build of the layer: the cache to use, where one was set, and the first lookup
    /// in it.
    pub fn build(self) -> (start: (Option<BlobCache>, LayerLookup))
        ensures
            match start.0 {
                Some(cache) => self@.blob_cache == Some(cache.location()),
                None => self@.blob_cache is None,
            },
            start.1@ == first_lookup(input_key(self@.entries), self@.archive),
    {
        let key = calculate_input_key(&self.file_metadata);
        (self.blob_cache, LayerLookup::first(key, self.archive))
    }
}

/// After the directories that lead to a file have been added, each of them is there, those that
/// were there before still are, the archive still starts as it did, and none occurs twice.
pub proof fn law_directories_lead_to_file(
    archive: Seq<u8>,
    created: Seq<Seq<char>>,
    wanted: Seq<Seq<char>>,
)
    requires
        are_distinct_paths(created),
    ensures
        with_directories(archive, created, wanted) matches Ok((longer, more)) ==> {
            &&& archive.is_prefix_of(longer)
            &&& created.is_prefix_of(more)
            &&& are_distinct_paths(more)
            &&& forall|i: int| 0 <= i < wanted.len() ==> is_created(more, #[trigger] wanted[i])
        },
    decreases wanted.len(),
{
    if wanted.len() > 0 {
        let front = wanted.drop_last();
        law_directories_lead_to_file(archive, created, front);
        if let Ok((longer, more)) = with_directories(archive, created, wanted) {
            let (a, c) = with_directories(archive, created, front)->Ok_0;
            assert(c.is_prefix_of(more));
            assert forall|i: int| 0 <= i < wanted.len() implies is_created(
                more,
                #[trigger] wanted[i],
            ) by {
                if i < front.len() {
                    assert(front[i] == wanted[i]);
                    assert(is_created(c, front[i]));
                    let k = choose|k: int|
                        0 <= k < c.len() && path_key(#[trigger] c[k]) == path_key(front[i]);
                    assert(more[k] == c[k]);
                } else if !is_created(c, wanted[i]) {
                    assert(more[c.len() as int] == wanted[i]);
                }
            }
            assert forall|i: int, j: int| 0 <= i < j < more.len() implies path_key(
                #[trigger] more[i],
            ) != path_key(#[trigger] more[j]) by {
                assert(more[i] == c[i]);
                if j < c.len() {
                    assert(more[j] == c[j]);
                }
            }
        }
    }
}

/// Directories that are there are not added again: nothing changes.
pub proof fn law_directories_added_once(
    archive: Seq<u8>,
    created: Seq<Seq<char>>,
    wanted: Seq<Seq<char>>,
)
    requires
        forall|i: int| 0 <= i < wanted.len() ==> is_created(created, #[trigger] wanted[i]),
    ensures
        with_directories(archive, created, wanted) == Ok::<(Seq<u8>, Seq<Seq<char>>), Seq<char>>(
            (archive, created),
        ),
    decreases wanted.len(),
{
    if wanted.len() > 0 {
        let front = wanted.drop_last();
        assert forall|i: int| 0 <= i < front.len() implies is_created(
            created,
            #[trigger] front[i],
        ) by {
            assert(is_created(created, wanted[i]));
        }
        law_directories_added_once(archive, created, front);
        assert(is_created(created, wanted[wanted.len() - 1]));
    }
}

} // verus!

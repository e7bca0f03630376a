use vstd::prelude::*;

use crate::archive::{archive_end, tar_entry, tar_header_holds, EntryHeader};
use crate::blobcache::BlobCache;
use crate::compress::{zstd_frame, CompressFailure};
use crate::digest::{digest_of, sha256};
use crate::error::Error;
use crate::json::{json_parsed, json_rendered, member, text_member, Json, JsonView};
use crate::layer::{
    is_created, with_directories, LayerBuilder, SourceFailure, SourceFile, WalkFailure, WalkedEntry,
};
use crate::layer_build::{
    cached_layer, content_key, digests_in, fresh_layer, is_sound_store, layer_document, layer_of,
    layer_store, law_every_build_gives_a_layer, looked_up, new_store, recorded_digests, store_layer,
    usable_layer, whole_build, with_writes, Layer, LayerLookup, LayerStep, LayerStepView,
    LayerStore, LayerView,
};
use crate::layer_input::{
    entries_bytes, input_key, law_input_key_tells_inputs_apart, sorted_entries, FileEntry,
};
use crate::path::{ancestors, normalized, path_key, path_under};

verus! {

/// The header of a regular file that says nothing of who owns it or when it was changed.
pub open spec fn plain_header(mode: u32, size: u64, type_flag: u8) -> EntryHeader {
    EntryHeader {
        mode,
        size,
        mtime: 0,
        uid: 0,
        gid: 0,
        type_flag,
        device_major: 0,
        device_minor: 0,
    }
}

/// Data in memory is added as one file: behind what was there, at the path that was asked for, with
/// the mode that was given or else `0o644`, without a time or an owner. For the key of the inputs
/// the hash of its content counts.
pub proof fn law_data_is_added_as_a_file(
    before: LayerBuilder,
    archive_path: &str,
    content: &[u8],
    mode: Option<u32>,
    result: Result<LayerBuilder, Error>,
)
    requires
        call_ensures(LayerBuilder::data, (before, archive_path, content, mode), result),
    ensures
        normalized(archive_path@).len() == 0 ==> result matches Err(Error::InvalidPath { .. }),
        result is Ok <==> {
            let path = normalized(archive_path@);
            let used_mode: u32 = if mode is Some {
                mode->0
            } else {
                0o644
            };
            &&& path.len() > 0
            &&& with_directories(before@.archive, before@.directories, ancestors(path)) is Ok
            &&& tar_entry(
                plain_header(used_mode, content@.len() as u64, 0),
                path,
                content@,
            ) is Some
        },
        result matches Ok(after) ==> {
            let path = normalized(archive_path@);
            let used_mode: u32 = if mode is Some {
                mode->0
            } else {
                0o644
            };
            let entry = tar_entry(
                plain_header(used_mode, content@.len() as u64, 0),
                path,
                content@,
            );
            let directories = with_directories(
                before@.archive,
                before@.directories,
                ancestors(path),
            );
            &&& path.len() > 0
            &&& entry is Some
            &&& directories is Ok
            &&& after@.archive == (directories->Ok_0).0 + entry->0
            &&& after@.directories == (directories->Ok_0).1
            &&& after@.blob_cache == before@.blob_cache
            &&& after@.entries.len() == before@.entries.len() + 1
            &&& before@.entries.is_prefix_of(after@.entries)
            &&& after@.entries.last().archive_path == path
            &&& after@.entries.last().size == content@.len() as u64
            &&& after@.entries.last().mtime == 0
            &&& after@.entries.last().mode == used_mode
            &&& !after@.entries.last().is_dir
            &&& after@.entries.last().content_hash == Some(sha256(content@))
        },
{
}

/// A file is added behind what was there, at the path that was asked for, with its content. With a
/// mode that was given it has that mode and no time or owner; else it has what the file system says
/// of it. For the key of the inputs its own size and time count, and the mode it is added with.
pub proof fn law_file_is_added_with_its_content(
    before: LayerBuilder,
    disk_path: &str,
    archive_path: &str,
    mode: Option<u32>,
    source: Result<SourceFile, SourceFailure>,
    result: Result<LayerBuilder, Error>,
)
    requires
        call_ensures(LayerBuilder::file, (before, disk_path, archive_path, mode, source), result),
    ensures
        normalized(archive_path@).len() == 0 ==> result matches Err(Error::InvalidPath { .. }),
        source is Err ==> result is Err,
        source is Ok && source->Ok_0.content is Err ==> result is Err,
        result is Ok <==> {
            let path = normalized(archive_path@);
            let file = source->Ok_0;
            let content = file.content->Ok_0@;
            &&& path.len() > 0
            &&& with_directories(before@.archive, before@.directories, ancestors(path)) is Ok
            &&& source is Ok
            &&& file.content is Ok
            &&& mode is Some ==> tar_entry(
                EntryHeader { mode: mode->0, mtime: 0, uid: 0, gid: 0, ..file.header },
                path,
                content,
            ) is Some
            &&& mode is None && file.sparse_entry is None ==> tar_entry(
                file.header,
                path,
                content,
            ) is Some
        },
        result matches Ok(after) ==> {
            let path = normalized(archive_path@);
            let file = source->Ok_0;
            let content = file.content->Ok_0@;
            let header = EntryHeader {
                mode: mode->0,
                size: file.header.size,
                mtime: 0,
                uid: 0,
                gid: 0,
                type_flag: file.header.type_flag,
                device_major: file.header.device_major,
                device_minor: file.header.device_minor,
            };
            let entry = if mode is Some {
                tar_entry(header, path, content)
            } else if file.sparse_entry is None {
                tar_entry(file.header, path, content)
            } else {
                Some(file.sparse_entry->0@)
            };
            let directories = with_directories(
                before@.archive,
                before@.directories,
                ancestors(path),
            );
            &&& path.len() > 0
            &&& entry is Some
            &&& directories is Ok
            &&& after@.archive == (directories->Ok_0).0 + entry->0
            &&& after@.directories == (directories->Ok_0).1
            &&& after@.blob_cache == before@.blob_cache
            &&& after@.entries.len() == before@.entries.len() + 1
            &&& before@.entries.is_prefix_of(after@.entries)
            &&& after@.entries.last().archive_path == path
            &&& after@.entries.last().size == file.size
            &&& after@.entries.last().mtime == file.mtime
            &&& mode is Some ==> after@.entries.last().mode == mode->0
            &&& mode is None ==> after@.entries.last().mode == file.mode
            &&& !after@.entries.last().is_dir
            &&& after@.entries.last().content_hash is None
        },
{
}

/// Of everything that is found in a directory, file or directory alike, its own size, time, mode
/// and kind are recorded, under its path below the place of the directory. What was there before
/// stays; the archive gains what holds the directory.
pub proof fn law_directory_is_recorded_entry_by_entry(
    before: LayerBuilder,
    disk_path: &str,
    archive_path: &str,
    appended: Result<Vec<u8>, std::io::Error>,
    walked: Result<Vec<WalkedEntry>, WalkFailure>,
    result: Result<LayerBuilder, Error>,
)
    requires
        call_ensures(
            LayerBuilder::directory,
            (before, disk_path, archive_path, appended, walked),
            result,
        ),
    ensures
        result is Ok <==> appended is Ok && walked is Ok,
        result matches Ok(after) ==> {
            let found = walked->Ok_0@;
            let count = before@.entries.len() as int;
            &&& after@.archive == before@.archive + appended->Ok_0@
            &&& after@.directories == before@.directories
            &&& after@.blob_cache == before@.blob_cache
            &&& after@.entries.len() == count + found.len()
            &&& before@.entries.is_prefix_of(after@.entries)
            &&& forall|i: int|
                0 <= i < found.len() ==> {
                    let entry = after@.entries[count + i];
                    &&& entry.mtime == (#[trigger] found[i]).mtime
                    &&& entry.size == found[i].size
                    &&& entry.mode == found[i].mode
                    &&& entry.is_dir == found[i].is_dir
                    &&& entry.content_hash is None
                    &&& entry.archive_path == path_under(
                        normalized(archive_path@),
                        found[i].relative@,
                    )
                }
        },
{
}

/// What changes in a directory is noticed: where two walks find the same paths, but one thing with
/// another size, time, mode or kind, the bytes behind the keys of the inputs differ.
pub proof fn law_change_in_a_directory_is_noticed(
    before: LayerBuilder,
    disk_path: &str,
    archive_path: &str,
    appended: Result<Vec<u8>, std::io::Error>,
    walked: Vec<WalkedEntry>,
    result: Result<LayerBuilder, Error>,
    appended_again: Result<Vec<u8>, std::io::Error>,
    walked_again: Vec<WalkedEntry>,
    result_again: Result<LayerBuilder, Error>,
    changed: int,
)
    requires
        call_ensures(
            LayerBuilder::directory,
            (before, disk_path, archive_path, appended, Ok(walked)),
            result,
        ),
        call_ensures(
            LayerBuilder::directory,
            (before, disk_path, archive_path, appended_again, Ok(walked_again)),
            result_again,
        ),
        result is Ok,
        result_again is Ok,
        walked@.len() == walked_again@.len(),
        forall|i: int|
            0 <= i < walked@.len() ==> (#[trigger] walked@[i]).relative@
                == walked_again@[i].relative@,
        0 <= changed < walked@.len(),
        walked@[changed].mtime != walked_again@[changed].mtime || walked@[changed].size
            != walked_again@[changed].size || walked@[changed].mode != walked_again@[changed].mode
            || walked@[changed].is_dir != walked_again@[changed].is_dir,
    ensures
        entries_bytes(sorted_entries(result->Ok_0@.entries)) != entries_bytes(
            sorted_entries(result_again->Ok_0@.entries),
        ),
{
    law_directory_is_recorded_entry_by_entry(
        before,
        disk_path,
        archive_path,
        appended,
        Ok(walked),
        result,
    );
    law_directory_is_recorded_entry_by_entry(
        before,
        disk_path,
        archive_path,
        appended_again,
        Ok(walked_again),
        result_again,
    );
    let (a, b) = (result->Ok_0@.entries, result_again->Ok_0@.entries);
    let old = before@.entries;
    let count = old.len() as int;
    assert forall|i: int| 0 <= i < a.len() implies crate::layer_input::is_version(
        #[trigger] a[i],
        b[i],
    ) by {
        if i < count {
            assert(a[i] == old[i] && b[i] == old[i]);
        } else {
            assert(walked@[i - count].relative@ == walked_again@[i - count].relative@);
            assert(a[count + (i - count)].archive_path == b[count + (i - count)].archive_path);
        }
    }
    assert(a != b) by {
        assert(walked@[changed].relative@ == walked_again@[changed].relative@);
        assert(a[count + changed] != b[count + changed]);
    }
    law_input_key_tells_inputs_apart(a, b);
}

/// A change of the content, the mode or the time of what is added is noticed too.
pub proof fn law_change_of_data_is_noticed(
    before: LayerBuilder,
    archive_path: &str,
    content: &[u8],
    mode: Option<u32>,
    result: Result<LayerBuilder, Error>,
    other_content: &[u8],
    other_mode: Option<u32>,
    other: Result<LayerBuilder, Error>,
)
    requires
        call_ensures(LayerBuilder::data, (before, archive_path, content, mode), result),
        call_ensures(LayerBuilder::data, (before, archive_path, other_content, other_mode), other),
        result is Ok,
        other is Ok,
        sha256(content@).len() == sha256(other_content@).len(),
        sha256(content@) != sha256(other_content@) || (mode is Some && other_mode is Some && mode->0
            != other_mode->0),
    ensures
        entries_bytes(sorted_entries(result->Ok_0@.entries)) != entries_bytes(
            sorted_entries(other->Ok_0@.entries),
        ),
{
    law_data_is_added_as_a_file(before, archive_path, content, mode, result);
    law_data_is_added_as_a_file(before, archive_path, other_content, other_mode, other);
    let (a, b) = (result->Ok_0@.entries, other->Ok_0@.entries);
    let old = before@.entries;
    assert forall|i: int| 0 <= i < a.len() implies crate::layer_input::is_version(
        #[trigger] a[i],
        b[i],
    ) by {
        if i < old.len() {
            assert(a[i] == old[i] && b[i] == old[i]);
        } else {
            assert(a[i] == a.last() && b[i] == b.last());
        }
    }
    assert(a.last() != b.last());
    law_input_key_tells_inputs_apart(a, b);
}

/// A change of a file's size, time or mode is noticed.
pub proof fn law_change_of_a_file_is_noticed(
    before: LayerBuilder,
    disk_path: &str,
    archive_path: &str,
    mode: Option<u32>,
    source: Result<SourceFile, SourceFailure>,
    result: Result<LayerBuilder, Error>,
    other_source: Result<SourceFile, SourceFailure>,
    other: Result<LayerBuilder, Error>,
)
    requires
        call_ensures(LayerBuilder::file, (before, disk_path, archive_path, mode, source), result),
        call_ensures(
            LayerBuilder::file,
            (before, disk_path, archive_path, mode, other_source),
            other,
        ),
        result is Ok,
        other is Ok,
        source->Ok_0.size != other_source->Ok_0.size || source->Ok_0.mtime
            != other_source->Ok_0.mtime || (mode is None && source->Ok_0.mode
            != other_source->Ok_0.mode),
    ensures
        entries_bytes(sorted_entries(result->Ok_0@.entries)) != entries_bytes(
            sorted_entries(other->Ok_0@.entries),
        ),
{
    law_file_is_added_with_its_content(before, disk_path, archive_path, mode, source, result);
    law_file_is_added_with_its_content(before, disk_path, archive_path, mode, other_source, other);
    let (a, b) = (result->Ok_0@.entries, other->Ok_0@.entries);
    let old = before@.entries;
    assert forall|i: int| 0 <= i < a.len() implies crate::layer_input::is_version(
        #[trigger] a[i],
        b[i],
    ) by {
        if i < old.len() {
            assert(a[i] == old[i] && b[i] == old[i]);
        } else {
            assert(a[i] == a.last() && b[i] == b.last());
        }
    }
    assert(a.last() != b.last());
    law_input_key_tells_inputs_apart(a, b);
}

/// The archive entries of directories, one after the other; none where one of them has none.
pub open spec fn directory_entries(directories: Seq<Seq<char>>) -> Option<Seq<u8>>
    decreases directories.len(),
{
    if directories.len() == 0 {
        Some(Seq::empty())
    } else {
        let entry = tar_entry(plain_header(0o755, 0, 53), directories.last(), Seq::empty());
        match (directory_entries(directories.drop_last()), entry) {
            (Some(before), Some(last)) => Some(before + last),
            _ => None,
        }
    }
}

/// The directories that are added for a file are those that lead to it and were not there, each as
/// an entry of its own with the mode `0o755`, behind what was there.
pub proof fn law_directories_are_added_as_entries(
    archive: Seq<u8>,
    created: Seq<Seq<char>>,
    wanted: Seq<Seq<char>>,
)
    ensures
        with_directories(archive, created, wanted) matches Ok((longer, more)) ==> {
            let added = more.skip(created.len() as int);
            &&& created.is_prefix_of(more)
            &&& directory_entries(added) is Some
            &&& longer == archive + directory_entries(added)->0
            &&& forall|i: int| 0 <= i < added.len() ==> wanted.contains(#[trigger] added[i])
            &&& forall|i: int|
                0 <= i < added.len() ==> !is_created(created, #[trigger] added[i])
        },
    decreases wanted.len(),
{
    if wanted.len() == 0 {
        assert(created.skip(created.len() as int) =~= Seq::<Seq<char>>::empty());
        assert(archive + Seq::<u8>::empty() =~= archive);
    } else {
        let front = wanted.drop_last();
        law_directories_are_added_as_entries(archive, created, front);
        if let Ok((longer, more)) = with_directories(archive, created, wanted) {
            let (a, c) = with_directories(archive, created, front)->Ok_0;
            let before = c.skip(created.len() as int);
            let added = more.skip(created.len() as int);
            assert forall|i: int| 0 <= i < before.len() implies wanted.contains(
                #[trigger] before[i],
            ) by {
                let k = choose|k: int| 0 <= k < front.len() && front[k] == before[i];
                assert(wanted[k] == before[i]);
            }
            if !is_created(c, wanted.last()) {
                assert(added =~= before.push(wanted.last()));
                assert(added.drop_last() =~= before);
                assert(wanted[wanted.len() - 1] == wanted.last());
                let entry = tar_entry(plain_header(0o755, 0, 53), wanted.last(), Seq::empty());
                assert(longer =~= archive + (directory_entries(before)->0 + entry->0));
                assert(!is_created(created, wanted.last())) by {
                    if is_created(created, wanted.last()) {
                        let k = choose|k: int|
                            0 <= k < created.len() && path_key(#[trigger] created[k]) == path_key(
                                wanted.last(),
                            );
                        assert(c[k] == created[k]);
                    }
                }
            }
        }
    }
}

/// Directories that a tar header can hold are added without failure.
pub proof fn law_directories_can_be_added(
    archive: Seq<u8>,
    created: Seq<Seq<char>>,
    wanted: Seq<Seq<char>>,
)
    requires
        forall|i: int|
            0 <= i < wanted.len() ==> tar_header_holds(#[trigger] wanted[i]) && tar_entry(
                plain_header(0o755, 0, 53),
                wanted[i],
                Seq::empty(),
            ) is Some,
    ensures
        with_directories(archive, created, wanted) is Ok,
    decreases wanted.len(),
{
    if wanted.len() > 0 {
        let front = wanted.drop_last();
        assert forall|i: int| 0 <= i < front.len() implies tar_header_holds(#[trigger] front[i])
            && tar_entry(plain_header(0o755, 0, 53), front[i], Seq::empty()) is Some by {
            assert(tar_header_holds(wanted[i]));
        }
        law_directories_can_be_added(archive, created, front);
        assert(tar_header_holds(wanted[wanted.len() - 1]));
    }
}

/// A directory is there if and only if one was added that leads through the same names.
pub proof fn law_directory_is_there_by_its_names(
    created: Seq<Seq<char>>,
    directory: Seq<char>,
)
    ensures
        is_created(created, directory) <==> exists|i: int|
            0 <= i < created.len() && path_key(#[trigger] created[i]) == path_key(directory),
{
}

/// A build starts with the key of the inputs and the archive as it is, in the cache that was set.
pub proof fn law_build_starts_with_the_inputs(
    builder: LayerBuilder,
    start: (Option<BlobCache>, LayerLookup),
)
    requires
        call_ensures(LayerBuilder::build, (builder,), start),
    ensures
        start.0 is Some == builder@.blob_cache is Some,
        start.0 is Some ==> Some((start.0->0).location()) == builder@.blob_cache,
        start.1@.key == input_key(builder@.entries),
        start.1@.input_key == input_key(builder@.entries),
        start.1@.archive == builder@.archive,
        start.1@.stage is InputRecord,
{
}

/// A layer that is made has the digests of its archive and of what that is compressed to, and is a
/// zstd-compressed archive.
pub proof fn law_made_layer_has_its_digests(tar: Seq<u8>, blob: Seq<u8>)
    ensures
        layer_of(tar, blob).diff_id == digest_of(tar),
        layer_of(tar, blob).blob_digest == digest_of(blob),
        layer_of(tar, blob).media_type == "application/vnd.oci.image.layer.v1.tar+zstd"@,
        layer_of(tar, blob).blob == blob,
        fresh_layer(tar).blob == zstd_frame(tar, 3),
        fresh_layer(tar).diff_id == digest_of(tar),
        fresh_layer(tar).blob_digest == digest_of(zstd_frame(tar, 3)),
{
}

/// A layer from the cache has the digests that its record gives and the blob that the cache holds.
pub proof fn law_cached_layer_has_what_was_recorded(
    diff_id: Seq<char>,
    blob_digest: Seq<char>,
    blob: Seq<u8>,
)
    ensures
        cached_layer(diff_id, blob_digest, blob).diff_id == diff_id,
        cached_layer(diff_id, blob_digest, blob).blob_digest == blob_digest,
        cached_layer(diff_id, blob_digest, blob).blob == blob,
        cached_layer(diff_id, blob_digest, blob).media_type
            == "application/vnd.oci.image.layer.v1.tar+zstd"@,
{
}

/// Of a new layer the compressed archive is stored first, under its digest; then the record under
/// the key of the archive, and the same one under the key of the inputs.
pub proof fn law_new_layer_is_stored_with_two_records(
    key: Seq<char>,
    tar: Seq<u8>,
    blob: Seq<u8>,
)
    ensures
        ({
            let store = layer_store(key, tar, blob);
            &&& store.layer == layer_of(tar, blob)
            &&& store.writes.len() == 3
            &&& store.writes[0] == (digest_of(blob), blob)
            &&& store.writes[1].0 == content_key(tar)
            &&& store.writes[2].0 == key
            &&& store.writes[1].1 == store.writes[2].1
            &&& store.writes[1].1 == json_rendered(
                layer_document(digest_of(tar), digest_of(blob)),
            )
        }),
{
}

/// A record names the digest of the archive as `diff_id` and that of the compressed archive as
/// `blob_digest`, and nothing else. What is read from a record are these two.
pub proof fn law_record_names_both_digests(
    diff_id: Seq<char>,
    blob_digest: Seq<char>,
    record: Seq<u8>,
)
    ensures
        member(layer_document(diff_id, blob_digest), "diff_id"@) == Some(JsonView::Text(diff_id)),
        member(layer_document(diff_id, blob_digest), "blob_digest"@) == Some(
            JsonView::Text(blob_digest),
        ),
        forall|key: Seq<char>|
            key != "diff_id"@ && key != "blob_digest"@ ==> #[trigger] member(
                layer_document(diff_id, blob_digest),
                key,
            ) is None,
        recorded_digests(record) == Some((diff_id, blob_digest)) <==> {
            &&& json_parsed(record) is Some
            &&& member(json_parsed(record)->0, "diff_id"@) == Some(JsonView::Text(diff_id))
            &&& member(json_parsed(record)->0, "blob_digest"@) == Some(JsonView::Text(blob_digest))
        },
{
    reveal_strlit("diff_id");
    reveal_strlit("blob_digest");
    assert("diff_id"@.len() != "blob_digest"@.len());
}

/// The key of an archive is made of its hash: two archives share a key only if they share the hash.
/// It is no key of inputs and no digest.
pub proof fn law_content_key_is_a_hash(a: Seq<u8>, b: Seq<u8>, entries: Seq<FileEntry>)
    ensures
        "layer-content-"@.is_prefix_of(content_key(a)),
        content_key(a) == content_key(b) <==> sha256(a) == sha256(b),
        content_key(a) != input_key(entries),
        content_key(a) != digest_of(b),
        input_key(entries) != digest_of(b),
{
    reveal_strlit("layer-input-");
    reveal_strlit("layer-content-");
    reveal_strlit("sha256:");
    let front = "layer-content-"@;
    let (x, y) = (crate::text::hex_text(sha256(a)), crate::text::hex_text(sha256(b)));
    assert(content_key(a).skip(front.len() as int) =~= x);
    assert(content_key(b).skip(front.len() as int) =~= y);
    if content_key(a) == content_key(b) {
        crate::text_laws::law_hex_tells_bytes_apart(sha256(a), sha256(b));
    }
    assert(input_key(entries)[6] == 'i' && content_key(a)[6] == 'c');
    assert(input_key(entries)[0] == 'l' && content_key(a)[0] == 'l');
    assert(digest_of(b)[0] == 's');
}

/// An archive ends in two empty blocks.
pub proof fn law_archive_ends_in_empty_blocks()
    ensures
        archive_end().len() == 1024,
        forall|i: int| 0 <= i < 1024 ==> #[trigger] archive_end()[i] == 0,
{
}

/// Whether a cache holds a record under a key, and under the digest that it names a blob.
pub open spec fn holds_layer(
    cache: Map<Seq<char>, Seq<u8>>,
    key: Seq<char>,
    diff_id: Seq<char>,
    blob_digest: Seq<char>,
) -> bool {
    &&& cache.contains_key(key)
    &&& json_parsed(cache[key]) is Some
    &&& member(json_parsed(cache[key])->0, "diff_id"@) == Some(JsonView::Text(diff_id))
    &&& member(json_parsed(cache[key])->0, "blob_digest"@) == Some(JsonView::Text(blob_digest))
    &&& cache.contains_key(blob_digest)
}

proof fn lemma_usable(
    cache: Map<Seq<char>, Seq<u8>>,
    key: Seq<char>,
)
    ensures
        usable_layer(cache, key) matches Some(layer) ==> holds_layer(
            cache,
            key,
            layer.diff_id,
            layer.blob_digest,
        ) && layer.blob == cache[layer.blob_digest] && layer.media_type
            == "application/vnd.oci.image.layer.v1.tar+zstd"@,
        forall|diff_id: Seq<char>, blob_digest: Seq<char>| #[trigger]
            holds_layer(cache, key, diff_id, blob_digest) ==> usable_layer(cache, key) is Some
                && usable_layer(cache, key)->0.diff_id == diff_id && usable_layer(
                cache,
                key,
            )->0.blob_digest == blob_digest,
{
}

/// Where the cache holds a layer for the inputs, a build gives that layer: with the digests of its
/// record and the blob under its digest. Nothing is made, and the cache stays as it is.
pub proof fn law_layer_for_the_inputs_is_used(
    entries: Seq<FileEntry>,
    archive: Seq<u8>,
    cache: Map<Seq<char>, Seq<u8>>,
    diff_id: Seq<char>,
    blob_digest: Seq<char>,
)
    requires
        holds_layer(cache, input_key(entries), diff_id, blob_digest),
    ensures
        whole_build(entries, archive, cache) == (
            LayerStepView::Done(
                LayerView {
                    diff_id,
                    blob_digest,
                    media_type: "application/vnd.oci.image.layer.v1.tar+zstd"@,
                    blob: cache[blob_digest],
                },
            ),
            cache,
        ),
{
    lemma_usable(cache, input_key(entries));
    assert(holds_layer(cache, input_key(entries), diff_id, blob_digest));
    law_every_build_gives_a_layer(entries, archive, cache);
}

/// Where the cache holds no layer for the inputs but one for the archive, a build gives that.
pub proof fn law_layer_for_the_archive_is_used(
    entries: Seq<FileEntry>,
    archive: Seq<u8>,
    cache: Map<Seq<char>, Seq<u8>>,
    diff_id: Seq<char>,
    blob_digest: Seq<char>,
)
    requires
        forall|d: Seq<char>, b: Seq<char>| !#[trigger] holds_layer(
            cache,
            input_key(entries),
            d,
            b,
        ),
        holds_layer(cache, content_key(archive + archive_end()), diff_id, blob_digest),
    ensures
        whole_build(entries, archive, cache) == (
            LayerStepView::Done(
                LayerView {
                    diff_id,
                    blob_digest,
                    media_type: "application/vnd.oci.image.layer.v1.tar+zstd"@,
                    blob: cache[blob_digest],
                },
            ),
            cache,
        ),
{
    let tar = archive + archive_end();
    lemma_usable(cache, input_key(entries));
    lemma_usable(cache, content_key(tar));
    assert(holds_layer(cache, content_key(tar), diff_id, blob_digest));
    if usable_layer(cache, input_key(entries)) is Some {
        let layer = usable_layer(cache, input_key(entries))->0;
        assert(holds_layer(cache, input_key(entries), layer.diff_id, layer.blob_digest));
    }
    law_every_build_gives_a_layer(entries, archive, cache);
}

/// Where the cache holds no layer that can be used, the layer is made of the archive; a build with
/// the same inputs, whatever its archive, then gets it from the cache.
pub proof fn law_new_layer_is_made_and_kept(
    entries: Seq<FileEntry>,
    archive: Seq<u8>,
    cache: Map<Seq<char>, Seq<u8>>,
    other_archive: Seq<u8>,
)
    requires
        forall|d: Seq<char>, b: Seq<char>| !#[trigger] holds_layer(
            cache,
            input_key(entries),
            d,
            b,
        ),
        forall|d: Seq<char>, b: Seq<char>| !#[trigger] holds_layer(
            cache,
            content_key(archive + archive_end()),
            d,
            b,
        ),
        is_sound_store(
            crate::layer_build::content_search(entries, archive),
            new_store(entries, archive),
        ),
    ensures
        ({
            let tar = archive + archive_end();
            let blob = zstd_frame(tar, 3);
            let layer = LayerView {
                diff_id: digest_of(tar),
                blob_digest: digest_of(blob),
                media_type: "application/vnd.oci.image.layer.v1.tar+zstd"@,
                blob,
            };
            let (end, after) = whole_build(entries, archive, cache);
            &&& end == LayerStepView::Done(layer)
            &&& after.contains_key(digest_of(blob)) && after[digest_of(blob)] == blob
            &&& whole_build(entries, other_archive, after) == (LayerStepView::Done(layer), after)
        }),
{
    let tar = archive + archive_end();
    lemma_usable(cache, input_key(entries));
    lemma_usable(cache, content_key(tar));
    if usable_layer(cache, input_key(entries)) is Some {
        let layer = usable_layer(cache, input_key(entries))->0;
        assert(holds_layer(cache, input_key(entries), layer.diff_id, layer.blob_digest));
    }
    if usable_layer(cache, content_key(tar)) is Some {
        let layer = usable_layer(cache, content_key(tar))->0;
        assert(holds_layer(cache, content_key(tar), layer.diff_id, layer.blob_digest));
    }
    law_every_build_gives_a_layer(entries, archive, cache);
    let after = whole_build(entries, archive, cache).1;
    lemma_usable(after, input_key(entries));
    law_every_build_gives_a_layer(entries, other_archive, after);
}

/// A lookup goes on as the run says, whatever the cache held; and what it stores is sound.
pub proof fn law_lookups_follow_the_run(
    lookup: LayerLookup,
    cache: Map<Seq<char>, Seq<u8>>,
    found: Option<Vec<u8>>,
    step: Result<LayerStep, Error>,
)
    requires
        call_ensures(LayerLookup::resume, (lookup, found), step),
        match found {
            Some(data) => looked_up(cache, lookup@.key) == Some(data@),
            None => looked_up(cache, lookup@.key) is None,
        },
    ensures
        step matches Ok(next) && {
            &&& next@ == crate::layer_build::cached_step(
                LayerStepView::Lookup(lookup@),
                cache,
            ).0
            &&& next@ matches LayerStepView::Store(store) ==> is_sound_store(lookup@, store)
        },
{
}

/// What a cache holds is what was written last under a key.
pub proof fn law_cache_gives_back_what_was_written(
    cache: Map<Seq<char>, Seq<u8>>,
    writes: Seq<(Seq<char>, Seq<u8>)>,
    key: Seq<char>,
    data: Seq<u8>,
    other: Seq<char>,
)
    ensures
        looked_up(with_writes(cache, writes.push((key, data))), key) == Some(data),
        other != key ==> looked_up(with_writes(cache, writes.push((key, data))), other)
            == looked_up(with_writes(cache, writes), other),
        with_writes(cache, Seq::empty()) == cache,
        looked_up(Map::empty(), key) is None,
{
    assert(writes.push((key, data)).drop_last() =~= writes);
}

/// What is to be stored is stored in order, and once all is stored the layer is done.
pub proof fn law_writes_are_done_in_order(
    store: LayerStore,
    key: &str,
    data: &Vec<u8>,
    step: LayerStep,
)
    requires
        call_ensures(LayerStore::key, (&store,), key),
        call_ensures(LayerStore::data, (&store,), data),
        call_ensures(LayerStore::resume, (store,), step),
    ensures
        key@ == store@.writes[0].0,
        data@ == store@.writes[0].1,
        store@.writes.len() <= 1 ==> step@ == LayerStepView::Done(store@.layer),
        store@.writes.len() > 1 ==> (step@ matches LayerStepView::Store(next) && next.layer
            == store@.layer && next.writes == store@.writes.skip(1)),
{
}

/// What is told of a layer is what it is.
pub proof fn law_layer_tells_what_it_is(
    layer: &Layer,
    diff_id: &str,
    blob_digest: &str,
    media_type: &str,
    blob: &Vec<u8>,
)
    requires
        call_ensures(Layer::diff_id, (layer,), diff_id),
        call_ensures(Layer::blob_digest, (layer,), blob_digest),
        call_ensures(Layer::media_type, (layer,), media_type),
        call_ensures(Layer::blob, (layer,), blob),
    ensures
        diff_id@ == layer@.diff_id,
        blob_digest@ == layer@.blob_digest,
        media_type@ == layer@.media_type,
        blob@ == layer@.blob,
{
}

/// A new builder holds nothing, and a cache that was set is the one that is used.
pub proof fn law_new_layer_builder_is_empty(
    builder: LayerBuilder,
    before: LayerBuilder,
    cache: BlobCache,
    after: LayerBuilder,
)
    requires
        call_ensures(LayerBuilder::new, (), builder),
        call_ensures(LayerBuilder::blob_cache, (before, cache), after),
    ensures
        builder@.archive.len() == 0,
        builder@.entries.len() == 0,
        builder@.directories.len() == 0,
        builder@.blob_cache is None,
        after@.blob_cache == Some(cache.location()),
        after@.archive == before@.archive,
        after@.entries == before@.entries,
        after@.directories == before@.directories,
{
}

/// A document records a layer if and only if it names both digests as texts; and these are read.
pub proof fn law_digests_are_read_from_a_record(
    document: &Json,
    digests: Option<(String, String)>,
)
    requires
        call_ensures(digests_in, (document,), digests),
    ensures
        digests is Some <==> text_member(document@, "diff_id"@) is Some && text_member(
            document@,
            "blob_digest"@,
        ) is Some,
        digests is Some ==> {
            &&& text_member(document@, "diff_id"@) == Some((digests->0).0@)
            &&& text_member(document@, "blob_digest"@) == Some((digests->0).1@)
        },
{
}

/// A layer that could be compressed is stored under the keys of its archive and of its inputs; one
/// that could not is an error.
pub proof fn law_compressed_layer_is_stored(
    key: String,
    tar: Vec<u8>,
    compressed: Result<Vec<u8>, CompressFailure>,
    step: Result<LayerStep, Error>,
)
    requires
        call_ensures(store_layer, (key, tar, compressed), step),
    ensures
        step is Ok == compressed is Ok,
        step matches Ok(next) ==> (next@ matches LayerStepView::Store(store) && {
            &&& store.layer.diff_id == digest_of(tar@)
            &&& store.layer.blob_digest == digest_of(compressed->Ok_0@)
            &&& store.layer.blob == compressed->Ok_0@
            &&& store.writes.len() == 3
            &&& store.writes[0] == (digest_of(compressed->Ok_0@), compressed->Ok_0@)
            &&& store.writes[1].0 == content_key(tar@)
            &&& store.writes[2].0 == key@
            &&& recorded_digests(store.writes[1].1) == Some(
                (digest_of(tar@), digest_of(compressed->Ok_0@)),
            )
            &&& store.writes[2].1 == store.writes[1].1
        }),
{
}

/// Why something cannot be added is told, with its paths.
pub proof fn law_refused_addition_says_why(
    before: LayerBuilder,
    disk_path: &str,
    archive_path: &str,
    content: &[u8],
    mode: Option<u32>,
    source: Result<SourceFile, SourceFailure>,
    data: Result<LayerBuilder, Error>,
    file: Result<LayerBuilder, Error>,
)
    requires
        call_ensures(LayerBuilder::data, (before, archive_path, content, mode), data),
        call_ensures(LayerBuilder::file, (before, disk_path, archive_path, mode, source), file),
        with_directories(
            before@.archive,
            before@.directories,
            ancestors(normalized(archive_path@)),
        ) is Ok,
    ensures
        ({
            let path = normalized(archive_path@);
            &&& path.len() == 0 ==> {
                &&& data is Err && data->Err_0 is InvalidPath
                &&& file is Err && file->Err_0 is InvalidPath
                &&& data->Err_0->InvalidPath_message@
                    == "Archive path for data cannot be the root directory ('/') or empty."@
                &&& file->Err_0->InvalidPath_message@ == "Archive path for file '"@ + disk_path@
                    + "' cannot be the root directory ('/') or empty."@
            }
            &&& path.len() > 0 && data is Err ==> data->Err_0 is Io && data->Err_0->Io_message@
                == "Failed to append data as "@ + path + " to tar"@
            &&& path.len() > 0 && file is Err ==> {
                let message = file->Err_0->Io_message@;
                &&& file->Err_0 is Io
                &&& source is Err && source->Err_0 is Open ==> message == "Failed to open file "@
                    + disk_path@ + " for tar"@
                &&& source is Err && source->Err_0 is Metadata ==> message
                    == "Failed to get metadata for file "@ + disk_path@
                &&& source is Ok && mode is Some ==> message == "Failed to append file "@
                    + disk_path@ + " (as "@ + path + ") with custom mode to tar"@
                &&& source is Ok && mode is None ==> message == "Failed to append file "@
                    + disk_path@ + " (as "@ + path + ") to tar"@
            }
        }),
{
}

/// Why the directories that lead to a file cannot be added is told: the one that failed is named,
/// and it is one of them that a header does not take, or that has no entry.
pub proof fn law_refused_directory_is_named(
    archive: Seq<u8>,
    created: Seq<Seq<char>>,
    wanted: Seq<Seq<char>>,
)
    requires
        with_directories(archive, created, wanted) is Err,
    ensures
        exists|i: int|
            {
                &&& 0 <= i < wanted.len()
                &&& !tar_header_holds(#[trigger] wanted[i]) ==> with_directories(
                    archive,
                    created,
                    wanted,
                )->Err_0 == "Failed to set path for directory header: "@ + wanted[i]
                &&& tar_header_holds(wanted[i]) ==> tar_entry(
                    plain_header(0o755, 0, 53),
                    wanted[i],
                    Seq::empty(),
                ) is None && with_directories(archive, created, wanted)->Err_0
                    == "Failed to append directory header for: "@ + wanted[i]
            },
    decreases wanted.len(),
{
    let front = wanted.drop_last();
    if with_directories(archive, created, front) is Err {
        law_refused_directory_is_named(archive, created, front);
        let i = choose|i: int|
            {
                &&& 0 <= i < front.len()
                &&& !tar_header_holds(#[trigger] front[i]) ==> with_directories(
                    archive,
                    created,
                    front,
                )->Err_0 == "Failed to set path for directory header: "@ + front[i]
                &&& tar_header_holds(front[i]) ==> tar_entry(
                    plain_header(0o755, 0, 53),
                    front[i],
                    Seq::empty(),
                ) is None && with_directories(archive, created, front)->Err_0
                    == "Failed to append directory header for: "@ + front[i]
            };
        assert(wanted[i] == front[i]);
    } else {
        assert(wanted[wanted.len() - 1] == wanted.last());
    }
}

} // verus!

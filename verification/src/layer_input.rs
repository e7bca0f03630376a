use vstd::bytes::{
    lemma_auto_spec_u32_to_from_le_bytes, lemma_auto_spec_u64_to_from_le_bytes,
    spec_u32_from_le_bytes, spec_u32_to_le_bytes, spec_u64_from_le_bytes, spec_u64_to_le_bytes,
    u32_to_le_bytes, u64_to_le_bytes,
};
use vstd::prelude::*;
use vstd::utf8::encode_utf8;

use crate::digest::{sha256, sha256_of};
use crate::order::{
    is_names_less, lemma_names_less_total, lemma_names_less_transitive, names_less, path_less,
};
use crate::path::{path_key, path_key_of};
use crate::text::{append_bytes, hex, hex_text, join, texts};

verus! {

/// What is known of a file that was added to a layer, for the key of the layer's inputs.
#[derive(Debug)]
pub struct FileMetadata {
    /// The path in the archive.
    pub archive_path: String,
    /// The size of the file.
    pub size: u64,
    /// The modification time, in seconds since the epoch.
    pub mtime: u64,
    /// The file mode (permissions).
    pub mode: u32,
    /// Whether this is a directory.
    pub is_dir: bool,
    /// The hash of content that was handed over in memory, where the time says nothing.
    pub content_hash: Option<Vec<u8>>,
}

/// The contents of a `FileMetadata`.
pub struct FileEntry {
    pub archive_path: Seq<char>,
    pub size: u64,
    pub mtime: u64,
    pub mode: u32,
    pub is_dir: bool,
    pub content_hash: Option<Seq<u8>>,
}

impl View for FileMetadata {
    type V = FileEntry;

    open spec fn view(&self) -> FileEntry {
        FileEntry {
            archive_path: self.archive_path@,
            size: self.size,
            mtime: self.mtime,
            mode: self.mode,
            is_dir: self.is_dir,
            content_hash: match self.content_hash {
                Some(hash) => Some(hash@),
                None => None,
            },
        }
    }
}

/// The contents of a list of file metadata.
pub open spec fn entries_of(metadata: Seq<FileMetadata>) -> Seq<FileEntry> {
    Seq::new(metadata.len(), |i: int| metadata[i]@)
}

/// Whether `a` stands before `b` in the order of their paths.
pub open spec fn entry_less(a: FileEntry, b: FileEntry) -> bool {
    path_less(a.archive_path, b.archive_path)
}

/// Puts an entry into sorted entries, behind those that it does not stand before.
pub open spec fn with_entry(sorted: Seq<FileEntry>, entry: FileEntry) -> Seq<FileEntry>
    decreases sorted.len(),
{
    if sorted.len() > 0 && entry_less(entry, sorted.last()) {
        with_entry(sorted.drop_last(), entry).push(sorted.last())
    } else {
        sorted.push(entry)
    }
}

/// The entries in the order of their paths; those with one path keep their order.
pub open spec fn sorted_entries(entries: Seq<FileEntry>) -> Seq<FileEntry>
    decreases entries.len(),
{
    if entries.len() == 0 {
        entries
    } else {
        with_entry(sorted_entries(entries.drop_last()), entries.last())
    }
}

/// Whether no entry stands before an earlier one.
pub open spec fn is_sorted(entries: Seq<FileEntry>) -> bool {
    forall|i: int, j: int|
        0 <= i < j < entries.len() ==> !entry_less(#[trigger] entries[j], #[trigger] entries[i])
}

/// The bytes that stand for an entry in the key: path, size, time, mode, whether it is a
/// directory, and the hash of its content where there is one.
pub open spec fn entry_bytes(entry: FileEntry) -> Seq<u8> {
    encode_utf8(entry.archive_path) + spec_u64_to_le_bytes(entry.size) + spec_u64_to_le_bytes(
        entry.mtime,
    ) + spec_u32_to_le_bytes(entry.mode) + seq![
        if entry.is_dir {
            1u8
        } else {
            0u8
        },
    ] + match entry.content_hash {
        Some(hash) => hash,
        None => Seq::empty(),
    }
}

/// The bytes that stand for the entries, one after the other.
pub open spec fn entries_bytes(entries: Seq<FileEntry>) -> Seq<u8>
    decreases entries.len(),
{
    if entries.len() == 0 {
        Seq::empty()
    } else {
        entries_bytes(entries.drop_last()) + entry_bytes(entries.last())
    }
}

/// The cache key of a layer's inputs.
pub open spec fn input_key(entries: Seq<FileEntry>) -> Seq<char> {
    "layer-input-"@ + hex_text(sha256(entries_bytes(sorted_entries(entries))))
}

/// The entries that some places of a list name.
spec fn at_places(entries: Seq<FileEntry>, places: Seq<usize>) -> Seq<FileEntry> {
    Seq::new(places.len(), |i: int| entries[places[i] as int])
}

/// The places of the entries in the order of their paths.
fn sorted_places(metadata: &Vec<FileMetadata>) -> (places: Vec<usize>)
    ensures
        at_places(entries_of(metadata@), places@) == sorted_entries(entries_of(metadata@)),
        forall|i: int| 0 <= i < places.len() ==> (#[trigger] places@[i]) < metadata.len(),
{
    let ghost entries = entries_of(metadata@);
    let mut keys: Vec<Vec<String>> = Vec::new();
    let mut places: Vec<usize> = Vec::new();
    assert(at_places(entries, places@) == sorted_entries(entries.take(0)));
    for i in 0..metadata.len()
        invariant
            entries == entries_of(metadata@),
            keys.len() == i,
            forall|k: int|
                0 <= k < i ==> texts((#[trigger] keys@[k])@) == path_key(entries[k].archive_path),
            forall|k: int| 0 <= k < places.len() ==> (#[trigger] places@[k]) < i,
            at_places(entries, places@) == sorted_entries(entries.take(i as int)),
    {
        let key = path_key_of(metadata[i].archive_path.as_str());
        let mut place: usize = places.len();
        let ghost sorted = at_places(entries, places@);
        assert(sorted.take(place as int) == sorted);
        assert(sorted.skip(place as int) == Seq::<FileEntry>::empty());
        while place > 0 && is_names_less(&key, &keys[places[place - 1]])
            invariant
                place <= places.len(),
                i < metadata.len(),
                entries == entries_of(metadata@),
                keys.len() == i,
                texts(key@) == path_key(entries[i as int].archive_path),
                forall|k: int|
                    0 <= k < i ==> texts((#[trigger] keys@[k])@) == path_key(
                        entries[k].archive_path,
                    ),
                forall|k: int| 0 <= k < places.len() ==> (#[trigger] places@[k]) < i,
                sorted == at_places(entries, places@),
                with_entry(sorted, entries[i as int]) == with_entry(
                    sorted.take(place as int),
                    entries[i as int],
                ) + sorted.skip(place as int),
            decreases place,
        {
            proof {
                let front = sorted.take(place as int);
                assert(front.last() == entries[places@[place - 1] as int]);
                assert(front.drop_last() == sorted.take(place - 1));
                assert(sorted.skip(place - 1) == seq![front.last()] + sorted.skip(place as int));
                assert(with_entry(front, entries[i as int]) + sorted.skip(place as int)
                    == with_entry(front.drop_last(), entries[i as int]) + sorted.skip(place - 1));
            }
            place = place - 1;
        }
        places.insert(place, i);
        keys.push(key);
        proof {
            let front = sorted.take(place as int);
            if place > 0 {
                assert(front.last() == entries[places@[place - 1] as int]);
            }
            assert(with_entry(front, entries[i as int]) == front.push(entries[i as int]));
            assert(at_places(entries, places@) =~= front.push(entries[i as int]) + sorted.skip(
                place as int,
            ));
            assert(entries.take(i + 1).drop_last() == entries.take(i as int));
            assert(entries.take(i + 1).last() == entries[i as int]);
        }
    }
    assert(entries.take(metadata@.len() as int) == entries);
    places
}

/// The bytes that stand for one file's metadata in the key.
fn append_entry(buffer: &mut Vec<u8>, metadata: &FileMetadata)
    ensures
        final(buffer)@ == old(buffer)@ + entry_bytes(metadata@),
{
    let ghost before = buffer@;
    append_bytes(buffer, metadata.archive_path.as_str().as_bytes());
    append_bytes(buffer, u64_to_le_bytes(metadata.size).as_slice());
    append_bytes(buffer, u64_to_le_bytes(metadata.mtime).as_slice());
    append_bytes(buffer, u32_to_le_bytes(metadata.mode).as_slice());
    buffer.push(if metadata.is_dir { 1u8 } else { 0u8 });
    if let Some(hash) = &metadata.content_hash {
        append_bytes(buffer, hash.as_slice());
    }
    assert(buffer@ =~= before + entry_bytes(metadata@));
}

/// The cache key of a layer's inputs: a hash over the metadata of what was added, sorted by path.
///
/// It needs no file to be read, so it is found much faster than a key over the content.
pub fn calculate_input_key(metadata: &Vec<FileMetadata>) -> (key: String)
    ensures
        key@ == input_key(entries_of(metadata@)),
{
    let places = sorted_places(metadata);
    let ghost sorted = sorted_entries(entries_of(metadata@));
    let mut buffer: Vec<u8> = Vec::new();
    for i in 0..places.len()
        invariant
            sorted == at_places(entries_of(metadata@), places@),
            forall|k: int| 0 <= k < places.len() ==> (#[trigger] places@[k]) < metadata.len(),
            buffer@ == entries_bytes(sorted.take(i as int)),
    {
        append_entry(&mut buffer, &metadata[places[i]]);
        proof {
            assert(sorted.take(i + 1).drop_last() == sorted.take(i as int));
            assert(sorted.take(i + 1).last() == metadata@[places@[i as int] as int]@);
        }
    }
    assert(sorted.take(sorted.len() as int) == sorted);
    let hash = sha256_of(buffer.as_slice());
    join("layer-input-", hex(hash.as_slice()).as_str())
}

proof fn lemma_with_entry(sorted: Seq<FileEntry>, entry: FileEntry)
    requires
        is_sorted(sorted),
    ensures
        is_sorted(with_entry(sorted, entry)),
        with_entry(sorted, entry).to_multiset() == sorted.to_multiset().insert(entry),
        with_entry(sorted, entry).len() == sorted.len() + 1,
    decreases sorted.len(),
{
    broadcast use vstd::seq_lib::group_to_multiset_ensures;

    let result = with_entry(sorted, entry);
    if sorted.len() > 0 && entry_less(entry, sorted.last()) {
        let front = sorted.drop_last();
        assert forall|i: int, j: int| 0 <= i < j < front.len() implies !entry_less(
            #[trigger] front[j],
            #[trigger] front[i],
        ) by {
            assert(!entry_less(sorted[j], sorted[i]));
        }
        lemma_with_entry(front, entry);
        let inner = with_entry(front, entry);
        assert(front.push(sorted.last()) == sorted);
        assert(inner.push(sorted.last()).to_multiset() =~= inner.to_multiset().insert(
            sorted.last(),
        ));
        assert(result.to_multiset() =~= sorted.to_multiset().insert(entry));
        assert forall|i: int, j: int| 0 <= i < j < result.len() implies !entry_less(
            #[trigger] result[j],
            #[trigger] result[i],
        ) by {
            if j == result.len() - 1 {
                assert(inner.to_multiset().contains(inner[i]));
                if inner[i] == entry {
                    lemma_names_less_total(
                        path_key(entry.archive_path),
                        path_key(sorted.last().archive_path),
                    );
                } else {
                    assert(front.to_multiset().contains(inner[i]));
                    assert(front.contains(inner[i]));
                    let k = choose|k: int| 0 <= k < front.len() && front[k] == inner[i];
                    assert(sorted[k] == inner[i]);
                    assert(!entry_less(sorted[sorted.len() - 1], sorted[k]));
                }
            } else {
                assert(!entry_less(inner[j], inner[i]));
            }
        }
    } else {
        assert(result.to_multiset() =~= sorted.to_multiset().insert(entry));
        assert forall|i: int, j: int| 0 <= i < j < result.len() implies !entry_less(
            #[trigger] result[j],
            #[trigger] result[i],
        ) by {
            if j == result.len() - 1 && i < sorted.len() {
                let last = sorted.last();
                if entry_less(entry, sorted[i]) {
                    if i < sorted.len() - 1 {
                        assert(!entry_less(sorted[sorted.len() - 1], sorted[i]));
                        let a = path_key(entry.archive_path);
                        let b = path_key(sorted[i].archive_path);
                        let c = path_key(last.archive_path);
                        lemma_names_less_total(b, c);
                        if names_less(b, c) {
                            lemma_names_less_transitive(a, b, c);
                        }
                    }
                }
            } else {
                assert(!entry_less(sorted[j], sorted[i]));
            }
        }
    }
}

/// Sorting loses no entry, adds none, and puts no entry behind one that it stands before.
pub proof fn law_sorted_entries(entries: Seq<FileEntry>)
    ensures
        is_sorted(sorted_entries(entries)),
        sorted_entries(entries).to_multiset() == entries.to_multiset(),
    decreases entries.len(),
{
    broadcast use vstd::seq_lib::group_to_multiset_ensures;

    if entries.len() > 0 {
        law_sorted_entries(entries.drop_last());
        lemma_with_entry(sorted_entries(entries.drop_last()), entries.last());
        assert(entries.drop_last().push(entries.last()) == entries);
        assert(entries.to_multiset() =~= entries.drop_last().to_multiset().insert(entries.last()));
    }
}

/// Entries stand in the order of their paths, and none is lost or added.
pub proof fn law_entries_stand_in_the_order_of_their_paths(entries: Seq<FileEntry>)
    ensures
        sorted_entries(entries).len() == entries.len(),
        forall|i: int, j: int|
            0 <= i < j < entries.len() ==> !path_less(
                (#[trigger] sorted_entries(entries)[j]).archive_path,
                (#[trigger] sorted_entries(entries)[i]).archive_path,
            ),
        forall|e: FileEntry|
            #![trigger entries.to_multiset().count(e)]
            sorted_entries(entries).to_multiset().count(e) == entries.to_multiset().count(e),
{
    broadcast use vstd::seq_lib::group_to_multiset_ensures;

    law_sorted_entries(entries);
    let sorted = sorted_entries(entries);
    assert(sorted.len() == sorted.to_multiset().len());
    assert(entries.len() == entries.to_multiset().len());
    assert forall|i: int, j: int| 0 <= i < j < entries.len() implies !path_less(
        (#[trigger] sorted[j]).archive_path,
        (#[trigger] sorted[i]).archive_path,
    ) by {
        assert(!entry_less(sorted[j], sorted[i]));
    }
}

proof fn lemma_with_entry_keeps_order(
    sorted: Seq<FileEntry>,
    entry: FileEntry,
    key: Seq<Seq<char>>,
)
    ensures
        ({
            let at_key = |e: FileEntry| path_key(e.archive_path) == key;
            with_entry(sorted, entry).filter(at_key) == if at_key(entry) {
                sorted.filter(at_key).push(entry)
            } else {
                sorted.filter(at_key)
            }
        }),
    decreases sorted.len(),
{
    let at_key = |e: FileEntry| path_key(e.archive_path) == key;
    reveal(Seq::filter);
    if sorted.len() > 0 && entry_less(entry, sorted.last()) {
        let front = sorted.drop_last();
        lemma_with_entry_keeps_order(front, entry, key);
        let inner = with_entry(front, entry);
        assert(inner.push(sorted.last()).drop_last() =~= inner);
        crate::order::law_paths_are_ordered(
            entry.archive_path,
            sorted.last().archive_path,
            entry.archive_path,
        );
        if at_key(entry) && at_key(sorted.last()) {
            assert(path_less(entry.archive_path, entry.archive_path));
        }
    } else {
        assert(sorted.push(entry).drop_last() =~= sorted);
    }
}

/// Entries with one path keep their order.
pub proof fn law_same_path_keeps_its_order(entries: Seq<FileEntry>, key: Seq<Seq<char>>)
    ensures
        sorted_entries(entries).filter(|e: FileEntry| path_key(e.archive_path) == key)
            == entries.filter(|e: FileEntry| path_key(e.archive_path) == key),
    decreases entries.len(),
{
    reveal(Seq::filter);
    if entries.len() > 0 {
        law_same_path_keeps_its_order(entries.drop_last(), key);
        lemma_with_entry_keeps_order(sorted_entries(entries.drop_last()), entries.last(), key);
    }
}

/// Whether no two entries have the same path.
pub open spec fn has_distinct_paths(entries: Seq<FileEntry>) -> bool {
    forall|i: int, j: int|
        0 <= i < j < entries.len() ==> path_key((#[trigger] entries[i]).archive_path) != path_key(
            (#[trigger] entries[j]).archive_path,
        )
}

/// Two sorted lists that hold the same entries, no two of them at one path, are the same.
proof fn lemma_sorted_is_unique(a: Seq<FileEntry>, b: Seq<FileEntry>)
    requires
        is_sorted(a),
        is_sorted(b),
        has_distinct_paths(a),
        a.to_multiset() == b.to_multiset(),
    ensures
        a == b,
    decreases a.len(),
{
    broadcast use vstd::seq_lib::group_to_multiset_ensures;

    assert(a.len() == a.to_multiset().len());
    assert(b.len() == b.to_multiset().len());
    if a.len() == 0 {
        assert(a == b);
    } else {
        let last = a.last();
        assert(a.contains(last)) by {
            assert(a[a.len() - 1] == last);
        }
        assert(a.to_multiset().count(last) > 0);
        assert(b.contains(last));
        let k = choose|k: int| 0 <= k < b.len() && b[k] == last;
        assert(b.last() == last) by {
            if k < b.len() - 1 {
                let other = b[b.len() - 1];
                assert(b.contains(other));
                assert(b.to_multiset().count(other) > 0);
                assert(a.contains(other));
                let m = choose|m: int| 0 <= m < a.len() && a[m] == other;
                assert(!entry_less(b[b.len() - 1], b[k]));
                if m < a.len() - 1 {
                    assert(!entry_less(a[a.len() - 1], a[m]));
                    assert(path_key(a[m].archive_path) != path_key(a[a.len() - 1].archive_path));
                    lemma_names_less_total(
                        path_key(other.archive_path),
                        path_key(last.archive_path),
                    );
                }
            }
        }
        let front = a.drop_last();
        let rest = b.drop_last();
        assert(front.push(last) == a);
        assert(rest.push(last) == b);
        assert(a.to_multiset() =~= front.to_multiset().insert(last));
        assert(b.to_multiset() =~= rest.to_multiset().insert(last));
        assert(front.to_multiset() =~= a.to_multiset().remove(last));
        assert(rest.to_multiset() =~= b.to_multiset().remove(last));
        assert forall|i: int, j: int| 0 <= i < j < front.len() implies !entry_less(
            #[trigger] front[j],
            #[trigger] front[i],
        ) by {
            assert(!entry_less(a[j], a[i]));
        }
        assert forall|i: int, j: int| 0 <= i < j < rest.len() implies !entry_less(
            #[trigger] rest[j],
            #[trigger] rest[i],
        ) by {
            assert(!entry_less(b[j], b[i]));
        }
        assert forall|i: int, j: int| 0 <= i < j < front.len() implies path_key(
            (#[trigger] front[i]).archive_path,
        ) != path_key((#[trigger] front[j]).archive_path) by {
            assert(path_key(a[i].archive_path) != path_key(a[j].archive_path));
        }
        lemma_sorted_is_unique(front, rest);
    }
}

proof fn lemma_sorted_distinct(entries: Seq<FileEntry>)
    requires
        has_distinct_paths(entries),
    ensures
        has_distinct_paths(sorted_entries(entries)),
    decreases entries.len(),
{
    broadcast use vstd::seq_lib::group_to_multiset_ensures;

    if entries.len() > 0 {
        let front = entries.drop_last();
        let entry = entries.last();
        assert forall|i: int, j: int| 0 <= i < j < front.len() implies path_key(
            (#[trigger] front[i]).archive_path,
        ) != path_key((#[trigger] front[j]).archive_path) by {
            assert(path_key(entries[i].archive_path) != path_key(entries[j].archive_path));
        }
        lemma_sorted_distinct(front);
        law_sorted_entries(front);
        let sorted = sorted_entries(front);
        assert forall|i: int| 0 <= i < sorted.len() implies path_key(
            (#[trigger] sorted[i]).archive_path,
        ) != path_key(entry.archive_path) by {
            assert(sorted.contains(sorted[i]));
            assert(sorted.to_multiset().count(sorted[i]) > 0);
            assert(front.contains(sorted[i]));
            let k = choose|k: int| 0 <= k < front.len() && front[k] == sorted[i];
            assert(entries[k] == sorted[i]);
            assert(path_key(entries[k].archive_path) != path_key(
                entries[entries.len() - 1].archive_path,
            ));
        }
        lemma_with_entry_distinct(sorted, entry);
    }
}

proof fn lemma_with_entry_distinct(sorted: Seq<FileEntry>, entry: FileEntry)
    requires
        has_distinct_paths(sorted),
        forall|i: int|
            0 <= i < sorted.len() ==> path_key((#[trigger] sorted[i]).archive_path) != path_key(
                entry.archive_path,
            ),
    ensures
        has_distinct_paths(with_entry(sorted, entry)),
        forall|i: int|
            0 <= i < with_entry(sorted, entry).len() ==> (#[trigger] with_entry(sorted, entry)[i]
                == entry || sorted.contains(with_entry(sorted, entry)[i])),
    decreases sorted.len(),
{
    let result = with_entry(sorted, entry);
    if sorted.len() > 0 && entry_less(entry, sorted.last()) {
        let front = sorted.drop_last();
        assert forall|i: int, j: int| 0 <= i < j < front.len() implies path_key(
            (#[trigger] front[i]).archive_path,
        ) != path_key((#[trigger] front[j]).archive_path) by {
            assert(path_key(sorted[i].archive_path) != path_key(sorted[j].archive_path));
        }
        assert forall|i: int| 0 <= i < front.len() implies path_key(
            (#[trigger] front[i]).archive_path,
        ) != path_key(entry.archive_path) by {
            assert(path_key(sorted[i].archive_path) != path_key(entry.archive_path));
        }
        lemma_with_entry_distinct(front, entry);
        let inner = with_entry(front, entry);
        assert forall|i: int| 0 <= i < inner.len() implies (#[trigger] inner[i] == entry
            || sorted.contains(inner[i])) && path_key(inner[i].archive_path) != path_key(
            sorted.last().archive_path,
        ) by {
            assert(inner[i] == entry || front.contains(inner[i]));
            if inner[i] == entry {
                assert(path_key(sorted[sorted.len() - 1].archive_path) != path_key(
                    entry.archive_path,
                ));
            } else {
                let k = choose|k: int| 0 <= k < front.len() && front[k] == inner[i];
                assert(sorted[k] == inner[i]);
                assert(path_key(sorted[k].archive_path) != path_key(
                    sorted[sorted.len() - 1].archive_path,
                ));
            }
        }
        assert forall|i: int, j: int| 0 <= i < j < result.len() implies path_key(
            (#[trigger] result[i]).archive_path,
        ) != path_key((#[trigger] result[j]).archive_path) by {
            assert(inner[i] == result[i]);
            if j < inner.len() {
                assert(inner[j] == result[j]);
            }
        }
        assert forall|i: int| 0 <= i < result.len() implies (#[trigger] result[i] == entry
            || sorted.contains(result[i])) by {
            if i < inner.len() {
                assert(inner[i] == result[i]);
            } else {
                assert(sorted[sorted.len() - 1] == result[i]);
            }
        }
    } else {
        assert forall|i: int| 0 <= i < result.len() implies (#[trigger] result[i] == entry
            || sorted.contains(result[i])) by {
            if i < sorted.len() {
                assert(sorted[i] == result[i]);
            }
        }
    }
}

/// The key of a layer's inputs does not depend on the order in which they were added, as long as
/// no two of them share a path.
pub proof fn law_input_key_ignores_order(a: Seq<FileEntry>, b: Seq<FileEntry>)
    requires
        a.to_multiset() == b.to_multiset(),
        has_distinct_paths(a),
    ensures
        input_key(a) == input_key(b),
{
    law_sorted_entries(a);
    law_sorted_entries(b);
    lemma_sorted_distinct(a);
    lemma_sorted_is_unique(sorted_entries(a), sorted_entries(b));
}

/// Whether two entries differ in the hash of their content at most.
pub open spec fn differ_in_content(a: FileEntry, b: FileEntry) -> bool {
    &&& a.archive_path == b.archive_path
    &&& a.size == b.size
    &&& a.mtime == b.mtime
    &&& a.mode == b.mode
    &&& a.is_dir == b.is_dir
    &&& match (a.content_hash, b.content_hash) {
        (Some(x), Some(y)) => x.len() == y.len(),
        (None, None) => true,
        _ => false,
    }
}

/// Whether two lists of entries differ in the hashes of their contents at most.
pub open spec fn all_differ_in_content(a: Seq<FileEntry>, b: Seq<FileEntry>) -> bool {
    a.len() == b.len() && forall|i: int|
        0 <= i < a.len() ==> differ_in_content(#[trigger] a[i], b[i])
}

/// Whether two entries are versions of one: they have the same path, and a hash of their content
/// both or neither, of one length. In all else they may differ.
pub open spec fn is_version(a: FileEntry, b: FileEntry) -> bool {
    &&& a.archive_path == b.archive_path
    &&& a.content_hash is Some == b.content_hash is Some
    &&& a.content_hash is Some ==> a.content_hash->0.len() == b.content_hash->0.len()
}

/// Whether two lists of entries hold versions of the same ones, in the same order.
pub open spec fn are_versions(a: Seq<FileEntry>, b: Seq<FileEntry>) -> bool {
    a.len() == b.len() && forall|i: int| 0 <= i < a.len() ==> is_version(#[trigger] a[i], b[i])
}

/// The length of the hash of an entry's content, where there is one.
pub open spec fn hash_length(entry: FileEntry) -> nat {
    match entry.content_hash {
        Some(hash) => hash.len(),
        None => 0,
    }
}

proof fn lemma_entry_length(entry: FileEntry)
    ensures
        entry_bytes(entry).len() == encode_utf8(entry.archive_path).len() + 21 + hash_length(
            entry,
        ),
{
    lemma_auto_spec_u64_to_from_le_bytes();
    lemma_auto_spec_u32_to_from_le_bytes();
}

/// An entry stands for its path in UTF-8, its size and its time in eight bytes each and its mode in
/// four, the lowest byte first, one byte for whether it is a directory, and the hash of its content
/// where there is one.
pub proof fn law_bytes_of_an_entry(entry: FileEntry)
    ensures
        ({
            let bytes = entry_bytes(entry);
            let at = encode_utf8(entry.archive_path).len() as int;
            &&& bytes.len() == at + 21 + hash_length(entry)
            &&& bytes.take(at) == encode_utf8(entry.archive_path)
            &&& spec_u64_from_le_bytes(bytes.subrange(at, at + 8)) == entry.size
            &&& spec_u64_from_le_bytes(bytes.subrange(at + 8, at + 16)) == entry.mtime
            &&& spec_u32_from_le_bytes(bytes.subrange(at + 16, at + 20)) == entry.mode
            &&& (bytes[at + 20] == 1) == entry.is_dir
            &&& (bytes[at + 20] == 0) == !entry.is_dir
            &&& entry.content_hash is Some ==> bytes.skip(at + 21) == entry.content_hash->0
        }),
{
    lemma_auto_spec_u64_to_from_le_bytes();
    lemma_auto_spec_u32_to_from_le_bytes();
    lemma_entry_length(entry);
    let bytes = entry_bytes(entry);
    let at = encode_utf8(entry.archive_path).len() as int;
    assert(bytes.take(at) =~= encode_utf8(entry.archive_path));
    assert(bytes.subrange(at, at + 8) =~= spec_u64_to_le_bytes(entry.size));
    assert(bytes.subrange(at + 8, at + 16) =~= spec_u64_to_le_bytes(entry.mtime));
    assert(bytes.subrange(at + 16, at + 20) =~= spec_u32_to_le_bytes(entry.mode));
    if entry.content_hash is Some {
        assert(bytes.skip(at + 21) =~= entry.content_hash->0);
    }
}

proof fn lemma_bytes_tell_version(x: FileEntry, y: FileEntry)
    requires
        is_version(x, y),
        entry_bytes(x) == entry_bytes(y),
    ensures
        x == y,
{
    law_bytes_of_an_entry(x);
    law_bytes_of_an_entry(y);
    assert(x.content_hash == y.content_hash);
}

proof fn lemma_with_entry_version(
    a: Seq<FileEntry>,
    b: Seq<FileEntry>,
    first: FileEntry,
    second: FileEntry,
)
    requires
        are_versions(a, b),
        is_version(first, second),
    ensures
        are_versions(with_entry(a, first), with_entry(b, second)),
        with_entry(a, first) == with_entry(b, second) ==> a == b && first == second,
    decreases a.len(),
{
    if a.len() > 0 {
        assert(is_version(a[a.len() - 1], b[b.len() - 1]));
    }
    if a.len() > 0 && entry_less(first, a.last()) {
        assert(are_versions(a.drop_last(), b.drop_last())) by {
            assert forall|i: int| 0 <= i < a.drop_last().len() implies is_version(
                #[trigger] a.drop_last()[i],
                b.drop_last()[i],
            ) by {
                assert(is_version(a[i], b[i]));
            }
        }
        lemma_with_entry_version(a.drop_last(), b.drop_last(), first, second);
        let x = with_entry(a.drop_last(), first);
        let y = with_entry(b.drop_last(), second);
        assert forall|i: int| 0 <= i < x.push(a.last()).len() implies is_version(
            #[trigger] x.push(a.last())[i],
            y.push(b.last())[i],
        ) by {
            if i < x.len() {
                assert(is_version(x[i], y[i]));
            }
        }
        if x.push(a.last()) == y.push(b.last()) {
            assert(x == x.push(a.last()).drop_last());
            assert(y == y.push(b.last()).drop_last());
            assert(a.last() == x.push(a.last()).last());
            assert(b.last() == y.push(b.last()).last());
            assert(a == a.drop_last().push(a.last()));
            assert(b == b.drop_last().push(b.last()));
        }
    } else {
        assert forall|i: int| 0 <= i < a.push(first).len() implies is_version(
            #[trigger] a.push(first)[i],
            b.push(second)[i],
        ) by {
            if i < a.len() {
                assert(is_version(a[i], b[i]));
            }
        }
        if a.push(first) == b.push(second) {
            assert(a == a.push(first).drop_last());
            assert(b == b.push(second).drop_last());
            assert(first == a.push(first).last());
            assert(second == b.push(second).last());
        }
    }
}

proof fn lemma_sorted_versions(a: Seq<FileEntry>, b: Seq<FileEntry>)
    requires
        are_versions(a, b),
    ensures
        are_versions(sorted_entries(a), sorted_entries(b)),
        sorted_entries(a) == sorted_entries(b) ==> a == b,
    decreases a.len(),
{
    if a.len() > 0 {
        assert forall|i: int| 0 <= i < a.drop_last().len() implies is_version(
            #[trigger] a.drop_last()[i],
            b.drop_last()[i],
        ) by {
            assert(is_version(a[i], b[i]));
        }
        lemma_sorted_versions(a.drop_last(), b.drop_last());
        assert(is_version(a[a.len() - 1], b[b.len() - 1]));
        lemma_with_entry_version(
            sorted_entries(a.drop_last()),
            sorted_entries(b.drop_last()),
            a.last(),
            b.last(),
        );
        assert(a == a.drop_last().push(a.last()));
        assert(b == b.drop_last().push(b.last()));
    } else {
        assert(a == b);
    }
}

proof fn lemma_bytes_tell_versions(a: Seq<FileEntry>, b: Seq<FileEntry>)
    requires
        are_versions(a, b),
        entries_bytes(a) == entries_bytes(b),
    ensures
        a == b,
    decreases a.len(),
{
    if a.len() > 0 {
        let x = a.last();
        let y = b.last();
        assert(is_version(a[a.len() - 1], b[b.len() - 1]));
        assert forall|i: int| 0 <= i < a.drop_last().len() implies is_version(
            #[trigger] a.drop_last()[i],
            b.drop_last()[i],
        ) by {
            assert(is_version(a[i], b[i]));
        }
        let front = entries_bytes(a.drop_last());
        let rest = entries_bytes(b.drop_last());
        lemma_entry_length(x);
        lemma_entry_length(y);
        let whole = entries_bytes(a);
        let cut = front.len() as int;
        assert(whole == front + entry_bytes(x));
        assert(entries_bytes(b) == rest + entry_bytes(y));
        assert(whole.len() == front.len() + entry_bytes(x).len());
        assert(whole.len() == rest.len() + entry_bytes(y).len());
        assert(front.len() == rest.len());
        assert(front == whole.take(cut));
        assert(rest == entries_bytes(b).take(cut));
        assert(entry_bytes(x) == whole.skip(cut));
        assert(entry_bytes(y) == entries_bytes(b).skip(cut));
        lemma_bytes_tell_versions(a.drop_last(), b.drop_last());
        lemma_bytes_tell_version(x, y);
        assert(a == a.drop_last().push(x));
        assert(b == b.drop_last().push(y));
    } else {
        assert(a == b);
    }
}

/// Inputs at the same paths that differ in a size, a time, a mode, in whether something is a
/// directory, or in the content of data handed over in memory are told apart: the bytes behind
/// their keys differ.
pub proof fn law_input_key_tells_inputs_apart(a: Seq<FileEntry>, b: Seq<FileEntry>)
    requires
        are_versions(a, b),
        a != b,
    ensures
        entries_bytes(sorted_entries(a)) != entries_bytes(sorted_entries(b)),
{
    lemma_sorted_versions(a, b);
    if entries_bytes(sorted_entries(a)) == entries_bytes(sorted_entries(b)) {
        lemma_bytes_tell_versions(sorted_entries(a), sorted_entries(b));
    }
}

/// The key of a layer's inputs is made of the hash of the bytes that stand for them, in the order
/// of their paths: two keys are the same if and only if the hashes are.
pub proof fn law_input_key_is_a_hash(
    a: Vec<FileMetadata>,
    b: Vec<FileMetadata>,
    key_a: String,
    key_b: String,
)
    requires
        call_ensures(calculate_input_key, (&a,), key_a),
        call_ensures(calculate_input_key, (&b,), key_b),
    ensures
        "layer-input-"@.is_prefix_of(key_a@),
        key_a@ == key_b@ <==> sha256(entries_bytes(sorted_entries(entries_of(a@)))) == sha256(
            entries_bytes(sorted_entries(entries_of(b@))),
        ),
{
    let x = sha256(entries_bytes(sorted_entries(entries_of(a@))));
    let y = sha256(entries_bytes(sorted_entries(entries_of(b@))));
    let front = "layer-input-"@;
    assert(key_a@.skip(front.len() as int) =~= hex_text(x));
    assert(key_b@.skip(front.len() as int) =~= hex_text(y));
    if key_a@ == key_b@ {
        crate::text_laws::law_hex_tells_bytes_apart(x, y);
    }
}

/// The bytes that stand for entries are those of each, one after the other.
pub proof fn law_bytes_of_entries(entries: Seq<FileEntry>, entry: FileEntry)
    ensures
        entries_bytes(Seq::empty()).len() == 0,
        entries_bytes(entries.push(entry)) == entries_bytes(entries) + entry_bytes(entry),
{
    assert(entries.push(entry).drop_last() =~= entries);
}

/// Inputs that differ only in the content of data handed over in memory are told apart: the bytes
/// behind their keys differ.
pub proof fn law_input_key_tells_content_apart(a: Seq<FileEntry>, b: Seq<FileEntry>)
    requires
        all_differ_in_content(a, b),
        a != b,
    ensures
        entries_bytes(sorted_entries(a)) != entries_bytes(sorted_entries(b)),
{
    assert forall|i: int| 0 <= i < a.len() implies is_version(#[trigger] a[i], b[i]) by {
        assert(differ_in_content(a[i], b[i]));
    }
    law_input_key_tells_inputs_apart(a, b);
}

} // verus!

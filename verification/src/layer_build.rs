use vstd::prelude::*;

use crate::archive::{archive_end, tar_finish};
use crate::compress::{zstd_compress, zstd_content, zstd_frame, CompressFailure};
use crate::digest::{content_digest, digest_of, sha256, sha256_of};
use crate::error::{is_io, Error};
use crate::json::{
    json_parsed, json_rendered, members_view, parse_json, render_json, text_member, Json, JsonView,
};
use crate::layer::LayerBuilder;
use crate::layer_input::{input_key, FileEntry};
use crate::text::{hex, hex_text, join};

verus! {

/// The media type of a layer that is a zstd-compressed tar archive.
pub const IMAGE_LAYER_ZSTD_MEDIA_TYPE: &'static str = "application/vnd.oci.image.layer.v1.tar+zstd";

/// The compression level of layers.
pub const COMPRESSION_LEVEL: i32 = 3;

/// A layer of an image: a zstd-compressed tar archive.
#[derive(Debug)]
pub struct Layer {
    diff_id: String,
    blob_digest: String,
    media_type: String,
    blob: Vec<u8>,
}

/// The contents of a `Layer`.
pub struct LayerView {
    /// The digest of the archive.
    pub diff_id: Seq<char>,
    /// The digest of the compressed archive.
    pub blob_digest: Seq<char>,
    pub media_type: Seq<char>,
    /// The compressed archive.
    pub blob: Seq<u8>,
}

impl View for Layer {
    type V = LayerView;

    closed spec fn view(&self) -> LayerView {
        LayerView {
            diff_id: self.diff_id@,
            blob_digest: self.blob_digest@,
            media_type: self.media_type@,
            blob: self.blob@,
        }
    }
}

impl Layer {
    /// A builder for a layer.
    pub fn builder() -> (builder: LayerBuilder)
        ensures
            builder@.archive == Seq::<u8>::empty(),
            builder@.blob_cache is None,
            builder@.directories == Seq::<Seq<char>>::empty(),
            builder@.entries.len() == 0,
    {
        LayerBuilder::new()
    }

    /// The digest of the archive before compression, such as `sha256:deadbeef...`.
    pub fn diff_id(&self) -> (diff_id: &str)
        ensures
            diff_id@ == self@.diff_id,
    {
        self.diff_id.as_str()
    }

    /// The digest of the compressed archive, such as `sha256:abc123...`.
    pub fn blob_digest(&self) -> (blob_digest: &str)
        ensures
            blob_digest@ == self@.blob_digest,
    {
        self.blob_digest.as_str()
    }

    /// The media type of the compressed archive.
    pub fn media_type(&self) -> (media_type: &str)
        ensures
            media_type@ == self@.media_type,
    {
        self.media_type.as_str()
    }

    /// The compressed archive.
    pub fn blob(&self) -> (blob: &Vec<u8>)
        ensures
            blob@ == self@.blob,
    {
        &self.blob
    }
}

/// The first lookup for a layer with these inputs and this archive.
pub open spec fn first_lookup(input_key: Seq<char>, archive: Seq<u8>) -> LayerLookupView {
    LayerLookupView { key: input_key, stage: StageView::InputRecord, input_key, archive }
}

/// The key under which the cache keeps the record of a layer with the archive `tar`.
pub open spec fn content_key(tar: Seq<u8>) -> Seq<char> {
    "layer-content-"@ + hex_text(sha256(tar))
}

/// The document that records a layer in the cache.
pub open spec fn layer_document(diff_id: Seq<char>, blob_digest: Seq<char>) -> JsonView {
    JsonView::Object(
        Map::empty().insert("diff_id"@, JsonView::Text(diff_id)).insert(
            "blob_digest"@,
            JsonView::Text(blob_digest),
        ),
    )
}

/// The digests that a document holds; none where it records no layer.
pub open spec fn document_digests(document: JsonView) -> Option<(Seq<char>, Seq<char>)> {
    match (text_member(document, "diff_id"@), text_member(document, "blob_digest"@)) {
        (Some(diff_id), Some(blob_digest)) => Some((diff_id, blob_digest)),
        _ => None,
    }
}

/// The digests that a record of the cache holds; none where it is no such record.
pub open spec fn recorded_digests(record: Seq<u8>) -> Option<(Seq<char>, Seq<char>)> {
    match json_parsed(record) {
        Some(document) => document_digests(document),
        None => None,
    }
}

/// The layer that is made of the archive `tar`, compressed to `blob`.
pub open spec fn layer_of(tar: Seq<u8>, blob: Seq<u8>) -> LayerView {
    LayerView {
        diff_id: digest_of(tar),
        blob_digest: digest_of(blob),
        media_type: IMAGE_LAYER_ZSTD_MEDIA_TYPE@,
        blob,
    }
}

/// The layer that is made of the archive `tar`.
pub open spec fn fresh_layer(tar: Seq<u8>) -> LayerView {
    layer_of(tar, zstd_frame(tar, COMPRESSION_LEVEL))
}

/// How far the search for a layer in the cache has come.
#[derive(Debug)]
enum Stage {
    /// The record for the layer's inputs is looked up.
    InputRecord,
    /// The record for the inputs was there; the compressed archive is looked up.
    InputBlob(String, String),
    /// The record for the layer's archive is looked up.
    ContentRecord,
    /// The record for the archive was there; the compressed archive is looked up.
    ContentBlob(String, String),
}

/// How far the search for a layer in the cache has come, with the digests that were found.
pub enum StageView {
    InputRecord,
    InputBlob(Seq<char>, Seq<char>),
    ContentRecord,
    ContentBlob(Seq<char>, Seq<char>),
}

/// A lookup in the cache on which the build of a layer waits.
#[derive(Debug)]
pub struct LayerLookup {
    key: String,
    stage: Stage,
    input_key: String,
    archive: Vec<u8>,
}

/// The contents of a `LayerLookup`.
pub struct LayerLookupView {
    /// The key to look up.
    pub key: Seq<char>,
    pub stage: StageView,
    /// The key of the layer's inputs.
    pub input_key: Seq<char>,
    /// The layer's archive: still open while the inputs are looked up, then ended.
    pub archive: Seq<u8>,
}

impl View for LayerLookup {
    type V = LayerLookupView;

    closed spec fn view(&self) -> LayerLookupView {
        LayerLookupView {
            key: self.key@,
            stage: match self.stage {
                Stage::InputRecord => StageView::InputRecord,
                Stage::InputBlob(d, b) => StageView::InputBlob(d@, b@),
                Stage::ContentRecord => StageView::ContentRecord,
                Stage::ContentBlob(d, b) => StageView::ContentBlob(d@, b@),
            },
            input_key: self.input_key@,
            archive: self.archive@,
        }
    }
}

/// Something to store in the cache before the build of a layer is done.
#[derive(Debug)]
pub struct LayerStore {
    key: String,
    data: Vec<u8>,
    rest: Vec<(String, Vec<u8>)>,
    layer: Layer,
}

/// The contents of a `LayerStore`.
pub struct LayerStoreView {
    /// What is to be stored, in order.
    pub writes: Seq<(Seq<char>, Seq<u8>)>,
    /// The layer that was built.
    pub layer: LayerView,
}

/// Keys and data.
pub open spec fn writes_of(writes: Seq<(String, Vec<u8>)>) -> Seq<(Seq<char>, Seq<u8>)> {
    Seq::new(writes.len(), |i: int| (writes[i].0@, writes[i].1@))
}

impl View for LayerStore {
    type V = LayerStoreView;

    closed spec fn view(&self) -> LayerStoreView {
        LayerStoreView {
            writes: seq![(self.key@, self.data@)] + writes_of(self.rest@),
            layer: self.layer@,
        }
    }
}

/// What the build of a layer does next.
#[derive(Debug)]
pub enum LayerStep {
    /// Look a key up in the cache and go on with what was found.
    Lookup(LayerLookup),
    /// Store something in the cache and go on.
    Store(LayerStore),
    /// The layer is done.
    Done(Layer),
}

/// The contents of a `LayerStep`.
pub enum LayerStepView {
    Lookup(LayerLookupView),
    Store(LayerStoreView),
    Done(LayerView),
}

impl View for LayerStep {
    type V = LayerStepView;

    open spec fn view(&self) -> LayerStepView {
        match self {
            LayerStep::Lookup(lookup) => LayerStepView::Lookup(lookup@),
            LayerStep::Store(store) => LayerStepView::Store(store@),
            LayerStep::Done(layer) => LayerStepView::Done(layer@),
        }
    }
}

/// The layer that the cache holds.
pub open spec fn cached_layer(
    diff_id: Seq<char>,
    blob_digest: Seq<char>,
    blob: Seq<u8>,
) -> LayerView {
    LayerView { diff_id, blob_digest, media_type: IMAGE_LAYER_ZSTD_MEDIA_TYPE@, blob }
}

/// The search goes on with the layer's archive.
pub open spec fn content_lookup(lookup: LayerLookupView) -> LayerStepView {
    let tar = lookup.archive + archive_end();
    LayerStepView::Lookup(
        LayerLookupView {
            key: content_key(tar),
            stage: StageView::ContentRecord,
            input_key: lookup.input_key,
            archive: tar,
        },
    )
}

/// What is stored of a layer that was made of the archive `tar`, compressed to `blob`: the layer, a
/// record for its archive and one for its inputs.
pub open spec fn layer_store(
    input_key: Seq<char>,
    tar: Seq<u8>,
    blob: Seq<u8>,
) -> LayerStoreView {
    let layer = layer_of(tar, blob);
    let record = json_rendered(layer_document(layer.diff_id, layer.blob_digest));
    LayerStoreView {
        writes: seq![
            (layer.blob_digest, layer.blob),
            (content_key(tar), record),
            (input_key, record),
        ],
        layer,
    }
}

/// The search has found nothing: the layer is made and stored.
pub open spec fn fresh_store(lookup: LayerLookupView) -> LayerStepView {
    LayerStepView::Store(
        layer_store(
            lookup.input_key,
            lookup.archive,
            zstd_frame(lookup.archive, COMPRESSION_LEVEL),
        ),
    )
}

/// The lookup of the compressed archive, where the record that was found names one.
pub open spec fn blob_lookup(lookup: LayerLookupView, found: Option<Seq<u8>>) -> Option<
    LayerStepView,
> {
    match found {
        Some(record) => match recorded_digests(record) {
            Some((diff_id, blob_digest)) => Some(
                LayerStepView::Lookup(
                    LayerLookupView {
                        key: blob_digest,
                        stage: if lookup.stage is InputRecord {
                            StageView::InputBlob(diff_id, blob_digest)
                        } else {
                            StageView::ContentBlob(diff_id, blob_digest)
                        },
                        ..lookup
                    },
                ),
            ),
            None => None,
        },
        None => None,
    }
}

/// What follows a lookup.
///
/// The record for the layer's inputs comes first, then the record for its archive. A record that
/// cannot be read, or whose compressed archive is gone, counts as none.
pub open spec fn after_lookup(lookup: LayerLookupView, found: Option<Seq<u8>>) -> LayerStepView {
    match lookup.stage {
        StageView::InputRecord => match blob_lookup(lookup, found) {
            Some(step) => step,
            None => content_lookup(lookup),
        },
        StageView::InputBlob(diff_id, blob_digest) => match found {
            Some(blob) => LayerStepView::Done(cached_layer(diff_id, blob_digest, blob)),
            None => content_lookup(lookup),
        },
        StageView::ContentRecord => match blob_lookup(lookup, found) {
            Some(step) => step,
            None => fresh_store(lookup),
        },
        StageView::ContentBlob(diff_id, blob_digest) => match found {
            Some(blob) => LayerStepView::Done(cached_layer(diff_id, blob_digest, blob)),
            None => fresh_store(lookup),
        },
    }
}

/// What follows once the first write is done: the next one, or the layer where there is none.
pub open spec fn after_store(store: LayerStoreView) -> LayerStepView {
    if store.writes.len() > 1 {
        LayerStepView::Store(LayerStoreView { writes: store.writes.skip(1), layer: store.layer })
    } else {
        LayerStepView::Done(store.layer)
    }
}

/// Whether what is stored is sound: it is not empty, it decompresses to the layer's archive, and
/// the records can be read back.
pub open spec fn is_sound_store(lookup: LayerLookupView, store: LayerStoreView) -> bool {
    &&& store.layer.blob.len() > 0
    &&& zstd_content(store.layer.blob) == Some(lookup.archive)
    &&& store.writes.len() == 3
    &&& recorded_digests(store.writes[1].1) == Some(
        (store.layer.diff_id, store.layer.blob_digest),
    )
}

/// The digests that a document holds.
pub fn digests_in(document: &Json) -> (digests: Option<(String, String)>)
    ensures
        match digests {
            Some((d, b)) => document_digests(document@) == Some((d@, b@)),
            None => document_digests(document@) is None,
        },
{
    match (document.get_text("diff_id"), document.get_text("blob_digest")) {
        (Some(diff_id), Some(blob_digest)) => Some((diff_id, blob_digest)),
        _ => None,
    }
}

/// The digests that a record of the cache holds.
fn read_record(record: &[u8]) -> (digests: Option<(String, String)>)
    ensures
        match digests {
            Some((d, b)) => recorded_digests(record@) == Some((d@, b@)),
            None => recorded_digests(record@) is None,
        },
{
    match parse_json(record) {
        Ok(document) => digests_in(&document),
        Err(_) => None,
    }
}

/// The record of a layer.
fn write_record(diff_id: &str, blob_digest: &str) -> (record: Result<Vec<u8>, serde_json::Error>)
    ensures
        record matches Ok(r) && r@ == json_rendered(layer_document(diff_id@, blob_digest@))
            && recorded_digests(r@) == Some((diff_id@, blob_digest@)),
{
    let mut members: Vec<(String, Json)> = Vec::new();
    members.push(("diff_id".to_owned(), Json::Text(diff_id.to_owned())));
    members.push(("blob_digest".to_owned(), Json::Text(blob_digest.to_owned())));
    let ghost all = members@;
    let document = Json::Object(members);
    proof {
        let one = all.drop_last();
        assert(one.drop_last() == Seq::<(String, Json)>::empty());
        assert(all.last().1@ == JsonView::Text(blob_digest@));
        assert(one.last().1@ == JsonView::Text(diff_id@));
        assert(members_view(one.drop_last()) == Map::<Seq<char>, JsonView>::empty());
        assert(members_view(one) == members_view(one.drop_last()).insert(
            "diff_id"@,
            JsonView::Text(diff_id@),
        ));
        assert(members_view(all) == members_view(one).insert(
            "blob_digest"@,
            JsonView::Text(blob_digest@),
        ));
        assert(document@ == layer_document(diff_id@, blob_digest@));
        reveal_strlit("diff_id");
        reveal_strlit("blob_digest");
        assert("diff_id"@[0] == 'd' && "blob_digest"@[0] == 'b');
        assert("diff_id"@.len() != "blob_digest"@.len());
        assert(text_member(document@, "diff_id"@) == Some(diff_id@));
        assert(text_member(document@, "blob_digest"@) == Some(blob_digest@));
    }
    render_json(&document)
}

/// The cache key of a layer's archive.
fn calculate_content_key(tar: &[u8]) -> (key: String)
    ensures
        key@ == content_key(tar@),
{
    let hash = sha256_of(tar);
    join("layer-content-", hex(hash.as_slice()).as_str())
}

impl LayerLookup {
    /// The key to look up in the cache.
    pub fn key(&self) -> (key: &str)
        ensures
            key@ == self@.key,
    {
        self.key.as_str()
    }

    /// The first lookup for a layer with this archive and these inputs.
    pub(crate) fn first(input_key: String, archive: Vec<u8>) -> (lookup: Self)
        ensures
            lookup@ == first_lookup(input_key@, archive@),
    {
        LayerLookup { key: input_key.clone(), stage: Stage::InputRecord, input_key, archive }
    }

    /// Goes on with what the cache holds for the key.
    pub fn resume(self, found: Option<Vec<u8>>) -> (step: Result<LayerStep, Error>)
        ensures
            ({
                let next = after_lookup(
                    self@,
                    match found {
                        Some(data) => Some(data@),
                        None => None,
                    },
                );
                step matches Ok(s) && s@ == next && (next matches LayerStepView::Store(store)
                    ==> is_sound_store(self@, store))
            }),
    {
        let LayerLookup { key: _, stage, input_key, archive } = self;
        match stage {
            Stage::InputRecord => {
                if let Some(record) = found {
                    if let Some((diff_id, blob_digest)) = read_record(record.as_slice()) {
                        return Ok(
                            LayerStep::Lookup(
                                LayerLookup {
                                    key: blob_digest.clone(),
                                    stage: Stage::InputBlob(diff_id, blob_digest),
                                    input_key,
                                    archive,
                                },
                            ),
                        );
                    }
                }
                search_content(input_key, archive)
            },
            Stage::InputBlob(diff_id, blob_digest) => match found {
                Some(blob) => Ok(LayerStep::Done(from_cache(diff_id, blob_digest, blob))),
                None => search_content(input_key, archive),
            },
            Stage::ContentRecord => {
                if let Some(record) = found {
                    if let Some((diff_id, blob_digest)) = read_record(record.as_slice()) {
                        return Ok(
                            LayerStep::Lookup(
                                LayerLookup {
                                    key: blob_digest.clone(),
                                    stage: Stage::ContentBlob(diff_id, blob_digest),
                                    input_key,
                                    archive,
                                },
                            ),
                        );
                    }
                }
                make_layer(input_key, archive)
            },
            Stage::ContentBlob(diff_id, blob_digest) => match found {
                Some(blob) => Ok(LayerStep::Done(from_cache(diff_id, blob_digest, blob))),
                None => make_layer(input_key, archive),
            },
        }
    }
}

/// The layer that the cache holds.
fn from_cache(diff_id: String, blob_digest: String, blob: Vec<u8>) -> (layer: Layer)
    ensures
        layer@ == cached_layer(diff_id@, blob_digest@, blob@),
{
    Layer { diff_id, blob_digest, media_type: IMAGE_LAYER_ZSTD_MEDIA_TYPE.to_owned(), blob }
}

/// Ends the archive and looks for a layer with this archive.
fn search_content(input_key: String, archive: Vec<u8>) -> (step: Result<LayerStep, Error>)
    ensures
        step matches Ok(LayerStep::Lookup(lookup)) && lookup@ == (LayerLookupView {
            key: content_key(archive@ + archive_end()),
            stage: StageView::ContentRecord,
            input_key: input_key@,
            archive: archive@ + archive_end(),
        }),
{
    match tar_finish(archive) {
        Ok(tar) => Ok(
            LayerStep::Lookup(
                LayerLookup {
                    key: calculate_content_key(tar.as_slice()),
                    stage: Stage::ContentRecord,
                    input_key,
                    archive: tar,
                },
            ),
        ),
        Err(source) => Err(
            Error::Io {
                message: "Failed to get underlying writer from tar builder".to_owned(),
                source,
            },
        ),
    }
}

/// The error for an archive that could not be compressed.
fn compress_error(failure: CompressFailure) -> (error: Error)
    ensures
        match failure {
            CompressFailure::Create(e) => is_io(error, "Failed to create zstd encoder"@, e),
            CompressFailure::Write(e) => is_io(
                error,
                "Failed to compress tar data with zstd"@,
                e,
            ),
            CompressFailure::Finish(e) => is_io(error, "Failed to finalize zstd stream"@, e),
        },
{
    match failure {
        CompressFailure::Create(source) => {
            Error::Io { message: "Failed to create zstd encoder".to_owned(), source }
        },
        CompressFailure::Write(source) => {
            Error::Io { message: "Failed to compress tar data with zstd".to_owned(), source }
        },
        CompressFailure::Finish(source) => {
            Error::Io { message: "Failed to finalize zstd stream".to_owned(), source }
        },
    }
}

/// Makes the layer with this archive.
fn make_layer(input_key: String, tar: Vec<u8>) -> (step: Result<LayerStep, Error>)
    ensures
        ({
            let blob = zstd_frame(tar@, COMPRESSION_LEVEL);
            let store = layer_store(input_key@, tar@, blob);
            &&& step matches Ok(s) && s@ == LayerStepView::Store(store)
            &&& zstd_content(blob) == Some(tar@)
            &&& blob.len() > 0
            &&& recorded_digests(store.writes[1].1) == Some(
                (store.layer.diff_id, store.layer.blob_digest),
            )
        }),
{
    let compressed = zstd_compress(tar.as_slice(), COMPRESSION_LEVEL);
    store_layer(input_key, tar, compressed)
}

/// The layer with this archive, where `compressed` is what its compression gave.
pub fn store_layer(
    input_key: String,
    tar: Vec<u8>,
    compressed: Result<Vec<u8>, CompressFailure>,
) -> (step: Result<LayerStep, Error>)
    ensures
        match compressed {
            Ok(blob) => {
                let store = layer_store(input_key@, tar@, blob@);
                &&& step matches Ok(s) && s@ == LayerStepView::Store(store)
                &&& recorded_digests(store.writes[1].1) == Some(
                    (store.layer.diff_id, store.layer.blob_digest),
                )
            },
            Err(CompressFailure::Create(e)) => step matches Err(error) && is_io(
                error,
                "Failed to create zstd encoder"@,
                e,
            ),
            Err(CompressFailure::Write(e)) => step matches Err(error) && is_io(
                error,
                "Failed to compress tar data with zstd"@,
                e,
            ),
            Err(CompressFailure::Finish(e)) => step matches Err(error) && is_io(
                error,
                "Failed to finalize zstd stream"@,
                e,
            ),
        },
{
    let blob = match compressed {
        Ok(blob) => blob,
        Err(failure) => {
            return Err(compress_error(failure));
        },
    };
    let content_key = calculate_content_key(tar.as_slice());
    let diff_id = content_digest(tar.as_slice());
    let blob_digest = content_digest(blob.as_slice());
    let record = match write_record(diff_id.as_str(), blob_digest.as_str()) {
        Ok(record) => record,
        Err(error) => {
            return Err(
                Error::Io {
                    message: "Failed to serialize layer metadata".to_owned(),
                    source: io_error_of(error),
                },
            );
        },
    };
    let mut rest: Vec<(String, Vec<u8>)> = Vec::new();
    rest.push((content_key, record.clone()));
    rest.push((input_key, record));
    let store = LayerStore {
        key: blob_digest.clone(),
        data: blob.clone(),
        rest,
        layer: Layer {
            diff_id,
            blob_digest,
            media_type: IMAGE_LAYER_ZSTD_MEDIA_TYPE.to_owned(),
            blob,
        },
    };
    assert(store@.writes =~= layer_store(input_key@, tar@, blob@).writes);
    Ok(LayerStep::Store(store))
}

/// A JSON error as an I/O error, by `std::io::Error::other`.
#[verifier::external_body]
fn io_error_of(error: serde_json::Error) -> std::io::Error {
    std::io::Error::other(error)
}

impl LayerStore {
    /// The key to store under.
    pub fn key(&self) -> (key: &str)
        ensures
            key@ == self@.writes[0].0,
    {
        self.key.as_str()
    }

    /// What to store.
    pub fn data(&self) -> (data: &Vec<u8>)
        ensures
            data@ == self@.writes[0].1,
    {
        &self.data
    }

    /// Goes on after it was stored.
    pub fn resume(self) -> (step: LayerStep)
        ensures
            step@ == after_store(self@),
    {
        let LayerStore { key: _, data: _, mut rest, layer } = self;
        if rest.len() == 0 {
            return LayerStep::Done(layer);
        }
        let ghost all = rest@;
        let (key, data) = rest.remove(0);
        let store = LayerStore { key, data, rest, layer };
        assert(store@.writes =~= writes_of(all));
        assert(self@.writes.skip(1) =~= writes_of(all));
        LayerStep::Store(store)
    }
}

/// A cache after some writes.
pub open spec fn with_writes(
    cache: Map<Seq<char>, Seq<u8>>,
    writes: Seq<(Seq<char>, Seq<u8>)>,
) -> Map<Seq<char>, Seq<u8>>
    decreases writes.len(),
{
    if writes.len() == 0 {
        cache
    } else {
        with_writes(cache, writes.drop_last()).insert(writes.last().0, writes.last().1)
    }
}

/// What a cache holds for a key.
pub open spec fn looked_up(cache: Map<Seq<char>, Seq<u8>>, key: Seq<char>) -> Option<Seq<u8>> {
    if cache.contains_key(key) {
        Some(cache[key])
    } else {
        None
    }
}

proof fn lemma_keys_differ(entries: Seq<FileEntry>, tar: Seq<u8>, blob: Seq<u8>)
    ensures
        input_key(entries) != content_key(tar),
        input_key(entries) != digest_of(blob),
        content_key(tar) != digest_of(blob),
{
    reveal_strlit("layer-input-");
    reveal_strlit("layer-content-");
    reveal_strlit("sha256:");
    assert(input_key(entries)[6] == 'i');
    assert(content_key(tar)[6] == 'c');
    assert(input_key(entries)[0] == 'l');
    assert(content_key(tar)[0] == 'l');
    assert(digest_of(blob)[0] == 's');
}

proof fn lemma_writes_in_turn(
    cache: Map<Seq<char>, Seq<u8>>,
    writes: Seq<(Seq<char>, Seq<u8>)>,
)
    requires
        writes.len() == 3,
    ensures
        with_writes(cache, writes) == cache.insert(writes[0].0, writes[0].1).insert(
            writes[1].0,
            writes[1].1,
        ).insert(writes[2].0, writes[2].1),
{
    let two = writes.drop_last();
    let one = two.drop_last();
    assert(with_writes(cache, one.drop_last()) == cache);
    assert(with_writes(cache, one) == cache.insert(writes[0].0, writes[0].1));
    assert(with_writes(cache, two) == with_writes(cache, one).insert(writes[1].0, writes[1].1));
}

proof fn lemma_three_writes(
    cache: Map<Seq<char>, Seq<u8>>,
    writes: Seq<(Seq<char>, Seq<u8>)>,
)
    requires
        writes.len() == 3,
        writes[0].0 != writes[1].0,
        writes[0].0 != writes[2].0,
        writes[1].0 != writes[2].0,
    ensures
        forall|i: int|
            0 <= i < 3 ==> looked_up(with_writes(cache, writes), (#[trigger] writes[i]).0) == Some(
                writes[i].1,
            ),
{
    lemma_writes_in_turn(cache, writes);
}

/// What was built is not built again: once a new layer is stored, a build with the same inputs
/// gets that layer from the cache by two lookups, whatever else the cache holds.
pub proof fn law_same_inputs_reuse_layer(
    cache: Map<Seq<char>, Seq<u8>>,
    entries: Seq<FileEntry>,
    made: LayerLookupView,
    store: LayerStoreView,
    again: LayerLookupView,
)
    requires
        made.input_key == input_key(entries),
        fresh_store(made) == LayerStepView::Store(store),
        is_sound_store(made, store),
        again.stage is InputRecord,
        again.key == input_key(entries),
    ensures
        ({
            let after = with_writes(cache, store.writes);
            after_lookup(again, looked_up(after, again.key)) matches LayerStepView::Lookup(second)
                && after_lookup(second, looked_up(after, second.key)) == LayerStepView::Done(
                store.layer,
            )
        }),
{
    lemma_keys_differ(entries, made.archive, zstd_frame(made.archive, COMPRESSION_LEVEL));
    lemma_three_writes(cache, store.writes);
    assert(looked_up(with_writes(cache, store.writes), store.writes[2].0) == Some(
        store.writes[2].1,
    ));
    assert(looked_up(with_writes(cache, store.writes), store.writes[0].0) == Some(
        store.writes[0].1,
    ));
}

/// A build that comes to the same archive from other inputs gets the stored layer too, by the
/// record for the archive.
pub proof fn law_same_content_reuses_layer(
    cache: Map<Seq<char>, Seq<u8>>,
    entries: Seq<FileEntry>,
    made: LayerLookupView,
    store: LayerStoreView,
    again: LayerLookupView,
)
    requires
        made.input_key == input_key(entries),
        fresh_store(made) == LayerStepView::Store(store),
        is_sound_store(made, store),
        again.stage is ContentRecord,
        again.archive == made.archive,
        again.key == content_key(again.archive),
    ensures
        ({
            let after = with_writes(cache, store.writes);
            after_lookup(again, looked_up(after, again.key)) matches LayerStepView::Lookup(second)
                && after_lookup(second, looked_up(after, second.key)) == LayerStepView::Done(
                store.layer,
            )
        }),
{
    lemma_keys_differ(entries, made.archive, zstd_frame(made.archive, COMPRESSION_LEVEL));
    lemma_three_writes(cache, store.writes);
    assert(looked_up(with_writes(cache, store.writes), store.writes[1].0) == Some(
        store.writes[1].1,
    ));
    assert(looked_up(with_writes(cache, store.writes), store.writes[0].0) == Some(
        store.writes[0].1,
    ));
}

/// With nothing in the cache, a layer is made after two lookups: one for the inputs, one for the
/// archive.
pub proof fn law_empty_cache_makes_layer(first: LayerLookupView)
    requires
        first.stage is InputRecord,
    ensures
        after_lookup(first, None) matches LayerStepView::Lookup(second) && after_lookup(
            second,
            None,
        ) matches LayerStepView::Store(store) && store.layer == fresh_layer(
            first.archive + archive_end(),
        ),
{
}

/// A step of a build with a cache that reads and writes without failure, and the cache after it.
pub open spec fn cached_step(
    step: LayerStepView,
    cache: Map<Seq<char>, Seq<u8>>,
) -> (LayerStepView, Map<Seq<char>, Seq<u8>>) {
    match step {
        LayerStepView::Lookup(lookup) => (
            after_lookup(lookup, looked_up(cache, lookup.key)),
            cache,
        ),
        LayerStepView::Store(store) => (
            after_store(store),
            cache.insert(store.writes[0].0, store.writes[0].1),
        ),
        LayerStepView::Done(layer) => (step, cache),
    }
}

/// Some steps of a build with a cache that reads and writes without failure.
pub open spec fn cached_steps(
    step: LayerStepView,
    cache: Map<Seq<char>, Seq<u8>>,
    count: nat,
) -> (LayerStepView, Map<Seq<char>, Seq<u8>>)
    decreases count,
{
    if count == 0 {
        (step, cache)
    } else {
        let (next, after) = cached_step(step, cache);
        cached_steps(next, after, (count - 1) as nat)
    }
}

/// The most steps that a build takes: four lookups and three writes.
pub open spec fn most_steps() -> nat {
    7
}

/// A build from its start to its end.
pub open spec fn whole_build(
    entries: Seq<FileEntry>,
    archive: Seq<u8>,
    cache: Map<Seq<char>, Seq<u8>>,
) -> (LayerStepView, Map<Seq<char>, Seq<u8>>) {
    cached_steps(
        LayerStepView::Lookup(first_lookup(input_key(entries), archive)),
        cache,
        most_steps(),
    )
}

/// What is stored where a build finds nothing.
pub open spec fn new_store(entries: Seq<FileEntry>, archive: Seq<u8>) -> LayerStoreView {
    let tar = archive + archive_end();
    layer_store(input_key(entries), tar, zstd_frame(tar, COMPRESSION_LEVEL))
}

/// The search for a layer by its archive.
pub open spec fn content_search(entries: Seq<FileEntry>, archive: Seq<u8>) -> LayerLookupView {
    let tar = archive + archive_end();
    LayerLookupView {
        key: content_key(tar),
        stage: StageView::ContentRecord,
        input_key: input_key(entries),
        archive: tar,
    }
}

/// The layer that a cache holds under the key of a record; none where there is no record, where it
/// cannot be read, or where the compressed archive that it names is gone.
pub open spec fn usable_layer(cache: Map<Seq<char>, Seq<u8>>, key: Seq<char>) -> Option<
    LayerView,
> {
    match looked_up(cache, key) {
        Some(record) => match recorded_digests(record) {
            Some((diff_id, blob_digest)) => match looked_up(cache, blob_digest) {
                Some(blob) => Some(cached_layer(diff_id, blob_digest, blob)),
                None => None,
            },
            None => None,
        },
        None => None,
    }
}

/// Whether a cache holds no layer that a build can use.
pub open spec fn finds_nothing(
    entries: Seq<FileEntry>,
    archive: Seq<u8>,
    cache: Map<Seq<char>, Seq<u8>>,
) -> bool {
    usable_layer(cache, input_key(entries)) is None && usable_layer(
        cache,
        content_key(archive + archive_end()),
    ) is None
}

/// Every build gives a layer, where the cache reads and writes without failure.
///
/// It is the layer that the cache holds for the inputs, or else for the archive. Where neither can
/// be used, it is made of the archive; then the cache holds it with a record for either key.
pub proof fn law_every_build_gives_a_layer(
    entries: Seq<FileEntry>,
    archive: Seq<u8>,
    cache: Map<Seq<char>, Seq<u8>>,
)
    requires
        finds_nothing(entries, archive, cache) ==> is_sound_store(
            content_search(entries, archive),
            new_store(entries, archive),
        ),
    ensures
        ({
            let tar = archive + archive_end();
            let (end, after) = whole_build(entries, archive, cache);
            match (usable_layer(cache, input_key(entries)), usable_layer(cache, content_key(tar))) {
                (Some(layer), _) => end == LayerStepView::Done(layer) && after == cache,
                (None, Some(layer)) => end == LayerStepView::Done(layer) && after == cache,
                (None, None) => {
                    &&& end == LayerStepView::Done(fresh_layer(tar))
                    &&& after == with_writes(cache, new_store(entries, archive).writes)
                    &&& usable_layer(after, input_key(entries)) == Some(fresh_layer(tar))
                    &&& usable_layer(after, content_key(tar)) == Some(fresh_layer(tar))
                },
            }
        }),
{
    let tar = archive + archive_end();
    let store = new_store(entries, archive);
    reveal_with_fuel(cached_steps, 8);
    lemma_keys_differ(entries, tar, zstd_frame(tar, COMPRESSION_LEVEL));
    lemma_writes_in_turn(cache, store.writes);
    assert(store.writes.skip(1)[0] == store.writes[1]);
    assert(store.writes.skip(1).skip(1)[0] == store.writes[2]);
}

/// Whether a key is one under which layers are recorded.
pub open spec fn is_record_key(key: Seq<char>) -> bool {
    "layer-"@.is_prefix_of(key)
}

/// Whether a record is of a layer that this library made, and the cache holds that layer under its
/// digest, or nothing.
pub open spec fn is_own_record(
    cache: Map<Seq<char>, Seq<u8>>,
    diff_id: Seq<char>,
    blob_digest: Seq<char>,
    tar: Seq<u8>,
) -> bool {
    let blob = zstd_frame(tar, COMPRESSION_LEVEL);
    &&& diff_id == digest_of(tar)
    &&& blob_digest == digest_of(blob)
    &&& zstd_content(blob) == Some(tar)
    &&& blob.len() > 0
    &&& cache.contains_key(blob_digest) ==> cache[blob_digest] == blob
}

/// Whether all records of layers in a cache are of layers that this library made.
pub open spec fn is_own_cache(cache: Map<Seq<char>, Seq<u8>>) -> bool {
    forall|key: Seq<char>|
        #![trigger cache[key]]
        cache.contains_key(key) && is_record_key(key) ==> (recorded_digests(
            cache[key],
        ) matches Some((diff_id, blob_digest)) ==> exists|tar: Seq<u8>|
            is_own_record(cache, diff_id, blob_digest, tar))
}

proof fn lemma_record_keys(entries: Seq<FileEntry>, tar: Seq<u8>, blob: Seq<u8>)
    ensures
        is_record_key(input_key(entries)),
        is_record_key(content_key(tar)),
        !is_record_key(digest_of(blob)),
{
    reveal_strlit("layer-");
    reveal_strlit("layer-input-");
    reveal_strlit("layer-content-");
    reveal_strlit("sha256:");
    assert("layer-"@[0] == 'l');
    assert(digest_of(blob)[0] == 's');
}

/// The digests of a layer agree with it, whether it was made or found in a cache whose records are
/// all of layers that this library made: they are the digests of the compressed archive and of what
/// that decompresses to. The compressed archive is not empty, and the cache holds it.
pub proof fn law_layer_digests_agree(
    entries: Seq<FileEntry>,
    archive: Seq<u8>,
    cache: Map<Seq<char>, Seq<u8>>,
)
    requires
        finds_nothing(entries, archive, cache) ==> is_sound_store(
            content_search(entries, archive),
            new_store(entries, archive),
        ),
        is_own_cache(cache),
    ensures
        ({
            let (end, after) = whole_build(entries, archive, cache);
            &&& end matches LayerStepView::Done(layer)
            &&& layer.blob_digest == digest_of(layer.blob)
            &&& zstd_content(layer.blob) matches Some(tar) && layer.diff_id == digest_of(tar)
            &&& layer.media_type == IMAGE_LAYER_ZSTD_MEDIA_TYPE@
            &&& layer.blob.len() > 0
            &&& looked_up(after, layer.blob_digest) == Some(layer.blob)
        }),
{
    let tar = archive + archive_end();
    law_every_build_gives_a_layer(entries, archive, cache);
    lemma_record_keys(entries, tar, tar);
}

/// A cache whose records are all of layers that this library made stays one with every build, as
/// long as no record names the new compressed archive for another archive. It starts as one: empty.
pub proof fn law_builds_keep_the_cache_own(
    entries: Seq<FileEntry>,
    archive: Seq<u8>,
    cache: Map<Seq<char>, Seq<u8>>,
)
    requires
        finds_nothing(entries, archive, cache) ==> is_sound_store(
            content_search(entries, archive),
            new_store(entries, archive),
        ),
        is_own_cache(cache),
        finds_nothing(entries, archive, cache) ==> forall|key: Seq<char>|
            #![trigger cache[key]]
            cache.contains_key(key) && is_record_key(key) ==> (recorded_digests(
                cache[key],
            ) matches Some((diff_id, blob_digest)) ==> blob_digest == new_store(
                entries,
                archive,
            ).layer.blob_digest ==> diff_id == new_store(entries, archive).layer.diff_id),
    ensures
        is_own_cache(Map::empty()),
        is_own_cache(whole_build(entries, archive, cache).1),
{
    let tar = archive + archive_end();
    let store = new_store(entries, archive);
    let blob = store.layer.blob;
    let after = whole_build(entries, archive, cache).1;
    law_every_build_gives_a_layer(entries, archive, cache);
    lemma_record_keys(entries, tar, blob);
    if after != cache {
        lemma_keys_differ(entries, tar, blob);
        lemma_writes_in_turn(cache, store.writes);
        assert(is_own_record(after, digest_of(tar), digest_of(blob), tar));
        assert forall|key: Seq<char>|
            #![trigger after[key]]
            after.contains_key(key) && is_record_key(key) implies (recorded_digests(
            after[key],
        ) matches Some((diff_id, blob_digest)) ==> exists|t: Seq<u8>|
            is_own_record(after, diff_id, blob_digest, t)) by {
            if recorded_digests(after[key]) is Some {
                let (diff_id, blob_digest) = recorded_digests(after[key])->0;
                lemma_other_keys(cache, store.writes, key);
                if key == store.writes[1].0 || key == store.writes[2].0 {
                    assert(is_own_record(after, diff_id, blob_digest, tar));
                } else {
                    assert(cache.contains_key(key) && cache[key] == after[key]);
                    let t = choose|t: Seq<u8>| is_own_record(cache, diff_id, blob_digest, t);
                    if blob_digest == store.layer.blob_digest {
                        assert(is_own_record(after, diff_id, blob_digest, tar));
                    } else {
                        lemma_record_keys(entries, tar, zstd_frame(t, COMPRESSION_LEVEL));
                        lemma_other_keys(cache, store.writes, blob_digest);
                        assert(is_own_record(after, diff_id, blob_digest, t));
                    }
                }
            }
        }
    }
}

proof fn lemma_other_keys(
    cache: Map<Seq<char>, Seq<u8>>,
    writes: Seq<(Seq<char>, Seq<u8>)>,
    key: Seq<char>,
)
    requires
        writes.len() == 3,
    ensures
        key != writes[0].0 && key != writes[1].0 && key != writes[2].0 ==> looked_up(
            with_writes(cache, writes),
            key,
        ) == looked_up(cache, key),
{
    lemma_writes_in_turn(cache, writes);
}

} // verus!

use vstd::prelude::*;

use crate::config::{ImageFields, ImageSettings, ProcessFields};
use crate::derive::{parse_reference, platforms_of};
use crate::error::{
    is_bad_json, is_bad_reference, is_cache, is_generic, is_image_pull, is_invalid_path, is_io,
    is_io_saying, is_oci_archive, Cause, Error,
};
use crate::image::{
    ClientProtocol, LayerBlob, MonolithicPushPolicy, PullPolicy, PushOptions, PushProgressInfo,
    RegistryAuth,
};
use crate::image_builder::PullAndExtractOptions;
use crate::json::{items_view, member, members_view, text_member, Json, JsonView};
use crate::layer_input::{entries_of, FileMetadata};
use crate::manifest::{
    canonical_image_index, canonical_image_manifest, canonical_manifest_bytes, descriptors_of,
    index_entries_of, Descriptor, ImageIndex, ImageManifest, IndexEntry, Manifest, Platform,
};
use crate::push::{digests_of, layer_blobs, reports_of};
use crate::reference::{parsed_reference, ImageReference};
use crate::remote::{RemoteDeriveOptions, RemoteDerivedImage, RemotePlatform};
use crate::text::{join, join3, same_text, text_of, texts, texts_of};

verus! {

/// What is said of a platform is its operating system, its architecture and its variant; in an
/// index also its version and its features.
pub proof fn law_contents_of_platforms(asked: RemotePlatform, listed: Platform)
    ensures
        asked@.os == asked.os@,
        asked@.architecture == asked.architecture@,
        asked@.variant == text_of(asked.variant),
        listed@.os == listed.os@,
        listed@.architecture == listed.architecture@,
        listed@.os_version == text_of(listed.os_version),
        listed@.os_features == texts_of(listed.os_features),
        listed@.variant == text_of(listed.variant),
        listed@.features == texts_of(listed.features),
{
}

/// What is said of a blob and of an image in an index is what their fields hold.
pub proof fn law_contents_of_descriptors(blob: Descriptor, entry: IndexEntry)
    ensures
        blob@.media_type == blob.media_type@,
        blob@.digest == blob.digest@,
        blob@.size == blob.size,
        blob@.urls == texts_of(blob.urls),
        blob@.annotations is Some == blob.annotations is Some,
        blob.annotations is Some ==> blob@.annotations->0 == blob.annotations->0@,
        entry@.media_type == entry.media_type@,
        entry@.digest == entry.digest@,
        entry@.size == entry.size,
        entry@.platform is Some == entry.platform is Some,
        entry.platform is Some ==> entry@.platform->0 == entry.platform->0@,
        entry@.annotations is Some == entry.annotations is Some,
        entry.annotations is Some ==> entry@.annotations->0 == entry.annotations->0@,
{
}

/// What is said of an image and of an index is what the fields of their manifests hold: the layers
/// and the images in their order.
pub proof fn law_contents_of_manifests(image: ImageManifest, index: ImageIndex)
    ensures
        image@.schema_version == image.schema_version,
        image@.media_type == text_of(image.media_type),
        image@.config == image.config@,
        image@.layers.len() == image.layers@.len(),
        forall|i: int|
            0 <= i < image.layers@.len() ==> #[trigger] image@.layers[i] == image.layers@[i]@,
        image@.subject is Some == image.subject is Some,
        image.subject is Some ==> image@.subject->0 == image.subject->0@,
        image@.artifact_type == text_of(image.artifact_type),
        image@.annotations is Some == image.annotations is Some,
        image.annotations is Some ==> image@.annotations->0 == image.annotations->0@,
        index@.schema_version == index.schema_version,
        index@.media_type == text_of(index.media_type),
        index@.manifests.len() == index.manifests@.len(),
        forall|i: int|
            0 <= i < index.manifests@.len() ==> #[trigger] index@.manifests[i]
                == index.manifests@[i]@,
        index@.artifact_type == text_of(index.artifact_type),
        index@.annotations is Some == index.annotations is Some,
        index.annotations is Some ==> index@.annotations->0 == index.annotations->0@,
{
}

/// A manifest is written in the canonical JSON of what it is: an image or an index.
pub proof fn law_manifest_is_written_as_what_it_is(
    manifest: Manifest,
    bytes: Result<Vec<u8>, Error>,
)
    requires
        call_ensures(canonical_manifest_bytes, (manifest,), bytes),
    ensures
        bytes is Ok,
        manifest matches Manifest::Image(image) ==> bytes->Ok_0@ == canonical_image_manifest(
            image@,
        ),
        manifest matches Manifest::ImageIndex(index) ==> bytes->Ok_0@ == canonical_image_index(
            index@,
        ),
{
}

/// What is said of a configuration, and what is written into one, is what the fields hold.
pub proof fn law_contents_of_configurations(
    fields: ImageFields,
    process: ProcessFields,
    settings: ImageSettings,
)
    ensures
        fields@.os == fields.os@,
        fields@.architecture == fields.architecture@,
        fields@.diff_ids == texts(fields.diff_ids@),
        fields@.process is Some == fields.process is Some,
        fields.process is Some ==> fields@.process->0 == fields.process->0@,
        process@.entrypoint == texts_of(process.entrypoint),
        process@.cmd == texts_of(process.cmd),
        process@.working_dir == text_of(process.working_dir),
        process@.env == texts_of(process.env),
        process@.user == text_of(process.user),
        settings@.os == settings.os@,
        settings@.architecture == settings.architecture@,
        settings@.diff_ids == texts(settings.diff_ids@),
        settings@.entrypoint == texts_of(settings.entrypoint),
        settings@.cmd == texts_of(settings.cmd),
        settings@.working_dir == text_of(settings.working_dir),
{
}

/// What is said of a reference, of a file and of a derived image is what their fields hold.
pub proof fn law_contents_of_references(
    reference: ImageReference,
    file: FileMetadata,
    derived: RemoteDerivedImage,
)
    ensures
        reference@.registry == reference.registry@,
        reference@.resolved_registry == reference.resolved_registry@,
        reference@.repository == reference.repository@,
        reference@.tag == text_of(reference.tag),
        reference@.digest == text_of(reference.digest),
        reference@.whole == reference.whole@,
        file@.archive_path == file.archive_path@,
        file@.size == file.size,
        file@.mtime == file.mtime,
        file@.mode == file.mode,
        file@.is_dir == file.is_dir,
        file@.content_hash is Some == file.content_hash is Some,
        file.content_hash is Some ==> file@.content_hash->0 == file.content_hash->0@,
        derived@.reference == derived.reference@,
        derived@.digest == derived.digest@,
        derived@.base_layer_bytes_downloaded == derived.base_layer_bytes_downloaded,
        derived@.bytes_uploaded == derived.bytes_uploaded,
{
}

/// What is said of progress is what a report holds.
pub proof fn law_contents_of_reports(report: PushProgressInfo)
    ensures
        report@.operation == report.operation@,
        report@.layers_uploaded == report.layers_uploaded,
        report@.total_layers == report.total_layers,
        report@.bytes_uploaded == report.bytes_uploaded,
        report@.total_bytes == report.total_bytes,
{
}

/// The contents of lists are those of their members, in their order.
pub proof fn law_contents_of_lists(
    descriptors: Seq<Descriptor>,
    entries: Seq<IndexEntry>,
    platforms: Seq<RemotePlatform>,
    layers: Seq<LayerBlob>,
    reports: Seq<PushProgressInfo>,
    files: Seq<FileMetadata>,
    i: int,
)
    ensures
        descriptors_of(descriptors).len() == descriptors.len(),
        0 <= i < descriptors.len() ==> descriptors_of(descriptors)[i] == descriptors[i]@,
        index_entries_of(entries).len() == entries.len(),
        0 <= i < entries.len() ==> index_entries_of(entries)[i] == entries[i]@,
        platforms_of(platforms).len() == platforms.len(),
        0 <= i < platforms.len() ==> platforms_of(platforms)[i] == platforms[i]@,
        digests_of(layers).len() == layers.len(),
        0 <= i < layers.len() ==> digests_of(layers)[i] == layers[i].digest@,
        layer_blobs(layers).len() == layers.len(),
        0 <= i < layers.len() ==> layer_blobs(layers)[i] == layers[i].blob@,
        reports_of(reports).len() == reports.len(),
        0 <= i < reports.len() ==> reports_of(reports)[i] == reports[i]@,
        entries_of(files).len() == files.len(),
        0 <= i < files.len() ==> entries_of(files)[i] == files[i]@,
{
}

/// A member of a document is what the document says under its name. Where a name occurs twice, the
/// later one counts; what is no object has no members.
pub proof fn law_members_of_a_document(
    members: Vec<(String, Json)>,
    name: String,
    value: Json,
    key: Seq<char>,
    items: Seq<Json>,
)
    ensures
        member(Json::Object(members)@, key) == (if members_view(members@).contains_key(key) {
            Some(members_view(members@)[key])
        } else {
            None
        }),
        members_view(Seq::empty()) == Map::<Seq<char>, JsonView>::empty(),
        members_view(members@.push((name, value)))[name@] == value@,
        key != name@ ==> members_view(members@.push((name, value))).contains_key(key)
            == members_view(members@).contains_key(key),
        key != name@ && members_view(members@).contains_key(key) ==> members_view(
            members@.push((name, value)),
        )[key] == members_view(members@)[key],
        items_view(items.push(value)) == items_view(items).push(value@),
        items_view(Seq::empty()).len() == 0,
        member(JsonView::Null, key) is None,
        member(JsonView::Text(key), key) is None,
        member(JsonView::List(Seq::empty()), key) is None,
        text_member(Json::Object(members)@, key) is Some <==> members_view(members@).contains_key(
            key,
        ) && members_view(members@)[key] is Text,
        text_member(Json::Object(members)@, key) is Some ==> members_view(members@)[key]
            == JsonView::Text(text_member(Json::Object(members)@, key)->0),
        Json::Text(name)@ == JsonView::Text(name@),
{
    assert(members@.push((name, value)).drop_last() =~= members@);
    assert(items.push(value).drop_last() =~= items);
}

/// An error is of its kind, says what it says, and keeps its cause.
pub proof fn law_errors_say_what_they_say(
    error: Error,
    text: Seq<char>,
    cause: Option<Cause>,
    io: std::io::Error,
    image: Seq<char>,
)
    ensures
        is_generic(error, text, cause) ==> error is Generic && error->Generic_message@ == text
            && error->Generic_source == cause,
        is_io(error, text, io) ==> error is Io && error->Io_message@ == text && error->Io_source
            == io,
        is_io_saying(error, text) ==> error is Io && error->Io_message@ == text,
        is_image_pull(error, image, text, cause) ==> error is ImagePull && error->ImagePull_message@
            == text && error->ImagePull_source == cause && error->ImagePull_image_ref@ == image,
        is_bad_json(error, text) ==> error is ImageConfig && error->ImageConfig_message@ == text
            && error->ImageConfig_source is Some && error->ImageConfig_source->0 is Json,
        is_bad_reference(error, text) ==> error is Generic && error->Generic_message@ == text
            && error->Generic_source is Some && error->Generic_source->0 is Reference,
        is_oci_archive(error, text, cause) ==> error is OciArchive && error->OciArchive_message@
            == text && error->OciArchive_source == cause,
        is_cache(error, text, cause) ==> error is Cache && error->Cache_message@ == text
            && error->Cache_source == cause,
        is_invalid_path(error, text) ==> error is InvalidPath && error->InvalidPath_message@
            == text,
{
}

/// A reference is what parsing its text gives; what cannot be parsed is an error that says what it
/// was for and what it was.
pub proof fn law_reference_is_parsed(
    value: &str,
    kind: &str,
    reference: Result<ImageReference, Error>,
)
    requires
        call_ensures(parse_reference, (value, kind), reference),
    ensures
        reference is Ok == parsed_reference(value@) is Ok,
        reference matches Ok(r) ==> r@ == parsed_reference(value@)->Ok_0,
        reference matches Err(error) ==> error is Generic && error->Generic_message@ == "Invalid "@
            + kind@ + " image reference '"@ + value@ + "'"@,
{
}

/// Each way to upload sets what it is named for and leaves the rest; by default blobs are uploaded
/// as the registry needs it, anonymously and by HTTPS.
pub proof fn law_push_options(
    before: PushOptions,
    whole: PushOptions,
    chunked: PushOptions,
    auto: PushOptions,
    copy: PushOptions,
)
    requires
        call_ensures(PushOptions::with_monolithic_push, (before,), whole),
        call_ensures(PushOptions::with_chunked_upload, (before,), chunked),
        call_ensures(PushOptions::with_auto_push_mode, (before,), auto),
        call_ensures(PushOptions::clone, (&before,), copy),
    ensures
        whole.monolithic_push == MonolithicPushPolicy::Always,
        chunked.monolithic_push == MonolithicPushPolicy::Never,
        auto.monolithic_push == MonolithicPushPolicy::Auto,
        whole.auth == before.auth && whole.protocol == before.protocol,
        chunked.auth == before.auth && chunked.protocol == before.protocol,
        auto.auth == before.auth && auto.protocol == before.protocol,
        copy.auth@ == before.auth@ && copy.protocol@ == before.protocol@,
        copy.monolithic_push == before.monolithic_push,
{
}

/// What a login and a protocol hold is what was given.
pub proof fn law_contents_of_logins(user: String, password: String, hosts: Vec<String>)
    ensures
        RegistryAuth::Anonymous@ is Anonymous,
        RegistryAuth::Basic(user, password)@ is Basic,
        RegistryAuth::Basic(user, password)@->Basic_0 == user@,
        RegistryAuth::Basic(user, password)@->Basic_1 == password@,
        RegistryAuth::Bearer(user)@ is Bearer,
        RegistryAuth::Bearer(user)@->Bearer_0 == user@,
        ClientProtocol::Http@ is Http,
        ClientProtocol::Https@ is Https,
        ClientProtocol::HttpsExcept(hosts)@ is HttpsExcept,
        ClientProtocol::HttpsExcept(hosts)@->HttpsExcept_0 == texts(hosts@),
{
}

/// By default blobs are uploaded as the registry needs it, manifests are pulled only where the
/// cache does not have them, the login is anonymous and the protocol is HTTPS.
pub proof fn law_defaults(
    upload: MonolithicPushPolicy,
    pull: PullPolicy,
    push: PushOptions,
    derive: RemoteDeriveOptions,
    extract: PullAndExtractOptions,
)
    requires
        call_ensures(MonolithicPushPolicy::default, (), upload),
        call_ensures(PullPolicy::default, (), pull),
        call_ensures(PushOptions::default, (), push),
        call_ensures(RemoteDeriveOptions::default, (), derive),
        call_ensures(PullAndExtractOptions::default, (), extract),
    ensures
        upload == MonolithicPushPolicy::Auto,
        pull == PullPolicy::Missing,
        push.auth is Anonymous && push.protocol is Https,
        push.monolithic_push == MonolithicPushPolicy::Auto,
        derive.source_auth is Anonymous && derive.target_auth is Anonymous,
        derive.protocol is Https,
        derive.monolithic_push == MonolithicPushPolicy::Auto,
        extract.platform_os is None && extract.platform_arch is None,
        extract.pull_policy == PullPolicy::Missing,
        extract.blob_cache is None && extract.auth is None,
{
}

/// A member is read by its name, and its text where it is one.
pub proof fn law_members_are_read_by_name(
    document: &Json,
    key: &str,
    found: Option<&Json>,
    text: Option<String>,
)
    requires
        call_ensures(Json::get, (document, key), found),
        call_ensures(Json::get_text, (document, key), text),
    ensures
        found is Some == member(document@, key@) is Some,
        found is Some ==> member(document@, key@) == Some((*found->0)@),
        text is Some <==> found is Some && (*found->0)@ is Text,
        text is Some ==> (*found->0)@ == JsonView::Text(text->0@),
{
}

/// Texts are joined in their order, and two are the same if their characters are.
pub proof fn law_texts_are_joined(
    a: &str,
    b: &str,
    c: &str,
    two: String,
    three: String,
    same: bool,
)
    requires
        call_ensures(join, (a, b), two),
        call_ensures(join3, (a, b, c), three),
        call_ensures(same_text, (a, b), same),
    ensures
        two@ == a@ + b@,
        three@ == a@ + b@ + c@,
        same <==> a@ == b@,
{
}

} // verus!

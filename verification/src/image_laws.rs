use vstd::prelude::*;

use crate::blobcache::{BlobCache, CacheFailure};
use crate::compress::{gzip_content, zstd_content};
use crate::config::{configuration_fields, ProcessFields};
use crate::error::{Cause, Error, ErrorCode};
use crate::image::{
    archive_error, determine_registry_auth, determine_use_monolithic_push,
    is_registry_requiring_monolithic_push, layer_compression, metadata_of, ArchiveContents,
    ArchiveFailure, Compression, Extraction, Image, ImageMetadata, LayerArchive, LayerBlob,
    MonolithicPushPolicy, RegistryAuth,
};
use crate::text::{ends_with, text_of, texts};

verus! {

/// The command that an image runs is its entrypoint, then its command; one that is absent adds
/// nothing.
pub proof fn law_runtime_command(metadata: ImageMetadata, command: Vec<String>)
    requires
        call_ensures(ImageMetadata::runtime_command, (&metadata,), command),
    ensures
        metadata.entrypoint is None && metadata.cmd is None ==> command@.len() == 0,
        metadata.entrypoint is Some && metadata.cmd is None ==> texts(command@) == texts(
            metadata.entrypoint->0@,
        ),
        metadata.entrypoint is None && metadata.cmd is Some ==> texts(command@) == texts(
            metadata.cmd->0@,
        ),
        metadata.entrypoint is Some && metadata.cmd is Some ==> texts(command@) == texts(
            metadata.entrypoint->0@,
        ) + texts(metadata.cmd->0@),
{
    let whole = texts(command@);
    assert(whole.len() == command@.len());
    if metadata.entrypoint is None && metadata.cmd is Some {
        assert(whole =~= texts(metadata.cmd->0@));
    }
    if metadata.cmd is None && metadata.entrypoint is Some {
        assert(whole =~= texts(metadata.entrypoint->0@));
    }
}

/// What is known of running an image is what its configuration says of the process, and nothing
/// where it says nothing of it.
pub proof fn law_metadata_is_that_of_the_process(
    process: Option<ProcessFields>,
    metadata: ImageMetadata,
)
    requires
        call_ensures(metadata_of, (process,), metadata),
    ensures
        process is None ==> metadata.entrypoint is None && metadata.cmd is None
            && metadata.working_dir is None,
        process matches Some(p) ==> {
            &&& metadata.entrypoint is Some == p.entrypoint is Some
            &&& p.entrypoint is Some ==> texts(metadata.entrypoint->0@) == texts(p.entrypoint->0@)
            &&& metadata.cmd is Some == p.cmd is Some
            &&& p.cmd is Some ==> texts(metadata.cmd->0@) == texts(p.cmd->0@)
            &&& text_of(metadata.working_dir) == text_of(p.working_dir)
        },
{
}

/// A login by user name and password is made if and only if both are given and neither is empty,
/// with these two; else the login is anonymous.
pub proof fn law_login_takes_both_or_none(
    username: Option<String>,
    password: Option<String>,
    auth: RegistryAuth,
)
    requires
        call_ensures(determine_registry_auth, (username, password), auth),
    ensures
        match auth {
            RegistryAuth::Basic(u, p) => username is Some && password is Some && u@
                == username->0@ && p@ == password->0@ && u@.len() > 0 && p@.len() > 0,
            RegistryAuth::Anonymous => username is None || password is None
                || username->0@.len() == 0 || password->0@.len() == 0,
            RegistryAuth::Bearer(_) => false,
        },
{
}

/// The registries that take blobs only in one request are `gcr.io`, those below it, and those of
/// the Artifact Registry.
pub proof fn law_google_registries_take_one_request(host: &str, monolithic: bool)
    requires
        call_ensures(is_registry_requiring_monolithic_push, (host,), monolithic),
    ensures
        monolithic <==> {
            ||| host@ == "gcr.io"@
            ||| exists|front: Seq<char>| host@ == #[trigger] (front + ".gcr.io"@)
            ||| exists|front: Seq<char>| host@ == #[trigger] (front + "-docker.pkg.dev"@)
        },
{
    lemma_suffix(host@, ".gcr.io"@);
    lemma_suffix(host@, "-docker.pkg.dev"@);
}

proof fn lemma_suffix(text: Seq<char>, suffix: Seq<char>)
    ensures
        ends_with(text, suffix) <==> exists|front: Seq<char>| text == #[trigger] (front + suffix),
{
    if ends_with(text, suffix) {
        let front = text.take(text.len() - suffix.len());
        assert(text =~= front + suffix);
    }
    if exists|front: Seq<char>| text == #[trigger] (front + suffix) {
        let front = choose|front: Seq<char>| text == #[trigger] (front + suffix);
        assert(text.skip(text.len() - suffix.len()) =~= suffix);
    }
}

/// A policy that was set decides on how blobs are uploaded, whatever the registry; without one, the
/// registry decides.
pub proof fn law_policy_decides_on_uploads(
    policy: MonolithicPushPolicy,
    host: &str,
    monolithic: bool,
    needed: bool,
)
    requires
        call_ensures(determine_use_monolithic_push, (&policy, host), monolithic),
        call_ensures(is_registry_requiring_monolithic_push, (host,), needed),
    ensures
        policy == MonolithicPushPolicy::Always ==> monolithic,
        policy == MonolithicPushPolicy::Never ==> !monolithic,
        policy == MonolithicPushPolicy::Auto ==> monolithic == needed,
{
}

/// The error for an archive that could not be read says what could not be read, names the archive
/// where it is all of it, and keeps the words of the failure.
pub proof fn law_archive_error_says_why(path: &str, failure: ArchiveFailure, error: Error)
    requires
        call_ensures(archive_error, (path, failure), error),
    ensures
        error matches Error::OciArchive { message, source: Some(Cause::Text(why)) } && {
            &&& failure matches ArchiveFailure::Load(w) ==> why == w && message@
                == "Failed to load OCI artifact from "@ + path@
            &&& failure matches ArchiveFailure::Config(w) ==> why == w && message@
                == "Failed to get config from OCI artifact"@
            &&& failure matches ArchiveFailure::Manifest(w) ==> why == w && message@
                == "Failed to get manifest from OCI artifact"@
            &&& failure matches ArchiveFailure::Layers(w) ==> why == w && message@
                == "Failed to get layers from OCI artifact"@
        },
{
}

/// An archive is an image if and only if it is there and the digest of its configuration could be
/// read; the image then lies at that path and has that digest.
pub proof fn law_archive_is_loaded(
    path: &str,
    is_there: bool,
    digest: Result<String, ArchiveFailure>,
    image: Result<Image, Error>,
)
    requires
        call_ensures(Image::from_tarball, (path, is_there, digest), image),
    ensures
        image is Ok == (is_there && digest is Ok),
        image matches Ok(i) ==> i@.path == path@ && i@.config_digest == digest->Ok_0@,
        !is_there ==> (image matches Err(Error::Generic { message, source: None }) && message@
            == "OCI tarball not found at "@ + path@),
{
}

/// The layers are extracted in the order of the archive, all of them, if and only if the target
/// directory is there and the archive, its configuration and its layers can be read.
pub proof fn law_layers_are_extracted_in_order(
    image: &Image,
    target: &str,
    created: Result<(), std::io::Error>,
    contents: Result<ArchiveContents, ArchiveFailure>,
    extraction: Result<(Vec<LayerBlob>, ImageMetadata), Error>,
)
    requires
        call_ensures(Image::extract, (image, target, created, contents), extraction),
    ensures
        extraction is Ok <==> {
            &&& created is Ok
            &&& contents is Ok
            &&& configuration_fields(contents->Ok_0.config@) is Some
            &&& contents->Ok_0.layers is Ok
        },
        extraction matches Ok((layers, metadata)) ==> {
            let process = configuration_fields(contents->Ok_0.config@)->0.process;
            &&& layers@ == contents->Ok_0.layers->Ok_0@
            &&& process is None ==> metadata.entrypoint is None && metadata.cmd is None
                && metadata.working_dir is None
            &&& process is Some ==> {
                &&& crate::text::texts_of(metadata.entrypoint) == process->0.entrypoint
                &&& crate::text::texts_of(metadata.cmd) == process->0.cmd
                &&& text_of(metadata.working_dir) == process->0.working_dir
            }
        },
{
}

/// A blob that starts with the magic number of zstd is decompressed by zstd. Another one is by gzip
/// if and only if its media type ends in `gzip`, and is taken as it is if and only if that ends in
/// `.tar`.
pub proof fn law_compression_is_told_by_blob_and_type(
    media_type: &str,
    blob: &[u8],
    compression: Compression,
)
    requires
        call_ensures(layer_compression, (media_type, blob), compression),
    ensures
        ({
            let is_zstd = seq![0x28u8, 0xb5, 0x2f, 0xfd].is_prefix_of(blob@);
            &&& compression == Compression::Gzip <==> !is_zstd && exists|front: Seq<char>|
                media_type@ == #[trigger] (front + "gzip"@)
            &&& compression == Compression::Uncompressed <==> !is_zstd && exists|front: Seq<char>|
                media_type@ == #[trigger] (front + ".tar"@)
        }),
{
    lemma_suffix(media_type@, "gzip"@);
    lemma_suffix(media_type@, ".tar"@);
    reveal_strlit("gzip");
    reveal_strlit(".tar");
    let is_zstd = seq![0x28u8, 0xb5, 0x2f, 0xfd].is_prefix_of(blob@);
    let magic = seq![0x28u8, 0xb5, 0x2f, 0xfd];
    if is_zstd {
        assert(magic[0] == blob@[0] && magic[1] == blob@[1] && magic[2] == blob@[2] && magic[3]
            == blob@[3]);
    } else if blob@.len() >= 4 && blob@[0] == 0x28 && blob@[1] == 0xb5 && blob@[2] == 0x2f
        && blob@[3] == 0xfd {
        assert(magic =~= blob@.subrange(0, 4));
        assert(magic.is_prefix_of(blob@));
    }
    if ends_with(media_type@, "gzip"@) && ends_with(media_type@, ".tar"@) {
        assert("gzip"@ == ".tar"@);
        assert("gzip"@[0] == 'g' && ".tar"@[0] == '.');
    }
}

/// What a layer is extracted from is what its blob decompresses to, to its end; or it is cut off by
/// a failure, if and only if the blob is damaged. It stays the same layer.
pub proof fn law_layer_is_decompressed(
    layer: LayerBlob,
    media_type: &str,
    blob: &[u8],
    compression: Compression,
    archive: Result<LayerArchive, Error>,
)
    requires
        call_ensures(LayerBlob::decompress, (layer,), archive),
        call_ensures(layer_compression, (media_type, blob), compression),
        media_type@ == layer.media_type@,
        blob@ == layer.blob@,
    ensures
        archive matches Ok(a) && {
            &&& a.layer_digest() == layer.digest@
            &&& compression == Compression::Uncompressed ==> a.bytes() == layer.blob@
                && a.cut_off_by() is None
            &&& compression == Compression::Gzip ==> a.cut_off_by() is None == gzip_content(
                layer.blob@,
            ) is Some
            &&& compression == Compression::Gzip && gzip_content(layer.blob@) is Some ==> a.bytes()
                == gzip_content(layer.blob@)->0
            &&& compression == Compression::Zstd ==> a.cut_off_by() is None == zstd_content(
                layer.blob@,
            ) is Some
            &&& compression == Compression::Zstd && zstd_content(layer.blob@) is Some ==> a.bytes()
                == zstd_content(layer.blob@)->0
        },
{
}

/// The cache lies below the home directory where that can be written to, and else below `/tmp`.
pub proof fn law_cache_lies_at_home(home: &str, is_writable: bool, path: String, without: String)
    requires
        call_ensures(BlobCache::default_path, (Some(home), is_writable), path),
        call_ensures(BlobCache::default_path, (None, is_writable), without),
    ensures
        is_writable && home@.len() > 0 && home@.last() != '/' ==> path@ == home@ + "/"@
            + ".dockdash/cache/blobs"@,
        is_writable && home@.len() > 0 && home@.last() == '/' ==> path@ == home@
            + ".dockdash/cache/blobs"@,
        !is_writable ==> path@ == "/tmp"@ + "/"@ + ".dockdash/cache/blobs"@,
        without@ == "/tmp"@ + "/"@ + ".dockdash/cache/blobs"@,
{
    reveal_strlit("/");
    reveal_strlit("/tmp");
    reveal_strlit(".dockdash/cache/blobs");
    assert("/"@ =~= seq!['/']);
    assert("/tmp"@.last() == 'p');
    assert(".dockdash/cache/blobs"@[0] == '.');
}

/// The cache is where it was made, if its directory could be made.
pub proof fn law_cache_is_where_it_was_made(
    path: String,
    directory: Result<(), std::io::Error>,
    cache: Result<BlobCache, Error>,
)
    requires
        call_ensures(BlobCache::with_path, (path, directory), cache),
    ensures
        cache is Ok == directory is Ok,
        cache matches Ok(c) ==> c.location() == path@,
{
}

/// A blob that is not in the cache is no failure, neither to look it up nor to remove it; any other
/// answer but success is.
pub proof fn law_missing_blob_is_no_failure(
    cache: &BlobCache,
    digest: &str,
    read: Result<Vec<u8>, CacheFailure>,
    blob: Result<Option<Vec<u8>>, Error>,
    removed: Result<(), CacheFailure>,
    gone: Result<(), Error>,
    written: Result<(), cacache::Error>,
    stored: Result<(), Error>,
)
    requires
        call_ensures(BlobCache::get_blob, (cache, digest, read), blob),
        call_ensures(BlobCache::remove_blob, (cache, digest, removed), gone),
        call_ensures(BlobCache::put_blob, (cache, digest, written), stored),
    ensures
        read matches Ok(data) ==> blob == Ok::<Option<Vec<u8>>, Error>(Some(data)),
        read matches Err(e) ==> (e is EntryNotFound <==> blob == Ok::<Option<Vec<u8>>, Error>(
            None,
        )),
        read matches Err(e) ==> (e is Other <==> blob is Err),
        removed is Ok ==> gone is Ok,
        removed matches Err(e) ==> (e is EntryNotFound <==> gone is Ok),
        written is Ok == stored is Ok,
{
}

/// A manifest was not found if and only if a pull failed in that the registry did not find it, or
/// gave an answer with the code for that.
pub proof fn law_missing_manifest_is_recognised(error: Error, missing: bool)
    requires
        call_ensures(Error::is_manifest_not_found, (&error,), missing),
    ensures
        missing <==> {
            &&& error is ImagePull
            &&& error->ImagePull_source is Some
            &&& error->ImagePull_source->0 is Registry
            &&& ({
                let kind = (error->ImagePull_source->0)->Registry_0.kind;
                ||| kind is ManifestNotFound
                ||| kind is Response && exists|i: int|
                    0 <= i < kind->Response_0@.len() && #[trigger] kind->Response_0@[i]
                        == ErrorCode::ManifestUnknown
            })
        },
{
}

/// What is known of running an image is read from its configuration.
pub proof fn law_metadata_is_read_from_the_configuration(
    image: &Image,
    config: Result<Vec<u8>, ArchiveFailure>,
    metadata: Result<ImageMetadata, Error>,
)
    requires
        call_ensures(Image::get_metadata, (image, config), metadata),
    ensures
        metadata is Ok <==> config is Ok && configuration_fields(config->Ok_0@) is Some,
        metadata matches Ok(m) ==> {
            let process = configuration_fields(config->Ok_0@)->0.process;
            &&& process is None ==> m.entrypoint is None && m.cmd is None && m.working_dir is None
            &&& process is Some ==> {
                &&& crate::text::texts_of(m.entrypoint) == process->0.entrypoint
                &&& crate::text::texts_of(m.cmd) == process->0.cmd
                &&& text_of(m.working_dir) == process->0.working_dir
            }
        },
{
}

/// A layer is extracted if and only if its archive was unpacked; what is unpacked is all that came
/// out of the decompression, with the failure behind it, if any.
pub proof fn law_layer_is_unpacked(
    archive: LayerArchive,
    parts: (Vec<u8>, Option<std::io::Error>, Extraction),
    extraction: Extraction,
    unpacked: Result<(), std::io::Error>,
    extracted: Result<(), Error>,
)
    requires
        call_ensures(LayerArchive::open, (archive,), parts),
        call_ensures(Extraction::finish, (extraction, unpacked), extracted),
    ensures
        parts.0@ == archive.bytes(),
        parts.1 == archive.cut_off_by(),
        parts.2.layer_digest() == archive.layer_digest(),
        extracted is Ok == unpacked is Ok,
        extracted matches Err(error) ==> error is Io && error->Io_message@
            == "Failed to extract layer "@ + extraction.layer_digest() && error->Io_source
            == unpacked->Err_0,
{
}

} // verus!

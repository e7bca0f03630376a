use vstd::prelude::*;

use crate::compress::{gzip_content, gzip_decompress, zstd_content, zstd_decompress};
use crate::config::{configuration_fields, read_configuration, ProcessFields, ProcessView};
use crate::error::{is_bad_json, is_generic, is_io, is_oci_archive, Cause, Error};
use crate::layer_build::{
    fresh_store, is_sound_store, LayerLookupView, LayerStepView, LayerStoreView,
    IMAGE_LAYER_ZSTD_MEDIA_TYPE,
};
use crate::text::{copy_texts, ends_with, has_suffix, join, same_text, text_of, texts, texts_of};

verus! {

/// What an image configuration says of running the image.
#[derive(Debug, Clone)]
pub struct ImageMetadata {
    pub entrypoint: Option<Vec<String>>,
    pub cmd: Option<Vec<String>>,
    pub working_dir: Option<String>,
}

/// The arguments of a list that may be absent.
pub open spec fn arguments(list: Option<Vec<String>>) -> Seq<Seq<char>> {
    match list {
        Some(v) => texts(v@),
        None => Seq::empty(),
    }
}

impl ImageMetadata {
    /// The command to execute: the entrypoint, then the arguments of `cmd`.
    pub fn runtime_command(&self) -> (command: Vec<String>)
        ensures
            texts(command@) == arguments(self.entrypoint) + arguments(self.cmd),
    {
        let mut command: Vec<String> = Vec::new();
        if let Some(entrypoint) = &self.entrypoint {
            command = copy_texts(entrypoint);
        }
        assert(texts(command@) == arguments(self.entrypoint));
        let ghost before = texts(command@);
        if let Some(cmd) = &self.cmd {
            let ghost first = command@;
            let mut rest = copy_texts(cmd);
            let ghost second = rest@;
            command.append(&mut rest);
            assert(texts(command@) =~= texts(first) + texts(second));
        }
        assert(texts(command@) =~= before + arguments(self.cmd));
        command
    }
}

/// How far a push has come.
#[derive(Debug, Clone)]
pub struct PushProgressInfo {
    /// What is being done.
    pub operation: String,
    /// The number of layers that are in the registry by now.
    pub layers_uploaded: usize,
    /// The number of layers in all.
    pub total_layers: usize,
    /// The number of bytes uploaded by now.
    pub bytes_uploaded: u64,
    /// The number of bytes to upload in all.
    pub total_bytes: u64,
}

/// Whether blobs are uploaded in one request.
#[derive(Debug, Clone, Copy, PartialEq, Eq, Structural)]
pub enum MonolithicPushPolicy {
    /// As the registry needs it, by its host name.
    Auto,
    /// Always in one request.
    Always,
    /// Never; in chunks.
    Never,
}

impl Default for MonolithicPushPolicy {
    fn default() -> (policy: Self)
        ensures
            policy == MonolithicPushPolicy::Auto,
    {
        MonolithicPushPolicy::Auto
    }
}

/// When the manifest of a base image is pulled.
#[derive(Debug, Clone, Copy, PartialEq, Eq, Structural)]
pub enum PullPolicy {
    /// Every time.
    Always,
    /// Only if the cache does not have it.
    Missing,
}

impl Default for PullPolicy {
    fn default() -> (policy: Self)
        ensures
            policy == PullPolicy::Missing,
    {
        PullPolicy::Missing
    }
}

/// Where the manifest of the base image came from.
#[derive(Debug, Clone, Copy, PartialEq, Eq, Structural)]
pub enum ManifestSource {
    /// From the cache.
    FromCache,
    /// From the registry.
    FromRegistry,
    /// From nowhere: there is no base image.
    NotApplicable,
}

/// What is worth knowing of a build.
#[derive(Debug, Clone)]
pub struct BuildDiagnostics {
    /// Where the manifest of the base image came from.
    pub manifest_source: ManifestSource,
    /// The digest of the base image's manifest; empty without a base image.
    pub resolved_manifest_digest: String,
}

/// How to log in to a registry.
#[derive(Debug)]
pub enum RegistryAuth {
    Anonymous,
    /// With a user name and a password.
    Basic(String, String),
    /// With a token.
    Bearer(String),
}

/// How to speak to a registry.
#[derive(Debug)]
pub enum ClientProtocol {
    Http,
    Https,
    /// By HTTPS, but for these hosts.
    HttpsExcept(Vec<String>),
}

/// What a login holds: its kind, and its texts.
pub enum AuthView {
    Anonymous,
    Basic(Seq<char>, Seq<char>),
    Bearer(Seq<char>),
}

impl View for RegistryAuth {
    type V = AuthView;

    open spec fn view(&self) -> AuthView {
        match self {
            RegistryAuth::Anonymous => AuthView::Anonymous,
            RegistryAuth::Basic(username, password) => AuthView::Basic(username@, password@),
            RegistryAuth::Bearer(token) => AuthView::Bearer(token@),
        }
    }
}

impl Clone for RegistryAuth {
    fn clone(&self) -> (copy: Self)
        ensures
            copy@ == self@,
    {
        match self {
            RegistryAuth::Anonymous => RegistryAuth::Anonymous,
            RegistryAuth::Basic(username, password) => {
                RegistryAuth::Basic(username.clone(), password.clone())
            },
            RegistryAuth::Bearer(token) => RegistryAuth::Bearer(token.clone()),
        }
    }
}

/// The contents of a `ClientProtocol`.
pub enum ProtocolView {
    Http,
    Https,
    HttpsExcept(Seq<Seq<char>>),
}

impl View for ClientProtocol {
    type V = ProtocolView;

    open spec fn view(&self) -> ProtocolView {
        match self {
            ClientProtocol::Http => ProtocolView::Http,
            ClientProtocol::Https => ProtocolView::Https,
            ClientProtocol::HttpsExcept(hosts) => ProtocolView::HttpsExcept(texts(hosts@)),
        }
    }
}

impl Clone for ClientProtocol {
    fn clone(&self) -> (copy: Self)
        ensures
            copy@ == self@,
    {
        match self {
            ClientProtocol::Http => ClientProtocol::Http,
            ClientProtocol::Https => ClientProtocol::Https,
            ClientProtocol::HttpsExcept(hosts) => ClientProtocol::HttpsExcept(copy_texts(hosts)),
        }
    }
}

/// How to log in with a user name and a password that may be absent: with both where both are there
/// and not empty, else anonymously.
pub open spec fn environment_auth(
    username: Option<String>,
    password: Option<String>,
) -> RegistryAuth {
    match (username, password) {
        (Some(u), Some(p)) => if u@.len() > 0 && p@.len() > 0 {
            RegistryAuth::Basic(u, p)
        } else {
            RegistryAuth::Anonymous
        },
        _ => RegistryAuth::Anonymous,
    }
}

/// How to log in with the credentials that the environment holds: by user name and password where
/// both are set and not empty, else anonymously.
pub fn determine_registry_auth(username: Option<String>, password: Option<String>) -> (auth:
    RegistryAuth)
    ensures
        auth == environment_auth(username, password),
{
    match (username, password) {
        (Some(username), Some(password)) => {
            if username.as_str().is_empty() || password.as_str().is_empty() {
                RegistryAuth::Anonymous
            } else {
                RegistryAuth::Basic(username, password)
            }
        },
        _ => RegistryAuth::Anonymous,
    }
}

/// Whether a registry takes blobs only in one request: the Google Artifact Registry and the Google
/// Container Registry do.
pub open spec fn needs_monolithic_push(host: Seq<char>) -> bool {
    ends_with(host, "-docker.pkg.dev"@) || host == "gcr.io"@ || ends_with(host, ".gcr.io"@)
}

/// Whether a registry takes blobs only in one request, by its host name.
pub fn is_registry_requiring_monolithic_push(registry_host: &str) -> (monolithic: bool)
    ensures
        monolithic == needs_monolithic_push(registry_host@),
{
    has_suffix(registry_host, "-docker.pkg.dev") || same_text(registry_host, "gcr.io")
        || has_suffix(registry_host, ".gcr.io")
}

/// Whether a push to the registry at this host uploads blobs in one request.
pub open spec fn uses_monolithic_push(policy: MonolithicPushPolicy, host: Seq<char>) -> bool {
    match policy {
        MonolithicPushPolicy::Always => true,
        MonolithicPushPolicy::Never => false,
        MonolithicPushPolicy::Auto => needs_monolithic_push(host),
    }
}

/// Whether a push to the registry at this host uploads blobs in one request.
pub fn determine_use_monolithic_push(
    policy: &MonolithicPushPolicy,
    registry_host: &str,
) -> (monolithic: bool)
    ensures
        monolithic == uses_monolithic_push(*policy, registry_host@),
{
    match policy {
        MonolithicPushPolicy::Always => true,
        MonolithicPushPolicy::Never => false,
        MonolithicPushPolicy::Auto => is_registry_requiring_monolithic_push(registry_host),
    }
}

/// How to push an image.
#[derive(Debug)]
pub struct PushOptions {
    pub auth: RegistryAuth,
    pub protocol: ClientProtocol,
    pub monolithic_push: MonolithicPushPolicy,
}

impl Clone for PushOptions {
    fn clone(&self) -> (copy: Self)
        ensures
            copy.auth@ == self.auth@,
            copy.protocol@ == self.protocol@,
            copy.monolithic_push == self.monolithic_push,
    {
        PushOptions {
            auth: self.auth.clone(),
            protocol: self.protocol.clone(),
            monolithic_push: self.monolithic_push,
        }
    }
}

impl Default for PushOptions {
    fn default() -> (options: Self)
        ensures
            options.auth is Anonymous,
            options.protocol is Https,
            options.monolithic_push == MonolithicPushPolicy::Auto,
    {
        PushOptions {
            auth: RegistryAuth::Anonymous,
            protocol: ClientProtocol::Https,
            monolithic_push: MonolithicPushPolicy::Auto,
        }
    }
}

impl PushOptions {
    /// Uploads blobs in one request.
    pub fn with_monolithic_push(self) -> (options: Self)
        ensures
            options == (PushOptions { monolithic_push: MonolithicPushPolicy::Always, ..self }),
    {
        PushOptions { monolithic_push: MonolithicPushPolicy::Always, ..self }
    }

    /// Uploads blobs in chunks.
    pub fn with_chunked_upload(self) -> (options: Self)
        ensures
            options == (PushOptions { monolithic_push: MonolithicPushPolicy::Never, ..self }),
    {
        PushOptions { monolithic_push: MonolithicPushPolicy::Never, ..self }
    }

    /// Uploads blobs as the registry needs it.
    pub fn with_auto_push_mode(self) -> (options: Self)
        ensures
            options == (PushOptions { monolithic_push: MonolithicPushPolicy::Auto, ..self }),
    {
        PushOptions { monolithic_push: MonolithicPushPolicy::Auto, ..self }
    }
}

/// What could not be read of an image archive, and why in words.
#[derive(Debug)]
pub enum ArchiveFailure {
    Load(String),
    Config(String),
    Manifest(String),
    Layers(String),
}

/// The message of an error for an image archive that could not be read.
pub open spec fn archive_message(path: Seq<char>, failure: ArchiveFailure) -> Seq<char> {
    match failure {
        ArchiveFailure::Load(_) => "Failed to load OCI artifact from "@ + path,
        ArchiveFailure::Config(_) => "Failed to get config from OCI artifact"@,
        ArchiveFailure::Manifest(_) => "Failed to get manifest from OCI artifact"@,
        ArchiveFailure::Layers(_) => "Failed to get layers from OCI artifact"@,
    }
}

/// The words of a failure.
pub open spec fn failure_words(failure: ArchiveFailure) -> String {
    match failure {
        ArchiveFailure::Load(why) => why,
        ArchiveFailure::Config(why) => why,
        ArchiveFailure::Manifest(why) => why,
        ArchiveFailure::Layers(why) => why,
    }
}

/// The error for an image archive that could not be read.
pub fn archive_error(path: &str, failure: ArchiveFailure) -> (error: Error)
    ensures
        is_oci_archive(
            error,
            archive_message(path@, failure),
            Some(Cause::Text(failure_words(failure))),
        ),
{
    let (message, why) = match failure {
        ArchiveFailure::Load(why) => (join("Failed to load OCI artifact from ", path), why),
        ArchiveFailure::Config(why) => {
            ("Failed to get config from OCI artifact".to_owned(), why)
        },
        ArchiveFailure::Manifest(why) => {
            ("Failed to get manifest from OCI artifact".to_owned(), why)
        },
        ArchiveFailure::Layers(why) => {
            ("Failed to get layers from OCI artifact".to_owned(), why)
        },
    };
    Error::OciArchive { message, source: Some(Cause::Text(why)) }
}

/// An image in an archive on disk.
#[derive(Debug)]
pub struct Image {
    oci_archive_path: String,
    config_digest: String,
}

/// The contents of an `Image`.
pub struct ImageView {
    pub path: Seq<char>,
    pub config_digest: Seq<char>,
}

impl View for Image {
    type V = ImageView;

    closed spec fn view(&self) -> ImageView {
        ImageView { path: self.oci_archive_path@, config_digest: self.config_digest@ }
    }
}

/// The image in the archive at `path`, with a configuration of this digest.
pub open spec fn image_at(path: Seq<char>, config_digest: Seq<char>) -> ImageView {
    ImageView { path, config_digest }
}

/// A layer in an image archive.
#[derive(Debug)]
pub struct LayerBlob {
    pub digest: String,
    pub media_type: String,
    pub blob: Vec<u8>,
}

/// What an image archive holds, to be extracted.
#[derive(Debug)]
pub struct ArchiveContents {
    /// The image configuration.
    pub config: Vec<u8>,
    /// The layers, the lowest one first.
    pub layers: Result<Vec<LayerBlob>, ArchiveFailure>,
}

/// What the configuration says of running the image.
pub open spec fn metadata_view(process: Option<ProcessView>, metadata: ImageMetadata) -> bool {
    match process {
        Some(p) => texts_of(metadata.entrypoint) == p.entrypoint && texts_of(metadata.cmd) == p.cmd
            && text_of(metadata.working_dir) == p.working_dir,
        None => metadata.entrypoint is None && metadata.cmd is None
            && metadata.working_dir is None,
    }
}

/// What the configuration says of running the image.
pub fn metadata_of(process: Option<ProcessFields>) -> (metadata: ImageMetadata)
    ensures
        metadata_view(
            match process {
                Some(p) => Some(p@),
                None => None,
            },
            metadata,
        ),
{
    match process {
        Some(process) => ImageMetadata {
            entrypoint: process.entrypoint,
            cmd: process.cmd,
            working_dir: process.working_dir,
        },
        None => ImageMetadata { entrypoint: None, cmd: None, working_dir: None },
    }
}

/// Reads what an image configuration says of running the image.
pub fn read_metadata(config: &[u8]) -> (metadata: Result<ImageMetadata, Error>)
    ensures
        match configuration_fields(config@) {
            Some(fields) => metadata matches Ok(m) && metadata_view(fields.process, m),
            None => metadata matches Err(error) && is_bad_json(
                error,
                "Failed to parse image configuration"@,
            ),
        },
{
    match read_configuration(config) {
        Ok(fields) => Ok(metadata_of(fields.process)),
        Err(source) => Err(
            Error::ImageConfig {
                message: "Failed to parse image configuration".to_owned(),
                source: Some(Cause::Json(source)),
            },
        ),
    }
}

impl Image {
    /// The image whose archive lies at `path`.
    pub(crate) fn at(path: String, config_digest: String) -> (image: Self)
        ensures
            image@ == (ImageView { path: path@, config_digest: config_digest@ }),
    {
        Image { oci_archive_path: path, config_digest }
    }

    /// Takes an archive on disk as an image, where `config_digest` is the digest of the image
    /// configuration in it.
    pub fn from_tarball(
        tarball_path: &str,
        is_there: bool,
        config_digest: Result<String, ArchiveFailure>,
    ) -> (image: Result<Self, Error>)
        ensures
            if !is_there {
                image matches Err(error) && is_generic(
                    error,
                    "OCI tarball not found at "@ + tarball_path@,
                    None,
                )
            } else {
                match config_digest {
                    Ok(digest) => image matches Ok(i) && i@ == image_at(tarball_path@, digest@),
                    Err(failure) => image matches Err(error) && is_oci_archive(
                        error,
                        archive_message(tarball_path@, failure),
                        Some(Cause::Text(failure_words(failure))),
                    ),
                }
            },
    {
        if !is_there {
            return Err(
                Error::Generic {
                    message: join("OCI tarball not found at ", tarball_path),
                    source: None,
                },
            );
        }
        match config_digest {
            Ok(digest) => Ok(Self::at(tarball_path.to_owned(), digest)),
            Err(failure) => Err(archive_error(tarball_path, failure)),
        }
    }

    /// The path of the archive.
    pub fn path(&self) -> (path: &str)
        ensures
            path@ == self@.path,
    {
        self.oci_archive_path.as_str()
    }

    /// The digest of the image configuration.
    pub fn config_digest(&self) -> (digest: &str)
        ensures
            digest@ == self@.config_digest,
    {
        self.config_digest.as_str()
    }

    /// What the image configuration in the archive says of running the image.
    pub fn get_metadata(&self, config: Result<Vec<u8>, ArchiveFailure>) -> (metadata: Result<
        ImageMetadata,
        Error,
    >)
        ensures
            match config {
                Ok(json) => match configuration_fields(json@) {
                    Some(fields) => metadata matches Ok(m) && metadata_view(fields.process, m),
                    None => metadata matches Err(error) && is_bad_json(
                        error,
                        "Failed to parse image configuration"@,
                    ),
                },
                Err(failure) => metadata matches Err(error) && is_oci_archive(
                    error,
                    archive_message(self@.path, failure),
                    Some(Cause::Text(failure_words(failure))),
                ),
            },
    {
        match config {
            Ok(json) => read_metadata(json.as_slice()),
            Err(failure) => Err(archive_error(self.path(), failure)),
        }
    }

    /// What is to be extracted to `target_dir`: the layers, the lowest one first, so that later
    /// layers overwrite earlier ones; and what the configuration says of running the image.
    pub fn extract(
        &self,
        target_dir: &str,
        created: Result<(), std::io::Error>,
        contents: Result<ArchiveContents, ArchiveFailure>,
    ) -> (extraction: Result<(Vec<LayerBlob>, ImageMetadata), Error>)
        ensures
            match (created, contents) {
                (Err(e), _) => extraction matches Err(error) && is_io(
                    error,
                    "Failed to create target directory "@ + target_dir@,
                    e,
                ),
                (Ok(_), Err(failure)) => extraction matches Err(error) && is_oci_archive(
                    error,
                    archive_message(self@.path, failure),
                    Some(Cause::Text(failure_words(failure))),
                ),
                (Ok(_), Ok(c)) => match (configuration_fields(c.config@), c.layers) {
                    (None, _) => extraction matches Err(error) && is_bad_json(
                        error,
                        "Failed to parse image configuration"@,
                    ),
                    (Some(_), Err(failure)) => extraction matches Err(error) && is_oci_archive(
                        error,
                        archive_message(self@.path, failure),
                        Some(Cause::Text(failure_words(failure))),
                    ),
                    (Some(fields), Ok(blobs)) => extraction matches Ok((layers, metadata))
                        && layers == blobs && metadata_view(fields.process, metadata),
                },
            },
    {
        if let Err(source) = created {
            let message = join("Failed to create target directory ", target_dir);
            return Err(Error::Io { message, source });
        }
        let contents = match contents {
            Ok(contents) => contents,
            Err(failure) => {
                return Err(archive_error(self.path(), failure));
            },
        };
        let metadata = match read_metadata(contents.config.as_slice()) {
            Ok(metadata) => metadata,
            Err(error) => {
                return Err(error);
            },
        };
        match contents.layers {
            Ok(layers) => Ok((layers, metadata)),
            Err(failure) => Err(archive_error(self.path(), failure)),
        }
    }
}

/// The archive of a layer, to be unpacked.
#[derive(Debug)]
pub struct LayerArchive {
    digest: String,
    tar: Vec<u8>,
    failure: Option<std::io::Error>,
}

impl LayerArchive {
    /// The digest of the layer.
    pub closed spec fn layer_digest(&self) -> Seq<char> {
        self.digest@
    }

    /// The archive, as far as it could be decompressed.
    pub closed spec fn bytes(&self) -> Seq<u8> {
        self.tar@
    }

    /// Why the archive could not be decompressed to its end.
    pub closed spec fn cut_off_by(&self) -> Option<std::io::Error> {
        self.failure
    }

    /// The archive of the layer `digest`, where `output` is what the decompression gave: an error
    /// where it could not begin, else what came out and why no more did.
    pub fn decompressed(
        digest: String,
        output: Result<(Vec<u8>, Option<std::io::Error>), std::io::Error>,
    ) -> (archive: Result<Self, Error>)
        ensures
            match output {
                Ok((tar, failure)) => archive matches Ok(a) && a.layer_digest() == digest@
                    && a.bytes() == tar@ && a.cut_off_by() == failure,
                Err(e) => archive matches Err(error) && is_io(
                    error,
                    "Failed to create zstd decoder for layer "@ + digest@,
                    e,
                ),
            },
    {
        match output {
            Ok((tar, failure)) => Ok(LayerArchive { digest, tar, failure }),
            Err(source) => Err(
                Error::Io {
                    message: join("Failed to create zstd decoder for layer ", digest.as_str()),
                    source,
                },
            ),
        }
    }

    /// The archive, as far as it could be decompressed.
    pub fn tar(&self) -> (tar: &Vec<u8>)
        ensures
            tar@ == self.bytes(),
    {
        &self.tar
    }

    /// Takes the archive apart to unpack it: its bytes, and the failure that stands behind them
    /// where it could not be decompressed to its end. What unpacks the archive meets the failure
    /// only if it reads on behind the bytes; an archive may end before.
    pub fn open(self) -> (parts: (Vec<u8>, Option<std::io::Error>, Extraction))
        ensures
            parts.0@ == self.bytes(),
            parts.1 == self.cut_off_by(),
            parts.2.layer_digest() == self.layer_digest(),
    {
        (self.tar, self.failure, Extraction { digest: self.digest })
    }
}

/// The extraction of a layer.
#[derive(Debug)]
pub struct Extraction {
    digest: String,
}

impl Extraction {
    /// The digest of the layer.
    pub closed spec fn layer_digest(&self) -> Seq<char> {
        self.digest@
    }

    /// What the extraction gives, where `unpacked` is what unpacking the archive gave.
    pub fn finish(self, unpacked: Result<(), std::io::Error>) -> (extracted: Result<(), Error>)
        ensures
            match unpacked {
                Ok(_) => extracted is Ok,
                Err(e) => extracted matches Err(error) && is_io(
                    error,
                    "Failed to extract layer "@ + self.layer_digest(),
                    e,
                ),
            },
    {
        match unpacked {
            Ok(_) => Ok(()),
            Err(source) => Err(
                Error::Io {
                    message: join("Failed to extract layer ", self.digest.as_str()),
                    source,
                },
            ),
        }
    }
}

/// How the archive of a layer is compressed.
#[derive(Debug, Clone, Copy, PartialEq, Eq, Structural)]
pub enum Compression {
    Zstd,
    Gzip,
    Uncompressed,
}

/// Whether a blob starts as a zstd frame does.
pub open spec fn starts_as_zstd(blob: Seq<u8>) -> bool {
    blob.len() >= 4 && blob[0] == 0x28 && blob[1] == 0xb5 && blob[2] == 0x2f && blob[3] == 0xfd
}

/// How the archive in a blob is compressed: by zstd where it starts as a zstd frame does. Else the
/// media type tells: by gzip where it says so, not at all where it names a plain archive, and by
/// zstd otherwise.
pub open spec fn compression_of(media_type: Seq<char>, blob: Seq<u8>) -> Compression {
    if starts_as_zstd(blob) {
        Compression::Zstd
    } else if ends_with(media_type, "gzip"@) {
        Compression::Gzip
    } else if ends_with(media_type, ".tar"@) {
        Compression::Uncompressed
    } else {
        Compression::Zstd
    }
}

/// How the archive in a blob is compressed.
pub fn layer_compression(media_type: &str, blob: &[u8]) -> (compression: Compression)
    ensures
        compression == compression_of(media_type@, blob@),
{
    if blob.len() >= 4 && blob[0] == 0x28 && blob[1] == 0xb5 && blob[2] == 0x2f && blob[3] == 0xfd {
        Compression::Zstd
    } else if has_suffix(media_type, "gzip") {
        Compression::Gzip
    } else if has_suffix(media_type, ".tar") {
        Compression::Uncompressed
    } else {
        Compression::Zstd
    }
}

/// The archive that a blob holds; none where it is damaged or cut off.
pub open spec fn archive_in(media_type: Seq<char>, blob: Seq<u8>) -> Option<Seq<u8>> {
    match compression_of(media_type, blob) {
        Compression::Zstd => zstd_content(blob),
        Compression::Gzip => gzip_content(blob),
        Compression::Uncompressed => Some(blob),
    }
}

/// Whether the archive is what decompressing a blob gives: all that it holds, or else cut off.
pub open spec fn is_decompressed(
    media_type: Seq<char>,
    blob: Seq<u8>,
    archive: LayerArchive,
) -> bool {
    archive_in(media_type, blob) == if archive.cut_off_by() is None {
        Some(archive.bytes())
    } else {
        None
    }
}

impl LayerBlob {
    /// Decompresses the layer.
    pub fn decompress(self) -> (archive: Result<LayerArchive, Error>)
        ensures
            archive matches Ok(a) && a.layer_digest() == self.digest@ && is_decompressed(
                self.media_type@,
                self.blob@,
                a,
            ),
    {
        let LayerBlob { digest, media_type, blob } = self;
        let output = match layer_compression(media_type.as_str(), blob.as_slice()) {
            Compression::Zstd => zstd_decompress(blob.as_slice()),
            Compression::Gzip => Ok(gzip_decompress(blob.as_slice())),
            Compression::Uncompressed => Ok((blob, None)),
        };
        LayerArchive::decompressed(digest, output)
    }
}

/// A layer that was built comes out whole: decompressing it gives the archive it was made of, to
/// its end.
pub proof fn law_built_layer_comes_out_whole(
    made: LayerLookupView,
    store: LayerStoreView,
    archive: LayerArchive,
)
    requires
        fresh_store(made) == LayerStepView::Store(store),
        is_sound_store(made, store),
        is_decompressed(store.layer.media_type, store.layer.blob, archive),
    ensures
        archive.cut_off_by() is None,
        archive.bytes() == made.archive,
{
    let media_type = IMAGE_LAYER_ZSTD_MEDIA_TYPE@;
    reveal_strlit("application/vnd.oci.image.layer.v1.tar+zstd");
    reveal_strlit("gzip");
    reveal_strlit(".tar");
    assert(media_type.last() == 'd');
    assert("gzip"@.last() == 'p' && ".tar"@.last() == 'r');
    assert(media_type.skip(media_type.len() - 4).last() == 'd');
}

} // verus!

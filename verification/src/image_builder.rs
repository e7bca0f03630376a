use vstd::prelude::*;

use crate::blobcache::BlobCache;
use crate::config::{
    configuration_fields, configuration_json, configuration_rest, fields_of, has_one_order,
    is_json_of, new_configuration, no_rest, object_fields, object_rest, read_configuration,
    with_settings, write_configuration, ImageFields, ImageFieldsView, ImageSettings,
    ImageSettingsView, RestView,
};
use crate::digest::{content_digest, digest_of};
use crate::error::{is_bad_json, is_image_pull, Cause, Error, RegistryError};
use crate::image::{
    determine_registry_auth, environment_auth, image_at, BuildDiagnostics, Image, ManifestSource,
    PullPolicy, RegistryAuth,
};
use crate::layer_build::{
    looked_up, with_writes, Layer, LayerView, IMAGE_LAYER_ZSTD_MEDIA_TYPE,
};
use crate::manifest::{
    manifest_record, manifest_record_bytes, parsed_manifest_record, read_manifest_record,
    Descriptor, DescriptorView, ImageManifest, ImageManifestView, IndexEntry, IndexEntryView,
};
use crate::reference::{
    parsed_reference, reference_of, ImageReference, ReferenceError, ReferenceView,
};
use crate::text::{copy_text, copy_texts, join, join3, same_text, text_of, texts, texts_of};

verus! {

/// Builds images: from a base image or from scratch, with layers and settings of its own.
#[derive(Debug)]
pub struct ImageBuilder {
    base_image_ref: Option<String>,
    platform_os: Option<String>,
    platform_arch: Option<String>,
    layers: Vec<Layer>,
    entrypoint: Option<Vec<String>>,
    cmd: Option<Vec<String>>,
    working_dir: Option<String>,
    output_path: Option<String>,
    blob_cache: Option<BlobCache>,
    output_image_name_and_tag: Option<String>,
    pull_policy: Option<PullPolicy>,
    auth: Option<RegistryAuth>,
}

/// The contents of an `ImageBuilder`.
pub struct ImageBuilderView {
    pub base_image_ref: Option<Seq<char>>,
    pub platform_os: Option<Seq<char>>,
    pub platform_arch: Option<Seq<char>>,
    pub layers: Seq<LayerView>,
    pub entrypoint: Option<Seq<Seq<char>>>,
    pub cmd: Option<Seq<Seq<char>>>,
    pub working_dir: Option<Seq<char>>,
    pub output_path: Option<Seq<char>>,
    pub blob_cache: Option<Seq<char>>,
    pub output_name: Option<Seq<char>>,
    pub pull_policy: Option<PullPolicy>,
    pub auth: Option<RegistryAuth>,
}

/// The contents of layers.
pub open spec fn layers_of(layers: Seq<Layer>) -> Seq<LayerView> {
    Seq::new(layers.len(), |i: int| layers[i]@)
}

impl View for ImageBuilder {
    type V = ImageBuilderView;

    closed spec fn view(&self) -> ImageBuilderView {
        ImageBuilderView {
            base_image_ref: text_of(self.base_image_ref),
            platform_os: text_of(self.platform_os),
            platform_arch: text_of(self.platform_arch),
            layers: layers_of(self.layers@),
            entrypoint: texts_of(self.entrypoint),
            cmd: texts_of(self.cmd),
            working_dir: text_of(self.working_dir),
            output_path: text_of(self.output_path),
            blob_cache: match self.blob_cache {
                Some(cache) => Some(cache.location()),
                None => None,
            },
            output_name: text_of(self.output_image_name_and_tag),
            pull_policy: self.pull_policy,
            auth: self.auth,
        }
    }
}

/// A builder in which nothing is set.
pub open spec fn nothing_set() -> ImageBuilderView {
    ImageBuilderView {
        base_image_ref: None,
        platform_os: None,
        platform_arch: None,
        layers: Seq::empty(),
        entrypoint: None,
        cmd: None,
        working_dir: None,
        output_path: None,
        blob_cache: None,
        output_name: None,
        pull_policy: None,
        auth: None,
    }
}

impl Default for ImageBuilder {
    fn default() -> (builder: Self)
        ensures
            builder@ == nothing_set(),
    {
        let builder = ImageBuilder {
            base_image_ref: None,
            platform_os: None,
            platform_arch: None,
            layers: Vec::new(),
            entrypoint: None,
            cmd: None,
            working_dir: None,
            output_path: None,
            blob_cache: None,
            output_image_name_and_tag: None,
            pull_policy: None,
            auth: None,
        };
        assert(builder@.layers == Seq::<LayerView>::empty());
        builder
    }
}

impl Image {
    /// A builder for an image.
    pub fn builder() -> (builder: ImageBuilder)
        ensures
            builder@ == nothing_set(),
    {
        ImageBuilder::default()
    }
}

impl ImageBuilder {
    /// Sets the base image, such as `ghcr.io/user/image:tag`.
    pub fn from(self, base_image_ref: &str) -> (builder: Self)
        ensures
            builder@ == (ImageBuilderView { base_image_ref: Some(base_image_ref@), ..self@ }),
    {
        ImageBuilder { base_image_ref: Some(base_image_ref.to_owned()), ..self }
    }

    /// Sets the platform that the image is for, by the names of the OCI such as `linux` and
    /// `amd64`.
    pub fn platform(self, os: &str, arch: &str) -> (builder: Self)
        ensures
            builder@ == (ImageBuilderView {
                platform_os: Some(os@),
                platform_arch: Some(arch@),
                ..self@
            }),
    {
        ImageBuilder {
            platform_os: Some(os.to_owned()),
            platform_arch: Some(arch.to_owned()),
            ..self
        }
    }

    /// Adds a layer on top of those added before.
    pub fn layer(self, layer: Layer) -> (builder: Self)
        ensures
            builder@ == (ImageBuilderView { layers: self@.layers.push(layer@), ..self@ }),
    {
        let mut builder = self;
        let ghost before = builder.layers@;
        builder.layers.push(layer);
        assert(layers_of(builder.layers@) =~= layers_of(before).push(layer@));
        builder
    }

    /// Sets the entrypoint. Without one, the image has that of the base image.
    pub fn entrypoint(self, entrypoint: Vec<String>) -> (builder: Self)
        ensures
            builder@ == (ImageBuilderView { entrypoint: Some(texts(entrypoint@)), ..self@ }),
    {
        ImageBuilder { entrypoint: Some(entrypoint), ..self }
    }

    /// Sets the command. Without one, the image has an empty one, whatever the base image has.
    pub fn cmd(self, cmd: Vec<String>) -> (builder: Self)
        ensures
            builder@ == (ImageBuilderView { cmd: Some(texts(cmd@)), ..self@ }),
    {
        ImageBuilder { cmd: Some(cmd), ..self }
    }

    /// Sets the working directory. Without one, the image has that of the base image.
    pub fn working_dir(self, working_dir: &str) -> (builder: Self)
        ensures
            builder@ == (ImageBuilderView { working_dir: Some(working_dir@), ..self@ }),
    {
        ImageBuilder { working_dir: Some(working_dir.to_owned()), ..self }
    }

    /// Sets the path of the archive to write. Without one, it is written to a temporary directory.
    pub fn output_to(self, path: String) -> (builder: Self)
        ensures
            builder@ == (ImageBuilderView { output_path: Some(path@), ..self@ }),
    {
        ImageBuilder { output_path: Some(path), ..self }
    }

    /// Sets the cache to use. Without one, the default cache is used.
    pub fn blob_cache(self, cache: BlobCache) -> (builder: Self)
        ensures
            builder@ == (ImageBuilderView { blob_cache: Some(cache.location()), ..self@ }),
    {
        ImageBuilder { blob_cache: Some(cache), ..self }
    }

    /// Sets the name and tag of the image in the archive. Without one, it is the repository of the
    /// base image with the tag `latest`.
    pub fn output_name_and_tag(self, name_and_tag: &str) -> (builder: Self)
        ensures
            builder@ == (ImageBuilderView { output_name: Some(name_and_tag@), ..self@ }),
    {
        ImageBuilder { output_image_name_and_tag: Some(name_and_tag.to_owned()), ..self }
    }

    /// Sets when the manifest of the base image is pulled. Without it, only if the cache does not
    /// have it.
    pub fn pull_policy(self, policy: PullPolicy) -> (builder: Self)
        ensures
            builder@ == (ImageBuilderView { pull_policy: Some(policy), ..self@ }),
    {
        ImageBuilder { pull_policy: Some(policy), ..self }
    }

    /// Sets how to log in to the registry of the base image. Without it, the environment decides.
    pub fn auth(self, auth: RegistryAuth) -> (builder: Self)
        ensures
            builder@ == (ImageBuilderView { auth: Some(auth), ..self@ }),
    {
        ImageBuilder { auth: Some(auth), ..self }
    }

    /// Takes the credentials that the environment holds, unless it was set how to log in.
    pub fn with_environment(self, username: Option<String>, password: Option<String>) -> (builder:
        Self)
        ensures
            builder@ == (ImageBuilderView {
                auth: match self@.auth {
                    Some(auth) => Some(auth),
                    None => Some(environment_auth(username, password)),
                },
                ..self@
            }),
    {
        match self.auth {
            Some(auth) => ImageBuilder { auth: Some(auth), ..self },
            None => ImageBuilder {
                auth: Some(determine_registry_auth(username, password)),
                ..self
            },
        }
    }

    /// The cache to use, where one was set.
    pub fn cache(&self) -> (cache: Option<&BlobCache>)
        ensures
            match cache {
                Some(c) => self@.blob_cache == Some(c.location()),
                None => self@.blob_cache is None,
            },
    {
        match &self.blob_cache {
            Some(cache) => Some(cache),
            None => None,
        }
    }

    /// The operating system and architecture by which an image is picked from an index, where the
    /// platform was set.
    pub fn platform_filter(&self) -> (filter: Option<(String, String)>)
        ensures
            match (self@.platform_os, self@.platform_arch) {
                (Some(os), Some(arch)) => filter matches Some((o, a)) && o@ == os && a@ == arch,
                _ => filter is None,
            },
    {
        match (copy_text(&self.platform_os), copy_text(&self.platform_arch)) {
            (Some(os), Some(arch)) => Some((os, arch)),
            _ => None,
        }
    }
}

/// Whether an image in an index is for this operating system and architecture.
pub open spec fn is_for(entry: IndexEntryView, os: Seq<char>, arch: Seq<char>) -> bool {
    entry.platform matches Some(platform) && platform.os == os && platform.architecture == arch
}

/// Picks the image for a platform from an index: the first one that is for this operating system
/// and architecture.
pub fn resolve_platform(entries: &Vec<IndexEntry>, os: &str, arch: &str) -> (digest: Option<
    String,
>)
    ensures
        match digest {
            Some(d) => exists|i: int|
                #![trigger entries@[i]]
                {
                    &&& 0 <= i < entries.len()
                    &&& is_for(entries@[i]@, os@, arch@)
                    &&& entries@[i].digest@ == d@
                    &&& forall|j: int| 0 <= j < i ==> !is_for(#[trigger] entries@[j]@, os@, arch@)
                },
            None => forall|j: int|
                0 <= j < entries.len() ==> !is_for(#[trigger] entries@[j]@, os@, arch@),
        },
{
    for i in 0..entries.len()
        invariant
            forall|j: int| 0 <= j < i ==> !is_for(#[trigger] entries@[j]@, os@, arch@),
    {
        if let Some(platform) = &entries[i].platform {
            if same_text(platform.os.as_str(), os) && same_text(
                platform.architecture.as_str(),
                arch,
            ) {
                assert(is_for(entries@[i as int]@, os@, arch@));
                return Some(entries[i].digest.clone());
            }
        }
    }
    None
}

/// How to pull an image and extract it.
#[derive(Debug, Clone)]
pub struct PullAndExtractOptions {
    /// The operating system of the image to pull.
    pub platform_os: Option<String>,
    /// The architecture of the image to pull.
    pub platform_arch: Option<String>,
    /// When the manifest is pulled.
    pub pull_policy: PullPolicy,
    /// The cache to use.
    pub blob_cache: Option<BlobCache>,
    /// How to log in to the registry.
    pub auth: Option<RegistryAuth>,
}

impl Default for PullAndExtractOptions {
    fn default() -> (options: Self)
        ensures
            options.platform_os is None,
            options.platform_arch is None,
            options.pull_policy == PullPolicy::Missing,
            options.blob_cache is None,
            options.auth is None,
    {
        PullAndExtractOptions {
            platform_os: None,
            platform_arch: None,
            pull_policy: PullPolicy::default(),
            blob_cache: None,
            auth: None,
        }
    }
}

impl PullAndExtractOptions {
    /// The builder that pulls the image. A platform counts only where both the operating system
    /// and the architecture are given.
    pub fn into_builder(self, image_ref: &str) -> (builder: ImageBuilder)
        ensures
            builder@ == (ImageBuilderView {
                base_image_ref: Some(image_ref@),
                platform_os: if self.platform_arch is Some {
                    text_of(self.platform_os)
                } else {
                    None
                },
                platform_arch: if self.platform_os is Some {
                    text_of(self.platform_arch)
                } else {
                    None
                },
                blob_cache: match self.blob_cache {
                    Some(cache) => Some(cache.location()),
                    None => None,
                },
                pull_policy: Some(self.pull_policy),
                auth: self.auth,
                ..nothing_set()
            }),
    {
        let mut builder = Image::builder().from(image_ref).pull_policy(self.pull_policy);
        if let (Some(os), Some(arch)) = (&self.platform_os, &self.platform_arch) {
            builder = builder.platform(os.as_str(), arch.as_str());
        }
        if let Some(cache) = self.blob_cache {
            builder = builder.blob_cache(cache);
        }
        if let Some(auth) = self.auth {
            builder = builder.auth(auth);
        }
        builder
    }
}

/// The operating system of an image where no platform was set.
pub const DEFAULT_OS: &'static str = "linux";

/// The architecture of an image where no platform was set.
pub const DEFAULT_ARCHITECTURE: &'static str = "amd64";

/// The type of an image's root file system.
pub const ROOT_TYPE: &'static str = "layers";

/// The key under which the cache keeps the manifest of a base image.
pub open spec fn manifest_key(reference: ReferenceView) -> Seq<char> {
    "manifest-v1:"@ + reference.whole
}

/// A build that waits for the manifest of its base image.
pub struct PendingView {
    pub builder: ImageBuilderView,
    /// The base image as it was set.
    pub image_ref: Seq<char>,
    pub reference: ReferenceView,
}

/// A build that fetches the blobs of its base image: the configuration first, then the layers.
pub struct BaseFetchView {
    pub builder: ImageBuilderView,
    /// The base image as it was set.
    pub image_ref: Seq<char>,
    pub reference: ReferenceView,
    pub manifest: ImageManifestView,
    /// The digest of the manifest.
    pub digest: Seq<char>,
    /// Where the manifest came from.
    pub source: ManifestSource,
    /// The image configuration, once it is there.
    pub config: Option<Seq<u8>>,
    /// The layers that are there.
    pub layers: Seq<Seq<u8>>,
}

/// Whether something is still to be fetched.
pub open spec fn is_waiting(fetch: BaseFetchView) -> bool {
    fetch.config is None || fetch.layers.len() < fetch.manifest.layers.len()
}

/// What is to be fetched next.
pub open spec fn wanted(fetch: BaseFetchView) -> DescriptorView {
    if fetch.config is None {
        fetch.manifest.config
    } else {
        fetch.manifest.layers[fetch.layers.len() as int]
    }
}

/// The build after the blob that it waited for is there.
pub open spec fn with_blob(fetch: BaseFetchView, blob: Seq<u8>) -> BaseFetchView {
    if fetch.config is None {
        BaseFetchView { config: Some(blob), ..fetch }
    } else {
        BaseFetchView { layers: fetch.layers.push(blob), ..fetch }
    }
}

/// The build once the manifest is there.
pub open spec fn with_manifest(
    pending: PendingView,
    manifest: ImageManifestView,
    digest: Seq<char>,
    source: ManifestSource,
) -> BaseFetchView {
    BaseFetchView {
        builder: pending.builder,
        image_ref: pending.image_ref,
        reference: pending.reference,
        manifest,
        digest,
        source,
        config: None,
        layers: Seq::empty(),
    }
}

/// The contents of a `BuiltImage`.
pub struct BuiltImageView {
    /// The fields of the image configuration.
    pub fields: ImageFieldsView,
    /// What the image configuration says besides.
    pub rest: RestView,
    /// The image configuration in JSON.
    pub config: Seq<u8>,
    pub config_digest: Seq<char>,
    /// The media types and the blobs of the layers, the lowest layer first.
    pub layers: Seq<(Seq<char>, Seq<u8>)>,
    /// The number of layers from the base image; they are the lowest ones.
    pub base_layer_count: nat,
    /// The name and tag of the image.
    pub name: Seq<char>,
    /// Where the archive is to be written, where that was set.
    pub output_path: Option<Seq<char>>,
    pub manifest_source: ManifestSource,
    pub resolved_manifest_digest: Seq<char>,
}

/// The digests of the archives of new layers.
pub open spec fn new_diff_ids(layers: Seq<LayerView>) -> Seq<Seq<char>> {
    Seq::new(layers.len(), |i: int| layers[i].diff_id)
}

/// New layers as they stand in the image.
pub open spec fn new_layers(layers: Seq<LayerView>) -> Seq<(Seq<char>, Seq<u8>)> {
    Seq::new(layers.len(), |i: int| (IMAGE_LAYER_ZSTD_MEDIA_TYPE@, layers[i].blob))
}

/// The layers of the base image as they stand in the image.
pub open spec fn base_layers(
    descriptors: Seq<DescriptorView>,
    blobs: Seq<Seq<u8>>,
) -> Seq<(Seq<char>, Seq<u8>)> {
    Seq::new(blobs.len(), |i: int| (descriptors[i].media_type, blobs[i]))
}

/// What is written into the image configuration, where `base` is what the base image has there.
///
/// New layers come on top of those of the base image. An entrypoint or a working directory that
/// was not set stays as the base image has it; a command that was not set is empty.
pub open spec fn settings_for(
    builder: ImageBuilderView,
    base: Option<ImageFieldsView>,
) -> ImageSettingsView {
    let process = match base {
        Some(fields) => fields.process,
        None => None,
    };
    ImageSettingsView {
        os: match builder.platform_os {
            Some(os) => os,
            None => DEFAULT_OS@,
        },
        architecture: match builder.platform_arch {
            Some(arch) => arch,
            None => DEFAULT_ARCHITECTURE@,
        },
        diff_ids: (match base {
            Some(fields) => fields.diff_ids,
            None => Seq::empty(),
        }) + new_diff_ids(builder.layers),
        entrypoint: match (builder.entrypoint, process) {
            (Some(entrypoint), _) => Some(entrypoint),
            (None, Some(p)) => p.entrypoint,
            (None, None) => None,
        },
        cmd: Some(
            match builder.cmd {
                Some(cmd) => cmd,
                None => Seq::empty(),
            },
        ),
        working_dir: match (builder.working_dir, process) {
            (Some(working_dir), _) => Some(working_dir),
            (None, Some(p)) => p.working_dir,
            (None, None) => None,
        },
    }
}

/// The fields of the configuration of the image that is built.
pub open spec fn built_fields(
    builder: ImageBuilderView,
    base: Option<ImageFieldsView>,
) -> ImageFieldsView {
    with_settings(
        match base {
            Some(fields) => fields.process,
            None => None,
        },
        settings_for(builder, base),
    )
}

/// Whether the image is what a builder gives without a base image.
pub open spec fn is_built_from_scratch(image: BuiltImageView, builder: ImageBuilderView) -> bool {
    &&& image.fields == built_fields(builder, None)
    &&& image.rest == no_rest(ROOT_TYPE@)
    &&& is_json_of(image.config, image.fields, image.rest)
    &&& image.config_digest == digest_of(image.config)
    &&& image.layers == new_layers(builder.layers)
    &&& image.base_layer_count == 0
    &&& image.name == match builder.output_name {
        Some(name) => name,
        None => "scratch:latest"@,
    }
    &&& image.output_path == builder.output_path
    &&& image.manifest_source == ManifestSource::NotApplicable
    &&& image.resolved_manifest_digest == Seq::<char>::empty()
}

/// Whether the image is what a builder gives on top of a base image that was fetched.
pub open spec fn is_built_on_base(image: BuiltImageView, fetch: BaseFetchView) -> bool {
    &&& image.fields == built_fields(fetch.builder, configuration_fields(fetch.config->0))
    &&& image.rest == configuration_rest(fetch.config->0)
    &&& is_json_of(image.config, image.fields, image.rest)
    &&& image.config_digest == digest_of(image.config)
    &&& image.layers == base_layers(fetch.manifest.layers, fetch.layers) + new_layers(
        fetch.builder.layers,
    )
    &&& image.base_layer_count == fetch.layers.len()
    &&& image.name == match fetch.builder.output_name {
        Some(name) => name,
        None => fetch.reference.repository + ":latest"@,
    }
    &&& image.output_path == fetch.builder.output_path
    &&& image.manifest_source == fetch.source
    &&& image.resolved_manifest_digest == fetch.digest
}

/// A layer of a base image.
#[derive(Debug)]
struct BaseLayer {
    media_type: String,
    data: Vec<u8>,
}

spec fn base_layers_of(layers: Seq<BaseLayer>) -> Seq<(Seq<char>, Seq<u8>)> {
    Seq::new(layers.len(), |i: int| (layers[i].media_type@, layers[i].data@))
}

/// An image that is ready to be written to an archive.
#[derive(Debug)]
pub struct BuiltImage {
    configuration: oci_spec::image::ImageConfiguration,
    config: Vec<u8>,
    config_digest: String,
    base_layers: Vec<BaseLayer>,
    new_layers: Vec<Layer>,
    name: String,
    output_path: Option<String>,
    manifest_source: ManifestSource,
    resolved_manifest_digest: String,
}

impl View for BuiltImage {
    type V = BuiltImageView;

    closed spec fn view(&self) -> BuiltImageView {
        BuiltImageView {
            fields: object_fields(self.configuration),
            rest: object_rest(self.configuration),
            config: self.config@,
            config_digest: self.config_digest@,
            layers: base_layers_of(self.base_layers@) + new_layers(layers_of(self.new_layers@)),
            base_layer_count: self.base_layers@.len(),
            name: self.name@,
            output_path: text_of(self.output_path),
            manifest_source: self.manifest_source,
            resolved_manifest_digest: self.resolved_manifest_digest@,
        }
    }
}

impl BuiltImage {
    /// The image configuration, to be archived. Where it has several ports or volumes, these may
    /// come out in another order when it is written down again.
    pub fn configuration(&self) -> (configuration: &oci_spec::image::ImageConfiguration)
        ensures
            object_fields(*configuration) == self@.fields,
            object_rest(*configuration) == self@.rest,
    {
        &self.configuration
    }

    /// The number of layers that the image has from its base image; they are the lowest ones.
    pub fn base_layer_count(&self) -> (count: usize)
        ensures
            count == self@.base_layer_count,
            count <= self@.layers.len(),
    {
        self.base_layers.len()
    }

    /// The image configuration in JSON.
    pub fn config(&self) -> (config: &Vec<u8>)
        ensures
            config@ == self@.config,
    {
        &self.config
    }

    /// The media type and the blob of a layer; the lowest layer has number 0.
    pub fn layer(&self, number: usize) -> (layer: Option<(&str, &Vec<u8>)>)
        ensures
            match layer {
                Some((media_type, blob)) => number < self@.layers.len()
                    && self@.layers[number as int] == (media_type@, blob@),
                None => number >= self@.layers.len(),
            },
    {
        if number < self.base_layers.len() {
            let layer = &self.base_layers[number];
            Some((layer.media_type.as_str(), &layer.data))
        } else if number - self.base_layers.len() < self.new_layers.len() {
            Some(
                (
                    IMAGE_LAYER_ZSTD_MEDIA_TYPE,
                    self.new_layers[number - self.base_layers.len()].blob(),
                ),
            )
        } else {
            None
        }
    }

    /// The name and tag of the image.
    pub fn name(&self) -> (name: &str)
        ensures
            name@ == self@.name,
    {
        self.name.as_str()
    }

    /// Where the archive is to be written, where that was set.
    pub fn output_path(&self) -> (path: Option<String>)
        ensures
            text_of(path) == self@.output_path,
    {
        copy_text(&self.output_path)
    }

    /// The image, once its archive was written to `path`.
    pub fn written(self, path: String) -> (image: (Image, BuildDiagnostics))
        ensures
            image.0@ == image_at(path@, self@.config_digest),
            image.1.manifest_source == self@.manifest_source,
            image.1.resolved_manifest_digest@ == self@.resolved_manifest_digest,
    {
        (
            Image::at(path, self.config_digest),
            BuildDiagnostics {
                manifest_source: self.manifest_source,
                resolved_manifest_digest: self.resolved_manifest_digest,
            },
        )
    }
}

/// The digests of the archives of layers.
fn diff_ids_of(layers: &Vec<Layer>, below: Vec<String>) -> (diff_ids: Vec<String>)
    ensures
        texts(diff_ids@) == texts(below@) + new_diff_ids(layers_of(layers@)),
{
    let mut diff_ids = below;
    let ghost first = texts(diff_ids@);
    for i in 0..layers.len()
        invariant
            texts(diff_ids@) == first + new_diff_ids(layers_of(layers@.take(i as int))),
    {
        let ghost before = diff_ids@;
        diff_ids.push(layers[i].diff_id().to_owned());
        proof {
            let id = layers@[i as int]@.diff_id;
            assert(texts(diff_ids@) =~= texts(before).push(id));
            assert(new_diff_ids(layers_of(layers@.take(i + 1))) =~= new_diff_ids(
                layers_of(layers@.take(i as int)),
            ).push(id));
        }
    }
    assert(layers@.take(layers@.len() as int) == layers@);
    diff_ids
}

impl ImageBuilder {
    /// What is written into the image configuration, where `base` is what the base image has there.
    pub fn settings(&self, base: Option<ImageFields>) -> (settings: ImageSettings)
        ensures
            settings@ == settings_for(self@, fields_of(base)),
    {
        let (below, process) = match base {
            Some(fields) => (fields.diff_ids, fields.process),
            None => (Vec::new(), None),
        };
        let (base_entrypoint, base_working_dir) = match process {
            Some(process) => (process.entrypoint, process.working_dir),
            None => (None, None),
        };
        let settings = ImageSettings {
            os: match &self.platform_os {
                Some(os) => os.clone(),
                None => DEFAULT_OS.to_owned(),
            },
            architecture: match &self.platform_arch {
                Some(arch) => arch.clone(),
                None => DEFAULT_ARCHITECTURE.to_owned(),
            },
            diff_ids: diff_ids_of(&self.layers, below),
            entrypoint: match &self.entrypoint {
                Some(entrypoint) => Some(copy_texts(entrypoint)),
                None => base_entrypoint,
            },
            cmd: match &self.cmd {
                Some(cmd) => Some(copy_texts(cmd)),
                None => Some(Vec::new()),
            },
            working_dir: match &self.working_dir {
                Some(working_dir) => Some(working_dir.clone()),
                None => base_working_dir,
            },
        };
        assert(base is None ==> texts(below@) == Seq::<Seq<char>>::empty());
        assert(self.cmd is None ==> texts(settings.cmd->0@) == Seq::<Seq<char>>::empty());
        settings
    }
}

/// A build that waits for the manifest of its base image from the cache.
#[derive(Debug)]
pub struct ManifestLookup {
    builder: ImageBuilder,
    image_ref: String,
    reference: ImageReference,
}

/// A build that waits for the manifest of its base image from the registry.
#[derive(Debug)]
pub struct ManifestPull {
    builder: ImageBuilder,
    image_ref: String,
    reference: ImageReference,
}

/// A build that fetches the blobs of its base image.
#[derive(Debug)]
struct BaseFetch {
    builder: ImageBuilder,
    image_ref: String,
    reference: ImageReference,
    manifest: ImageManifest,
    digest: String,
    source: ManifestSource,
    config: Option<Vec<u8>>,
    layers: Vec<BaseLayer>,
}

/// A build that waits until the manifest of its base image is in the cache.
#[derive(Debug)]
pub struct ManifestStore {
    data: Vec<u8>,
    fetch: BaseFetch,
}

/// A build that waits for a blob of its base image from the cache.
#[derive(Debug)]
pub struct BlobLookup {
    fetch: BaseFetch,
}

/// A build that waits for a blob of its base image from the registry.
#[derive(Debug)]
pub struct BlobPull {
    fetch: BaseFetch,
}

/// A build that waits until a blob of its base image is in the cache.
#[derive(Debug)]
pub struct BlobStore {
    data: Vec<u8>,
    fetch: BaseFetch,
}

/// What the build of an image does next.
#[derive(Debug)]
pub enum BuildStep {
    /// Look the manifest of the base image up in the cache.
    LookupManifest(ManifestLookup),
    /// Pull the manifest of the base image.
    PullManifest(ManifestPull),
    /// Store the manifest of the base image in the cache; a failure does not matter.
    StoreManifest(ManifestStore),
    /// Look a blob of the base image up in the cache.
    LookupBlob(BlobLookup),
    /// Pull a blob of the base image.
    PullBlob(BlobPull),
    /// Store a blob of the base image in the cache.
    StoreBlob(BlobStore),
    /// Write the image to its archive.
    Write(BuiltImage),
}

/// The contents of a `BuildStep`.
pub enum BuildStepView {
    LookupManifest(PendingView),
    PullManifest(PendingView),
    StoreManifest(BaseFetchView, Seq<u8>),
    LookupBlob(BaseFetchView),
    PullBlob(BaseFetchView),
    StoreBlob(BaseFetchView, Seq<u8>),
    Write(BuiltImageView),
}

impl View for ManifestLookup {
    type V = PendingView;

    closed spec fn view(&self) -> PendingView {
        PendingView {
            builder: self.builder@,
            image_ref: self.image_ref@,
            reference: self.reference@,
        }
    }
}

impl View for ManifestPull {
    type V = PendingView;

    closed spec fn view(&self) -> PendingView {
        PendingView {
            builder: self.builder@,
            image_ref: self.image_ref@,
            reference: self.reference@,
        }
    }
}

spec fn blobs_of(layers: Seq<BaseLayer>) -> Seq<Seq<u8>> {
    Seq::new(layers.len(), |i: int| layers[i].data@)
}

impl View for BaseFetch {
    type V = BaseFetchView;

    closed spec fn view(&self) -> BaseFetchView {
        BaseFetchView {
            builder: self.builder@,
            image_ref: self.image_ref@,
            reference: self.reference@,
            manifest: self.manifest@,
            digest: self.digest@,
            source: self.source,
            config: match self.config {
                Some(config) => Some(config@),
                None => None,
            },
            layers: blobs_of(self.layers@),
        }
    }
}

impl BaseFetch {
    #[verifier::type_invariant]
    spec fn waits(self) -> bool {
        is_waiting(self@) && is_fetched(self@, self.layers@)
    }
}

/// Whether the layers are the first ones of the base image.
spec fn is_fetched(fetch: BaseFetchView, layers: Seq<BaseLayer>) -> bool {
    layers.len() <= fetch.manifest.layers.len() && base_layers_of(layers) == base_layers(
        fetch.manifest.layers,
        blobs_of(layers),
    )
}

impl View for ManifestStore {
    type V = (BaseFetchView, Seq<u8>);

    closed spec fn view(&self) -> (BaseFetchView, Seq<u8>) {
        (self.fetch@, self.data@)
    }
}

impl View for BlobLookup {
    type V = BaseFetchView;

    closed spec fn view(&self) -> BaseFetchView {
        self.fetch@
    }
}

impl View for BlobPull {
    type V = BaseFetchView;

    closed spec fn view(&self) -> BaseFetchView {
        self.fetch@
    }
}

impl View for BlobStore {
    type V = (BaseFetchView, Seq<u8>);

    closed spec fn view(&self) -> (BaseFetchView, Seq<u8>) {
        (self.fetch@, self.data@)
    }
}

impl View for BuildStep {
    type V = BuildStepView;

    open spec fn view(&self) -> BuildStepView {
        match self {
            BuildStep::LookupManifest(lookup) => BuildStepView::LookupManifest(lookup@),
            BuildStep::PullManifest(pull) => BuildStepView::PullManifest(pull@),
            BuildStep::StoreManifest(store) => BuildStepView::StoreManifest(store@.0, store@.1),
            BuildStep::LookupBlob(lookup) => BuildStepView::LookupBlob(lookup@),
            BuildStep::PullBlob(pull) => BuildStepView::PullBlob(pull@),
            BuildStep::StoreBlob(store) => BuildStepView::StoreBlob(store@.0, store@.1),
            BuildStep::Write(image) => BuildStepView::Write(image@),
        }
    }
}

/// What follows where the cache has this manifest and digest of the base image, or none.
pub open spec fn after_manifest_record(
    pending: PendingView,
    record: Option<(ImageManifestView, Seq<char>)>,
) -> BuildStepView {
    match record {
        Some((manifest, digest)) => BuildStepView::LookupBlob(
            with_manifest(pending, manifest, digest, ManifestSource::FromCache),
        ),
        None => BuildStepView::PullManifest(pending),
    }
}

/// What follows the lookup of the base image's manifest: a record that can be read is used, else
/// the manifest is pulled.
pub open spec fn after_manifest_lookup(
    pending: PendingView,
    found: Option<Seq<u8>>,
) -> BuildStepView {
    after_manifest_record(
        pending,
        match found {
            Some(record) => parsed_manifest_record(record),
            None => None,
        },
    )
}

/// Whether the base image, all of it fetched, was built upon. Its configuration must be one; else
/// that is the error.
pub open spec fn is_assembled(fetch: BaseFetchView, step: Result<BuildStep, Error>) -> bool {
    match configuration_fields(fetch.config->0) {
        None => step matches Err(error) && is_bad_json(
            error,
            "Failed to parse base image configuration"@,
        ),
        Some(_) => step matches Ok(BuildStep::Write(image)) && is_built_on_base(image@, fetch),
    }
}

/// Whether the build goes on rightly: with the next blob, or to its end where there is none.
pub open spec fn goes_on(fetch: BaseFetchView, step: Result<BuildStep, Error>) -> bool {
    if is_waiting(fetch) {
        step matches Ok(next) && next@ == BuildStepView::LookupBlob(fetch)
    } else {
        is_assembled(fetch, step)
    }
}

/// The image without a base image.
fn assemble_from_scratch(builder: ImageBuilder) -> (step: Result<BuildStep, Error>)
    ensures
        step matches Ok(BuildStep::Write(image)) && is_built_from_scratch(image@, builder@),
{
    let ghost view = builder@;
    let settings = builder.settings(None);
    let (configuration, config) = match new_configuration(ROOT_TYPE, settings) {
        Ok(written) => written,
        Err((why, source)) => {
            return Err(
                Error::ImageConfig {
                    message: join("Failed to build image configuration: ", why.as_str()),
                    source: Some(Cause::Configuration(source)),
                },
            );
        },
    };
    let config_digest = content_digest(config.as_slice());
    let name = match builder.output_image_name_and_tag {
        Some(name) => name,
        None => "scratch:latest".to_owned(),
    };
    let image = BuiltImage {
        configuration,
        config,
        config_digest,
        base_layers: Vec::new(),
        new_layers: builder.layers,
        name,
        output_path: builder.output_path,
        manifest_source: ManifestSource::NotApplicable,
        resolved_manifest_digest: String::new(),
    };
    assert(image@.layers =~= new_layers(view.layers));
    Ok(BuildStep::Write(image))
}

/// The image on top of its base image.
fn assemble_on_base(
    builder: ImageBuilder,
    reference: ImageReference,
    digest: String,
    source: ManifestSource,
    config: Vec<u8>,
    layers: Vec<BaseLayer>,
    Ghost(fetch): Ghost<BaseFetchView>,
) -> (step: Result<BuildStep, Error>)
    requires
        fetch.builder == builder@,
        fetch.reference == reference@,
        fetch.digest == digest@,
        fetch.source == source,
        fetch.config == Some(config@),
        fetch.layers == blobs_of(layers@),
        is_fetched(fetch, layers@),
    ensures
        is_assembled(fetch, step),
{
    let fields = match read_configuration(config.as_slice()) {
        Ok(fields) => fields,
        Err(source) => {
            return Err(
                Error::ImageConfig {
                    message: "Failed to parse base image configuration".to_owned(),
                    source: Some(Cause::Json(source)),
                },
            );
        },
    };
    let settings = builder.settings(Some(fields));
    let (configuration, config) = match write_configuration(config.as_slice(), settings) {
        Ok(written) => written,
        Err(source) => {
            return Err(
                Error::ImageConfig {
                    message: "Failed to serialize new image configuration".to_owned(),
                    source: Some(Cause::Json(source)),
                },
            );
        },
    };
    let config_digest = content_digest(config.as_slice());
    let name = match builder.output_image_name_and_tag {
        Some(name) => name,
        None => join(reference.repository.as_str(), ":latest"),
    };
    Ok(
        BuildStep::Write(
            BuiltImage {
                configuration,
                config,
                config_digest,
                base_layers: layers,
                new_layers: builder.layers,
                name,
                output_path: builder.output_path,
                manifest_source: source,
                resolved_manifest_digest: digest,
            },
        ),
    )
}

/// The first lookup once the manifest is there: the configuration.
fn fetch_blobs(
    builder: ImageBuilder,
    image_ref: String,
    reference: ImageReference,
    manifest: ImageManifest,
    digest: String,
    source: ManifestSource,
) -> (fetch: BaseFetch)
    ensures
        fetch@ == with_manifest(
            PendingView { builder: builder@, image_ref: image_ref@, reference: reference@ },
            manifest@,
            digest@,
            source,
        ),
{
    let layers: Vec<BaseLayer> = Vec::new();
    proof {
        assert(blobs_of(layers@) =~= Seq::<Seq<u8>>::empty());
        assert(base_layers_of(layers@) =~= base_layers(manifest@.layers, blobs_of(layers@)));
    }
    BaseFetch { builder, image_ref, reference, manifest, digest, source, config: None, layers }
}

impl BaseFetch {
    /// Whether the configuration is wanted, and the descriptor of what is.
    fn wanted(&self) -> (descriptor: (bool, &Descriptor))
        ensures
            descriptor.0 == (self@.config is None),
            descriptor.1@ == wanted(self@),
    {
        proof {
            use_type_invariant(self);
        }
        match self.config {
            None => (true, &self.manifest.config),
            Some(_) => {
                assert(self@.layers.len() == self.layers@.len());
                assert(self@.manifest.layers.len() == self.manifest.layers@.len());
                (false, &self.manifest.layers[self.layers.len()])
            },
        }
    }

    /// Goes on with the blob that was wanted.
    fn fetched(self, blob: Vec<u8>) -> (step: Result<BuildStep, Error>)
        ensures
            goes_on(with_blob(self@, blob@), step),
    {
        proof {
            use_type_invariant(&self);
        }
        let ghost before = self@;
        let ghost after = with_blob(before, blob@);
        let BaseFetch {
            builder,
            image_ref,
            reference,
            manifest,
            digest,
            source,
            config,
            mut layers,
        } = self;
        let config = match config {
            None => {
                assert(after.layers == blobs_of(layers@));
                blob
            },
            Some(config) => {
                let ghost first = layers@;
                assert(before.manifest.layers.len() == manifest.layers@.len());
                assert(before.layers.len() == first.len());
                let media_type = manifest.layers[layers.len()].media_type.clone();
                layers.push(BaseLayer { media_type, data: blob });
                proof {
                    let n = first.len() as int;
                    assert(blobs_of(layers@) =~= blobs_of(first).push(blob@));
                    assert(base_layers_of(layers@) =~= base_layers_of(first).push(
                        (before.manifest.layers[n].media_type, blob@),
                    ));
                    assert(base_layers(before.manifest.layers, blobs_of(layers@)) =~= base_layers(
                        before.manifest.layers,
                        blobs_of(first),
                    ).push((before.manifest.layers[n].media_type, blob@)));
                }
                config
            },
        };
        if layers.len() < manifest.layers.len() {
            let config = Some(config);
            Ok(
                BuildStep::LookupBlob(
                    BlobLookup {
                        fetch: BaseFetch {
                            builder,
                            image_ref,
                            reference,
                            manifest,
                            digest,
                            source,
                            config,
                            layers,
                        },
                    },
                ),
            )
        } else {
            assemble_on_base(builder, reference, digest, source, config, layers, Ghost(after))
        }
    }
}

impl ManifestLookup {
    /// The reference of the base image.
    pub fn reference(&self) -> (reference: &ImageReference)
        ensures
            reference@ == self@.reference,
    {
        &self.reference
    }

    /// The key to look up in the cache.
    pub fn key(&self) -> (key: String)
        ensures
            key@ == manifest_key(self@.reference),
    {
        join("manifest-v1:", self.reference.whole.as_str())
    }

    /// Goes on with what the lookup gave. Where it failed, found nothing, or found what cannot be
    /// read, the manifest is pulled.
    pub fn resume(self, found: Result<Option<Vec<u8>>, Error>) -> (step: BuildStep)
        ensures
            step@ == after_manifest_lookup(
                self@,
                match found {
                    Ok(Some(record)) => Some(record@),
                    _ => None,
                },
            ),
    {
        if let Ok(Some(record)) = found {
            if let Ok(record) = read_manifest_record(record.as_slice()) {
                return self.resume_with(Some(record));
            }
        }
        self.resume_with(None)
    }

    /// Goes on with the manifest and its digest that were found, or without.
    pub fn resume_with(self, record: Option<(ImageManifest, String)>) -> (step: BuildStep)
        ensures
            step@ == after_manifest_record(
                self@,
                match record {
                    Some((manifest, digest)) => Some((manifest@, digest@)),
                    None => None,
                },
            ),
    {
        let ManifestLookup { builder, image_ref, reference } = self;
        match record {
            Some((manifest, digest)) => {
                let source = ManifestSource::FromCache;
                BuildStep::LookupBlob(
                    BlobLookup {
                        fetch: fetch_blobs(builder, image_ref, reference, manifest, digest, source),
                    },
                )
            },
            None => BuildStep::PullManifest(ManifestPull { builder, image_ref, reference }),
        }
    }
}

impl ManifestPull {
    /// How to log in to the registry, where that is known.
    pub fn auth(&self) -> (auth: Option<&RegistryAuth>)
        ensures
            match auth {
                Some(a) => self@.builder.auth == Some(*a),
                None => self@.builder.auth is None,
            },
    {
        match &self.builder.auth {
            Some(auth) => Some(auth),
            None => None,
        }
    }

    /// The reference to pull.
    pub fn reference(&self) -> (reference: &ImageReference)
        ensures
            reference@ == self@.reference,
    {
        &self.reference
    }

    /// Goes on with what the pull gave.
    pub fn resume(self, pulled: Result<(ImageManifest, String), RegistryError>) -> (step: Result<
        BuildStep,
        Error,
    >)
        ensures
            match pulled {
                Err(e) => step matches Err(error) && is_image_pull(
                    error,
                    self@.image_ref,
                    "Failed to pull/resolve base image manifest ("@ + self@.image_ref + "): "@
                        + e.text@,
                    Some(Cause::Registry(e)),
                ),
                Ok((manifest, digest)) => {
                    let fetch = with_manifest(
                        self@,
                        manifest@,
                        digest@,
                        ManifestSource::FromRegistry,
                    );
                    &&& step matches Ok(BuildStep::StoreManifest(store))
                    &&& store@ == (fetch, manifest_record(manifest@, digest@))
                    &&& parsed_manifest_record(store@.1) == Some((manifest@, digest@))
                },
            },
    {
        let ManifestPull { builder, image_ref, reference } = self;
        match pulled {
            Err(error) => {
                let message = join3(
                    "Failed to pull/resolve base image manifest (",
                    image_ref.as_str(),
                    "): ",
                ).concat(error.text.as_str());
                Err(Error::ImagePull { image_ref, message, source: Some(Cause::Registry(error)) })
            },
            Ok((manifest, digest)) => {
                let record = manifest_record_bytes(manifest.clone(), digest.as_str());
                let source = ManifestSource::FromRegistry;
                let fetch = fetch_blobs(
                    builder,
                    image_ref,
                    reference,
                    manifest,
                    digest,
                    source,
                );
                match record {
                    Ok(data) => Ok(BuildStep::StoreManifest(ManifestStore { data, fetch })),
                    Err(_) => Ok(BuildStep::LookupBlob(BlobLookup { fetch })),
                }
            },
        }
    }
}

impl ManifestStore {
    /// The key to store under.
    pub fn key(&self) -> (key: String)
        ensures
            key@ == manifest_key(self@.0.reference),
    {
        join("manifest-v1:", self.fetch.reference.whole.as_str())
    }

    /// What to store.
    pub fn data(&self) -> (data: &Vec<u8>)
        ensures
            data@ == self@.1,
    {
        &self.data
    }

    /// Goes on, whether it could be stored or not.
    pub fn resume(self) -> (step: BuildStep)
        ensures
            step@ == BuildStepView::LookupBlob(self@.0),
    {
        BuildStep::LookupBlob(BlobLookup { fetch: self.fetch })
    }
}

impl BlobLookup {
    /// The digest to look up in the cache.
    pub fn digest(&self) -> (digest: &str)
        ensures
            digest@ == wanted(self@).digest,
    {
        self.fetch.wanted().1.digest.as_str()
    }

    /// Goes on with what the cache holds.
    pub fn resume(self, found: Option<Vec<u8>>) -> (step: Result<BuildStep, Error>)
        ensures
            match found {
                Some(blob) => goes_on(with_blob(self@, blob@), step),
                None => step matches Ok(next) && next@ == BuildStepView::PullBlob(self@),
            },
    {
        match found {
            Some(blob) => self.fetch.fetched(blob),
            None => Ok(BuildStep::PullBlob(BlobPull { fetch: self.fetch })),
        }
    }
}

impl BlobPull {
    /// The blob to pull.
    pub fn descriptor(&self) -> (descriptor: &Descriptor)
        ensures
            descriptor@ == wanted(self@),
    {
        self.fetch.wanted().1
    }

    /// Goes on with what the pull gave.
    pub fn resume(self, pulled: Result<Vec<u8>, RegistryError>) -> (step: Result<BuildStep, Error>)
        ensures
            match pulled {
                Ok(blob) => step matches Ok(next) && next@ == BuildStepView::StoreBlob(
                    self@,
                    blob@,
                ),
                Err(e) => step matches Err(error) && is_image_pull(
                    error,
                    self@.image_ref,
                    (if self@.config is None {
                        "Failed to pull config blob "@
                    } else {
                        "Failed to pull layer blob "@
                    }) + wanted(self@).digest,
                    Some(Cause::Registry(e)),
                ),
            },
    {
        match pulled {
            Ok(data) => Ok(BuildStep::StoreBlob(BlobStore { data, fetch: self.fetch })),
            Err(error) => {
                let (is_config, descriptor) = self.fetch.wanted();
                let message = if is_config {
                    join("Failed to pull config blob ", descriptor.digest.as_str())
                } else {
                    join("Failed to pull layer blob ", descriptor.digest.as_str())
                };
                Err(
                    Error::ImagePull {
                        image_ref: self.fetch.image_ref.clone(),
                        message,
                        source: Some(Cause::Registry(error)),
                    },
                )
            },
        }
    }
}

impl BlobStore {
    /// The digest to store under.
    pub fn digest(&self) -> (digest: &str)
        ensures
            digest@ == wanted(self@.0).digest,
    {
        self.fetch.wanted().1.digest.as_str()
    }

    /// What to store.
    pub fn data(&self) -> (data: &Vec<u8>)
        ensures
            data@ == self@.1,
    {
        &self.data
    }

    /// Goes on after it was stored.
    pub fn resume(self) -> (step: Result<BuildStep, Error>)
        ensures
            goes_on(with_blob(self@.0, self@.1), step),
    {
        self.fetch.fetched(self.data)
    }
}

impl ImageBuilder {
    /// Starts the build.
    ///
    /// Without a base image, the image is ready to be written. With one, its manifest is looked up
    /// in the cache or pulled, as the pull policy says.
    pub fn build(self) -> (step: Result<BuildStep, Error>)
        ensures
            match self@.base_image_ref {
                None => step matches Ok(BuildStep::Write(image)) && is_built_from_scratch(
                    image@,
                    self@,
                ),
                Some(image_ref) => match parsed_reference(image_ref) {
                    Err(why) => step matches Err(
                        Error::ImagePull {
                            image_ref: image,
                            message,
                            source: Some(Cause::Reference(_)),
                        },
                    ) && image@ == image_ref && message@
                        == "Invalid base image reference format: "@ + why,
                    Ok(reference) => {
                        let pending = PendingView { builder: self@, image_ref, reference };
                        step matches Ok(next) && next@ == if self@.pull_policy == Some(
                            PullPolicy::Always,
                        ) {
                            BuildStepView::PullManifest(pending)
                        } else {
                            BuildStepView::LookupManifest(pending)
                        }
                    },
                },
            },
    {
        let image_ref = match &self.base_image_ref {
            Some(image_ref) => image_ref.clone(),
            None => {
                return assemble_from_scratch(self);
            },
        };
        let reference = reference_of(image_ref.as_str());
        self.build_on(image_ref, reference)
    }

    /// Starts the build on the base image `image_ref`, where `reference` is what parsing it gave.
    pub fn build_on(
        self,
        image_ref: String,
        reference: Result<ImageReference, ReferenceError>,
    ) -> (step: Result<BuildStep, Error>)
        ensures
            match reference {
                Err(e) => step matches Err(error) && is_image_pull(
                    error,
                    image_ref@,
                    "Invalid base image reference format: "@ + e.text@,
                    Some(Cause::Reference(e.source)),
                ),
                Ok(r) => {
                    let pending = PendingView {
                        builder: self@,
                        image_ref: image_ref@,
                        reference: r@,
                    };
                    step matches Ok(next) && next@ == if self@.pull_policy == Some(
                        PullPolicy::Always,
                    ) {
                        BuildStepView::PullManifest(pending)
                    } else {
                        BuildStepView::LookupManifest(pending)
                    }
                },
            },
    {
        let reference = match reference {
            Ok(reference) => reference,
            Err(error) => {
                return Err(
                    Error::ImagePull {
                        image_ref,
                        message: join(
                            "Invalid base image reference format: ",
                            error.text.as_str(),
                        ),
                        source: Some(Cause::Reference(error.source)),
                    },
                );
            },
        };
        match self.pull_policy {
            Some(PullPolicy::Always) => Ok(
                BuildStep::PullManifest(ManifestPull { builder: self, image_ref, reference }),
            ),
            _ => Ok(
                BuildStep::LookupManifest(ManifestLookup { builder: self, image_ref, reference }),
            ),
        }
    }
}

/// A manifest that was pulled is not pulled again: once its record is stored, a build with the same
/// base image finds it in the cache and says so, whatever else the cache holds.
pub proof fn law_pulled_manifest_is_cached(
    cache: Map<Seq<char>, Seq<u8>>,
    pulled: BaseFetchView,
    record: Seq<u8>,
    again: PendingView,
)
    requires
        parsed_manifest_record(record) == Some((pulled.manifest, pulled.digest)),
        again.reference == pulled.reference,
    ensures
        after_manifest_lookup(
            again,
            looked_up(
                with_writes(cache, seq![(manifest_key(pulled.reference), record)]),
                manifest_key(again.reference),
            ),
        ) == BuildStepView::LookupBlob(
            with_manifest(again, pulled.manifest, pulled.digest, ManifestSource::FromCache),
        ),
{
    let writes = seq![(manifest_key(pulled.reference), record)];
    assert(writes.drop_last().len() == 0);
    assert(with_writes(cache, writes.drop_last()) == cache);
}

/// The build after the blobs it waited for are there, one after the other.
pub open spec fn with_blobs(fetch: BaseFetchView, blobs: Seq<Seq<u8>>) -> BaseFetchView
    decreases blobs.len(),
{
    if blobs.len() == 0 {
        fetch
    } else {
        with_blob(with_blobs(fetch, blobs.drop_last()), blobs.last())
    }
}

/// The blobs of the base image are fetched in order: the configuration, then every layer, each
/// once; and then nothing more.
pub proof fn law_base_image_is_fetched_in_order(
    pending: PendingView,
    manifest: ImageManifestView,
    digest: Seq<char>,
    source: ManifestSource,
    blobs: Seq<Seq<u8>>,
)
    requires
        blobs.len() <= manifest.layers.len() + 1,
    ensures
        ({
            let fetch = with_blobs(with_manifest(pending, manifest, digest, source), blobs);
            &&& fetch.manifest == manifest
            &&& fetch.config == if blobs.len() == 0 {
                None
            } else {
                Some(blobs[0])
            }
            &&& fetch.layers == if blobs.len() == 0 {
                Seq::empty()
            } else {
                blobs.skip(1)
            }
            &&& is_waiting(fetch) == (blobs.len() <= manifest.layers.len())
            &&& is_waiting(fetch) ==> wanted(fetch) == if blobs.len() == 0 {
                manifest.config
            } else {
                manifest.layers[blobs.len() - 1]
            }
        }),
    decreases blobs.len(),
{
    if blobs.len() > 0 {
        let front = blobs.drop_last();
        law_base_image_is_fetched_in_order(pending, manifest, digest, source, front);
        if blobs.len() == 1 {
            assert(blobs.skip(1) == Seq::<Seq<u8>>::empty());
        } else {
            assert(front[0] == blobs[0]);
            assert(blobs.skip(1) == front.skip(1).push(blobs.last()));
        }
    }
}

/// What was set is read back from the configuration of the built image: the layers' digests with
/// the new ones on top, the platform, the command, and the entrypoint and working directory. The
/// latter two stay as the base image has them where they were not set; so do the environment and
/// the user.
pub proof fn law_settings_are_read_back(
    builder: ImageBuilderView,
    base: Option<ImageFieldsView>,
)
    ensures
        ({
            let fields = built_fields(builder, base);
            &&& fields.process is Some
            &&& fields.process->0.cmd == Some(
                match builder.cmd {
                    Some(cmd) => cmd,
                    None => Seq::empty(),
                },
            )
            &&& builder.entrypoint is Some ==> fields.process->0.entrypoint == builder.entrypoint
            &&& builder.working_dir is Some ==> fields.process->0.working_dir
                == builder.working_dir
            &&& builder.platform_os is Some ==> Some(fields.os) == builder.platform_os
            &&& builder.platform_arch is Some && builder.platform_arch != Some("armbe"@)
                ==> Some(fields.architecture) == builder.platform_arch
            &&& base matches Some(b) ==> {
                &&& fields.diff_ids == b.diff_ids + new_diff_ids(builder.layers)
                &&& b.process matches Some(p) ==> {
                    &&& builder.entrypoint is None ==> fields.process->0.entrypoint
                        == p.entrypoint
                    &&& builder.working_dir is None ==> fields.process->0.working_dir
                        == p.working_dir
                    &&& fields.process->0.env == p.env
                    &&& fields.process->0.user == p.user
                }
            }
            &&& base is None ==> fields.diff_ids == new_diff_ids(builder.layers)
        }),
{
    assert(Seq::<Seq<char>>::empty() + new_diff_ids(builder.layers) == new_diff_ids(
        builder.layers,
    ));
}

/// What cannot be set stays as the base image has it: the environment, the user, the labels, the
/// exposed ports, the volumes, the stop signal, the history and all else that a configuration says.
pub proof fn law_base_configuration_stays(
    fetch: BaseFetchView,
    image: BuiltImageView,
    base: ImageFieldsView,
)
    requires
        configuration_fields(fetch.config->0) == Some(base),
        is_built_on_base(image, fetch),
    ensures
        image.rest == configuration_rest(fetch.config->0),
        image.fields.process matches Some(process) && process.env == (match base.process {
            Some(p) => p.env,
            None => None,
        }) && process.user == (match base.process {
            Some(p) => p.user,
            None => None,
        }),
{
}

/// An image that was built is loaded again from its archive as the same image: the digest of the
/// configuration in the archive is that of the image. That is so where the ports, volumes and
/// labels have one order only; else the archive may hold them in another one.
pub proof fn law_built_image_is_loaded_again(
    builder: ImageBuilderView,
    fetch: BaseFetchView,
    image: BuiltImageView,
    path: Seq<char>,
    archived: Seq<u8>,
)
    requires
        is_built_from_scratch(image, builder) || is_built_on_base(image, fetch),
        is_json_of(archived, image.fields, image.rest),
        has_one_order(image.rest),
    ensures
        image_at(path, digest_of(archived)) == image_at(path, image.config_digest),
{
}

/// An image that is built from scratch is reproducible: what was set decides on its configuration
/// to the last byte, and with it on its digest.
pub proof fn law_scratch_image_is_reproducible(builder: ImageBuilderView, image: BuiltImageView)
    requires
        is_built_from_scratch(image, builder),
    ensures
        image.config == configuration_json(built_fields(builder, None), no_rest(ROOT_TYPE@)),
        image.config_digest == digest_of(image.config),
{
}

/// The configuration of a built image names as many archives as the image has layers, where that
/// of the base image does.
pub proof fn law_every_layer_has_a_diff_id(fetch: BaseFetchView, image: BuiltImageView)
    requires
        !is_waiting(fetch),
        fetch.layers.len() == fetch.manifest.layers.len(),
        is_built_on_base(image, fetch),
        configuration_fields(fetch.config->0) matches Some(fields) && fields.diff_ids.len()
            == fetch.manifest.layers.len(),
    ensures
        image.fields.diff_ids.len() == image.layers.len(),
{
}

/// Where the manifest came from makes no difference to the image: only the diagnostics tell.
pub proof fn law_cached_base_gives_the_same_image(
    image: BuiltImageView,
    fetch: BaseFetchView,
    source: ManifestSource,
)
    requires
        is_built_on_base(image, fetch),
    ensures
        is_built_on_base(
            BuiltImageView { manifest_source: source, ..image },
            BaseFetchView { source, ..fetch },
        ),
{
}

} // verus!

use vstd::prelude::*;

use crate::digest::{content_digest, digest_of};
use crate::error::{is_bad_reference, is_generic, Cause, Error, RegistryError};
use crate::image::{determine_use_monolithic_push, uses_monolithic_push, MonolithicPushPolicy};
use crate::layer_build::{Layer, LayerView};
use crate::manifest::{
    canonical_image_index, canonical_image_manifest, canonical_manifest_bytes, index_entries_of,
    Descriptor, DescriptorView, ImageIndex, ImageIndexView, ImageManifest, ImageManifestView,
    IndexEntry, IndexEntryView, Manifest, ManifestView, IMAGE_CONFIG_MEDIA_TYPE,
    OCI_IMAGE_INDEX_MEDIA_TYPE, OCI_IMAGE_MEDIA_TYPE,
};
use crate::reference::{parsed_reference, reference_of, ImageReference, ReferenceView};
use crate::remote::{
    append_diff_id, blob_descriptor, config_platform, derived_config, descriptor_for_bytes,
    generic_error, is_layer_error, is_platform_error, oci_platform,
    platform_from_image_config, platform_matches, registry_error, RemoteDeriveOptions,
    RemoteDerivedImage, RemotePlatform, RemotePlatformView,
};
use crate::text::{copy_text, join, join5};

verus! {

/// What is derived: one layer on top of a base image, for some platforms.
pub struct SetupView {
    pub base: ReferenceView,
    pub target: ReferenceView,
    /// The target as it was asked for.
    pub target_text: Seq<char>,
    /// The tag of the target.
    pub tag: Seq<char>,
    pub platforms: Seq<RemotePlatformView>,
    /// The layer to add.
    pub layer: LayerView,
}

/// How far the derivation has come.
pub struct DeriveView {
    pub setup: SetupView,
    /// What the base reference names.
    pub manifest: ManifestView,
    /// The images that are derived, one for each of the first platforms.
    pub entries: Seq<IndexEntryView>,
    /// The number of bytes uploaded.
    pub uploaded: nat,
}

/// The contents of a `RemoteDerivedImage`.
pub struct DerivedView {
    pub reference: Seq<char>,
    pub digest: Seq<char>,
    pub base_layer_bytes_downloaded: nat,
    pub bytes_uploaded: nat,
}

impl View for RemoteDerivedImage {
    type V = DerivedView;

    open spec fn view(&self) -> DerivedView {
        DerivedView {
            reference: self.reference@,
            digest: self.digest@,
            base_layer_bytes_downloaded: self.base_layer_bytes_downloaded as nat,
            bytes_uploaded: self.bytes_uploaded as nat,
        }
    }
}

/// The contents of a `DeriveStep`.
pub enum DeriveStepView {
    AuthBase(SetupView),
    AuthTarget(SetupView),
    PullBase(SetupView),
    MountLayer(DeriveView),
    PushLayer(DeriveView),
    PullPlatformConfig(DeriveView, DescriptorView),
    PullPlatformManifest(DeriveView, Seq<char>),
    MountBase(DeriveView, ImageManifestView, nat),
    PullConfig(DeriveView, ImageManifestView),
    MountConfig(DeriveView, ImageManifestView, Seq<u8>),
    PushConfig(DeriveView, ImageManifestView, Seq<u8>),
    PushManifest(DeriveView, ReferenceView, Seq<u8>),
    PushIndex(SetupView, nat, Seq<u8>),
}

/// A derivation of which nothing is done yet, where the base reference names `manifest`.
pub open spec fn first_derive(setup: SetupView, manifest: ManifestView) -> DeriveView {
    DeriveView { setup, manifest, entries: Seq::empty(), uploaded: 0 }
}

/// The contents of platforms.
pub open spec fn platforms_of(platforms: Seq<RemotePlatform>) -> Seq<RemotePlatformView> {
    Seq::new(platforms.len(), |i: int| platforms[i]@)
}

/// The platform that an image is derived for.
pub open spec fn current_platform(derive: DeriveView) -> RemotePlatformView {
    derive.setup.platforms[derive.entries.len() as int]
}

/// The digest of the first image in an index that is for a platform.
pub open spec fn matching_digest(
    entries: Seq<IndexEntryView>,
    platform: RemotePlatformView,
) -> Option<Seq<char>>
    decreases entries.len(),
{
    if entries.len() == 0 {
        None
    } else {
        match matching_digest(entries.drop_last(), platform) {
            Some(digest) => Some(digest),
            None => if entries.last().platform matches Some(p) && platform_matches(platform, p) {
                Some(entries.last().digest)
            } else {
                None
            },
        }
    }
}

/// How the derivation goes on for the next platform, or the message of the failure.
///
/// From an index, the image for the platform is taken. A single image has to be for the platform,
/// which its configuration tells.
pub open spec fn platform_step(derive: DeriveView) -> Result<DeriveStepView, Seq<char>> {
    let platform = current_platform(derive);
    match derive.manifest {
        ManifestView::Image(image) => Ok(DeriveStepView::PullPlatformConfig(derive, image.config)),
        ManifestView::ImageIndex(index) => match matching_digest(index.manifests, platform) {
            Some(digest) => Ok(DeriveStepView::PullPlatformManifest(derive, digest)),
            None => Err(
                "base image has no "@ + platform.os + "/"@ + platform.architecture
                    + " manifest"@,
            ),
        },
    }
}

/// Whether the derivation goes on rightly for the next platform.
pub open spec fn is_platform_step(derive: DeriveView, step: Result<DeriveStep, Error>) -> bool {
    match platform_step(derive) {
        Ok(next) => step matches Ok(s) && s@ == next,
        Err(message) => step matches Err(error) && is_generic(error, message, None),
    }
}

/// How the derivation goes on once the first layers of a base image are mounted: with the next one,
/// or with the configuration. No layer is ever pulled.
pub open spec fn base_step(
    derive: DeriveView,
    image: ImageManifestView,
    mounted: nat,
) -> DeriveStepView {
    if mounted < image.layers.len() {
        DeriveStepView::MountBase(derive, image, mounted)
    } else {
        DeriveStepView::PullConfig(derive, image)
    }
}

/// The descriptor of the layer to add.
pub open spec fn layer_descriptor(layer: LayerView) -> DescriptorView {
    DescriptorView {
        media_type: layer.media_type,
        digest: layer.blob_digest,
        size: layer.blob.len() as i64,
        urls: None,
        annotations: None,
    }
}

/// The descriptor of a derived configuration: of the media type of the base image's, where that
/// has one.
pub open spec fn config_descriptor(image: ImageManifestView, config: Seq<u8>) -> DescriptorView {
    blob_descriptor(
        if image.config.media_type.len() == 0 {
            IMAGE_CONFIG_MEDIA_TYPE@
        } else {
            image.config.media_type
        },
        config,
    )
}

/// The manifest of a derived image: the layers of the base image with the new one on top.
pub open spec fn derived_manifest(
    setup: SetupView,
    image: ImageManifestView,
    config: Seq<u8>,
) -> ImageManifestView {
    ImageManifestView {
        schema_version: 2,
        media_type: Some(OCI_IMAGE_MEDIA_TYPE@),
        config: config_descriptor(image, config),
        layers: image.layers.push(layer_descriptor(setup.layer)),
        subject: None,
        artifact_type: None,
        annotations: image.annotations,
    }
}

/// Where the derived image for a platform is published: under the target's tag with the platform
/// behind it.
pub open spec fn platform_reference(setup: SetupView, platform: RemotePlatformView) -> Seq<char> {
    setup.target.registry + "/"@ + setup.target.repository + ":"@ + setup.tag + "-"@ + platform.os
        + "-"@ + platform.architecture + match platform.variant {
        Some(variant) => "-"@ + variant,
        None => Seq::empty(),
    }
}

/// The derived image for a platform in the index.
pub open spec fn derived_entry(platform: RemotePlatformView, manifest: Seq<u8>) -> IndexEntryView {
    IndexEntryView {
        media_type: OCI_IMAGE_MEDIA_TYPE@,
        digest: digest_of(manifest),
        size: manifest.len() as i64,
        platform: Some(oci_platform(platform)),
        annotations: None,
    }
}

/// The index of the derived images.
pub open spec fn derived_index(entries: Seq<IndexEntryView>) -> ImageIndexView {
    ImageIndexView {
        schema_version: 2,
        media_type: Some(OCI_IMAGE_INDEX_MEDIA_TYPE@),
        manifests: entries,
        artifact_type: None,
        annotations: None,
    }
}

/// The message for a text that is no image reference.
pub open spec fn bad_reference_message(value: Seq<char>, kind: Seq<char>) -> Seq<char> {
    "Invalid "@ + kind + " image reference '"@ + value + "'"@
}

/// How the derivation goes on once a derived configuration is in the target repository: the
/// manifest is published. It does not where the name for it is no image reference.
pub open spec fn manifest_step(
    derive: DeriveView,
    image: ImageManifestView,
    config: Seq<u8>,
) -> Option<DeriveStepView> {
    match parsed_reference(platform_reference(derive.setup, current_platform(derive))) {
        Err(_) => None,
        Ok(reference) => Some(
            DeriveStepView::PushManifest(
                derive,
                reference,
                canonical_image_manifest(derived_manifest(derive.setup, image, config)),
            ),
        ),
    }
}

/// Whether the derivation goes on rightly once a derived configuration is in the target repository.
pub open spec fn is_manifest_step(
    derive: DeriveView,
    image: ImageManifestView,
    config: Seq<u8>,
    step: Result<DeriveStep, Error>,
) -> bool {
    match manifest_step(derive, image, config) {
        None => step matches Err(error) && is_bad_reference(
            error,
            bad_reference_message(
                platform_reference(derive.setup, current_platform(derive)),
                "derived architecture"@,
            ),
        ),
        Some(next) => step matches Ok(s) && s@ == next,
    }
}

/// The derivation once the manifest for the current platform is published.
pub open spec fn with_derived(derive: DeriveView, manifest: Seq<u8>) -> DeriveView {
    DeriveView {
        entries: derive.entries.push(derived_entry(current_platform(derive), manifest)),
        ..derive
    }
}

/// The end of a derivation: the index is published.
pub open spec fn index_step(derive: DeriveView) -> DeriveStepView {
    DeriveStepView::PushIndex(
        derive.setup,
        derive.uploaded,
        canonical_image_index(derived_index(derive.entries)),
    )
}

/// Whether the derivation goes on rightly once the manifest for a platform is published: with the
/// next platform, or with the index where there is none.
pub open spec fn is_next_step(
    derive: DeriveView,
    manifest: Seq<u8>,
    step: Result<DeriveStep, Error>,
) -> bool {
    let next = with_derived(derive, manifest);
    if manifest.len() > i64::MAX {
        step matches Err(error) && is_generic(
            error,
            "derived manifest is too large for an OCI descriptor"@,
            None,
        )
    } else if next.entries.len() < next.setup.platforms.len() {
        is_platform_step(next, step)
    } else {
        step matches Ok(s) && s@ == index_step(next)
    }
}

/// What is derived.
#[derive(Debug)]
struct Setup {
    base: ImageReference,
    target: ImageReference,
    target_text: String,
    tag: String,
    platforms: Vec<RemotePlatform>,
    diff_id: String,
    media_type: String,
    blob_digest: String,
    blob: Vec<u8>,
}

impl View for Setup {
    type V = SetupView;

    closed spec fn view(&self) -> SetupView {
        SetupView {
            base: self.base@,
            target: self.target@,
            target_text: self.target_text@,
            tag: self.tag@,
            platforms: platforms_of(self.platforms@),
            layer: LayerView {
                diff_id: self.diff_id@,
                blob_digest: self.blob_digest@,
                media_type: self.media_type@,
                blob: self.blob@,
            },
        }
    }
}

impl Setup {
    #[verifier::type_invariant]
    spec fn has_platforms(self) -> bool {
        self.platforms.len() > 0
    }
}

/// How far the derivation has come.
#[derive(Debug)]
struct Derive {
    setup: Setup,
    manifest: Manifest,
    entries: Vec<IndexEntry>,
    uploaded: u64,
}

impl View for Derive {
    type V = DeriveView;

    closed spec fn view(&self) -> DeriveView {
        DeriveView {
            setup: self.setup@,
            manifest: self.manifest@,
            entries: index_entries_of(self.entries@),
            uploaded: self.uploaded as nat,
        }
    }
}

impl Derive {
    #[verifier::type_invariant]
    spec fn has_platform(self) -> bool {
        self.entries.len() < self.setup.platforms.len() && self.setup.blob.len() <= i64::MAX
    }
}

/// A derivation that logs in to the registry of the base image.
#[derive(Debug)]
pub struct DeriveAuthBase {
    setup: Setup,
}

/// A derivation that logs in to the registry of the target.
#[derive(Debug)]
pub struct DeriveAuthTarget {
    setup: Setup,
}

/// A derivation that pulls what the base reference names.
#[derive(Debug)]
pub struct DerivePullBase {
    setup: Setup,
}

/// A derivation that asks the target repository for the new layer.
#[derive(Debug)]
pub struct DeriveMountLayer {
    derive: Derive,
}

/// A derivation that uploads the new layer.
#[derive(Debug)]
pub struct DerivePushLayer {
    derive: Derive,
}

/// A derivation that pulls the configuration of a single base image, for its platform.
#[derive(Debug)]
pub struct DerivePullPlatformConfig {
    derive: Derive,
    image: ImageManifest,
}

/// A derivation that pulls the manifest of the base image for a platform.
#[derive(Debug)]
pub struct DerivePullPlatformManifest {
    derive: Derive,
    digest: String,
}

/// A derivation that mounts a layer of the base image in the target repository.
#[derive(Debug)]
pub struct DeriveMountBase {
    derive: Derive,
    image: ImageManifest,
    mounted: usize,
}

/// A derivation that pulls the configuration of the base image.
#[derive(Debug)]
pub struct DerivePullConfig {
    derive: Derive,
    image: ImageManifest,
}

/// A derivation that asks the target repository for the derived configuration.
#[derive(Debug)]
pub struct DeriveMountConfig {
    derive: Derive,
    image: ImageManifest,
    config: Vec<u8>,
}

/// A derivation that uploads the derived configuration.
#[derive(Debug)]
pub struct DerivePushConfig {
    derive: Derive,
    image: ImageManifest,
    config: Vec<u8>,
}

/// A derivation that publishes the manifest for a platform.
#[derive(Debug)]
pub struct DerivePushManifest {
    derive: Derive,
    reference: ImageReference,
    manifest: Vec<u8>,
}

/// A derivation that publishes the index.
#[derive(Debug)]
pub struct DerivePushIndex {
    setup: Setup,
    uploaded: u64,
    index: Vec<u8>,
}

/// What a derivation does next.
#[derive(Debug)]
pub enum DeriveStep {
    /// Log in to the registry of the base image, to read.
    AuthBase(DeriveAuthBase),
    /// Log in to the registry of the target, to write.
    AuthTarget(DeriveAuthTarget),
    /// Pull what the base reference names.
    PullBase(DerivePullBase),
    /// Ask the target repository for the new layer, by mounting it.
    MountLayer(DeriveMountLayer),
    /// Upload the new layer.
    PushLayer(DerivePushLayer),
    /// Pull the configuration of a single base image, for its platform.
    PullPlatformConfig(DerivePullPlatformConfig),
    /// Pull the manifest of the base image for a platform.
    PullPlatformManifest(DerivePullPlatformManifest),
    /// Mount a layer of the base image in the target repository.
    MountBase(DeriveMountBase),
    /// Pull the configuration of the base image.
    PullConfig(DerivePullConfig),
    /// Ask the target repository for the derived configuration, by mounting it.
    MountConfig(DeriveMountConfig),
    /// Upload the derived configuration.
    PushConfig(DerivePushConfig),
    /// Publish the manifest for a platform.
    PushManifest(DerivePushManifest),
    /// Publish the index.
    PushIndex(DerivePushIndex),
}

impl View for DeriveAuthBase {
    type V = SetupView;

    closed spec fn view(&self) -> SetupView {
        self.setup@
    }
}

impl View for DeriveAuthTarget {
    type V = SetupView;

    closed spec fn view(&self) -> SetupView {
        self.setup@
    }
}

impl View for DerivePullBase {
    type V = SetupView;

    closed spec fn view(&self) -> SetupView {
        self.setup@
    }
}

impl View for DeriveMountLayer {
    type V = DeriveView;

    closed spec fn view(&self) -> DeriveView {
        self.derive@
    }
}

impl View for DerivePushLayer {
    type V = DeriveView;

    closed spec fn view(&self) -> DeriveView {
        self.derive@
    }
}

impl View for DerivePullPlatformConfig {
    type V = (DeriveView, DescriptorView);

    closed spec fn view(&self) -> (DeriveView, DescriptorView) {
        (self.derive@, self.image@.config)
    }
}

impl View for DerivePullPlatformManifest {
    type V = (DeriveView, Seq<char>);

    closed spec fn view(&self) -> (DeriveView, Seq<char>) {
        (self.derive@, self.digest@)
    }
}

impl View for DeriveMountBase {
    type V = (DeriveView, ImageManifestView, nat);

    closed spec fn view(&self) -> (DeriveView, ImageManifestView, nat) {
        (self.derive@, self.image@, self.mounted as nat)
    }
}

impl View for DerivePullConfig {
    type V = (DeriveView, ImageManifestView);

    closed spec fn view(&self) -> (DeriveView, ImageManifestView) {
        (self.derive@, self.image@)
    }
}

impl View for DeriveMountConfig {
    type V = (DeriveView, ImageManifestView, Seq<u8>);

    closed spec fn view(&self) -> (DeriveView, ImageManifestView, Seq<u8>) {
        (self.derive@, self.image@, self.config@)
    }
}

impl View for DerivePushConfig {
    type V = (DeriveView, ImageManifestView, Seq<u8>);

    closed spec fn view(&self) -> (DeriveView, ImageManifestView, Seq<u8>) {
        (self.derive@, self.image@, self.config@)
    }
}

impl View for DerivePushManifest {
    type V = (DeriveView, ReferenceView, Seq<u8>);

    closed spec fn view(&self) -> (DeriveView, ReferenceView, Seq<u8>) {
        (self.derive@, self.reference@, self.manifest@)
    }
}

impl View for DerivePushIndex {
    type V = (SetupView, nat, Seq<u8>);

    closed spec fn view(&self) -> (SetupView, nat, Seq<u8>) {
        (self.setup@, self.uploaded as nat, self.index@)
    }
}

impl View for DeriveStep {
    type V = DeriveStepView;

    open spec fn view(&self) -> DeriveStepView {
        match self {
            DeriveStep::AuthBase(s) => DeriveStepView::AuthBase(s@),
            DeriveStep::AuthTarget(s) => DeriveStepView::AuthTarget(s@),
            DeriveStep::PullBase(s) => DeriveStepView::PullBase(s@),
            DeriveStep::MountLayer(s) => DeriveStepView::MountLayer(s@),
            DeriveStep::PushLayer(s) => DeriveStepView::PushLayer(s@),
            DeriveStep::PullPlatformConfig(s) => DeriveStepView::PullPlatformConfig(s@.0, s@.1),
            DeriveStep::PullPlatformManifest(s) => DeriveStepView::PullPlatformManifest(
                s@.0,
                s@.1,
            ),
            DeriveStep::MountBase(s) => DeriveStepView::MountBase(s@.0, s@.1, s@.2),
            DeriveStep::PullConfig(s) => DeriveStepView::PullConfig(s@.0, s@.1),
            DeriveStep::MountConfig(s) => DeriveStepView::MountConfig(s@.0, s@.1, s@.2),
            DeriveStep::PushConfig(s) => DeriveStepView::PushConfig(s@.0, s@.1, s@.2),
            DeriveStep::PushManifest(s) => DeriveStepView::PushManifest(s@.0, s@.1, s@.2),
            DeriveStep::PushIndex(s) => DeriveStepView::PushIndex(s@.0, s@.1, s@.2),
        }
    }
}

impl DerivePushLayer {
    #[verifier::type_invariant]
    spec fn has_uploaded_nothing(self) -> bool {
        self.derive.uploaded == 0
    }
}

impl DeriveMountLayer {
    #[verifier::type_invariant]
    spec fn has_uploaded_nothing(self) -> bool {
        self.derive.uploaded == 0
    }
}

impl DerivePullPlatformConfig {
    #[verifier::type_invariant]
    spec fn is_single_image(self) -> bool {
        self.derive@.manifest == ManifestView::Image(self.image@)
    }
}

impl DeriveMountBase {
    #[verifier::type_invariant]
    spec fn has_layer(self) -> bool {
        self.mounted < self.image.layers.len()
    }
}

impl DeriveMountConfig {
    #[verifier::type_invariant]
    spec fn fits(self) -> bool {
        self.config.len() <= i64::MAX
    }
}

impl DerivePushConfig {
    #[verifier::type_invariant]
    spec fn fits(self) -> bool {
        self.config.len() <= i64::MAX
    }
}

/// Parses a reference; `kind` says what it is for.
pub fn parse_reference(value: &str, kind: &str) -> (reference: Result<ImageReference, Error>)
    ensures
        match parsed_reference(value@) {
            Ok(r) => reference matches Ok(parsed) && parsed@ == r,
            Err(_) => reference matches Err(error) && is_bad_reference(
                error,
                bad_reference_message(value@, kind@),
            ),
        },
{
    match reference_of(value) {
        Ok(reference) => Ok(reference),
        Err(error) => Err(
            Error::Generic {
                message: join5("Invalid ", kind, " image reference '", value, "'"),
                source: Some(Cause::Reference(error.source)),
            },
        ),
    }
}

/// Whether a derivation starts rightly: the target has a tag and no digest. What is given besides
/// the first step says whether blobs are uploaded in one request.
pub open spec fn is_start(
    base: ReferenceView,
    target: ReferenceView,
    target_text: Seq<char>,
    platforms: Seq<RemotePlatformView>,
    layer: LayerView,
    policy: MonolithicPushPolicy,
    start: Result<(DeriveStep, bool), Error>,
) -> bool {
    match (target.tag, target.digest) {
        (None, _) => start matches Err(error) && is_generic(
            error,
            "target reference must contain a tag"@,
            None,
        ),
        (Some(_), Some(_)) => start matches Err(error) && is_generic(
            error,
            "target reference cannot contain a digest"@,
            None,
        ),
        (Some(tag), None) => {
            &&& start matches Ok((step, monolithic))
            &&& step@ == DeriveStepView::AuthBase(
                SetupView { base, target, target_text, tag, platforms, layer },
            )
            &&& monolithic == uses_monolithic_push(policy, target.resolved_registry)
        },
    }
}

/// Starts the derivation of an image in a registry: each layer of the base image is mounted in the
/// target repository, and one layer is added on top.
///
/// The registries have to support the mounting of blobs across repositories. Where a layer cannot
/// be mounted, the derivation fails: no layer of the base image is ever downloaded.
///
/// What is given besides the first step says whether blobs are uploaded in one request.
pub fn derive_remote_image(
    base_reference: &str,
    target_reference: &str,
    platforms: Vec<RemotePlatform>,
    layer: &Layer,
    options: &RemoteDeriveOptions,
) -> (start: Result<(DeriveStep, bool), Error>)
    ensures
        if platforms@.len() == 0 {
            start matches Err(error) && is_generic(
                error,
                "at least one target platform is required"@,
                None,
            )
        } else {
            match (parsed_reference(base_reference@), parsed_reference(target_reference@)) {
                (Err(_), _) => start matches Err(error) && is_bad_reference(
                    error,
                    bad_reference_message(base_reference@, "base"@),
                ),
                (Ok(_), Err(_)) => start matches Err(error) && is_bad_reference(
                    error,
                    bad_reference_message(target_reference@, "target"@),
                ),
                (Ok(base), Ok(target)) => is_start(
                    base,
                    target,
                    target_reference@,
                    platforms_of(platforms@),
                    layer@,
                    options.monolithic_push,
                    start,
                ),
            }
        },
{
    if platforms.len() == 0 {
        return Err(generic_error("at least one target platform is required".to_owned()));
    }
    let base = match parse_reference(base_reference, "base") {
        Ok(base) => base,
        Err(error) => {
            return Err(error);
        },
    };
    let target = match parse_reference(target_reference, "target") {
        Ok(target) => target,
        Err(error) => {
            return Err(error);
        },
    };
    derive_from(base, target, target_reference, platforms, layer, options)
}

/// Starts the derivation of an image in a registry from the references `base` and `target`, where
/// `target_reference` is the target as it was asked for.
pub fn derive_from(
    base: ImageReference,
    target: ImageReference,
    target_reference: &str,
    platforms: Vec<RemotePlatform>,
    layer: &Layer,
    options: &RemoteDeriveOptions,
) -> (start: Result<(DeriveStep, bool), Error>)
    ensures
        if platforms@.len() == 0 {
            start matches Err(error) && is_generic(
                error,
                "at least one target platform is required"@,
                None,
            )
        } else {
            is_start(
                base@,
                target@,
                target_reference@,
                platforms_of(platforms@),
                layer@,
                options.monolithic_push,
                start,
            )
        },
{
    if platforms.len() == 0 {
        return Err(generic_error("at least one target platform is required".to_owned()));
    }
    let tag = match copy_text(&target.tag) {
        Some(tag) => tag,
        None => {
            return Err(generic_error("target reference must contain a tag".to_owned()));
        },
    };
    if target.digest.is_some() {
        return Err(generic_error("target reference cannot contain a digest".to_owned()));
    }
    let monolithic = determine_use_monolithic_push(
        &options.monolithic_push,
        target.resolved_registry.as_str(),
    );
    let blob = layer.blob().clone();
    assert(blob@ =~= layer@.blob);
    let setup = Setup {
        base,
        target,
        target_text: target_reference.to_owned(),
        tag,
        platforms,
        diff_id: layer.diff_id().to_owned(),
        media_type: layer.media_type().to_owned(),
        blob_digest: layer.blob_digest().to_owned(),
        blob,
    };
    Ok((DeriveStep::AuthBase(DeriveAuthBase { setup }), monolithic))
}

impl DeriveAuthBase {
    /// The reference of the base image.
    pub fn reference(&self) -> (reference: &ImageReference)
        ensures
            reference@ == self@.base,
    {
        &self.setup.base
    }

    /// The reference of the target.
    pub fn target(&self) -> (reference: &ImageReference)
        ensures
            reference@ == self@.target,
    {
        &self.setup.target
    }

    /// Goes on after the login.
    pub fn resume(self, login: Result<(), RegistryError>) -> (step: Result<DeriveStep, Error>)
        ensures
            match login {
                Ok(_) => step matches Ok(s) && s@ == DeriveStepView::AuthTarget(self@),
                Err(e) => step matches Err(error) && is_generic(
                    error,
                    "Failed to "@ + "authenticate to the base registry"@,
                    Some(Cause::Registry(e)),
                ),
            },
    {
        match login {
            Ok(_) => Ok(DeriveStep::AuthTarget(DeriveAuthTarget { setup: self.setup })),
            Err(error) => Err(registry_error("authenticate to the base registry", error)),
        }
    }
}

impl DeriveAuthTarget {
    /// Goes on after the login.
    pub fn resume(self, login: Result<(), RegistryError>) -> (step: Result<DeriveStep, Error>)
        ensures
            match login {
                Ok(_) => step matches Ok(s) && s@ == DeriveStepView::PullBase(self@),
                Err(e) => step matches Err(error) && is_generic(
                    error,
                    "Failed to "@ + "authenticate to the target registry"@,
                    Some(Cause::Registry(e)),
                ),
            },
    {
        match login {
            Ok(_) => Ok(DeriveStep::PullBase(DerivePullBase { setup: self.setup })),
            Err(error) => Err(registry_error("authenticate to the target registry", error)),
        }
    }
}

impl DerivePullBase {
    /// Goes on with what the base reference names.
    pub fn resume(self, pulled: Result<Manifest, RegistryError>) -> (step: Result<
        DeriveStep,
        Error,
    >)
        ensures
            match pulled {
                Err(e) => step matches Err(error) && is_generic(
                    error,
                    "Failed to "@ + "read the base image manifest"@,
                    Some(Cause::Registry(e)),
                ),
                Ok(manifest) => if self@.layer.blob.len() > i64::MAX {
                    step matches Err(error) && is_generic(
                        error,
                        "derived layer is too large for an OCI descriptor"@,
                        None,
                    )
                } else {
                    step matches Ok(s) && s@ == DeriveStepView::MountLayer(
                        first_derive(self@, manifest@),
                    )
                },
            },
    {
        let manifest = match pulled {
            Ok(manifest) => manifest,
            Err(error) => {
                return Err(registry_error("read the base image manifest", error));
            },
        };
        let setup = self.setup;
        if setup.blob.len() as u64 > i64::MAX as u64 {
            return Err(
                generic_error("derived layer is too large for an OCI descriptor".to_owned()),
            );
        }
        proof {
            use_type_invariant(&setup);
        }
        let entries: Vec<IndexEntry> = Vec::new();
        assert(index_entries_of(entries@) =~= Seq::<IndexEntryView>::empty());
        let derive = Derive { setup, manifest, entries, uploaded: 0 };
        Ok(DeriveStep::MountLayer(DeriveMountLayer { derive }))
    }
}

/// The digest of the first image in an index that is for a platform.
fn find_digest(entries: &Vec<IndexEntry>, platform: &RemotePlatform) -> (digest: Option<String>)
    ensures
        crate::text::text_of(digest) == matching_digest(index_entries_of(entries@), platform@),
{
    let ghost all = index_entries_of(entries@);
    assert(all.take(0).len() == 0);
    for i in 0..entries.len()
        invariant
            all == index_entries_of(entries@),
            matching_digest(all.take(i as int), platform@) is None,
    {
        proof {
            assert(all.take(i + 1).drop_last() == all.take(i as int));
            assert(all.take(i + 1).last() == entries@[i as int]@);
        }
        if let Some(found) = &entries[i].platform {
            if platform.matches_platform(found) {
                proof {
                    lemma_first_match(all, platform@, i + 1);
                }
                return Some(entries[i].digest.clone());
            }
        }
    }
    assert(all.take(all.len() as int) == all);
    None
}

proof fn lemma_first_match(
    entries: Seq<IndexEntryView>,
    platform: RemotePlatformView,
    count: int,
)
    requires
        0 <= count <= entries.len(),
        matching_digest(entries.take(count), platform) is Some,
    ensures
        matching_digest(entries, platform) == matching_digest(entries.take(count), platform),
    decreases entries.len() - count,
{
    if count == entries.len() {
        assert(entries.take(count) == entries);
    } else {
        assert(entries.take(count + 1).drop_last() == entries.take(count));
        lemma_first_match(entries, platform, count + 1);
    }
}

impl Derive {
    /// Goes on with the next platform.
    fn next_platform(self) -> (step: Result<DeriveStep, Error>)
        ensures
            is_platform_step(self@, step),
    {
        proof {
            use_type_invariant(&self);
        }
        let number: usize = self.entries.len();
        assert(current_platform(self@) == self.setup.platforms@[number as int]@);
        match &self.manifest {
            Manifest::Image(image) => {
                let image = image.clone();
                Ok(
                    DeriveStep::PullPlatformConfig(
                        DerivePullPlatformConfig { derive: self, image },
                    ),
                )
            },
            Manifest::ImageIndex(index) => {
                let platform = &self.setup.platforms[number];
                match find_digest(&index.manifests, platform) {
                    Some(digest) => Ok(
                        DeriveStep::PullPlatformManifest(
                            DerivePullPlatformManifest { derive: self, digest },
                        ),
                    ),
                    None => Err(
                        generic_error(
                            join5(
                                "base image has no ",
                                platform.os.as_str(),
                                "/",
                                platform.architecture.as_str(),
                                " manifest",
                            ),
                        ),
                    ),
                }
            },
        }
    }

    /// Goes on with the first layer of the base image that is not mounted.
    fn next_layer(self, image: ImageManifest, mounted: usize) -> (step: DeriveStep)
        ensures
            step@ == base_step(self@, image@, mounted as nat),
    {
        if mounted < image.layers.len() {
            DeriveStep::MountBase(DeriveMountBase { derive: self, image, mounted })
        } else {
            DeriveStep::PullConfig(DerivePullConfig { derive: self, image })
        }
    }

    /// Goes on with the manifest for the platform.
    fn publish_manifest(self, image: ImageManifest, config: Vec<u8>) -> (step: Result<
        DeriveStep,
        Error,
    >)
        requires
            config.len() <= i64::MAX,
        ensures
            is_manifest_step(self@, image@, config@, step),
    {
        proof {
            use_type_invariant(&self);
        }
        let number: usize = self.entries.len();
        let platform = &self.setup.platforms[number];
        assert(current_platform(self@) == platform@);
        let variant = match &platform.variant {
            Some(variant) => join("-", variant.as_str()),
            None => String::new(),
        };
        let text = join5(
            self.setup.target.registry.as_str(),
            "/",
            self.setup.target.repository.as_str(),
            ":",
            self.setup.tag.as_str(),
        ).concat("-").concat(platform.os.as_str()).concat("-").concat(
            platform.architecture.as_str(),
        ).concat(variant.as_str());
        assert(text@ == platform_reference(self@.setup, platform@));
        let media_type = if image.config.media_type.as_str().is_empty() {
            IMAGE_CONFIG_MEDIA_TYPE.to_owned()
        } else {
            image.config.media_type.clone()
        };
        let descriptor = match descriptor_for_bytes(media_type.as_str(), config.as_slice()) {
            Ok(descriptor) => descriptor,
            Err(error) => {
                return Err(error);
            },
        };
        let reference = match parse_reference(text.as_str(), "derived architecture") {
            Ok(reference) => reference,
            Err(error) => {
                return Err(error);
            },
        };
        let ImageManifest { mut layers, annotations, .. } = image;
        let ghost before = layers@;
        let own = Descriptor {
            media_type: self.setup.media_type.clone(),
            digest: self.setup.blob_digest.clone(),
            size: self.setup.blob.len() as i64,
            urls: None,
            annotations: None,
        };
        layers.push(own);
        let derived = ImageManifest {
            schema_version: 2,
            media_type: Some(OCI_IMAGE_MEDIA_TYPE.to_owned()),
            config: descriptor,
            layers,
            subject: None,
            artifact_type: None,
            annotations,
        };
        proof {
            assert(own@ == layer_descriptor(self@.setup.layer));
            assert(derived@.layers =~= image@.layers.push(own@));
            assert(derived@ == derived_manifest(self@.setup, image@, config@));
        }
        match canonical_manifest_bytes(Manifest::Image(derived)) {
            Ok(manifest) => Ok(
                DeriveStep::PushManifest(DerivePushManifest { derive: self, reference, manifest }),
            ),
            Err(error) => Err(error),
        }
    }
}

/// The derivation after some bytes were uploaded.
pub open spec fn with_upload(derive: DeriveView, bytes: nat) -> DeriveView {
    DeriveView { uploaded: derive.uploaded + bytes, ..derive }
}

impl DeriveMountLayer {
    /// The digest of the new layer.
    pub fn digest(&self) -> (digest: &str)
        ensures
            digest@ == self@.setup.layer.blob_digest,
    {
        self.derive.setup.blob_digest.as_str()
    }

    /// Goes on after the target repository said whether it has the new layer. Where it has, nothing
    /// is uploaded.
    pub fn resume(self, has_it: bool) -> (step: Result<DeriveStep, Error>)
        ensures
            if has_it {
                is_platform_step(self@, step)
            } else {
                step matches Ok(s) && s@ == DeriveStepView::PushLayer(self@)
            },
    {
        proof {
            use_type_invariant(&self);
        }
        if has_it {
            self.derive.next_platform()
        } else {
            Ok(DeriveStep::PushLayer(DerivePushLayer { derive: self.derive }))
        }
    }
}

impl DerivePushLayer {
    /// The digest of the new layer.
    pub fn digest(&self) -> (digest: &str)
        ensures
            digest@ == self@.setup.layer.blob_digest,
    {
        self.derive.setup.blob_digest.as_str()
    }

    /// The new layer.
    pub fn blob(&self) -> (blob: &Vec<u8>)
        ensures
            blob@ == self@.setup.layer.blob,
    {
        &self.derive.setup.blob
    }

    /// Goes on after the new layer was uploaded.
    pub fn resume(self, pushed: Result<(), RegistryError>) -> (step: Result<DeriveStep, Error>)
        ensures
            match pushed {
                Ok(_) => is_platform_step(
                    with_upload(self@, self@.setup.layer.blob.len()),
                    step,
                ),
                Err(e) => step matches Err(error) && is_generic(
                    error,
                    "Failed to "@ + ("upload blob "@ + self@.setup.layer.blob_digest),
                    Some(Cause::Registry(e)),
                ),
            },
    {
        proof {
            use_type_invariant(&self);
        }
        if let Err(error) = pushed {
            let operation = join("upload blob ", self.digest());
            return Err(registry_error(operation.as_str(), error));
        }
        proof {
            use_type_invariant(&self.derive);
        }
        let Derive { setup, manifest, entries, uploaded: _ } = self.derive;
        let uploaded: u64 = setup.blob.len() as u64;
        Derive { setup, manifest, entries, uploaded }.next_platform()
    }
}

impl DerivePullPlatformConfig {
    /// The configuration to pull.
    pub fn descriptor(&self) -> (descriptor: &Descriptor)
        ensures
            descriptor@ == self@.1,
    {
        &self.image.config
    }

    /// Goes on with the configuration of the base image, which has to be for the platform.
    pub fn resume(self, pulled: Result<Vec<u8>, RegistryError>) -> (step: Result<
        DeriveStep,
        Error,
    >)
        ensures
            match pulled {
                Err(e) => step matches Err(error) && is_generic(
                    error,
                    "Failed to "@ + "read a single-platform base config"@,
                    Some(Cause::Registry(e)),
                ),
                Ok(config) => match config_platform(config@) {
                    None => step matches Err(error) && is_platform_error(error, config@),
                    Some(actual) => {
                        let platform = current_platform(self@.0);
                        if actual != platform {
                            step matches Err(error) && is_generic(
                                error,
                                "base image is "@ + actual.os + "/"@ + actual.architecture
                                    + ", not "@ + platform.os + "/"@ + platform.architecture,
                                None,
                            )
                        } else {
                            self@.0.manifest matches ManifestView::Image(image)
                                && step matches Ok(s) && s@ == base_step(self@.0, image, 0)
                        }
                    },
                },
            },
    {
        proof {
            use_type_invariant(&self);
        }
        let config = match pulled {
            Ok(config) => config,
            Err(error) => {
                return Err(registry_error("read a single-platform base config", error));
            },
        };
        let actual = match platform_from_image_config(config.as_slice()) {
            Ok(actual) => actual,
            Err(error) => {
                return Err(error);
            },
        };
        let DerivePullPlatformConfig { derive, image } = self;
        proof {
            use_type_invariant(&derive);
        }
        let number: usize = derive.entries.len();
        let platform = &derive.setup.platforms[number];
        assert(current_platform(derive@) == platform@);
        if !actual.is_same(platform) {
            let message = join5(
                "base image is ",
                actual.os.as_str(),
                "/",
                actual.architecture.as_str(),
                ", not ",
            ).concat(platform.os.as_str()).concat("/").concat(platform.architecture.as_str());
            return Err(generic_error(message));
        }
        Ok(derive.next_layer(image, 0))
    }
}

impl DerivePullPlatformManifest {
    /// The digest of the manifest to pull from the base repository.
    pub fn digest(&self) -> (digest: &str)
        ensures
            digest@ == self@.1,
    {
        self.digest.as_str()
    }

    /// Goes on with the manifest of the base image for the platform.
    pub fn resume(self, pulled: Result<ImageManifest, RegistryError>) -> (step: Result<
        DeriveStep,
        Error,
    >)
        ensures
            match pulled {
                Err(e) => step matches Err(error) && is_generic(
                    error,
                    "Failed to "@ + "read a platform base manifest"@,
                    Some(Cause::Registry(e)),
                ),
                Ok(image) => step matches Ok(s) && s@ == base_step(self@.0, image@, 0),
            },
    {
        match pulled {
            Ok(image) => Ok(self.derive.next_layer(image, 0)),
            Err(error) => Err(registry_error("read a platform base manifest", error)),
        }
    }
}

impl DeriveMountBase {
    /// The digest of the layer to mount.
    pub fn digest(&self) -> (digest: &str)
        ensures
            digest@ == self@.1.layers[self@.2 as int].digest,
    {
        proof {
            use_type_invariant(self);
        }
        self.image.layers[self.mounted].digest.as_str()
    }

    /// Goes on after the layer was mounted.
    pub fn resume(self, mount: Result<(), RegistryError>) -> (step: Result<DeriveStep, Error>)
        ensures
            match mount {
                Ok(_) => step matches Ok(s) && s@ == base_step(self@.0, self@.1, self@.2 + 1),
                Err(e) => step matches Err(error) && is_generic(
                    error,
                    "Failed to "@ + ("mount base layer "@ + self@.1.layers[self@.2 as int].digest
                        + " from repository "@ + self@.0.setup.base.repository
                        + "; registry-native derivation never downloads base layers"@),
                    Some(Cause::Registry(e)),
                ),
            },
    {
        proof {
            use_type_invariant(&self);
        }
        if let Err(error) = mount {
            let operation = join5(
                "mount base layer ",
                self.digest(),
                " from repository ",
                self.derive.setup.base.repository.as_str(),
                "; registry-native derivation never downloads base layers",
            );
            return Err(registry_error(operation.as_str(), error));
        }
        Ok(self.derive.next_layer(self.image, self.mounted + 1))
    }
}

impl DerivePullConfig {
    /// The configuration to pull.
    pub fn descriptor(&self) -> (descriptor: &Descriptor)
        ensures
            descriptor@ == self@.1.config,
    {
        &self.image.config
    }

    /// Goes on with the configuration of the base image, to which the new layer is added.
    pub fn resume(self, pulled: Result<Vec<u8>, RegistryError>) -> (step: Result<
        DeriveStep,
        Error,
    >)
        ensures
            match pulled {
                Err(e) => step matches Err(error) && is_generic(
                    error,
                    "Failed to "@ + "read the base image config"@,
                    Some(Cause::Registry(e)),
                ),
                Ok(base) => match derived_config(base@, self@.0.setup.layer.diff_id) {
                    None => step matches Err(error) && is_layer_error(error, base@),
                    Some(config) => if config.len() > i64::MAX {
                        step matches Err(error) && is_generic(
                            error,
                            "blob is too large for an OCI descriptor"@,
                            None,
                        )
                    } else {
                        step matches Ok(s) && s@ == DeriveStepView::MountConfig(
                            self@.0,
                            self@.1,
                            config,
                        )
                    },
                },
            },
    {
        let base = match pulled {
            Ok(base) => base,
            Err(error) => {
                return Err(registry_error("read the base image config", error));
            },
        };
        let config = match append_diff_id(base.as_slice(), self.derive.setup.diff_id.as_str()) {
            Ok(config) => config,
            Err(error) => {
                return Err(error);
            },
        };
        if config.len() as u64 > i64::MAX as u64 {
            return Err(generic_error("blob is too large for an OCI descriptor".to_owned()));
        }
        Ok(
            DeriveStep::MountConfig(
                DeriveMountConfig { derive: self.derive, image: self.image, config },
            ),
        )
    }
}

impl DeriveMountConfig {
    /// The digest of the derived configuration.
    pub fn digest(&self) -> (digest: String)
        ensures
            digest@ == digest_of(self@.2),
    {
        content_digest(self.config.as_slice())
    }

    /// Goes on after the target repository said whether it has the derived configuration. Where it
    /// has, nothing is uploaded.
    pub fn resume(self, has_it: bool) -> (step: Result<DeriveStep, Error>)
        ensures
            if has_it {
                is_manifest_step(self@.0, self@.1, self@.2, step)
            } else {
                step matches Ok(s) && s@ == DeriveStepView::PushConfig(self@.0, self@.1, self@.2)
            },
    {
        proof {
            use_type_invariant(&self);
        }
        let DeriveMountConfig { derive, image, config } = self;
        if has_it {
            derive.publish_manifest(image, config)
        } else {
            Ok(DeriveStep::PushConfig(DerivePushConfig { derive, image, config }))
        }
    }
}

impl DerivePushConfig {
    /// The digest of the derived configuration.
    pub fn digest(&self) -> (digest: String)
        ensures
            digest@ == digest_of(self@.2),
    {
        content_digest(self.config.as_slice())
    }

    /// The derived configuration.
    pub fn config(&self) -> (config: &Vec<u8>)
        ensures
            config@ == self@.2,
    {
        &self.config
    }

    /// The number of bytes uploaded so far.
    pub fn uploaded(&self) -> (bytes: u64)
        ensures
            bytes == self@.0.uploaded,
    {
        self.derive.uploaded
    }

    /// Goes on after the derived configuration was uploaded.
    pub fn resume(self, pushed: Result<(), RegistryError>) -> (step: Result<DeriveStep, Error>)
        requires
            self@.0.uploaded + self@.2.len() <= u64::MAX,
        ensures
            match pushed {
                Ok(_) => is_manifest_step(
                    with_upload(self@.0, self@.2.len()),
                    self@.1,
                    self@.2,
                    step,
                ),
                Err(e) => step matches Err(error) && is_generic(
                    error,
                    "Failed to "@ + ("upload blob "@ + digest_of(self@.2)),
                    Some(Cause::Registry(e)),
                ),
            },
    {
        proof {
            use_type_invariant(&self);
        }
        if let Err(error) = pushed {
            let operation = join("upload blob ", self.digest().as_str());
            return Err(registry_error(operation.as_str(), error));
        }
        let DerivePushConfig { derive, image, config } = self;
        proof {
            use_type_invariant(&derive);
        }
        let Derive { setup, manifest, entries, uploaded } = derive;
        let uploaded: u64 = uploaded + config.len() as u64;
        Derive { setup, manifest, entries, uploaded }.publish_manifest(image, config)
    }
}

impl DerivePushManifest {
    /// Where the manifest is published.
    pub fn reference(&self) -> (reference: &ImageReference)
        ensures
            reference@ == self@.1,
    {
        &self.reference
    }

    /// The manifest.
    pub fn manifest(&self) -> (manifest: &Vec<u8>)
        ensures
            manifest@ == self@.2,
    {
        &self.manifest
    }

    /// The media type of the manifest.
    pub fn content_type(&self) -> (content_type: &'static str)
        ensures
            content_type@ == OCI_IMAGE_MEDIA_TYPE@,
    {
        OCI_IMAGE_MEDIA_TYPE
    }

    /// Goes on after the manifest was published.
    pub fn resume(self, pushed: Result<(), RegistryError>) -> (step: Result<DeriveStep, Error>)
        ensures
            match pushed {
                Ok(_) => is_next_step(self@.0, self@.2, step),
                Err(e) => step matches Err(error) && is_generic(
                    error,
                    "Failed to "@ + "publish a derived architecture manifest"@,
                    Some(Cause::Registry(e)),
                ),
            },
    {
        if let Err(error) = pushed {
            return Err(registry_error("publish a derived architecture manifest", error));
        }
        let DerivePushManifest { derive, reference: _, manifest: published } = self;
        if published.len() as u64 > i64::MAX as u64 {
            return Err(
                generic_error("derived manifest is too large for an OCI descriptor".to_owned()),
            );
        }
        proof {
            use_type_invariant(&derive);
        }
        let ghost view = derive@;
        let Derive { setup, manifest, mut entries, uploaded } = derive;
        let number: usize = entries.len();
        let platform = setup.platforms[number].as_oci_platform();
        let ghost before = entries@;
        let entry = IndexEntry {
            media_type: OCI_IMAGE_MEDIA_TYPE.to_owned(),
            digest: content_digest(published.as_slice()),
            size: published.len() as i64,
            platform: Some(platform),
            annotations: None,
        };
        entries.push(entry);
        proof {
            assert(current_platform(view) == setup.platforms@[number as int]@);
            assert(entry@ == derived_entry(current_platform(view), published@));
            assert(index_entries_of(entries@) =~= index_entries_of(before).push(entry@));
        }
        if entries.len() < setup.platforms.len() {
            return Derive { setup, manifest, entries, uploaded }.next_platform();
        }
        let ghost all = index_entries_of(entries@);
        let index = ImageIndex {
            schema_version: 2,
            media_type: Some(OCI_IMAGE_INDEX_MEDIA_TYPE.to_owned()),
            manifests: entries,
            artifact_type: None,
            annotations: None,
        };
        assert(index@ == derived_index(all));
        match canonical_manifest_bytes(Manifest::ImageIndex(index)) {
            Ok(index) => Ok(
                DeriveStep::PushIndex(
                    DerivePushIndex { setup, uploaded, index },
                ),
            ),
            Err(error) => Err(error),
        }
    }
}

impl DerivePushIndex {
    /// The index.
    pub fn index(&self) -> (index: &Vec<u8>)
        ensures
            index@ == self@.2,
    {
        &self.index
    }

    /// The media type of the index.
    pub fn content_type(&self) -> (content_type: &'static str)
        ensures
            content_type@ == OCI_IMAGE_INDEX_MEDIA_TYPE@,
    {
        OCI_IMAGE_INDEX_MEDIA_TYPE
    }

    /// Goes on after the index was published.
    pub fn resume(self, pushed: Result<(), RegistryError>) -> (image: Result<
        RemoteDerivedImage,
        Error,
    >)
        ensures
            match pushed {
                Ok(_) => image matches Ok(i) && i@ == published_image(self@.0, self@.1, self@.2),
                Err(e) => image matches Err(error) && is_generic(
                    error,
                    "Failed to "@ + "publish the derived image index"@,
                    Some(Cause::Registry(e)),
                ),
            },
    {
        if let Err(error) = pushed {
            return Err(registry_error("publish the derived image index", error));
        }
        Ok(
            RemoteDerivedImage {
                reference: self.setup.target_text,
                digest: content_digest(self.index.as_slice()),
                base_layer_bytes_downloaded: 0,
                bytes_uploaded: self.uploaded,
            },
        )
    }
}

/// The derived image once its index is published.
pub open spec fn published_image(setup: SetupView, uploaded: nat, index: Seq<u8>) -> DerivedView {
    DerivedView {
        reference: setup.target_text,
        digest: digest_of(index),
        base_layer_bytes_downloaded: 0,
        bytes_uploaded: uploaded,
    }
}

/// The number of bytes uploaded before a step.
pub open spec fn uploaded_before(step: DeriveStepView) -> nat {
    match step {
        DeriveStepView::AuthBase(_) => 0,
        DeriveStepView::AuthTarget(_) => 0,
        DeriveStepView::PullBase(_) => 0,
        DeriveStepView::MountLayer(derive) => derive.uploaded,
        DeriveStepView::PushLayer(derive) => derive.uploaded,
        DeriveStepView::PullPlatformConfig(derive, _) => derive.uploaded,
        DeriveStepView::PullPlatformManifest(derive, _) => derive.uploaded,
        DeriveStepView::MountBase(derive, _, _) => derive.uploaded,
        DeriveStepView::PullConfig(derive, _) => derive.uploaded,
        DeriveStepView::MountConfig(derive, _, _) => derive.uploaded,
        DeriveStepView::PushConfig(derive, _, _) => derive.uploaded,
        DeriveStepView::PushManifest(derive, _, _) => derive.uploaded,
        DeriveStepView::PushIndex(_, uploaded, _) => uploaded,
    }
}

/// Only uploads count as uploaded: the steps that mount the layers of the base image, read
/// configurations and publish manifests each leave the number as it is.
pub proof fn law_only_uploads_count(
    derive: DeriveView,
    image: ImageManifestView,
    mounted: nat,
    config: Seq<u8>,
    manifest: Seq<u8>,
    step: Result<DeriveStep, Error>,
)
    ensures
        platform_step(derive) matches Ok(next) ==> uploaded_before(next) == derive.uploaded,
        uploaded_before(base_step(derive, image, mounted)) == derive.uploaded,
        is_manifest_step(derive, image, config, step) ==> (step matches Ok(next)
            ==> uploaded_before(next@) == derive.uploaded),
        is_next_step(derive, manifest, step) ==> (step matches Ok(next) ==> uploaded_before(next@)
            == derive.uploaded),
{
}

/// The images in the index once the first platforms are done, where `images` are the base images
/// for them and `configs` the configurations of those.
pub open spec fn derived_entries(
    setup: SetupView,
    images: Seq<ImageManifestView>,
    configs: Seq<Seq<u8>>,
) -> Seq<IndexEntryView>
    decreases images.len(),
{
    if images.len() == 0 {
        Seq::empty()
    } else {
        let config = derived_config(configs[images.len() - 1], setup.layer.diff_id)->0;
        derived_entries(setup, images.drop_last(), configs).push(
            derived_entry(
                setup.platforms[images.len() - 1],
                canonical_image_manifest(derived_manifest(setup, images.last(), config)),
            ),
        )
    }
}

/// Each platform adds its image to the index: what is derived from the base image and its
/// configuration, whatever had to be uploaded for it.
pub proof fn law_platform_adds_its_image(
    derive: DeriveView,
    images: Seq<ImageManifestView>,
    configs: Seq<Seq<u8>>,
)
    requires
        0 < images.len() <= configs.len(),
        images.len() <= derive.setup.platforms.len(),
        derive.entries == derived_entries(derive.setup, images.drop_last(), configs),
    ensures
        ({
            let config = derived_config(
                configs[images.len() - 1],
                derive.setup.layer.diff_id,
            )->0;
            let manifest = canonical_image_manifest(
                derived_manifest(derive.setup, images.last(), config),
            );
            with_derived(derive, manifest).entries == derived_entries(
                derive.setup,
                images,
                configs,
            )
        }),
{
    lemma_derived_count(derive.setup, images.drop_last(), configs);
}

/// There is an image for each base image.
pub proof fn lemma_derived_count(
    setup: SetupView,
    images: Seq<ImageManifestView>,
    configs: Seq<Seq<u8>>,
)
    ensures
        derived_entries(setup, images, configs).len() == images.len(),
    decreases images.len(),
{
    if images.len() > 0 {
        lemma_derived_count(setup, images.drop_last(), configs);
    }
}

/// The index has an image for each platform, in the order in which the platforms were asked for.
pub proof fn law_every_platform_has_its_image(
    setup: SetupView,
    images: Seq<ImageManifestView>,
    configs: Seq<Seq<u8>>,
    number: int,
)
    requires
        0 <= number < images.len() <= configs.len(),
        images.len() <= setup.platforms.len(),
    ensures
        derived_entries(setup, images, configs).len() == images.len(),
        ({
            let config = derived_config(configs[number], setup.layer.diff_id)->0;
            derived_entries(setup, images, configs)[number] == derived_entry(
                setup.platforms[number],
                canonical_image_manifest(derived_manifest(setup, images[number], config)),
            )
        }),
    decreases images.len(),
{
    lemma_derived_count(setup, images, configs);
    lemma_derived_count(setup, images.drop_last(), configs);
    if number < images.len() - 1 {
        law_every_platform_has_its_image(setup, images.drop_last(), configs, number);
        assert(images.drop_last()[number] == images[number]);
    }
}

/// A derivation is reproducible: two derivations of the same layer for the same platforms, from the
/// same base images, publish the same index, wherever they are published and whatever had to be
/// uploaded.
pub proof fn law_derivation_is_reproducible(
    a: SetupView,
    b: SetupView,
    images: Seq<ImageManifestView>,
    configs: Seq<Seq<u8>>,
)
    requires
        a.layer == b.layer,
        a.platforms == b.platforms,
    ensures
        derived_entries(a, images, configs) == derived_entries(b, images, configs),
        digest_of(canonical_image_index(derived_index(derived_entries(a, images, configs))))
            == digest_of(canonical_image_index(derived_index(derived_entries(b, images, configs)))),
    decreases images.len(),
{
    if images.len() > 0 {
        law_derivation_is_reproducible(a, b, images.drop_last(), configs);
        let config = derived_config(configs[images.len() - 1], a.layer.diff_id)->0;
        assert(derived_manifest(a, images.last(), config) == derived_manifest(
            b,
            images.last(),
            config,
        ));
    }
}

/// A derived image has the layers of the base image, in their order, and the new layer on top.
pub proof fn law_derived_image_keeps_base_layers(
    setup: SetupView,
    image: ImageManifestView,
    config: Seq<u8>,
)
    ensures
        ({
            let layers = derived_manifest(setup, image, config).layers;
            &&& layers.len() == image.layers.len() + 1
            &&& image.layers.is_prefix_of(layers)
            &&& layers.last() == layer_descriptor(setup.layer)
        }),
{
}

/// No layer of the base image is pulled: each is mounted, in order, and what is pulled once they
/// all are is the configuration.
pub proof fn law_base_layers_are_mounted(
    derive: DeriveView,
    image: ImageManifestView,
    mounted: nat,
)
    ensures
        match base_step(derive, image, mounted) {
            DeriveStepView::MountBase(d, i, next) => d == derive && i == image && next == mounted
                && next < image.layers.len(),
            DeriveStepView::PullConfig(d, i) => d == derive && i == image && mounted
                >= image.layers.len(),
            _ => false,
        },
{
}

/// The image that is taken from an index is the first one for the platform.
pub proof fn law_first_match_is_taken(entries: Seq<IndexEntryView>, platform: RemotePlatformView)
    ensures
        match matching_digest(entries, platform) {
            Some(digest) => exists|i: int|
                #![trigger entries[i]]
                {
                    &&& 0 <= i < entries.len()
                    &&& entries[i].digest == digest
                    &&& entries[i].platform matches Some(p) && platform_matches(platform, p)
                    &&& forall|j: int|
                        0 <= j < i ==> !((#[trigger] entries[j]).platform matches Some(p)
                            && platform_matches(platform, p))
                },
            None => forall|j: int|
                0 <= j < entries.len() ==> !((#[trigger] entries[j]).platform matches Some(p)
                    && platform_matches(platform, p)),
        },
    decreases entries.len(),
{
    if entries.len() > 0 {
        let front = entries.drop_last();
        law_first_match_is_taken(front, platform);
        if matching_digest(front, platform) is Some {
            let i = choose|i: int|
                #![trigger front[i]]
                {
                    &&& 0 <= i < front.len()
                    &&& front[i].digest == matching_digest(front, platform)->0
                    &&& front[i].platform matches Some(p) && platform_matches(platform, p)
                    &&& forall|j: int|
                        0 <= j < i ==> !((#[trigger] front[j]).platform matches Some(p)
                            && platform_matches(platform, p))
                };
            assert(entries[i] == front[i]);
            assert forall|j: int| 0 <= j < i implies !((
            #[trigger] entries[j]).platform matches Some(p) && platform_matches(platform, p)) by {
                assert(entries[j] == front[j]);
            }
        } else {
            assert forall|j: int| 0 <= j < entries.len() - 1 implies !((
            #[trigger] entries[j]).platform matches Some(p) && platform_matches(platform, p)) by {
                assert(entries[j] == front[j]);
            }
            assert(entries[entries.len() - 1] == entries.last());
        }
    }
}

} // verus!

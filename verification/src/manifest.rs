use std::collections::BTreeMap;

use oci_client::manifest::{
    ImageIndexEntry, OciDescriptor, OciImageIndex, OciImageManifest, OciManifest,
    Platform as OciPlatform,
};
use serde::Serialize;
use vstd::prelude::*;

use crate::error::{Cause, Error};
use crate::text::{copy_optional_texts, copy_text, text_of, texts_of};

verus! {

/// The media type of an image manifest.
pub const OCI_IMAGE_MEDIA_TYPE: &'static str = "application/vnd.oci.image.manifest.v1+json";

/// The media type of an image index.
pub const OCI_IMAGE_INDEX_MEDIA_TYPE: &'static str = "application/vnd.oci.image.index.v1+json";

/// The media type of an image configuration.
pub const IMAGE_CONFIG_MEDIA_TYPE: &'static str = "application/vnd.oci.image.config.v1+json";

/// Where a blob is found, and what it is.
#[derive(Debug)]
pub struct Descriptor {
    pub media_type: String,
    pub digest: String,
    pub size: i64,
    pub urls: Option<Vec<String>>,
    pub annotations: Option<BTreeMap<String, String>>,
}

/// A manifest of one image.
#[derive(Debug)]
pub struct ImageManifest {
    pub schema_version: u8,
    pub media_type: Option<String>,
    pub config: Descriptor,
    pub layers: Vec<Descriptor>,
    pub subject: Option<Descriptor>,
    pub artifact_type: Option<String>,
    pub annotations: Option<BTreeMap<String, String>>,
}

/// The platform that an image is for.
#[derive(Debug, Clone)]
pub struct Platform {
    pub architecture: String,
    pub os: String,
    pub os_version: Option<String>,
    pub os_features: Option<Vec<String>>,
    pub variant: Option<String>,
    pub features: Option<Vec<String>>,
}

/// An image in an index.
#[derive(Debug)]
pub struct IndexEntry {
    pub media_type: String,
    pub digest: String,
    pub size: i64,
    pub platform: Option<Platform>,
    pub annotations: Option<BTreeMap<String, String>>,
}

/// An index of images for several platforms.
#[derive(Debug)]
pub struct ImageIndex {
    pub schema_version: u8,
    pub media_type: Option<String>,
    pub manifests: Vec<IndexEntry>,
    pub artifact_type: Option<String>,
    pub annotations: Option<BTreeMap<String, String>>,
}

/// What a registry holds under a reference.
#[derive(Debug)]
pub enum Manifest {
    Image(ImageManifest),
    ImageIndex(ImageIndex),
}

/// The contents of annotations.
pub open spec fn annotations_of(annotations: Option<BTreeMap<String, String>>) -> Option<
    Map<String, String>,
> {
    match annotations {
        Some(map) => Some(map@),
        None => None,
    }
}

/// The contents of a `Descriptor`.
pub struct DescriptorView {
    pub media_type: Seq<char>,
    pub digest: Seq<char>,
    pub size: i64,
    pub urls: Option<Seq<Seq<char>>>,
    pub annotations: Option<Map<String, String>>,
}

impl View for Descriptor {
    type V = DescriptorView;

    open spec fn view(&self) -> DescriptorView {
        DescriptorView {
            media_type: self.media_type@,
            digest: self.digest@,
            size: self.size,
            urls: texts_of(self.urls),
            annotations: annotations_of(self.annotations),
        }
    }
}

/// The contents of descriptors.
pub open spec fn descriptors_of(descriptors: Seq<Descriptor>) -> Seq<DescriptorView> {
    Seq::new(descriptors.len(), |i: int| descriptors[i]@)
}

/// The contents of an `ImageManifest`.
pub struct ImageManifestView {
    pub schema_version: u8,
    pub media_type: Option<Seq<char>>,
    pub config: DescriptorView,
    pub layers: Seq<DescriptorView>,
    pub subject: Option<DescriptorView>,
    pub artifact_type: Option<Seq<char>>,
    pub annotations: Option<Map<String, String>>,
}

impl View for ImageManifest {
    type V = ImageManifestView;

    open spec fn view(&self) -> ImageManifestView {
        ImageManifestView {
            schema_version: self.schema_version,
            media_type: text_of(self.media_type),
            config: self.config@,
            layers: descriptors_of(self.layers@),
            subject: match self.subject {
                Some(subject) => Some(subject@),
                None => None,
            },
            artifact_type: text_of(self.artifact_type),
            annotations: annotations_of(self.annotations),
        }
    }
}

/// The contents of a `Platform`.
pub struct PlatformView {
    pub architecture: Seq<char>,
    pub os: Seq<char>,
    pub os_version: Option<Seq<char>>,
    pub os_features: Option<Seq<Seq<char>>>,
    pub variant: Option<Seq<char>>,
    pub features: Option<Seq<Seq<char>>>,
}

impl View for Platform {
    type V = PlatformView;

    open spec fn view(&self) -> PlatformView {
        PlatformView {
            architecture: self.architecture@,
            os: self.os@,
            os_version: text_of(self.os_version),
            os_features: texts_of(self.os_features),
            variant: text_of(self.variant),
            features: texts_of(self.features),
        }
    }
}

/// The contents of an `IndexEntry`.
pub struct IndexEntryView {
    pub media_type: Seq<char>,
    pub digest: Seq<char>,
    pub size: i64,
    pub platform: Option<PlatformView>,
    pub annotations: Option<Map<String, String>>,
}

impl View for IndexEntry {
    type V = IndexEntryView;

    open spec fn view(&self) -> IndexEntryView {
        IndexEntryView {
            media_type: self.media_type@,
            digest: self.digest@,
            size: self.size,
            platform: match self.platform {
                Some(platform) => Some(platform@),
                None => None,
            },
            annotations: annotations_of(self.annotations),
        }
    }
}

/// The contents of index entries.
pub open spec fn index_entries_of(entries: Seq<IndexEntry>) -> Seq<IndexEntryView> {
    Seq::new(entries.len(), |i: int| entries[i]@)
}

/// The contents of an `ImageIndex`.
pub struct ImageIndexView {
    pub schema_version: u8,
    pub media_type: Option<Seq<char>>,
    pub manifests: Seq<IndexEntryView>,
    pub artifact_type: Option<Seq<char>>,
    pub annotations: Option<Map<String, String>>,
}

impl View for ImageIndex {
    type V = ImageIndexView;

    open spec fn view(&self) -> ImageIndexView {
        ImageIndexView {
            schema_version: self.schema_version,
            media_type: text_of(self.media_type),
            manifests: index_entries_of(self.manifests@),
            artifact_type: text_of(self.artifact_type),
            annotations: annotations_of(self.annotations),
        }
    }
}

/// The contents of a `Manifest`.
pub enum ManifestView {
    Image(ImageManifestView),
    ImageIndex(ImageIndexView),
}

impl View for Manifest {
    type V = ManifestView;

    open spec fn view(&self) -> ManifestView {
        match self {
            Manifest::Image(image) => ManifestView::Image(image@),
            Manifest::ImageIndex(index) => ManifestView::ImageIndex(index@),
        }
    }
}

/// The canonical JSON of an image manifest.
pub uninterp spec fn canonical_image_manifest(manifest: ImageManifestView) -> Seq<u8>;

/// The canonical JSON of an image index.
pub uninterp spec fn canonical_image_index(index: ImageIndexView) -> Seq<u8>;

/// The image manifest that JSON holds; none where it holds none.
pub uninterp spec fn parsed_image_manifest(json: Seq<u8>) -> Option<ImageManifestView>;

/// The JSON of a manifest together with its digest.
pub uninterp spec fn manifest_record(manifest: ImageManifestView, digest: Seq<char>) -> Seq<u8>;

/// The manifest and digest that JSON holds together; none where it does not.
pub uninterp spec fn parsed_manifest_record(json: Seq<u8>) -> Option<
    (ImageManifestView, Seq<char>),
>;

/// Writes an image manifest in canonical JSON, by `serde_json::Serializer::with_formatter` with
/// `olpc_cjson::CanonicalFormatter` on an `oci_client::manifest::OciManifest`.
///
/// Trusted: the bytes are a function of the manifest. Writing does not fail, for a manifest holds
/// no floating point number.
#[verifier::external_body]
pub(crate) fn canonical_image_manifest_bytes(
    manifest: ImageManifest,
) -> (bytes: Result<Vec<u8>, serde_json::Error>)
    ensures
        bytes is Ok,
        bytes matches Ok(b) ==> b@ == canonical_image_manifest(manifest@),
{
    let part = |d: Descriptor| {
        let Descriptor { media_type, digest, size, urls, annotations } = d;
        OciDescriptor { media_type, digest, size, urls, annotations }
    };
    let ImageManifest { schema_version, media_type, artifact_type, annotations, .. } = manifest;
    let (config, subject) = (part(manifest.config), manifest.subject.map(part));
    let layers = manifest.layers.into_iter().map(part).collect();
    let raw = OciImageManifest {
        schema_version, media_type, config, layers, subject, artifact_type, annotations };
    let (mut bytes, formatter) = (Vec::new(), olpc_cjson::CanonicalFormatter::new());
    let mut serializer = serde_json::Serializer::with_formatter(&mut bytes, formatter);
    OciManifest::Image(raw).serialize(&mut serializer)?;
    Ok(bytes)
}

/// Writes an image index in canonical JSON, by `serde_json::Serializer::with_formatter` with
/// `olpc_cjson::CanonicalFormatter` on an `oci_client::manifest::OciManifest`.
///
/// Trusted: the bytes are a function of the index. Writing does not fail, for an index holds no
/// floating point number.
#[verifier::external_body]
pub(crate) fn canonical_image_index_bytes(
    index: ImageIndex,
) -> (bytes: Result<Vec<u8>, serde_json::Error>)
    ensures
        bytes is Ok,
        bytes matches Ok(b) ==> b@ == canonical_image_index(index@),
{
    let part = |p: Platform| {
        let Platform { architecture, os, os_version, os_features, variant, features } = p;
        OciPlatform { architecture, os, os_version, os_features, variant, features }
    };
    let entry = |IndexEntry { media_type, digest, size, platform, annotations }| {
        ImageIndexEntry { media_type, digest, size, platform: platform.map(part), annotations }
    };
    let ImageIndex { schema_version, media_type, artifact_type, annotations, .. } = index;
    let manifests = index.manifests.into_iter().map(entry).collect();
    let raw = OciImageIndex { schema_version, media_type, manifests, artifact_type, annotations };
    let (mut bytes, formatter) = (Vec::new(), olpc_cjson::CanonicalFormatter::new());
    let mut serializer = serde_json::Serializer::with_formatter(&mut bytes, formatter);
    OciManifest::ImageIndex(raw).serialize(&mut serializer)?;
    Ok(bytes)
}

/// Writes a manifest down together with its digest, by `serde_json::to_vec` on a pair of an
/// `oci_client::manifest::OciImageManifest` and a text.
///
/// Trusted: the bytes are a function of the manifest and the digest, and both are read back as
/// they were written. Writing to memory does not fail.
#[verifier::external_body]
pub(crate) fn manifest_record_bytes(
    manifest: ImageManifest,
    digest: &str,
) -> (bytes: Result<Vec<u8>, serde_json::Error>)
    ensures
        bytes is Ok,
        bytes matches Ok(b) ==> b@ == manifest_record(manifest@, digest@)
            && parsed_manifest_record(b@) == Some((manifest@, digest@)),
{
    let part = |d: Descriptor| {
        let Descriptor { media_type, digest, size, urls, annotations } = d;
        OciDescriptor { media_type, digest, size, urls, annotations }
    };
    let ImageManifest { schema_version, media_type, artifact_type, annotations, .. } = manifest;
    let (config, subject) = (part(manifest.config), manifest.subject.map(part));
    let layers = manifest.layers.into_iter().map(part).collect();
    let raw = OciImageManifest {
        schema_version, media_type, config, layers, subject, artifact_type, annotations };
    serde_json::to_vec(&(raw, digest))
}

/// Reads a manifest together with its digest, by `serde_json::from_slice` into a pair of an
/// `oci_client::manifest::OciImageManifest` and a text.
///
/// Trusted: the outcome is a function of the bytes.
#[verifier::external_body]
pub(crate) fn read_manifest_record(
    json: &[u8],
) -> (record: Result<(ImageManifest, String), serde_json::Error>)
    ensures
        match record {
            Ok((manifest, digest)) => parsed_manifest_record(json@) == Some((manifest@, digest@)),
            Err(_) => parsed_manifest_record(json@) is None,
        },
{
    let part = |d: OciDescriptor| {
        let OciDescriptor { media_type, digest, size, urls, annotations } = d;
        Descriptor { media_type, digest, size, urls, annotations }
    };
    let (raw, digest): (OciImageManifest, String) = serde_json::from_slice(json)?;
    let OciImageManifest { schema_version, media_type, artifact_type, annotations, .. } = raw;
    let (config, subject) = (part(raw.config), raw.subject.map(part));
    let layers = raw.layers.into_iter().map(part).collect();
    let manifest = ImageManifest {
        schema_version, media_type, config, layers, subject, artifact_type, annotations };
    Ok((manifest, digest))
}

/// Reads an image manifest, by `serde_json::from_slice` into an
/// `oci_client::manifest::OciImageManifest`.
///
/// Trusted: the outcome is a function of the bytes.
#[verifier::external_body]
pub(crate) fn read_image_manifest(json: &[u8]) -> (manifest: Result<
    ImageManifest,
    serde_json::Error,
>)
    ensures
        match manifest {
            Ok(m) => parsed_image_manifest(json@) == Some(m@),
            Err(_) => parsed_image_manifest(json@) is None,
        },
{
    let part = |d: OciDescriptor| {
        let OciDescriptor { media_type, digest, size, urls, annotations } = d;
        Descriptor { media_type, digest, size, urls, annotations }
    };
    let raw: OciImageManifest = serde_json::from_slice(json)?;
    let OciImageManifest { schema_version, media_type, artifact_type, annotations, .. } = raw;
    let (config, subject) = (part(raw.config), raw.subject.map(part));
    let layers = raw.layers.into_iter().map(part).collect();
    Ok(ImageManifest {
        schema_version, media_type, config, layers, subject, artifact_type, annotations })
}

/// The canonical JSON of a manifest.
pub open spec fn canonical_manifest(manifest: ManifestView) -> Seq<u8> {
    match manifest {
        ManifestView::Image(image) => canonical_image_manifest(image),
        ManifestView::ImageIndex(index) => canonical_image_index(index),
    }
}

/// Writes a manifest in canonical JSON.
pub fn canonical_manifest_bytes(manifest: Manifest) -> (bytes: Result<Vec<u8>, Error>)
    ensures
        bytes matches Ok(b) && b@ == canonical_manifest(manifest@),
{
    let written = match manifest {
        Manifest::Image(image) => canonical_image_manifest_bytes(image),
        Manifest::ImageIndex(index) => canonical_image_index_bytes(index),
    };
    match written {
        Ok(bytes) => Ok(bytes),
        Err(source) => Err(
            Error::ImageConfig {
                message: "Failed to serialize OCI manifest".to_owned(),
                source: Some(Cause::Json(source)),
            },
        ),
    }
}

fn copy_annotations(annotations: &Option<BTreeMap<String, String>>) -> (copy: Option<
    BTreeMap<String, String>,
>)
    ensures
        annotations_of(copy) == annotations_of(*annotations),
{
    match annotations {
        Some(map) => Some(map.clone()),
        None => None,
    }
}

impl Clone for Descriptor {
    fn clone(&self) -> (copy: Self)
        ensures
            copy@ == self@,
    {
        Descriptor {
            media_type: self.media_type.clone(),
            digest: self.digest.clone(),
            size: self.size,
            urls: copy_optional_texts(&self.urls),
            annotations: copy_annotations(&self.annotations),
        }
    }
}

/// A copy of a list of descriptors.
pub fn copy_descriptors(list: &Vec<Descriptor>) -> (copy: Vec<Descriptor>)
    ensures
        descriptors_of(copy@) == descriptors_of(list@),
{
    let mut copy: Vec<Descriptor> = Vec::new();
    for i in 0..list.len()
        invariant
            copy.len() == i,
            forall|j: int| 0 <= j < i ==> copy@[j]@ == list@[j]@,
    {
        copy.push(list[i].clone());
    }
    assert(descriptors_of(copy@) == descriptors_of(list@));
    copy
}

impl Clone for ImageManifest {
    fn clone(&self) -> (copy: Self)
        ensures
            copy@ == self@,
    {
        ImageManifest {
            schema_version: self.schema_version,
            media_type: copy_text(&self.media_type),
            config: self.config.clone(),
            layers: copy_descriptors(&self.layers),
            subject: match &self.subject {
                Some(subject) => Some(subject.clone()),
                None => None,
            },
            artifact_type: copy_text(&self.artifact_type),
            annotations: copy_annotations(&self.annotations),
        }
    }
}

} // verus!

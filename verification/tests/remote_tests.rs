use std::collections::{HashMap, HashSet};
use std::io::Read;

use dockdash::derive::derive_from;
use dockdash::json::{parse_json, Json};
use dockdash::manifest::canonical_manifest_bytes;
use dockdash::remote::{
    add_layer, append_diff_id, descriptor_for_bytes, platform_from_image_config, platform_in,
};
use dockdash::{
    derive_remote_image, BuildStep, Cause, Descriptor, DeriveStep, Error, Image, ImageIndex,
    ImageManifest, ImageReference, IndexEntry, Layer, LayerStep, Manifest, Platform, RegistryError,
    RegistryErrorKind, RemoteDeriveOptions, RemoteDerivedImage, RemotePlatform,
};
use oci_client::errors::OciDistributionError;
use oci_client::manifest::OciManifest;
use sha2::Digest;

const OCI_IMAGE_MEDIA_TYPE: &str = "application/vnd.oci.image.manifest.v1+json";
const OCI_IMAGE_INDEX_MEDIA_TYPE: &str = "application/vnd.oci.image.index.v1+json";

fn digest(data: &[u8]) -> String {
    format!("sha256:{:x}", sha2::Sha256::digest(data))
}

fn layer_with(path: &str, content: &[u8], mode: Option<u32>) -> Layer {
    let builder = Layer::builder().data(path, content, mode).unwrap();
    let mut step = LayerStep::Lookup(builder.build().1);
    loop {
        step = match step {
            LayerStep::Lookup(lookup) => lookup.resume(None).unwrap(),
            LayerStep::Store(store) => store.resume(),
            LayerStep::Done(layer) => return layer,
        }
    }
}

fn descriptor(media_type: &str, data: &[u8]) -> Descriptor {
    Descriptor {
        media_type: media_type.to_string(),
        digest: digest(data),
        size: data.len() as i64,
        urls: None,
        annotations: None,
    }
}

fn failure() -> RegistryError {
    RegistryError {
        kind: RegistryErrorKind::Other,
        text: "registry said no".to_string(),
        source: OciDistributionError::GenericError(None),
    }
}

/// A registry in memory: blobs by repository, manifests by reference and by digest.
#[derive(Default)]
struct Registry {
    blobs: HashMap<String, Vec<u8>>,
    repositories: HashMap<String, HashSet<String>>,
    images: HashMap<String, ImageManifest>,
    tags: HashMap<String, Vec<u8>>,
    types: HashMap<String, String>,
    pulled: Vec<String>,
    refused: String,
}

const BASE: &str = "localhost:5000/operators/base:release";
const TARGET: &str = "localhost:5000/operators/projects:acme-v1";

impl Registry {
    fn ask(&self, request: &str) -> Result<(), RegistryError> {
        if request == self.refused {
            Err(failure())
        } else {
            Ok(())
        }
    }

    fn store(&mut self, repository: &str, data: &[u8]) {
        self.blobs.insert(digest(data), data.to_vec());
        self.repositories.entry(repository.to_string()).or_default().insert(digest(data));
    }

    fn has(&self, repository: &str, digest: &str) -> bool {
        self.repositories.get(repository).is_some_and(|r| r.contains(digest))
    }

    fn pull(&mut self, request: &str, descriptor: &Descriptor) -> Result<Vec<u8>, RegistryError> {
        self.ask(request)?;
        self.pulled.push(descriptor.digest.clone());
        self.blobs.get(&descriptor.digest).cloned().ok_or_else(failure)
    }

    fn derive(
        &mut self,
        base: Manifest,
        platforms: Vec<RemotePlatform>,
        layer: &Layer,
    ) -> Result<RemoteDerivedImage, Error> {
        let options = RemoteDeriveOptions::default();
        let (mut step, monolithic) =
            derive_remote_image(BASE, TARGET, platforms, layer, &options)?;
        assert!(!monolithic);
        let mut base = Some(base);
        loop {
            step = match step {
                DeriveStep::AuthBase(auth) => {
                    assert_eq!(auth.reference().whole, BASE);
                    assert_eq!(auth.target().whole, TARGET);
                    auth.resume(self.ask("auth base"))?
                }
                DeriveStep::AuthTarget(auth) => auth.resume(self.ask("auth target"))?,
                DeriveStep::PullBase(pull) => {
                    let asked = self.ask("pull base");
                    pull.resume(asked.map(|_| base.take().unwrap()))?
                }
                DeriveStep::MountLayer(mount) => {
                    let has = self.has("target", mount.digest());
                    mount.resume(has)?
                }
                DeriveStep::PushLayer(push) => {
                    assert_eq!(push.digest(), digest(push.blob()));
                    let asked = self.ask("push layer");
                    self.store("target", push.blob());
                    push.resume(asked)?
                }
                DeriveStep::PullPlatformConfig(pull) => {
                    let pulled = self.pull("pull platform config", pull.descriptor());
                    pull.resume(pulled)?
                }
                DeriveStep::PullPlatformManifest(pull) => {
                    let asked = self.ask("pull platform manifest");
                    let image = self.images[pull.digest()].clone();
                    pull.resume(asked.map(|_| image))?
                }
                DeriveStep::MountBase(mount) => {
                    let asked = self.ask("mount base");
                    let known = self.repositories["base"].contains(mount.digest());
                    assert!(known);
                    let digest = mount.digest().to_string();
                    self.repositories.entry("target".to_string()).or_default().insert(digest);
                    mount.resume(asked)?
                }
                DeriveStep::PullConfig(pull) => {
                    let pulled = self.pull("pull config", pull.descriptor());
                    pull.resume(pulled)?
                }
                DeriveStep::MountConfig(mount) => {
                    let has = self.has("target", &mount.digest());
                    mount.resume(has)?
                }
                DeriveStep::PushConfig(push) => {
                    assert_eq!(push.digest(), digest(push.config()));
                    assert!(push.uploaded().checked_add(push.config().len() as u64).is_some());
                    let asked = self.ask("push config");
                    self.store("target", push.config());
                    push.resume(asked)?
                }
                DeriveStep::PushManifest(push) => {
                    let asked = self.ask("push manifest");
                    let name = push.reference().whole.clone();
                    self.tags.insert(name.clone(), push.manifest().clone());
                    self.types.insert(name, push.content_type().to_string());
                    push.resume(asked)?
                }
                DeriveStep::PushIndex(push) => {
                    let asked = self.ask("push index");
                    self.tags.insert(TARGET.to_string(), push.index().clone());
                    self.types.insert(TARGET.to_string(), push.content_type().to_string());
                    return push.resume(asked);
                }
            }
        }
    }
}

/// A base image from scratch, stored in the base repository.
fn base_image(registry: &mut Registry, architecture: &str, layer: Layer) -> ImageManifest {
    let layer_blob = layer.blob().clone();
    let builder = Image::builder()
        .platform("linux", architecture)
        .layer(layer)
        .entrypoint(vec!["/operator".to_string()]);
    let Ok(BuildStep::Write(image)) = builder.build() else {
        panic!("an image was expected");
    };
    registry.store("base", &layer_blob);
    registry.store("base", image.config());
    ImageManifest {
        schema_version: 2,
        media_type: Some(OCI_IMAGE_MEDIA_TYPE.to_string()),
        config: descriptor("application/vnd.oci.image.config.v1+json", image.config()),
        layers: vec![descriptor("application/vnd.oci.image.layer.v1.tar+zstd", &layer_blob)],
        subject: None,
        artifact_type: None,
        annotations: Some([("base".to_string(), architecture.to_string())].into_iter().collect()),
    }
}

fn platform(architecture: &str) -> Platform {
    Platform {
        architecture: architecture.to_string(),
        os: "linux".to_string(),
        os_version: None,
        os_features: None,
        variant: None,
        features: None,
    }
}

/// An index of base images for `amd64` and `arm64`, and the digest of their only layer.
fn base_index(registry: &mut Registry) -> (impl Fn() -> Manifest, String) {
    let mut entries = Vec::new();
    let mut base_layer_digest = None;
    for architecture in ["amd64", "arm64"] {
        let base_layer = layer_with("base.txt", b"large immutable operator layer", None);
        base_layer_digest = Some(base_layer.blob_digest().to_string());
        let image = base_image(registry, architecture, base_layer);
        let bytes = canonical_manifest_bytes(Manifest::Image(image.clone())).unwrap();
        registry.images.insert(digest(&bytes), image);
        entries.push((architecture, digest(&bytes), bytes.len() as i64));
    }
    let index = move || {
        let entries = entries.iter().map(|(architecture, digest, size)| IndexEntry {
            media_type: OCI_IMAGE_MEDIA_TYPE.to_string(),
            digest: digest.clone(),
            size: *size,
            platform: Some(platform(architecture)),
            annotations: None,
        });
        Manifest::ImageIndex(ImageIndex {
            schema_version: 2,
            media_type: Some(OCI_IMAGE_INDEX_MEDIA_TYPE.to_string()),
            manifests: entries.collect(),
            artifact_type: None,
            annotations: None,
        })
    };
    (index, base_layer_digest.unwrap())
}

fn both() -> Vec<RemotePlatform> {
    vec![RemotePlatform::linux("amd64"), RemotePlatform::linux("arm64")]
}

#[test]
fn derives_multi_platform_image_without_copying_base_layers() {
    let mut registry = Registry::default();
    let (index, base_layer_digest) = base_index(&mut registry);
    let packaged_config = br#"{"display_name":"Acme","label_domain":"acme.example"}"#;
    let config_layer = layer_with("/etc/alien/operator-config.json", packaged_config, Some(0o444));

    let first = registry.derive(index(), both(), &config_layer).unwrap();
    let second = registry.derive(index(), both(), &config_layer).unwrap();

    assert_eq!(first.digest, second.digest, "derivation must be reproducible");
    assert_eq!(first.reference, TARGET);
    assert_eq!(first.base_layer_bytes_downloaded, 0);
    assert!(first.bytes_uploaded > 0);
    assert_eq!(second.bytes_uploaded, 0, "all blobs should already exist");
    assert!(!registry.pulled.contains(&base_layer_digest));

    let published = &registry.tags[TARGET];
    assert_eq!(digest(published), first.digest);
    assert_eq!(registry.types[TARGET], OCI_IMAGE_INDEX_MEDIA_TYPE);
    let OciManifest::ImageIndex(derived_index) = serde_json::from_slice(published).unwrap() else {
        panic!("derived tag did not point to an image index");
    };
    assert_eq!(derived_index.manifests.len(), 2);

    let mut uploaded = config_layer.blob().len();
    for (entry, architecture) in derived_index.manifests.iter().zip(["amd64", "arm64"]) {
        assert_eq!(entry.platform.as_ref().unwrap().architecture, architecture);
        let name = format!("{TARGET}-linux-{architecture}");
        let bytes = &registry.tags[&name];
        assert_eq!(registry.types[&name], OCI_IMAGE_MEDIA_TYPE);
        assert_eq!(entry.digest, digest(bytes));
        assert_eq!(entry.size, bytes.len() as i64);
        let OciManifest::Image(manifest) = serde_json::from_slice(bytes).unwrap() else {
            panic!("an image was expected");
        };
        assert_eq!(manifest.layers.len(), 2);
        assert_eq!(manifest.layers[0].digest, base_layer_digest);
        assert_eq!(manifest.layers[1].digest, config_layer.blob_digest());
        assert_eq!(manifest.layers[1].size, config_layer.blob().len() as i64);
        assert_eq!(manifest.annotations.unwrap()["base"], architecture);

        let config = &registry.blobs[&manifest.config.digest];
        uploaded += config.len();
        let config: oci_spec::image::ImageConfiguration = serde_json::from_slice(config).unwrap();
        assert_eq!(config.rootfs().diff_ids().len(), 2);
        assert_eq!(config.rootfs().diff_ids()[1], config_layer.diff_id());
        assert_eq!(config.history().len(), 1);
        assert_eq!(config.architecture().to_string(), architecture);

        let compressed = &registry.blobs[&manifest.layers[1].digest];
        let mut archive =
            tar::Archive::new(zstd::Decoder::new(compressed.as_slice()).unwrap());
        let mut found = None;
        for entry in archive.entries().unwrap() {
            let mut entry = entry.unwrap();
            if entry.path().unwrap().as_ref()
                == std::path::Path::new("etc/alien/operator-config.json")
            {
                let mut contents = Vec::new();
                entry.read_to_end(&mut contents).unwrap();
                found = Some(contents);
            }
        }
        assert_eq!(found.as_deref(), Some(packaged_config.as_slice()));
    }
    assert_eq!(first.bytes_uploaded, uploaded as u64);
}

#[test]
fn a_single_image_has_to_be_for_the_platform() {
    let mut registry = Registry::default();
    let image = base_image(&mut registry, "amd64", layer_with("b", b"base", None));
    let layer = layer_with("x", b"new", None);
    let amd64 = || vec![RemotePlatform::linux("amd64")];
    registry.derive(Manifest::Image(image.clone()), amd64(), &layer).unwrap();
    match registry.derive(Manifest::Image(image.clone()), both(), &layer) {
        Err(Error::Generic { message, source: None }) => {
            assert_eq!(message, "base image is linux/amd64, not linux/arm64");
        }
        other => panic!("{other:?}"),
    }
    let variant = RemotePlatform {
        variant: Some("v8".to_string()),
        ..RemotePlatform::linux("amd64")
    };
    assert!(registry.derive(Manifest::Image(image), vec![variant], &layer).is_err());
}

#[test]
fn an_index_without_the_platform_is_an_error() {
    let mut registry = Registry::default();
    let (index, _) = base_index(&mut registry);
    let layer = layer_with("x", b"new", None);
    let platforms = || vec![RemotePlatform::linux("riscv64")];
    match registry.derive(index(), platforms(), &layer) {
        Err(Error::Generic { message, source: None }) => {
            assert_eq!(message, "base image has no linux/riscv64 manifest");
        }
        other => panic!("{other:?}"),
    }
}

#[test]
fn variants_are_part_of_the_platform_and_of_the_name() {
    let arm = RemotePlatform { variant: Some("v8".to_string()), ..RemotePlatform::linux("arm64") };
    let mut oci = platform("arm64");
    assert!(!arm.matches_platform(&oci));
    oci.variant = Some("v8".to_string());
    assert!(arm.matches_platform(&oci));
    assert!(!RemotePlatform::linux("arm64").matches_platform(&oci));
    assert_eq!(arm.as_oci_platform().variant, Some("v8".to_string()));

    let mut registry = Registry::default();
    let image = base_image(&mut registry, "arm64", layer_with("b", b"base", None));
    let mut config: serde_json::Value =
        serde_json::from_slice(&registry.blobs[&image.config.digest]).unwrap();
    config.as_object_mut().unwrap().insert("variant".to_string(), "v8".into());
    let config = serde_json::to_vec(&config).unwrap();
    registry.store("base", &config);
    let image = ImageManifest { config: descriptor("", &config), ..image };
    registry.derive(Manifest::Image(image), vec![arm], &layer_with("x", b"new", None)).unwrap();
    let bytes = &registry.tags[&format!("{TARGET}-linux-arm64-v8")];
    let OciManifest::Image(manifest) = serde_json::from_slice(bytes).unwrap() else {
        panic!("an image was expected");
    };
    assert_eq!(manifest.config.media_type, "application/vnd.oci.image.config.v1+json");
}

#[test]
fn bad_requests_are_refused() {
    let layer = layer_with("x", b"new", None);
    let options = RemoteDeriveOptions::default();
    let message_of = |base: &str, target: &str, platforms| {
        match derive_remote_image(base, target, platforms, &layer, &options) {
            Err(Error::Generic { message, .. }) => message,
            other => panic!("{other:?}"),
        }
    };
    assert_eq!(
        message_of("NO", "NO", Vec::new()),
        "at least one target platform is required"
    );
    assert_eq!(message_of("NO BASE", "NO", both()), "Invalid base image reference 'NO BASE'");
    assert_eq!(
        message_of(BASE, "NO TARGET", both()),
        "Invalid target image reference 'NO TARGET'"
    );
    let hash = "a".repeat(64);
    assert_eq!(
        message_of(BASE, &format!("localhost:5000/x@sha256:{hash}"), both()),
        "target reference must contain a tag"
    );
    assert_eq!(
        message_of(BASE, &format!("localhost:5000/x:tag@sha256:{hash}"), both()),
        "target reference cannot contain a digest"
    );
    let (_, monolithic) =
        derive_remote_image(BASE, "gcr.io/a/b:c", both(), &layer, &options).unwrap();
    assert!(monolithic);
}

#[test]
fn refused_requests_end_the_derivation() {
    let layer = layer_with("x", b"new", None);
    for (request, expected) in [
        ("auth base", "Failed to authenticate to the base registry".to_string()),
        ("auth target", "Failed to authenticate to the target registry".to_string()),
        ("pull base", "Failed to read the base image manifest".to_string()),
        ("push layer", format!("Failed to upload blob {}", layer.blob_digest())),
        ("pull platform manifest", "Failed to read a platform base manifest".to_string()),
        ("pull config", "Failed to read the base image config".to_string()),
        ("push manifest", "Failed to publish a derived architecture manifest".to_string()),
        ("push index", "Failed to publish the derived image index".to_string()),
    ] {
        let mut registry = Registry::default();
        let (index, _) = base_index(&mut registry);
        registry.refused = request.to_string();
        match registry.derive(index(), both(), &layer) {
            Err(Error::Generic { message, source: Some(Cause::Registry(_)) }) => {
                assert_eq!(message, expected);
            }
            other => panic!("{request}: {other:?}"),
        }
    }
}

#[test]
fn a_layer_that_cannot_be_mounted_ends_the_derivation() {
    let mut registry = Registry::default();
    let (index, base_layer_digest) = base_index(&mut registry);
    registry.refused = "mount base".to_string();
    match registry.derive(index(), both(), &layer_with("x", b"new", None)) {
        Err(Error::Generic { message, source: Some(Cause::Registry(_)) }) => assert_eq!(
            message,
            format!(
                "Failed to mount base layer {base_layer_digest} from repository operators/base; \
                 registry-native derivation never downloads base layers"
            )
        ),
        other => panic!("{other:?}"),
    }
    assert!(registry.pulled.is_empty());
}

#[test]
fn refused_configurations_end_the_derivation() {
    let layer = layer_with("x", b"new", None);
    let mut registry = Registry::default();
    let (index, _) = base_index(&mut registry);
    registry.refused = "push config".to_string();
    match registry.derive(index(), both(), &layer) {
        Err(Error::Generic { message, source: Some(Cause::Registry(_)) }) => {
            assert!(message.starts_with("Failed to upload blob sha256:"));
        }
        other => panic!("{other:?}"),
    }
    let mut registry = Registry::default();
    let image = base_image(&mut registry, "amd64", layer_with("b", b"base", None));
    registry.refused = "pull platform config".to_string();
    match registry.derive(Manifest::Image(image), both(), &layer) {
        Err(Error::Generic { message, source: Some(Cause::Registry(_)) }) => {
            assert_eq!(message, "Failed to read a single-platform base config");
        }
        other => panic!("{other:?}"),
    }
}

#[test]
fn a_diff_id_and_a_history_entry_are_appended() {
    let base = br#"{ "os": "linux", "float": 1.5,
        "rootfs": {"diff_ids": ["sha256:a"], "type": "layers"},
        "history": [{"x": [null, true]}] }"#;
    let derived = append_diff_id(base, "sha256:b").unwrap();
    let expected = concat_json(&[
        r#"{"float":1.5,"history":[{"x":[null,true]},"#,
        r#"{"created_by":"dockdash remote derived layer"}],"os":"linux","#,
        r#""rootfs":{"diff_ids":["sha256:a","sha256:b"],"type":"layers"}}"#,
    ]);
    assert_eq!(String::from_utf8(derived).unwrap(), expected);
    let derived = append_diff_id(br#"{"rootfs":{"diff_ids":[]}}"#, "sha256:b").unwrap();
    let expected = concat_json(&[
        r#"{"history":[{"created_by":"dockdash remote derived layer"}],"#,
        r#""rootfs":{"diff_ids":["sha256:b"]}}"#,
    ]);
    assert_eq!(String::from_utf8(derived).unwrap(), expected);
}

fn concat_json(parts: &[&str]) -> String {
    parts.iter().copied().collect()
}

#[test]
fn configurations_without_layers_cannot_be_derived_from() {
    for base in [
        "[]",
        "1",
        "{}",
        r#"{"rootfs":1}"#,
        r#"{"rootfs":{}}"#,
        r#"{"rootfs":{"diff_ids":"x"},"history":1}"#,
    ] {
        match append_diff_id(base.as_bytes(), "sha256:b") {
            Err(Error::Generic { message, source: None }) => {
                assert_eq!(message, "base image config has no rootfs.diff_ids array");
            }
            other => panic!("{base}: {other:?}"),
        }
    }
    match append_diff_id(br#"{"rootfs":{"diff_ids":[]},"history":{}}"#, "sha256:b") {
        Err(Error::Generic { message, source: None }) => {
            assert_eq!(message, "base image config history is not an array");
        }
        other => panic!("{other:?}"),
    }
    assert!(matches!(
        append_diff_id(b"{", "sha256:b"),
        Err(Error::ImageConfig { message, source: Some(Cause::Json(_)) })
            if message == "Failed to parse base image configuration"
    ));
}

#[test]
fn of_two_members_with_one_name_the_later_counts() {
    let list = |ids: &[&str]| {
        Json::List(ids.iter().map(|id| Json::Text(id.to_string())).collect())
    };
    let root = |ids: &[&str]| Json::Object(vec![("diff_ids".to_string(), list(ids))]);
    let config = Json::Object(vec![
        ("rootfs".to_string(), root(&["old"])),
        ("rootfs".to_string(), root(&["sha256:a"])),
    ]);
    let derived = add_layer(config, "sha256:b").unwrap();
    let Some(Json::List(ids)) = derived.get("rootfs").and_then(|root| root.get("diff_ids")) else {
        panic!("no layers");
    };
    let ids: Vec<&str> = ids
        .iter()
        .map(|id| match id {
            Json::Text(text) => text.as_str(),
            _ => panic!("a text was expected"),
        })
        .collect();
    assert_eq!(ids, vec!["sha256:a", "sha256:b"]);
}

#[test]
fn json_is_read_part_by_part() {
    let document = parse_json(br#"{"a":"x","b":[1,"y"],"c":{"d":null},"a":"z"}"#).unwrap();
    assert_eq!(document.get_text("a"), Some("z".to_string()));
    assert_eq!(document.get_text("b"), None);
    assert_eq!(document.get_text("e"), None);
    assert!(matches!(document.get("b"), Some(Json::List(items)) if items.len() == 2));
    assert!(matches!(document.get("c").and_then(|c| c.get("d")), Some(Json::Null)));
    assert!(parse_json(b"{").is_err());
}

#[test]
fn the_platform_is_read_from_the_configuration() {
    let platform = platform_from_image_config(br#"{"os":"linux","architecture":"arm"}"#).unwrap();
    assert!(platform.is_same(&RemotePlatform::linux("arm")));
    let platform =
        platform_from_image_config(br#"{"os":"o","architecture":"a","variant":"v7"}"#).unwrap();
    assert_eq!(platform.variant, Some("v7".to_string()));
    let message_of = |config: &[u8]| match platform_from_image_config(config) {
        Err(Error::Generic { message, source: None }) => message,
        Err(Error::ImageConfig { message, source: Some(Cause::Json(_)) }) => message,
        other => panic!("{other:?}"),
    };
    assert_eq!(message_of(b"{}"), "base image config has no string field 'os'");
    assert_eq!(
        message_of(br#"{"os":"linux","architecture":7}"#),
        "base image config has no string field 'architecture'"
    );
    assert_eq!(message_of(b"?"), "Failed to parse base image configuration");
}

#[test]
fn descriptors_name_digest_and_size() {
    let descriptor = descriptor_for_bytes("type", b"abc").unwrap();
    assert_eq!(descriptor.media_type, "type");
    assert_eq!(descriptor.digest, digest(b"abc"));
    assert_eq!(descriptor.size, 3);
    assert!(descriptor.urls.is_none());
    assert!(descriptor.annotations.is_none());
}

#[test]
fn manifests_are_written_in_canonical_json() {
    let manifest = ImageManifest {
        schema_version: 2,
        media_type: None,
        config: descriptor("c", b""),
        layers: Vec::new(),
        subject: None,
        artifact_type: None,
        annotations: None,
    };
    let bytes = canonical_manifest_bytes(Manifest::Image(manifest)).unwrap();
    let expected = format!(
        "{{\"config\":{{\"digest\":\"{}\",\"mediaType\":\"c\",\"size\":0}},\"layers\":[],\"schemaVersion\":2}}",
        digest(b"")
    );
    assert_eq!(String::from_utf8(bytes).unwrap(), expected);
    let index = ImageIndex {
        schema_version: 2,
        media_type: Some("m".to_string()),
        manifests: Vec::new(),
        artifact_type: None,
        annotations: None,
    };
    let bytes = canonical_manifest_bytes(Manifest::ImageIndex(index)).unwrap();
    assert_eq!(
        String::from_utf8(bytes).unwrap(),
        "{\"manifests\":[],\"mediaType\":\"m\",\"schemaVersion\":2}"
    );
}

#[test]
fn a_document_says_what_platform_it_is_for() {
    let text = |t: &str| Json::Text(t.to_string());
    let mut members = vec![
        ("variant".to_string(), text("v8")),
        ("architecture".to_string(), text("arm64")),
    ];
    match platform_in(&Json::Object(vec![("os".to_string(), Json::Bool(true))])) {
        Err(Error::Generic { message, source: None }) => {
            assert_eq!(message, "base image config has no string field 'os'");
        }
        other => panic!("{other:?}"),
    }
    members.push(("os".to_string(), text("linux")));
    let expected = RemotePlatform {
        variant: Some("v8".to_string()),
        ..RemotePlatform::linux("arm64")
    };
    assert_eq!(platform_in(&Json::Object(members)).unwrap(), expected);
}

#[test]
fn a_target_needs_a_tag_and_no_digest() {
    let layer = layer_with("a", b"1", None);
    let options = RemoteDeriveOptions::default();
    let reference = |tag: Option<&str>, digest: Option<&str>| ImageReference {
        registry: "gcr.io".to_string(),
        resolved_registry: "gcr.io".to_string(),
        repository: "r".to_string(),
        tag: tag.map(str::to_string),
        digest: digest.map(str::to_string),
        whole: "gcr.io/r".to_string(),
    };
    let base = || reference(None, None);
    let start = |target, platforms| derive_from(base(), target, "t", platforms, &layer, &options);
    match start(reference(Some("v1"), None), both()) {
        Ok((DeriveStep::AuthBase(auth), monolithic)) => {
            assert_eq!(auth.target().repository, "r");
            assert!(monolithic);
        }
        other => panic!("{other:?}"),
    }
    let cases = [
        (reference(None, None), both(), "target reference must contain a tag"),
        (reference(Some("v1"), Some("d")), both(), "target reference cannot contain a digest"),
        (reference(Some("v1"), None), vec![], "at least one target platform is required"),
    ];
    for (target, platforms, expected) in cases {
        match start(target, platforms) {
            Err(Error::Generic { message, source: None }) => assert_eq!(message, expected),
            other => panic!("{other:?}"),
        }
    }
}

use std::collections::HashMap;
use std::io::{Read, Write};

use dockdash::config::{ImageFields, ProcessFields};
use dockdash::image::{
    determine_registry_auth, determine_use_monolithic_push, layer_compression, metadata_of,
    read_metadata, Compression,
};
use dockdash::reference::ReferenceError;
use dockdash::{
    is_registry_requiring_monolithic_push, resolve_platform, ArchiveContents, ArchiveFailure,
    BlobCache, BuildDiagnostics, BuildStep, BuiltImage, Cause, Descriptor, Error, ErrorCode, Image,
    ImageBuilder, ImageManifest, ImageMetadata, ImageReference, IndexEntry, Layer, LayerArchive,
    LayerBlob, LayerStep, ManifestSource, MonolithicPushPolicy, Platform, PullAndExtractOptions,
    PullPolicy, PushOptions, RegistryAuth, RegistryError, RegistryErrorKind,
};
use oci_client::errors::OciDistributionError;
use sha2::Digest;

fn digest(data: &[u8]) -> String {
    format!("sha256:{:x}", sha2::Sha256::digest(data))
}

fn layer_with(path: &str, content: &[u8]) -> Layer {
    let builder = Layer::builder().data(path, content, None).unwrap();
    let mut step = LayerStep::Lookup(builder.build().1);
    loop {
        step = match step {
            LayerStep::Lookup(lookup) => lookup.resume(None).unwrap(),
            LayerStep::Store(store) => store.resume(),
            LayerStep::Done(layer) => return layer,
        }
    }
}

fn texts(list: &[&str]) -> Vec<String> {
    list.iter().map(|s| s.to_string()).collect()
}

fn descriptor(media_type: &str, data: &[u8]) -> Descriptor {
    Descriptor {
        media_type: media_type.to_string(),
        digest: digest(data),
        size: data.len() as i64,
        urls: None,
        annotations: None,
    }
}

fn registry_error(kind: RegistryErrorKind) -> RegistryError {
    RegistryError {
        kind,
        text: "registry said no".to_string(),
        source: OciDistributionError::GenericError(None),
    }
}

const BASE_CONFIG: &[u8] = br#"{
    "architecture": "arm64",
    "os": "linux",
    "created": "2024-01-01T00:00:00Z",
    "config": {
        "Env": ["PATH=/bin"],
        "User": "nobody",
        "Entrypoint": ["/base"],
        "Cmd": ["base-argument"],
        "WorkingDir": "/base-dir",
        "ExposedPorts": {"80/tcp": {}, "443/tcp": {}},
        "Labels": {"a": "1", "b": "2"}
    },
    "rootfs": {"type": "layers", "diff_ids": ["sha256:base1", "sha256:base2"]},
    "history": []
}"#;

/// What a registry and a cache hold.
struct World {
    manifest: ImageManifest,
    manifest_digest: String,
    blobs: HashMap<String, Vec<u8>>,
    cache: HashMap<String, Vec<u8>>,
    requests: Vec<String>,
}

fn world() -> World {
    let mut blobs = HashMap::new();
    for data in [BASE_CONFIG, b"layer one", b"layer two"] {
        blobs.insert(digest(data), data.to_vec());
    }
    let manifest = ImageManifest {
        schema_version: 2,
        media_type: None,
        config: descriptor("application/vnd.oci.image.config.v1+json", BASE_CONFIG),
        layers: vec![descriptor("type/one", b"layer one"), descriptor("type/two", b"layer two")],
        subject: None,
        artifact_type: None,
        annotations: Some([("k".to_string(), "v".to_string())].into_iter().collect()),
    };
    World {
        manifest,
        manifest_digest: "sha256:manifest".to_string(),
        blobs,
        cache: HashMap::new(),
        requests: Vec::new(),
    }
}

impl World {
    fn build(&mut self, builder: ImageBuilder) -> Result<BuiltImage, Error> {
        let mut step = builder.build()?;
        loop {
            step = match step {
                BuildStep::LookupManifest(lookup) => {
                    let key = lookup.key();
                    self.requests.push(format!("lookup {key}"));
                    let found = self.cache.get(&key).cloned();
                    lookup.resume(Ok(found))
                }
                BuildStep::PullManifest(pull) => {
                    self.requests.push(format!("pull {}", pull.reference().whole));
                    let pulled = (self.manifest.clone(), self.manifest_digest.clone());
                    pull.resume(Ok(pulled))?
                }
                BuildStep::StoreManifest(store) => {
                    self.cache.insert(store.key(), store.data().clone());
                    store.resume()
                }
                BuildStep::LookupBlob(lookup) => {
                    let found = self.cache.get(lookup.digest()).cloned();
                    lookup.resume(found)?
                }
                BuildStep::PullBlob(pull) => {
                    let digest = pull.descriptor().digest.clone();
                    self.requests.push(format!("pull {digest}"));
                    let pulled = self.blobs.get(&digest).cloned();
                    pull.resume(pulled.ok_or_else(|| registry_error(RegistryErrorKind::Other)))?
                }
                BuildStep::StoreBlob(store) => {
                    self.cache.insert(store.digest().to_string(), store.data().clone());
                    store.resume()?
                }
                BuildStep::Write(image) => return Ok(image),
            }
        }
    }
}

fn parsed(config: &[u8]) -> oci_spec::image::ImageConfiguration {
    serde_json::from_slice(config).unwrap()
}

fn written(image: BuiltImage) -> (Image, BuildDiagnostics) {
    image.written("/out/image.oci.tar".to_string())
}

fn layers_of(image: &BuiltImage) -> Vec<(String, Vec<u8>)> {
    let mut layers = Vec::new();
    while let Some((media_type, blob)) = image.layer(layers.len()) {
        layers.push((media_type.to_string(), blob.clone()));
    }
    layers
}

#[test]
fn an_image_from_scratch_has_its_own_settings() {
    let layer = layer_with("a", b"1");
    let (diff_id, blob) = (layer.diff_id().to_string(), layer.blob().clone());
    let builder = Image::builder()
        .layer(layer)
        .entrypoint(texts(&["/app", "--flag"]))
        .working_dir("/work");
    let image = world().build(builder).unwrap();

    let config = parsed(image.config());
    assert_eq!(config.os().to_string(), "linux");
    assert_eq!(config.architecture().to_string(), "amd64");
    assert_eq!(config.rootfs().typ(), "layers");
    assert_eq!(config.rootfs().diff_ids(), &vec![diff_id]);
    let process = config.config().as_ref().unwrap();
    assert_eq!(process.entrypoint(), &Some(texts(&["/app", "--flag"])));
    assert_eq!(process.cmd(), &Some(Vec::new()));
    assert_eq!(process.working_dir(), &Some("/work".to_string()));
    assert_eq!(process.env(), &None);
    assert_eq!(image.name(), "scratch:latest");
    assert_eq!(image.output_path(), None);
    let media_type = "application/vnd.oci.image.layer.v1.tar+zstd".to_string();
    assert_eq!(layers_of(&image), vec![(media_type, blob)]);

    let config_digest = digest(image.config());
    let (image, diagnostics) = written(image);
    assert_eq!(image.path(), "/out/image.oci.tar");
    assert_eq!(image.config_digest(), config_digest);
    assert_eq!(diagnostics.manifest_source, ManifestSource::NotApplicable);
    assert_eq!(diagnostics.resolved_manifest_digest, "");
}

#[test]
fn the_platform_and_the_command_are_set() {
    let builder = Image::builder()
        .platform("windows", "arm64")
        .cmd(texts(&["one", "two"]))
        .output_name_and_tag("mine:v1")
        .output_to("/images/x.tar".to_string());
    let image = world().build(builder).unwrap();
    let config = parsed(image.config());
    assert_eq!(config.os().to_string(), "windows");
    assert_eq!(config.architecture().to_string(), "arm64");
    assert_eq!(config.config().as_ref().unwrap().cmd(), &Some(texts(&["one", "two"])));
    assert_eq!(image.name(), "mine:v1");
    assert_eq!(image.output_path(), Some("/images/x.tar".to_string()));
}

#[test]
fn an_image_on_a_base_adds_to_it() {
    let layer = layer_with("a", b"1");
    let (diff_id, blob) = (layer.diff_id().to_string(), layer.blob().clone());
    let builder = Image::builder().from("ghcr.io/user/base:1").layer(layer);
    let mut world = world();
    let image = world.build(builder).unwrap();

    let config = parsed(image.config());
    assert_eq!(config.architecture().to_string(), "amd64");
    assert_eq!(
        config.rootfs().diff_ids(),
        &vec!["sha256:base1".to_string(), "sha256:base2".to_string(), diff_id]
    );
    assert_eq!(config.created(), &Some("2024-01-01T00:00:00Z".to_string()));
    let process = config.config().as_ref().unwrap();
    assert_eq!(process.entrypoint(), &Some(texts(&["/base"])));
    assert_eq!(process.cmd(), &Some(Vec::new()));
    assert_eq!(process.working_dir(), &Some("/base-dir".to_string()));
    assert_eq!(process.env(), &Some(texts(&["PATH=/bin"])));
    assert_eq!(process.user(), &Some("nobody".to_string()));
    let mut ports = process.exposed_ports().clone().unwrap();
    ports.sort();
    assert_eq!(ports, texts(&["443/tcp", "80/tcp"]));
    assert_eq!(process.labels().as_ref().unwrap().len(), 2);

    let own = "application/vnd.oci.image.layer.v1.tar+zstd".to_string();
    assert_eq!(
        layers_of(&image),
        vec![
            ("type/one".to_string(), b"layer one".to_vec()),
            ("type/two".to_string(), b"layer two".to_vec()),
            (own, blob),
        ]
    );
    assert_eq!(image.name(), "user/base:latest");
    assert_eq!(
        world.requests,
        vec![
            "lookup manifest-v1:ghcr.io/user/base:1".to_string(),
            "pull ghcr.io/user/base:1".to_string(),
            format!("pull {}", digest(BASE_CONFIG)),
            format!("pull {}", digest(b"layer one")),
            format!("pull {}", digest(b"layer two")),
        ]
    );
    let config_digest = digest(image.config());
    let (image, diagnostics) = written(image);
    assert_eq!(image.config_digest(), config_digest);
    assert_eq!(diagnostics.manifest_source, ManifestSource::FromRegistry);
    assert_eq!(diagnostics.resolved_manifest_digest, "sha256:manifest");
}

#[test]
fn settings_override_those_of_the_base() {
    let builder = Image::builder()
        .from("base")
        .entrypoint(texts(&["/mine"]))
        .cmd(texts(&["x"]))
        .working_dir("/mine-dir")
        .platform("linux", "arm64");
    let image = world().build(builder).unwrap();
    let metadata = read_metadata(image.config()).unwrap();
    assert_eq!(metadata.entrypoint, Some(texts(&["/mine"])));
    assert_eq!(metadata.cmd, Some(texts(&["x"])));
    assert_eq!(metadata.working_dir, Some("/mine-dir".to_string()));
    assert_eq!(metadata.runtime_command(), texts(&["/mine", "x"]));
    assert_eq!(image.name(), "library/base:latest");
}

#[test]
fn big_endian_arm_is_taken_for_its_successor() {
    let image = world().build(Image::builder().platform("linux", "armbe")).unwrap();
    assert_eq!(parsed(image.config()).architecture().to_string(), "arm64be");
    let image = world().build(Image::builder().from("base").platform("linux", "armbe")).unwrap();
    assert_eq!(parsed(image.config()).architecture().to_string(), "arm64be");
    let image = world().build(Image::builder().platform("my-os", "my-arch")).unwrap();
    assert_eq!(parsed(image.config()).architecture().to_string(), "my-arch");
    assert_eq!(parsed(image.config()).os().to_string(), "my-os");
}

#[test]
fn test_pull_policy_missing_uses_cache() {
    let base_image_for_test = "alpine:latest";
    let mut world = world();
    let builder = |policy| {
        Image::builder()
            .from(base_image_for_test)
            .platform("linux", "amd64")
            .pull_policy(policy)
    };
    let pre_cache_image = world.build(builder(PullPolicy::Always)).unwrap();
    assert_eq!(
        written(pre_cache_image).1.manifest_source,
        ManifestSource::FromRegistry,
        "Preliminary build should pull from registry"
    );
    world.requests.clear();
    let image_missing_policy = world.build(builder(PullPolicy::Missing)).unwrap();
    assert_eq!(world.requests, vec!["lookup manifest-v1:docker.io/library/alpine:latest"]);
    let (_, missing_diagnostics) = written(image_missing_policy);
    assert_eq!(
        missing_diagnostics.manifest_source,
        ManifestSource::FromCache,
        "PullPolicy::Missing should use cached manifest"
    );
    assert_eq!(missing_diagnostics.resolved_manifest_digest, "sha256:manifest");
}

#[test]
fn test_pull_policy_always_hits_registry() {
    let base_image_for_test = "alpine:latest";
    let mut world = world();
    let builder = |policy| {
        Image::builder()
            .from(base_image_for_test)
            .platform("linux", "amd64")
            .pull_policy(policy)
    };
    world.build(builder(PullPolicy::Missing)).unwrap();
    world.requests.clear();
    let image_always_policy = world.build(builder(PullPolicy::Always)).unwrap();
    assert_eq!(world.requests, vec!["pull docker.io/library/alpine:latest"]);
    assert_eq!(
        written(image_always_policy).1.manifest_source,
        ManifestSource::FromRegistry,
        "PullPolicy::Always should pull from registry"
    );
}

#[test]
fn a_cached_manifest_comes_back_whole() {
    let mut world = world();
    world.manifest.subject = Some(descriptor("s", b"subject"));
    world.manifest.artifact_type = Some("artifact".to_string());
    world.manifest.layers[0].urls = Some(texts(&["https://example.com/a\"b"]));
    world.build(Image::builder().from("base")).unwrap();
    let image = world.build(Image::builder().from("base")).unwrap();
    assert_eq!(layers_of(&image).len(), 2);
    assert_eq!(written(image).1.manifest_source, ManifestSource::FromCache);
}

#[test]
fn a_cached_manifest_that_cannot_be_read_is_pulled() {
    let mut world = world();
    world
        .cache
        .insert("manifest-v1:docker.io/library/base:latest".to_string(), b"broken".to_vec());
    let image = world.build(Image::builder().from("base")).unwrap();
    assert_eq!(written(image).1.manifest_source, ManifestSource::FromRegistry);
}

#[test]
fn a_cache_that_fails_does_not_stop_the_build() {
    let step = Image::builder().from("base").build().unwrap();
    let BuildStep::LookupManifest(lookup) = step else {
        panic!("a lookup was expected");
    };
    let failure = Error::Cache { message: "broken".to_string(), source: None };
    assert!(matches!(lookup.resume(Err(failure)), BuildStep::PullManifest(_)));
}

#[test]
fn a_bad_base_reference_is_an_error() {
    match Image::builder().from("UPPER CASE").build() {
        Err(Error::ImagePull { image_ref, message, source: Some(Cause::Reference(error)) }) => {
            assert_eq!(image_ref, "UPPER CASE");
            assert_eq!(message, format!("Invalid base image reference format: {error}"));
        }
        other => panic!("{other:?}"),
    }
}

#[test]
fn a_failed_pull_of_the_manifest_is_an_error() {
    for (kind, missing) in [
        (RegistryErrorKind::ManifestNotFound, true),
        (RegistryErrorKind::Response(vec![ErrorCode::Other, ErrorCode::ManifestUnknown]), true),
        (RegistryErrorKind::Response(vec![ErrorCode::Other]), false),
        (RegistryErrorKind::Response(Vec::new()), false),
        (RegistryErrorKind::Other, false),
    ] {
        let builder = Image::builder().from("base").pull_policy(PullPolicy::Always);
        let BuildStep::PullManifest(pull) = builder.build().unwrap() else {
            panic!("a pull was expected");
        };
        let error = pull.resume(Err(registry_error(kind))).unwrap_err();
        assert_eq!(error.is_manifest_not_found(), missing);
        match error {
            Error::ImagePull { image_ref, message, .. } => {
                assert_eq!(image_ref, "base");
                assert_eq!(
                    message,
                    "Failed to pull/resolve base image manifest (base): registry said no"
                );
            }
            other => panic!("{other:?}"),
        }
    }
    let error = Error::Generic {
        message: String::new(),
        source: Some(Cause::Registry(registry_error(RegistryErrorKind::ManifestNotFound))),
    };
    assert!(!error.is_manifest_not_found());
}

#[test]
fn a_failed_pull_of_a_blob_is_an_error() {
    for (gone, expected) in [
        (BASE_CONFIG, "Failed to pull config blob "),
        (b"layer two".as_slice(), "Failed to pull layer blob "),
    ] {
        let mut world = world();
        world.blobs.remove(&digest(gone));
        match world.build(Image::builder().from("base")) {
            Err(Error::ImagePull { image_ref, message, source: Some(Cause::Registry(_)) }) => {
                assert_eq!(image_ref, "base");
                assert_eq!(message, format!("{expected}{}", digest(gone)));
            }
            other => panic!("{other:?}"),
        }
    }
}

#[test]
fn a_base_configuration_that_cannot_be_read_is_an_error() {
    let mut world = world();
    world.manifest.config = descriptor("c", b"{}");
    world.blobs.insert(digest(b"{}"), b"{}".to_vec());
    match world.build(Image::builder().from("base")) {
        Err(Error::ImageConfig { message, source: Some(Cause::Json(_)) }) => {
            assert_eq!(message, "Failed to parse base image configuration");
        }
        other => panic!("{other:?}"),
    }
}

#[test]
fn the_cache_and_the_platform_are_handed_out() {
    let cache = BlobCache::with_path("/blobs".to_string(), Ok(())).unwrap();
    let builder = Image::builder();
    assert!(builder.cache().is_none());
    assert!(builder.platform_filter().is_none());
    let builder = builder.blob_cache(cache).platform("linux", "arm64");
    assert_eq!(builder.cache().unwrap().path(), "/blobs");
    assert_eq!(builder.platform_filter(), Some(("linux".to_string(), "arm64".to_string())));
}

#[test]
fn the_environment_logs_in_unless_something_was_set() {
    let auth_of = |builder: ImageBuilder| {
        let builder = builder.from("base").pull_policy(PullPolicy::Always);
        let builder = builder.with_environment(Some("u".to_string()), Some("p".to_string()));
        let BuildStep::PullManifest(pull) = builder.build().unwrap() else {
            panic!("a pull was expected");
        };
        format!("{:?}", pull.auth().unwrap())
    };
    assert_eq!(auth_of(Image::builder()), "Basic(\"u\", \"p\")");
    let bearer = RegistryAuth::Bearer("t".to_string());
    assert_eq!(auth_of(Image::builder().auth(bearer)), "Bearer(\"t\")");
}

#[test]
fn empty_credentials_are_none() {
    let text = |s: &str| Some(s.to_string());
    assert!(matches!(
        determine_registry_auth(text("u"), text("p")),
        RegistryAuth::Basic(u, p) if u == "u" && p == "p"
    ));
    assert!(matches!(determine_registry_auth(text(""), text("p")), RegistryAuth::Anonymous));
    assert!(matches!(determine_registry_auth(text("u"), text("")), RegistryAuth::Anonymous));
    assert!(matches!(determine_registry_auth(None, text("p")), RegistryAuth::Anonymous));
    assert!(matches!(determine_registry_auth(text("u"), None), RegistryAuth::Anonymous));
}

#[test]
fn google_registries_need_monolithic_pushes() {
    for host in [
        "us-docker.pkg.dev",
        "europe-west1-docker.pkg.dev",
        "gcr.io",
        "us.gcr.io",
        "eu.gcr.io",
        "asia.gcr.io",
        "mirror.gcr.io",
    ] {
        assert!(is_registry_requiring_monolithic_push(host), "{host}");
    }
    for host in ["ghcr.io", "docker.io", "pkg.dev", "gcr.io.example.com", "xgcr.io", "localhost"] {
        assert!(!is_registry_requiring_monolithic_push(host), "{host}");
    }
    let uses = |policy| determine_use_monolithic_push(&policy, "gcr.io");
    assert!(uses(MonolithicPushPolicy::Auto));
    assert!(uses(MonolithicPushPolicy::Always));
    assert!(!uses(MonolithicPushPolicy::Never));
    assert!(determine_use_monolithic_push(&MonolithicPushPolicy::Always, "ghcr.io"));
    assert!(!determine_use_monolithic_push(&MonolithicPushPolicy::Auto, "ghcr.io"));
}

#[test]
fn push_options_set_the_policy() {
    let options = PushOptions::default();
    assert_eq!(options.monolithic_push, MonolithicPushPolicy::Auto);
    let options = options.with_monolithic_push();
    assert_eq!(options.monolithic_push, MonolithicPushPolicy::Always);
    let options = options.with_chunked_upload();
    assert_eq!(options.monolithic_push, MonolithicPushPolicy::Never);
    let options = options.with_auto_push_mode();
    assert_eq!(options.monolithic_push, MonolithicPushPolicy::Auto);
    assert_eq!(MonolithicPushPolicy::default(), MonolithicPushPolicy::Auto);
    assert_eq!(PullPolicy::default(), PullPolicy::Missing);
}

#[test]
fn the_runtime_command_is_entrypoint_and_cmd() {
    let metadata = ImageMetadata {
        entrypoint: Some(texts(&["/bin/sh", "-c"])),
        cmd: Some(texts(&["echo hi"])),
        working_dir: None,
    };
    assert_eq!(metadata.runtime_command(), texts(&["/bin/sh", "-c", "echo hi"]));
    let metadata = ImageMetadata { entrypoint: None, ..metadata };
    assert_eq!(metadata.runtime_command(), texts(&["echo hi"]));
    let metadata = ImageMetadata { cmd: None, ..metadata };
    assert_eq!(metadata.runtime_command(), Vec::<String>::new());
}

fn entry(os: &str, architecture: &str, digest: &str) -> IndexEntry {
    IndexEntry {
        media_type: "m".to_string(),
        digest: digest.to_string(),
        size: 1,
        platform: Some(Platform {
            architecture: architecture.to_string(),
            os: os.to_string(),
            os_version: None,
            os_features: None,
            variant: None,
            features: None,
        }),
        annotations: None,
    }
}

#[test]
fn the_first_image_for_the_platform_is_picked() {
    let mut entries = vec![
        entry("linux", "arm64", "sha256:1"),
        entry("linux", "amd64", "sha256:2"),
        entry("linux", "amd64", "sha256:3"),
    ];
    entries.insert(0, IndexEntry { platform: None, ..entry("linux", "amd64", "sha256:0") });
    let pick = |os, arch| resolve_platform(&entries, os, arch);
    assert_eq!(pick("linux", "amd64"), Some("sha256:2".to_string()));
    assert_eq!(pick("linux", "arm64"), Some("sha256:1".to_string()));
    assert_eq!(pick("windows", "amd64"), None);
}

#[test]
fn pull_options_make_a_builder() {
    let options = PullAndExtractOptions {
        platform_os: Some("linux".to_string()),
        ..PullAndExtractOptions::default()
    };
    assert!(options.into_builder("base").platform_filter().is_none());
    let options = PullAndExtractOptions {
        platform_os: Some("linux".to_string()),
        platform_arch: Some("arm64".to_string()),
        pull_policy: PullPolicy::Always,
        blob_cache: Some(BlobCache::with_path("/blobs".to_string(), Ok(())).unwrap()),
        auth: Some(RegistryAuth::Anonymous),
    };
    let builder = options.into_builder("base");
    assert_eq!(builder.platform_filter(), Some(("linux".to_string(), "arm64".to_string())));
    assert_eq!(builder.cache().unwrap().path(), "/blobs");
    assert!(matches!(builder.build(), Ok(BuildStep::PullManifest(_))));
}

#[test]
fn an_archive_on_disk_is_an_image() {
    let image = Image::from_tarball("/x.tar", true, Ok("sha256:c".to_string())).unwrap();
    assert_eq!(image.path(), "/x.tar");
    assert_eq!(image.config_digest(), "sha256:c");
    match Image::from_tarball("/x.tar", false, Ok("sha256:c".to_string())) {
        Err(Error::Generic { message, source: None }) => {
            assert_eq!(message, "OCI tarball not found at /x.tar");
        }
        other => panic!("{other:?}"),
    }
    let failure = ArchiveFailure::Load("no tar".to_string());
    match Image::from_tarball("/x.tar", true, Err(failure)) {
        Err(Error::OciArchive { message, source: Some(Cause::Text(why)) }) => {
            assert_eq!(message, "Failed to load OCI artifact from /x.tar");
            assert_eq!(why, "no tar");
        }
        other => panic!("{other:?}"),
    }
}

#[test]
fn the_archived_configuration_has_the_settings() {
    let layer = || layer_with("base.txt", b"large immutable operator layer");
    let build = || {
        let builder = Image::builder()
            .platform("linux", "arm64")
            .layer(layer())
            .entrypoint(texts(&["/operator"]));
        world().build(builder).unwrap()
    };
    let image = build();
    let config = image.configuration();
    assert_eq!(config.os().to_string(), "linux");
    assert_eq!(config.architecture().to_string(), "arm64");
    assert_eq!(config.rootfs().diff_ids(), &vec![layer().diff_id().to_string()]);
    let process = config.config().as_ref().unwrap();
    assert_eq!(process.entrypoint(), &Some(texts(&["/operator"])));
    assert_eq!(process.cmd(), &Some(Vec::new()));
    assert_eq!(process.working_dir(), &None);
    assert_eq!(config, &parsed(image.config()));
    assert_eq!(config.to_string().unwrap().as_bytes(), image.config());

    let again = build();
    assert_eq!(again.config(), image.config());
    assert_eq!(again.configuration(), image.configuration());
    assert_eq!(layers_of(&again), layers_of(&image));
}

#[test]
fn metadata_is_read_from_the_configuration() {
    let image = Image::from_tarball("/x.tar", true, Ok("sha256:c".to_string())).unwrap();
    let metadata = image.get_metadata(Ok(BASE_CONFIG.to_vec())).unwrap();
    assert_eq!(metadata.runtime_command(), texts(&["/base", "base-argument"]));
    assert_eq!(metadata.working_dir, Some("/base-dir".to_string()));
    let bare = br#"{"architecture":"a","os":"o","history":[],
        "rootfs":{"type":"layers","diff_ids":[]}}"#;
    let metadata = image.get_metadata(Ok(bare.to_vec())).unwrap();
    assert!(metadata.entrypoint.is_none());
    assert!(metadata.cmd.is_none());
    assert!(metadata.working_dir.is_none());
    assert!(matches!(
        image.get_metadata(Ok(b"?".to_vec())),
        Err(Error::ImageConfig { message, source: Some(Cause::Json(_)) })
            if message == "Failed to parse image configuration"
    ));
    assert!(matches!(
        image.get_metadata(Err(ArchiveFailure::Config("gone".to_string()))),
        Err(Error::OciArchive { message, .. })
            if message == "Failed to get config from OCI artifact"
    ));
}

const ZSTD: &str = "application/vnd.oci.image.layer.v1.tar+zstd";

fn blob(digest: &str, media_type: &str, blob: Vec<u8>) -> LayerBlob {
    LayerBlob { digest: digest.to_string(), media_type: media_type.to_string(), blob }
}

/// Gives a failure to whoever reads from it.
struct Failing(Option<std::io::Error>);

impl Read for Failing {
    fn read(&mut self, _: &mut [u8]) -> std::io::Result<usize> {
        self.0.take().map_or(Ok(0), Err)
    }
}

/// Extracts a layer; gives what the file `a.txt` in it holds.
fn extract(layer: LayerBlob) -> Result<String, Error> {
    let target = tempfile::tempdir().unwrap();
    let (tar, failure, extraction) = layer.decompress()?.open();
    let reader = std::io::Cursor::new(tar).chain(Failing(failure));
    extraction.finish(tar::Archive::new(reader).unpack(target.path()))?;
    let runtime = tokio::runtime::Runtime::new().unwrap();
    let read = runtime.block_on(tokio::fs::read_to_string(target.path().join("a.txt")));
    Ok(read.unwrap())
}

/// An archive with the file `a.txt`.
fn small_tar() -> Vec<u8> {
    let mut builder = tar::Builder::new(Vec::new());
    let mut header = tar::Header::new_gnu();
    header.set_size(1);
    header.set_mode(0o644);
    builder.append_data(&mut header, "a.txt", &b"x"[..]).unwrap();
    builder.into_inner().unwrap()
}

fn gzip(data: &[u8]) -> Vec<u8> {
    let mut encoder = flate2::write::GzEncoder::new(Vec::new(), flate2::Compression::fast());
    encoder.write_all(data).unwrap();
    encoder.finish().unwrap()
}

#[test]
fn layers_are_handed_out_in_order() {
    let image = Image::from_tarball("/x.tar", true, Ok("sha256:c".to_string())).unwrap();
    let blobs = vec![blob("sha256:1", ZSTD, Vec::new()), blob("sha256:2", ZSTD, Vec::new())];
    let contents = ArchiveContents { config: BASE_CONFIG.to_vec(), layers: Ok(blobs) };
    let (layers, metadata) = image.extract("/target", Ok(()), Ok(contents)).unwrap();
    assert_eq!(metadata.working_dir, Some("/base-dir".to_string()));
    let digests: Vec<&str> = layers.iter().map(|l| l.digest.as_str()).collect();
    assert_eq!(digests, vec!["sha256:1", "sha256:2"]);
}

#[test]
fn layers_are_extracted_whatever_their_compression() {
    let tar = small_tar();
    let zstd = zstd::encode_all(tar.as_slice(), 3).unwrap();
    assert_eq!(extract(blob("d", ZSTD, zstd.clone())).unwrap(), "x");
    assert_eq!(extract(blob("d", "other/type", zstd)).unwrap(), "x");
    let oci = "application/vnd.oci.image.layer.v1.tar+gzip";
    assert_eq!(extract(blob("d", oci, gzip(&tar))).unwrap(), "x");
    let docker = "application/vnd.docker.image.rootfs.diff.tar.gzip";
    assert_eq!(extract(blob("d", docker, gzip(&tar))).unwrap(), "x");
    let plain = "application/vnd.oci.image.layer.v1.tar";
    assert_eq!(extract(blob("d", plain, tar)).unwrap(), "x");
}

#[test]
fn the_media_type_tells_the_compression() {
    assert_eq!(layer_compression(ZSTD, b"x"), Compression::Zstd);
    assert_eq!(layer_compression("", b""), Compression::Zstd);
    assert_eq!(layer_compression("a.tar+gzip", b"x"), Compression::Gzip);
    assert_eq!(layer_compression("a.tar.gzip", b""), Compression::Gzip);
    assert_eq!(layer_compression("a.v1.tar", b"x"), Compression::Uncompressed);
}

#[test]
fn a_zstd_frame_is_one_whatever_the_media_type() {
    let magic = [0x28, 0xb5, 0x2f, 0xfd, 0x00];
    assert_eq!(layer_compression("a.tar+gzip", &magic), Compression::Zstd);
    assert_eq!(layer_compression("a.v1.tar", &magic[..4]), Compression::Zstd);
    assert_eq!(layer_compression("a.v1.tar", &magic[..3]), Compression::Uncompressed);
    let zstd = zstd::encode_all(small_tar().as_slice(), 3).unwrap();
    for media_type in ["a.tar+gzip", "a.tar.gzip", "a.v1.tar"] {
        assert_eq!(extract(blob("d", media_type, zstd.clone())).unwrap(), "x");
    }
}

#[test]
fn layers_in_several_gzip_members_are_extracted_whole() {
    let tar = small_tar();
    let mut parts = gzip(&tar[..700]);
    parts.extend(gzip(&tar[700..]));
    assert_eq!(extract(blob("d", "x+gzip", parts)).unwrap(), "x");
}

#[test]
fn damaged_layers_are_errors() {
    for media_type in [ZSTD, "x+gzip"] {
        match extract(blob("sha256:2", media_type, b"damaged".to_vec())) {
            Err(Error::Io { message, .. }) => {
                assert_eq!(message, "Failed to extract layer sha256:2");
            }
            other => panic!("{other:?}"),
        }
    }
    let content: Vec<u8> = (0..400_000u32).flat_map(|n| n.to_le_bytes()).collect();
    let mut builder = tar::Builder::new(Vec::new());
    let mut header = tar::Header::new_gnu();
    header.set_size(content.len() as u64);
    builder.append_data(&mut header, "big", content.as_slice()).unwrap();
    let tar = builder.into_inner().unwrap();
    let mut cut = zstd::encode_all(tar.as_slice(), 3).unwrap();
    cut.truncate(cut.len() / 2);
    let archive = blob("d", ZSTD, cut.clone()).decompress().unwrap();
    assert!(tar.starts_with(archive.tar()));
    assert!(extract(blob("d", ZSTD, cut)).is_err());
}

#[test]
fn what_stands_behind_the_end_of_an_archive_does_not_matter() {
    let mut longer = zstd::encode_all(small_tar().as_slice(), 3).unwrap();
    longer.extend(b"anything");
    assert_eq!(extract(blob("d", ZSTD, longer)).unwrap(), "x");
}

#[test]
fn an_archive_that_cannot_be_unpacked_is_an_error() {
    let archive = blob("sha256:1", "a.tar", small_tar()).decompress().unwrap();
    let (tar, failure, extraction) = archive.open();
    assert_eq!(tar, small_tar());
    assert!(failure.is_none());
    let full = std::io::Error::from(std::io::ErrorKind::StorageFull);
    match extraction.finish(Err(full)) {
        Err(Error::Io { message, source }) => {
            assert_eq!(message, "Failed to extract layer sha256:1");
            assert_eq!(source.kind(), std::io::ErrorKind::StorageFull);
        }
        other => panic!("{other:?}"),
    }
}

#[test]
fn extraction_failures_come_in_order() {
    let image = Image::from_tarball("/x.tar", true, Ok("sha256:c".to_string())).unwrap();
    let denied = || std::io::Error::from(std::io::ErrorKind::PermissionDenied);
    let load = || ArchiveFailure::Load("why".to_string());
    match image.extract("/target", Err(denied()), Err(load())) {
        Err(Error::Io { message, .. }) => {
            assert_eq!(message, "Failed to create target directory /target");
        }
        other => panic!("{other:?}"),
    }
    assert!(matches!(
        image.extract("/target", Ok(()), Err(load())),
        Err(Error::OciArchive { message, .. })
            if message == "Failed to load OCI artifact from /x.tar"
    ));
    let gone = || Err(ArchiveFailure::Layers("why".to_string()));
    let contents = ArchiveContents { config: b"?".to_vec(), layers: gone() };
    assert!(matches!(
        image.extract("/target", Ok(()), Ok(contents)),
        Err(Error::ImageConfig { .. })
    ));
    let contents = ArchiveContents { config: BASE_CONFIG.to_vec(), layers: gone() };
    assert!(matches!(
        image.extract("/target", Ok(()), Ok(contents)),
        Err(Error::OciArchive { message, .. })
            if message == "Failed to get layers from OCI artifact"
    ));
}

#[test]
fn a_decoder_that_cannot_be_made_is_an_error() {
    let refused = std::io::Error::from(std::io::ErrorKind::OutOfMemory);
    match LayerArchive::decompressed("sha256:1".to_string(), Err(refused)) {
        Err(Error::Io { message, source }) => {
            assert_eq!(message, "Failed to create zstd decoder for layer sha256:1");
            assert_eq!(source.kind(), std::io::ErrorKind::OutOfMemory);
        }
        other => panic!("{other:?}"),
    }
    let output = Ok((b"tar".to_vec(), None));
    let archive = LayerArchive::decompressed("sha256:1".to_string(), output).unwrap();
    assert_eq!(archive.tar(), b"tar");
    assert!(archive.open().1.is_none());
}

fn process() -> ProcessFields {
    ProcessFields {
        entrypoint: Some(texts(&["/e"])),
        cmd: Some(texts(&["c"])),
        working_dir: Some("/w".to_string()),
        env: Some(texts(&["A=1"])),
        user: Some("u".to_string()),
    }
}

fn fields(process: Option<ProcessFields>) -> ImageFields {
    ImageFields {
        os: "plan9".to_string(),
        architecture: "mips".to_string(),
        diff_ids: texts(&["sha256:base"]),
        process,
    }
}

#[test]
fn metadata_is_part_of_what_a_configuration_says() {
    let metadata = metadata_of(Some(process()));
    assert_eq!(metadata.runtime_command(), texts(&["/e", "c"]));
    assert_eq!(metadata.working_dir, Some("/w".to_string()));
    assert!(metadata_of(None).runtime_command().is_empty());
}

#[test]
fn settings_come_from_the_builder_or_else_from_the_base() {
    let layer = layer_with("a", b"1");
    let own = layer.diff_id().to_string();
    let builder = Image::builder().layer(layer);
    let settings = builder.settings(Some(fields(Some(process()))));
    assert_eq!(settings.os, "linux");
    assert_eq!(settings.architecture, "amd64");
    assert_eq!(settings.diff_ids, vec!["sha256:base".to_string(), own.clone()]);
    assert_eq!(settings.entrypoint, Some(texts(&["/e"])));
    assert_eq!(settings.cmd, Some(Vec::new()));
    assert_eq!(settings.working_dir, Some("/w".to_string()));

    let settings = builder.settings(Some(fields(None)));
    assert_eq!(settings.entrypoint, None);
    assert_eq!(settings.working_dir, None);
    assert_eq!(builder.settings(None).diff_ids, vec![own]);

    let builder = Image::builder()
        .platform("windows", "arm64")
        .entrypoint(texts(&["/x"]))
        .cmd(texts(&["y"]))
        .working_dir("/z");
    let settings = builder.settings(Some(fields(Some(process()))));
    assert_eq!(settings.os, "windows");
    assert_eq!(settings.architecture, "arm64");
    assert_eq!(settings.entrypoint, Some(texts(&["/x"])));
    assert_eq!(settings.cmd, Some(texts(&["y"])));
    assert_eq!(settings.working_dir, Some("/z".to_string()));
}

fn base_reference() -> ImageReference {
    ImageReference {
        registry: "r".to_string(),
        resolved_registry: "r".to_string(),
        repository: "ns/base".to_string(),
        tag: Some("t".to_string()),
        digest: None,
        whole: "r/ns/base:t".to_string(),
    }
}

#[test]
fn a_build_starts_by_its_reference_and_policy() {
    let start = |policy| {
        let builder = Image::builder().pull_policy(policy);
        builder.build_on("base".to_string(), Ok(base_reference()))
    };
    match start(PullPolicy::Missing) {
        Ok(BuildStep::LookupManifest(lookup)) => {
            assert_eq!(lookup.key(), "manifest-v1:r/ns/base:t");
            assert!(matches!(lookup.resume_with(None), BuildStep::PullManifest(_)));
        }
        other => panic!("{other:?}"),
    }
    assert!(matches!(start(PullPolicy::Always), Ok(BuildStep::PullManifest(_))));
    match start(PullPolicy::Missing) {
        Ok(BuildStep::LookupManifest(lookup)) => {
            let found = (world().manifest, "sha256:m".to_string());
            match lookup.resume_with(Some(found)) {
                BuildStep::LookupBlob(blob) => assert_eq!(blob.digest(), digest(BASE_CONFIG)),
                other => panic!("{other:?}"),
            }
        }
        other => panic!("{other:?}"),
    }
    let bad = ReferenceError {
        text: "no good".to_string(),
        source: oci_client::ParseError::ReferenceInvalidFormat,
    };
    match Image::builder().build_on("base".to_string(), Err(bad)) {
        Err(Error::ImagePull { image_ref, message, source: Some(Cause::Reference(_)) }) => {
            assert_eq!(image_ref, "base");
            assert_eq!(message, "Invalid base image reference format: no good");
        }
        other => panic!("{other:?}"),
    }
}

#[test]
fn a_built_layer_comes_out_whole() {
    let layer = layer_with("a/b", b"content");
    let blob = blob(layer.blob_digest(), layer.media_type(), layer.blob().clone());
    let archive = blob.decompress().unwrap();
    assert_eq!(digest(archive.tar()), layer.diff_id());
    assert!(archive.open().1.is_none());
}

#[test]
fn the_rest_of_the_base_configuration_stays() {
    let config = br#"{
        "architecture": "arm64", "os": "linux", "os.version": "1", "os.features": ["f"],
        "variant": "v8", "created": "2024-01-01T00:00:00Z", "author": "me",
        "config": {
            "ExposedPorts": {"80/tcp": {}, "443/tcp": {}}, "Volumes": {"/data": {}},
            "Labels": {"a": "1", "b": "2"}, "StopSignal": "SIGINT"
        },
        "rootfs": {"type": "layers", "diff_ids": []},
        "history": [{"created_by": "step", "empty_layer": true}, {"comment": "c"}]
    }"#;
    let mut world = world();
    world.manifest.config = descriptor("c", config);
    world.manifest.layers.clear();
    world.blobs.insert(digest(config), config.to_vec());
    let image = world.build(Image::builder().from("localhost:5000/b:t")).unwrap();
    let (old, new) = (parsed(config), parsed(image.config()));
    assert_eq!(new.os_version(), old.os_version());
    assert_eq!(new.os_features(), old.os_features());
    assert_eq!(new.variant(), old.variant());
    assert_eq!(new.created(), old.created());
    assert_eq!(new.author(), old.author());
    assert_eq!(new.history(), old.history());
    assert_eq!(new.rootfs().typ(), old.rootfs().typ());
    let (old, new) = (old.config().clone().unwrap(), new.config().clone().unwrap());
    assert_eq!(new.labels(), old.labels());
    assert_eq!(new.stop_signal(), old.stop_signal());
    assert_eq!(new.volumes(), old.volumes());
    let sorted = |ports: &Option<Vec<String>>| {
        let mut ports = ports.clone().unwrap();
        ports.sort();
        ports
    };
    assert_eq!(sorted(new.exposed_ports()), texts(&["443/tcp", "80/tcp"]));
    assert_eq!(image.base_layer_count(), 0);
}

#[test]
fn the_configuration_is_written_down_with_its_labels_in_one_order() {
    let config = br#"{
        "architecture": "arm64", "os": "linux", "history": [],
        "config": {
            "ExposedPorts": {"80/tcp": {}}, "Volumes": {"/data": {}},
            "Labels": {"a": "1", "b": "2", "c": "3", "d": "4", "e": "5"}
        },
        "rootfs": {"type": "layers", "diff_ids": []}
    }"#;
    let mut world = world();
    world.manifest.config = descriptor("c", config);
    world.manifest.layers.clear();
    world.blobs.insert(digest(config), config.to_vec());
    let image = world.build(Image::builder().from("localhost:5000/b:t")).unwrap();
    assert_eq!(image.configuration().to_string().unwrap().as_bytes(), image.config());
}

#[test]
fn a_second_build_pulls_no_blob() {
    let mut world = world();
    let doubled = world.manifest.layers[0].clone();
    world.manifest.layers.push(doubled);
    let builder = || Image::builder().from("localhost:5000/b:t").pull_policy(PullPolicy::Always);
    let first = world.build(builder()).unwrap();
    let pulled = vec![
        "pull localhost:5000/b:t".to_string(),
        format!("pull {}", digest(BASE_CONFIG)),
        format!("pull {}", digest(b"layer one")),
        format!("pull {}", digest(b"layer two")),
    ];
    assert_eq!(world.requests, pulled);
    assert_eq!(first.base_layer_count(), 3);
    world.requests.clear();
    let second = world.build(builder()).unwrap();
    assert_eq!(world.requests, vec!["pull localhost:5000/b:t"]);
    assert_eq!(layers_of(&second), layers_of(&first));
}

#[test]
fn a_built_image_is_loaded_again() {
    let image = world().build(Image::builder().from("localhost:5000/b:t")).unwrap();
    let config_digest = digest(image.config());
    let (built, _) = image.written("/x.tar".to_string());
    let loaded = Image::from_tarball("/x.tar", true, Ok(config_digest)).unwrap();
    assert_eq!(loaded.path(), built.path());
    assert_eq!(loaded.config_digest(), built.config_digest());
}

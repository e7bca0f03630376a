use dockdash::reference::ReferenceError;
use dockdash::{
    ArchiveFailure, Cause, ClientProtocol, ConfigBlob, Descriptor, Error, Image, ImageManifest,
    ImageReference, LayerBlob, MonolithicPushPolicy, PushOptions, PushProgressInfo, PushSource,
    PushStep, RegistryAuth, RegistryError, RegistryErrorKind,
};
use oci_client::errors::OciDistributionError;
use sha2::Digest;

const TARGET: &str = "localhost:5000/ns/app:latest";

fn digest(data: &[u8]) -> String {
    format!("sha256:{:x}", sha2::Sha256::digest(data))
}

fn failure() -> RegistryError {
    RegistryError {
        kind: RegistryErrorKind::Other,
        text: "registry said no".to_string(),
        source: OciDistributionError::GenericError(None),
    }
}

fn image() -> Image {
    Image::from_tarball("/x.tar", true, Ok("sha256:c".to_string())).unwrap()
}

fn manifest_json() -> Vec<u8> {
    br#"{"schemaVersion":2,"layers":[],
        "config":{"mediaType":"c","digest":"sha256:config","size":6}}"#
        .to_vec()
}

fn config() -> ConfigBlob {
    ConfigBlob { data: b"config".to_vec(), media_type: "c".to_string(), annotations: None }
}

fn source() -> PushSource {
    PushSource { manifest: Ok(manifest_json()), config: Ok(config()) }
}

fn layer(data: &[u8]) -> LayerBlob {
    LayerBlob { digest: digest(data), media_type: "m".to_string(), blob: data.to_vec() }
}

/// A report as a line.
fn line(info: &PushProgressInfo) -> String {
    format!(
        "{:?} {}/{} {}/{}",
        info.operation,
        info.layers_uploaded,
        info.total_layers,
        info.bytes_uploaded,
        info.total_bytes
    )
}

/// What a push did: its reports and its requests.
#[derive(Default)]
struct Log {
    reports: Vec<String>,
    requests: Vec<String>,
}

/// Pushes to a registry that has some blobs and refuses one request.
fn push(
    layers: Vec<LayerBlob>,
    has: &[String],
    refused: &str,
    log: &mut Log,
) -> Result<String, Error> {
    let (first, load) = image().push(TARGET, &PushOptions::default());
    log.reports.push(line(&first));
    let layers_step = load?.resume(Ok(source()))?.resume(Ok(()))?;
    let mut step = layers_step.resume(Ok(layers))?;
    loop {
        let reports = match &step {
            PushStep::Mount(_) => Vec::new(),
            PushStep::Whole(whole) => whole.reports().iter().map(line).collect(),
            PushStep::Blob(blob) => blob.reports().iter().map(line).collect(),
            PushStep::Config(config) => config.reports().iter().map(line).collect(),
            PushStep::Manifest(manifest) => manifest.reports().iter().map(line).collect(),
            PushStep::Done(done) => vec![line(done.report())],
        };
        log.reports.extend(reports);
        let mut request = |name: String| {
            let outcome = if name == refused { Err(failure()) } else { Ok(()) };
            log.requests.push(name);
            outcome
        };
        step = match step {
            PushStep::Mount(mount) => {
                let digest = mount.digest().to_string();
                let has_it = has.contains(&digest);
                mount.resume(has_it)
            }
            PushStep::Whole(whole) => {
                assert_eq!(whole.config().data, b"config");
                assert_eq!(whole.manifest().config.digest, "sha256:config");
                let outcome = request("whole".to_string());
                whole.resume(outcome)?
            }
            PushStep::Blob(blob) => {
                assert_eq!(blob.digest(), digest(blob.blob()));
                let outcome = request(format!("blob {}", String::from_utf8_lossy(blob.blob())));
                blob.resume(outcome)?
            }
            PushStep::Config(config) => {
                assert_eq!(config.config().data, b"config");
                let outcome = request(format!("config {}", config.digest()));
                config.resume(outcome)?
            }
            PushStep::Manifest(manifest) => {
                assert_eq!(manifest.manifest().schema_version, 2);
                let outcome = request("manifest".to_string());
                manifest.resume(outcome)?
            }
            PushStep::Done(done) => return Ok(done.into_reference()),
        }
    }
}

#[test]
fn a_push_uploads_every_layer_and_reports_on_it() {
    let mut log = Log::default();
    let pushed = push(vec![layer(b"aaaa"), layer(b"bb")], &[], "", &mut log).unwrap();
    assert_eq!(pushed, TARGET);
    assert_eq!(
        log.requests,
        vec!["blob aaaa", "blob bb", "config sha256:config", "manifest"]
    );
    assert_eq!(
        log.reports,
        vec![
            "\"Starting push\" 0/0 0/0",
            "\"Uploading layers\" 0/2 0/6",
            "\"Uploading 2 layers\" 0/2 0/6",
            "\"\" 1/2 4/6",
            "\"\" 2/2 6/6",
            "\"Uploading config\" 2/2 6/6",
            "\"Uploading manifest\" 2/2 6/6",
            "\"Push completed\" 2/2 6/6",
        ]
    );
}

#[test]
fn layers_that_the_registry_has_are_not_uploaded() {
    let mut log = Log::default();
    let layers = vec![layer(b"aaaa"), layer(b"bb"), layer(b"c"), layer(b"bb")];
    let has = [digest(b"bb")];
    push(layers, &has, "", &mut log).unwrap();
    assert_eq!(log.requests, vec!["blob aaaa", "blob c", "config sha256:config", "manifest"]);
    assert_eq!(
        log.reports,
        vec![
            "\"Starting push\" 0/0 0/0",
            "\"Uploading layers\" 1/3 0/5",
            "\"Uploading 2 layers\" 1/3 0/5",
            "\"\" 2/3 4/5",
            "\"\" 3/3 5/5",
            "\"Uploading config\" 3/3 5/5",
            "\"Uploading manifest\" 3/3 5/5",
            "\"Push completed\" 3/3 5/5",
        ]
    );
}

#[test]
fn where_the_registry_has_all_layers_only_config_and_manifest_are_pushed() {
    let mut log = Log::default();
    let has = [digest(b"a"), digest(b"b")];
    push(vec![layer(b"a"), layer(b"b")], &has, "", &mut log).unwrap();
    assert_eq!(log.requests, vec!["whole"]);
    assert_eq!(
        log.reports,
        vec![
            "\"Starting push\" 0/0 0/0",
            "\"Uploading layers\" 2/2 0/0",
            "\"Uploading config and manifest\" 2/2 0/0",
            "\"Push completed\" 2/2 0/0",
        ]
    );
}

#[test]
fn an_image_without_layers_is_pushed_whole() {
    let mut log = Log::default();
    push(Vec::new(), &[], "", &mut log).unwrap();
    assert_eq!(log.requests, vec!["whole"]);
}

#[test]
fn large_pushes_are_told_in_megabytes() {
    let mut log = Log::default();
    let layers = vec![layer(&vec![7; 10 * 1024 * 1024]), layer(&[1; 300 * 1024])];
    push(layers, &[], "", &mut log).unwrap();
    assert_eq!(log.reports[2], "\"Uploading 10.3 MB in 2 layers\" 0/2 0/10792960");
    let mut log = Log::default();
    push(vec![layer(&vec![7; 10 * 1024 * 1024])], &[], "", &mut log).unwrap();
    assert_eq!(log.reports[2], "\"Uploading 1 layers\" 0/1 0/10485760");
}

#[test]
fn refused_requests_end_the_push() {
    let message_of = |refused: &str, has: &[String]| {
        let error = push(vec![layer(b"a")], has, refused, &mut Log::default()).unwrap_err();
        match error {
            Error::Generic { message, source: Some(Cause::Registry(_)) } => message,
            other => panic!("{other:?}"),
        }
    };
    assert_eq!(
        message_of("blob a", &[]),
        format!("Failed to push layer {}: registry said no", digest(b"a"))
    );
    assert_eq!(
        message_of("config sha256:config", &[]),
        "Failed to push config blob: registry said no"
    );
    assert_eq!(message_of("manifest", &[]), "Failed to push manifest: registry said no");
    assert_eq!(
        message_of("whole", &[digest(b"a")]),
        "OCI client push to localhost:5000/ns/app:latest failed: registry said no"
    );
}

#[test]
fn a_bad_target_is_an_error_after_the_first_report() {
    let (first, load) = image().push("NO REFERENCE", &PushOptions::default());
    assert_eq!(line(&first), "\"Starting push\" 0/0 0/0");
    match load {
        Err(Error::Generic { message, source: Some(Cause::Reference(error)) }) => {
            assert_eq!(
                message,
                format!("Invalid target image reference format 'NO REFERENCE': {error}")
            );
        }
        other => panic!("{other:?}"),
    }
}

#[test]
fn a_login_that_fails_is_an_error() {
    let (_, load) = image().push(TARGET, &PushOptions::default());
    let auth = load.unwrap().resume(Ok(source())).unwrap();
    match auth.resume(Err(failure())) {
        Err(Error::Generic { message, source: Some(Cause::Registry(_)) }) => {
            assert_eq!(
                message,
                "Authentication failed for push to localhost:5000/ns/app:latest: registry said no"
            );
        }
        other => panic!("{other:?}"),
    }
}

#[test]
fn archives_that_cannot_be_read_are_errors() {
    let load = || image().push(TARGET, &PushOptions::default()).1.unwrap();
    let why = || "why".to_string();
    let archive_message = |error: Error| match error {
        Error::OciArchive { message, source: Some(Cause::Text(text)) } => {
            assert_eq!(text, "why");
            message
        }
        other => panic!("{other:?}"),
    };
    let config_message = |error: Error| match error {
        Error::ImageConfig { message, source: Some(Cause::Json(_)) } => message,
        other => panic!("{other:?}"),
    };
    assert_eq!(
        archive_message(load().resume(Err(ArchiveFailure::Load(why()))).unwrap_err()),
        "Failed to load OCI artifact from /x.tar"
    );
    assert_eq!(
        archive_message(load().resume(Err(ArchiveFailure::Manifest(why()))).unwrap_err()),
        "Failed to get manifest from OCI artifact"
    );
    let unwritten = serde_json::from_slice::<u8>(b"?").unwrap_err();
    let why_unwritten = unwritten.to_string();
    let broken = PushSource { manifest: Err(unwritten), ..source() };
    match load().resume(Ok(broken)).unwrap_err() {
        Error::ImageConfig { message, source: Some(Cause::Json(why)) } => {
            assert_eq!(message, "Failed to serialize spec manifest to JSON");
            assert_eq!(why.to_string(), why_unwritten);
        }
        other => panic!("{other:?}"),
    }
    let broken = PushSource { manifest: Ok(b"{}".to_vec()), ..source() };
    assert_eq!(
        config_message(load().resume(Ok(broken)).unwrap_err()),
        "Failed to deserialize OCI client manifest from JSON"
    );
    let broken = PushSource { config: Err(ArchiveFailure::Config(why())), ..source() };
    assert_eq!(
        archive_message(load().resume(Ok(broken)).unwrap_err()),
        "Failed to get config from OCI artifact"
    );
    let layers = load().resume(Ok(source())).unwrap().resume(Ok(())).unwrap();
    assert_eq!(
        archive_message(layers.resume(Err(ArchiveFailure::Layers(why()))).unwrap_err()),
        "Failed to get layers from OCI artifact"
    );
}

#[test]
fn the_registry_decides_on_monolithic_pushes() {
    let monolithic = |target: &str, policy| {
        let options = PushOptions { monolithic_push: policy, ..PushOptions::default() };
        image().push(target, &options).1.unwrap().use_monolithic_push()
    };
    assert!(monolithic("gcr.io/a/b:c", MonolithicPushPolicy::Auto));
    assert!(!monolithic("gcr.io/a/b:c", MonolithicPushPolicy::Never));
    assert!(!monolithic("ghcr.io/a/b:c", MonolithicPushPolicy::Auto));
    assert!(monolithic("ghcr.io/a/b:c", MonolithicPushPolicy::Always));
}

#[test]
fn references_are_resolved() {
    let load = image().push("busybox", &PushOptions::default()).1.unwrap();
    let reference = load.reference();
    assert_eq!(reference.registry, "docker.io");
    assert_eq!(reference.resolved_registry, "index.docker.io");
    assert_eq!(reference.repository, "library/busybox");
    assert_eq!(reference.tag, Some("latest".to_string()));
    assert_eq!(reference.digest, None);
    assert_eq!(reference.whole, "docker.io/library/busybox:latest");
}

fn reference(host: &str) -> ImageReference {
    ImageReference {
        registry: host.to_string(),
        resolved_registry: host.to_string(),
        repository: "ns/app".to_string(),
        tag: None,
        digest: None,
        whole: format!("{host}/ns/app"),
    }
}

#[test]
fn a_push_goes_where_the_reference_says() {
    let to = |host| image().push_to("text", Ok(reference(host)), &PushOptions::default()).unwrap();
    assert!(to("eu.gcr.io").use_monolithic_push());
    assert!(!to("example.org").use_monolithic_push());
    assert_eq!(to("example.org").reference().whole, "example.org/ns/app");
    let bad = ReferenceError {
        text: "no good".to_string(),
        source: oci_client::ParseError::ReferenceInvalidFormat,
    };
    match image().push_to("text", Err(bad), &PushOptions::default()) {
        Err(Error::Generic { message, source: Some(Cause::Reference(_)) }) => {
            assert_eq!(message, "Invalid target image reference format 'text': no good");
        }
        other => panic!("{other:?}"),
    }
}

#[test]
fn a_push_takes_the_manifest_and_the_configuration() {
    let manifest = ImageManifest {
        schema_version: 2,
        media_type: None,
        config: Descriptor {
            media_type: "c".to_string(),
            digest: "sha256:other".to_string(),
            size: 6,
            urls: None,
            annotations: None,
        },
        layers: Vec::new(),
        subject: None,
        artifact_type: None,
        annotations: None,
    };
    let options = PushOptions::default();
    let load = image().push_to("text", Ok(reference("example.org")), &options).unwrap();
    let auth = load.resume_with(Ok(manifest), Ok(config())).unwrap();
    match auth.resume(Ok(())).unwrap().resume(Ok(Vec::new())).unwrap() {
        PushStep::Whole(whole) => {
            assert_eq!(whole.manifest().config.digest, "sha256:other");
            match whole.resume(Ok(())).unwrap() {
                PushStep::Done(done) => assert_eq!(done.into_reference(), "text"),
                other => panic!("{other:?}"),
            }
        }
        other => panic!("{other:?}"),
    }
}

#[test]
fn a_clone_of_options_keeps_them() {
    let options = PushOptions {
        auth: RegistryAuth::Basic("u".to_string(), "p".to_string()),
        protocol: ClientProtocol::HttpsExcept(vec!["a".to_string(), "b".to_string()]),
        monolithic_push: MonolithicPushPolicy::Never,
    };
    let copy = options.clone();
    assert!(matches!(copy.auth, RegistryAuth::Basic(u, p) if u == "u" && p == "p"));
    assert!(matches!(copy.protocol, ClientProtocol::HttpsExcept(hosts) if hosts == ["a", "b"]));
    assert_eq!(copy.monolithic_push, MonolithicPushPolicy::Never);
    let bearer = RegistryAuth::Bearer("t".to_string());
    assert!(matches!(bearer.clone(), RegistryAuth::Bearer(t) if t == "t"));
    assert!(matches!(PushOptions::default().clone().auth, RegistryAuth::Anonymous));
    assert!(matches!(ClientProtocol::Http.clone(), ClientProtocol::Http));
}

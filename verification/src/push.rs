use std::collections::BTreeMap;

use vstd::prelude::*;

use crate::digest::{content_digest, digest_of};
use crate::error::{
    is_bad_json, is_bad_reference, is_generic, is_oci_archive, Cause, Error, RegistryError,
};
use crate::image::{
    archive_error, archive_message, determine_use_monolithic_push, failure_words,
    uses_monolithic_push, ArchiveFailure, Image, LayerBlob, PushOptions, PushProgressInfo,
};
use crate::manifest::{
    parsed_image_manifest, read_image_manifest, ImageManifest, ImageManifestView,
};
use crate::reference::{
    parsed_reference, reference_of, ImageReference, ReferenceError, ReferenceView,
};
use crate::text::{decimal, decimal_text, join, join3, join5, same_text, texts};

verus! {

/// The contents of a `PushProgressInfo`.
pub struct ProgressView {
    pub operation: Seq<char>,
    pub layers_uploaded: nat,
    pub total_layers: nat,
    pub bytes_uploaded: nat,
    pub total_bytes: nat,
}

impl View for PushProgressInfo {
    type V = ProgressView;

    open spec fn view(&self) -> ProgressView {
        ProgressView {
            operation: self.operation@,
            layers_uploaded: self.layers_uploaded as nat,
            total_layers: self.total_layers as nat,
            bytes_uploaded: self.bytes_uploaded as nat,
            total_bytes: self.total_bytes as nat,
        }
    }
}

/// The integer nearest to `n / d`; of two that are as near, the even one.
pub open spec fn rounded_quotient(n: nat, d: nat) -> nat
    recommends
        d > 0,
{
    let q = n / d;
    let r = n % d;
    if 2 * r < d || (2 * r == d && q % 2 == 0) {
        q
    } else {
        q + 1
    }
}

/// The distance between the numbers near `n` that a double can hold.
pub open spec fn double_spacing(n: nat) -> nat
    decreases n,
{
    if n < 0x20_0000_0000_0000 {
        1
    } else {
        2 * double_spacing(n / 2)
    }
}

/// The number nearest to `n` that a double can hold.
pub open spec fn nearest_double(n: nat) -> nat {
    rounded_quotient(n, double_spacing(n)) * double_spacing(n)
}

/// A number of bytes in MiB with one decimal, as a double gives it.
pub open spec fn megabytes_text(bytes: nat) -> Seq<char> {
    let tenths = rounded_quotient(10 * nearest_double(bytes), 0x10_0000);
    decimal_text(tenths / 10) + "."@ + decimal_text(tenths % 10)
}

fn rounded_quotient_of(n: u128, d: u128) -> (quotient: u128)
    requires
        0 < d <= 0x1_0000_0000_0000_0000,
        n < 0x1000_0000_0000_0000_0000,
    ensures
        quotient == rounded_quotient(n as nat, d as nat),
        quotient * d <= n + d,
        quotient <= n / d + 1,
{
    let q: u128 = n / d;
    let r: u128 = n % d;
    proof {
        assert(q <= n && q * d <= n) by (nonlinear_arith)
            requires
                q == n / d,
                d > 0,
        ;
        assert((q + 1) * d == q * d + d) by (nonlinear_arith);
    }
    if 2 * r < d || (2 * r == d && q % 2 == 0) {
        q
    } else {
        q + 1
    }
}

fn double_spacing_of(n: u64) -> (spacing: u64)
    ensures
        spacing == double_spacing(n as nat),
        0 < spacing <= 0x1000,
{
    let mut rest: u64 = n;
    let mut spacing: u64 = 1;
    while rest >= 0x20_0000_0000_0000
        invariant
            0 < spacing <= 0x1000,
            double_spacing(n as nat) == spacing * double_spacing(rest as nat),
            rest * spacing <= n,
        decreases rest,
    {
        proof {
            assert(spacing <= 0x7ff) by (nonlinear_arith)
                requires
                    rest * spacing <= n,
                    n <= 0xffff_ffff_ffff_ffff,
                    rest >= 0x20_0000_0000_0000,
            ;
            assert(spacing * (2 * double_spacing((rest / 2) as nat)) == (2 * spacing)
                * double_spacing((rest / 2) as nat)) by (nonlinear_arith);
            assert((rest / 2) * (2 * spacing) <= rest * spacing) by (nonlinear_arith)
                requires
                    2 * (rest / 2) <= rest,
                    spacing > 0,
            ;
        }
        rest = rest / 2;
        spacing = 2 * spacing;
    }
    assert(spacing * 1 == spacing);
    spacing
}

/// A number of bytes in MiB with one decimal.
pub fn megabytes(bytes: u64) -> (text: String)
    ensures
        text@ == megabytes_text(bytes as nat),
{
    let spacing: u128 = double_spacing_of(bytes) as u128;
    let quotient: u128 = rounded_quotient_of(bytes as u128, spacing);
    let nearest: u128 = quotient * spacing;
    let tenths: u128 = rounded_quotient_of(10 * nearest, 0x10_0000);
    join3(decimal((tenths / 10) as u64).as_str(), ".", decimal((tenths % 10) as u64).as_str())
}

/// The size from which on the progress of a push names megabytes.
pub const LARGE_PUSH: usize = 10 * 1024 * 1024;

/// What is known of an image archive before a push.
#[derive(Debug)]
pub struct PushSource {
    /// The image manifest in JSON.
    pub manifest: Result<Vec<u8>, serde_json::Error>,
    pub config: Result<ConfigBlob, ArchiveFailure>,
}

/// The image configuration, to be pushed.
#[derive(Debug)]
pub struct ConfigBlob {
    pub data: Vec<u8>,
    pub media_type: String,
    pub annotations: Option<BTreeMap<String, String>>,
}

/// Where a push goes.
pub struct TargetView {
    /// The reference as it was asked for.
    pub text: Seq<char>,
    pub reference: ReferenceView,
}

/// What is pushed, but for the layers.
pub struct PayloadView {
    pub target: TargetView,
    pub manifest: ImageManifestView,
    pub config: ConfigBlob,
}

/// A push for which the image archive is to be read.
#[derive(Debug)]
pub struct PushLoad {
    archive_path: String,
    text: String,
    reference: ImageReference,
    use_monolithic_push: bool,
}

/// What a push carries along.
#[derive(Debug)]
struct Payload {
    archive_path: String,
    text: String,
    reference: ImageReference,
    manifest: ImageManifest,
    config: ConfigBlob,
}

/// A push for which the login to the registry is to be made.
#[derive(Debug)]
pub struct PushAuth {
    payload: Payload,
}

/// A push for which the layers are to be read from the image archive.
#[derive(Debug)]
pub struct PushLayers {
    payload: Payload,
}

impl PushLoad {
    /// Where the push goes.
    pub closed spec fn target(&self) -> TargetView {
        TargetView { text: self.text@, reference: self.reference@ }
    }

    /// The path of the image archive.
    pub closed spec fn archive(&self) -> Seq<char> {
        self.archive_path@
    }

    /// Whether blobs are uploaded in one request.
    pub closed spec fn is_monolithic(&self) -> bool {
        self.use_monolithic_push
    }
}

impl View for Payload {
    type V = PayloadView;

    closed spec fn view(&self) -> PayloadView {
        PayloadView {
            target: TargetView { text: self.text@, reference: self.reference@ },
            manifest: self.manifest@,
            config: self.config,
        }
    }
}

impl View for PushAuth {
    type V = PayloadView;

    closed spec fn view(&self) -> PayloadView {
        self.payload@
    }
}

impl PushAuth {
    /// The path of the image archive.
    pub closed spec fn archive(&self) -> Seq<char> {
        self.payload.archive_path@
    }
}

impl View for PushLayers {
    type V = PayloadView;

    closed spec fn view(&self) -> PayloadView {
        self.payload@
    }
}

impl PushLayers {
    /// The path of the image archive.
    pub closed spec fn archive(&self) -> Seq<char> {
        self.payload.archive_path@
    }
}

/// A report on the progress of a push.
fn report(
    operation: &str,
    layers_uploaded: usize,
    total_layers: usize,
    bytes_uploaded: u64,
    total_bytes: u64,
) -> (info: PushProgressInfo)
    ensures
        info@ == (ProgressView {
            operation: operation@,
            layers_uploaded: layers_uploaded as nat,
            total_layers: total_layers as nat,
            bytes_uploaded: bytes_uploaded as nat,
            total_bytes: total_bytes as nat,
        }),
{
    PushProgressInfo {
        operation: operation.to_owned(),
        layers_uploaded,
        total_layers,
        bytes_uploaded,
        total_bytes,
    }
}

impl Image {
    /// Starts a push of the image: the first report on its progress, and how it goes on.
    pub fn push(&self, target_image_ref: &str, options: &PushOptions) -> (start: (
        PushProgressInfo,
        Result<PushLoad, Error>,
    ))
        ensures
            start.0@ == (ProgressView {
                operation: "Starting push"@,
                layers_uploaded: 0,
                total_layers: 0,
                bytes_uploaded: 0,
                total_bytes: 0,
            }),
            match parsed_reference(target_image_ref@) {
                Err(why) => start.1 matches Err(error) && is_bad_reference(
                    error,
                    "Invalid target image reference format '"@ + target_image_ref@
                        + "': "@ + why,
                ),
                Ok(reference) => {
                    &&& start.1 matches Ok(load)
                    &&& load.archive() == self@.path
                    &&& load.target() == (TargetView { text: target_image_ref@, reference })
                    &&& load.is_monolithic() == uses_monolithic_push(
                        options.monolithic_push,
                        reference.resolved_registry,
                    )
                },
            },
    {
        let first = report("Starting push", 0, 0, 0, 0);
        (first, self.push_to(target_image_ref, reference_of(target_image_ref), options))
    }

    /// How a push to `target_image_ref` goes on, where `reference` is what parsing it gave.
    pub fn push_to(
        &self,
        target_image_ref: &str,
        reference: Result<ImageReference, ReferenceError>,
        options: &PushOptions,
    ) -> (load: Result<PushLoad, Error>)
        ensures
            match reference {
                Err(e) => load matches Err(error) && is_generic(
                    error,
                    "Invalid target image reference format '"@ + target_image_ref@ + "': "@
                        + e.text@,
                    Some(Cause::Reference(e.source)),
                ),
                Ok(r) => {
                    &&& load matches Ok(l)
                    &&& l.archive() == self@.path
                    &&& l.target() == (TargetView { text: target_image_ref@, reference: r@ })
                    &&& l.is_monolithic() == uses_monolithic_push(
                        options.monolithic_push,
                        r@.resolved_registry,
                    )
                },
            },
    {
        match reference {
            Ok(reference) => {
                let use_monolithic_push = determine_use_monolithic_push(
                    &options.monolithic_push,
                    reference.resolved_registry.as_str(),
                );
                Ok(
                    PushLoad {
                        archive_path: self.path().to_owned(),
                        text: target_image_ref.to_owned(),
                        reference,
                        use_monolithic_push,
                    },
                )
            },
            Err(error) => {
                let message = join3(
                    "Invalid target image reference format '",
                    target_image_ref,
                    "': ",
                ).concat(error.text.as_str());
                Err(Error::Generic { message, source: Some(Cause::Reference(error.source)) })
            },
        }
    }
}

impl PushLoad {
    /// Where the push goes.
    pub fn reference(&self) -> (reference: &ImageReference)
        ensures
            reference@ == self.target().reference,
    {
        &self.reference
    }

    /// Whether blobs are uploaded in one request.
    pub fn use_monolithic_push(&self) -> (monolithic: bool)
        ensures
            monolithic == self.is_monolithic(),
    {
        self.use_monolithic_push
    }

    /// Goes on with what the image archive holds.
    pub fn resume(self, loaded: Result<PushSource, ArchiveFailure>) -> (next: Result<
        PushAuth,
        Error,
    >)
        ensures
            match loaded {
                Err(failure) => next matches Err(error) && is_oci_archive(
                    error,
                    archive_message(self.archive(), failure),
                    Some(Cause::Text(failure_words(failure))),
                ),
                Ok(source) => match source.manifest {
                    Err(e) => next matches Err(
                        Error::ImageConfig { message, source: Some(Cause::Json(cause)) },
                    ) && message@ == "Failed to serialize spec manifest to JSON"@ && cause == e,
                    Ok(json) => match (parsed_image_manifest(json@), source.config) {
                        (None, _) => next matches Err(error) && is_bad_json(
                            error,
                            "Failed to deserialize OCI client manifest from JSON"@,
                        ),
                        (Some(_), Err(failure)) => next matches Err(error) && is_oci_archive(
                            error,
                            archive_message(self.archive(), failure),
                            Some(Cause::Text(failure_words(failure))),
                        ),
                        (Some(manifest), Ok(config)) => next matches Ok(auth) && auth@ == (
                        PayloadView { target: self.target(), manifest, config }) && auth.archive()
                            == self.archive(),
                    },
                },
            },
    {
        let source = match loaded {
            Ok(source) => source,
            Err(failure) => {
                return Err(archive_error(self.archive_path.as_str(), failure));
            },
        };
        match source.manifest {
            Ok(json) => self.resume_with(read_image_manifest(json.as_slice()), source.config),
            Err(error) => Err(
                Error::ImageConfig {
                    message: "Failed to serialize spec manifest to JSON".to_owned(),
                    source: Some(Cause::Json(error)),
                },
            ),
        }
    }

    /// Goes on with the manifest and the configuration in the image archive.
    pub fn resume_with(
        self,
        manifest: Result<ImageManifest, serde_json::Error>,
        config: Result<ConfigBlob, ArchiveFailure>,
    ) -> (next: Result<PushAuth, Error>)
        ensures
            match (manifest, config) {
                (Err(e), _) => next matches Err(
                    Error::ImageConfig { message, source: Some(Cause::Json(cause)) },
                ) && message@ == "Failed to deserialize OCI client manifest from JSON"@ && cause
                    == e,
                (Ok(_), Err(failure)) => next matches Err(error) && is_oci_archive(
                    error,
                    archive_message(self.archive(), failure),
                    Some(Cause::Text(failure_words(failure))),
                ),
                (Ok(m), Ok(c)) => next matches Ok(auth) && auth@ == (PayloadView {
                    target: self.target(),
                    manifest: m@,
                    config: c,
                }) && auth.archive() == self.archive(),
            },
    {
        let PushLoad { archive_path, text, reference, use_monolithic_push: _ } = self;
        let manifest = match manifest {
            Ok(manifest) => manifest,
            Err(error) => {
                return Err(
                    Error::ImageConfig {
                        message: "Failed to deserialize OCI client manifest from JSON".to_owned(),
                        source: Some(Cause::Json(error)),
                    },
                );
            },
        };
        match config {
            Ok(config) => Ok(
                PushAuth { payload: Payload { archive_path, text, reference, manifest, config } },
            ),
            Err(failure) => Err(archive_error(archive_path.as_str(), failure)),
        }
    }
}

impl PushAuth {
    /// Goes on after the login to the registry.
    pub fn resume(self, login: Result<(), RegistryError>) -> (next: Result<PushLayers, Error>)
        ensures
            match login {
                Err(e) => next matches Err(error) && is_generic(
                    error,
                    "Authentication failed for push to "@ + self@.target.reference.whole + ": "@
                        + e.text@,
                    Some(Cause::Registry(e)),
                ),
                Ok(_) => next matches Ok(layers) && layers@ == self@ && layers.archive()
                    == self.archive(),
            },
    {
        match login {
            Ok(_) => Ok(PushLayers { payload: self.payload }),
            Err(error) => {
                let message = join3(
                    "Authentication failed for push to ",
                    self.payload.reference.whole.as_str(),
                    ": ",
                ).concat(error.text.as_str());
                Err(Error::Generic { message, source: Some(Cause::Registry(error)) })
            },
        }
    }
}

/// The digests of layers.
pub open spec fn digests_of(layers: Seq<LayerBlob>) -> Seq<Seq<char>> {
    Seq::new(layers.len(), |i: int| layers[i].digest@)
}

/// The sizes of blobs in all.
pub open spec fn total_size(blobs: Seq<Seq<u8>>) -> nat
    decreases blobs.len(),
{
    if blobs.len() == 0 {
        0
    } else {
        total_size(blobs.drop_last()) + blobs.last().len()
    }
}

/// The compressed archives of layers.
pub open spec fn layer_blobs(layers: Seq<LayerBlob>) -> Seq<Seq<u8>> {
    Seq::new(layers.len(), |i: int| layers[i].blob@)
}

/// The layers that are to be uploaded: those that the registry does not have, in their order.
pub open spec fn missing_layers(layers: Seq<LayerBlob>, mounted: Seq<Seq<char>>) -> Seq<LayerBlob>
    decreases layers.len(),
{
    if layers.len() == 0 {
        layers
    } else if mounted.contains(layers.last().digest@) {
        missing_layers(layers.drop_last(), mounted)
    } else {
        missing_layers(layers.drop_last(), mounted).push(layers.last())
    }
}

/// The digests that the registry has, after it was tried for the first layers; `outcomes` says for
/// each of them whether the registry has it.
pub open spec fn mounted_digests(digests: Seq<Seq<char>>, outcomes: Seq<bool>) -> Seq<Seq<char>>
    decreases outcomes.len(),
{
    if outcomes.len() == 0 {
        Seq::empty()
    } else {
        let before = mounted_digests(digests, outcomes.drop_last());
        let digest = digests[outcomes.len() - 1];
        if outcomes.last() && !before.contains(digest) {
            before.push(digest)
        } else {
            before
        }
    }
}

/// A push that asks the registry, layer by layer, for what it has.
pub struct MountView {
    pub payload: PayloadView,
    pub layers: Seq<LayerBlob>,
    /// The number of layers that the registry was asked for.
    pub asked: nat,
    /// The digests that the registry has.
    pub mounted: Seq<Seq<char>>,
}

/// A push that uploads what the registry does not have.
pub struct UploadView {
    pub payload: PayloadView,
    /// What is to be uploaded.
    pub blobs: Seq<Seq<u8>>,
    /// The number of layers that the registry has.
    pub mounted: nat,
}

/// The contents of a `PushStep`.
pub enum PushStepView {
    Mount(MountView),
    Whole(UploadView, Seq<ProgressView>),
    Blob(UploadView, nat, Seq<ProgressView>),
    Config(UploadView, Seq<ProgressView>),
    Manifest(UploadView, Seq<ProgressView>),
    Done(Seq<char>, ProgressView),
}

/// The progress of a push of which the first `uploaded` blobs are uploaded.
pub open spec fn progress(upload: UploadView, operation: Seq<char>, uploaded: nat) -> ProgressView {
    ProgressView {
        operation,
        layers_uploaded: upload.mounted + uploaded,
        total_layers: upload.mounted + upload.blobs.len(),
        bytes_uploaded: total_size(upload.blobs.take(uploaded as int)),
        total_bytes: total_size(upload.blobs),
    }
}

/// What the progress of a push says when the upload begins.
pub open spec fn upload_text(blobs: Seq<Seq<u8>>) -> Seq<char> {
    if total_size(blobs) > LARGE_PUSH {
        "Uploading "@ + megabytes_text(total_size(blobs)) + " MB in "@ + decimal_text(blobs.len())
            + " layers"@
    } else {
        "Uploading "@ + decimal_text(blobs.len()) + " layers"@
    }
}

/// What follows once the registry was asked for every layer.
///
/// Where it has them all, the configuration and the manifest are pushed together. Else the blobs
/// that it does not have are uploaded, one after the other.
pub open spec fn upload_step(upload: UploadView) -> PushStepView {
    let first = progress(upload, "Uploading layers"@, 0);
    if upload.blobs.len() == 0 {
        PushStepView::Whole(
            upload,
            seq![first, progress(upload, "Uploading config and manifest"@, 0)],
        )
    } else {
        PushStepView::Blob(
            upload,
            0,
            seq![first, progress(upload, upload_text(upload.blobs), 0)],
        )
    }
}

/// What follows once the registry was asked for one more layer.
pub open spec fn after_mount(mount: MountView, has_it: bool) -> PushStepView {
    let digest = mount.layers[mount.asked as int].digest@;
    let mounted = if has_it && !mount.mounted.contains(digest) {
        mount.mounted.push(digest)
    } else {
        mount.mounted
    };
    if mount.asked + 1 < mount.layers.len() {
        PushStepView::Mount(MountView { asked: mount.asked + 1, mounted, ..mount })
    } else {
        upload_step(
            UploadView {
                payload: mount.payload,
                blobs: layer_blobs(missing_layers(mount.layers, mounted)),
                mounted: mounted.len(),
            },
        )
    }
}

/// What follows once one more blob is uploaded.
pub open spec fn after_blob(upload: UploadView, at: nat) -> PushStepView {
    let done = progress(upload, ""@, at + 1);
    if at + 1 < upload.blobs.len() {
        PushStepView::Blob(upload, at + 1, seq![done])
    } else {
        PushStepView::Config(upload, seq![done, progress(upload, "Uploading config"@, at + 1)])
    }
}

/// The end of a push.
pub open spec fn push_done(upload: UploadView) -> PushStepView {
    PushStepView::Done(
        upload.payload.target.text,
        progress(upload, "Push completed"@, upload.blobs.len()),
    )
}

/// Reports on the progress of a push.
pub open spec fn reports_of(reports: Seq<PushProgressInfo>) -> Seq<ProgressView> {
    Seq::new(reports.len(), |i: int| reports[i]@)
}

/// A push that asks the registry for a layer.
#[derive(Debug)]
pub struct PushMount {
    payload: Payload,
    layers: Vec<LayerBlob>,
    asked: usize,
    mounted: Vec<String>,
}

/// What a push uploads.
#[derive(Debug)]
struct Upload {
    payload: Payload,
    layers: Vec<LayerBlob>,
    mounted: usize,
    total_bytes: usize,
}

/// A push of the configuration and the manifest together.
#[derive(Debug)]
pub struct PushWhole {
    upload: Upload,
    reports: Vec<PushProgressInfo>,
}

/// A push that uploads a layer.
#[derive(Debug)]
pub struct PushBlob {
    upload: Upload,
    at: usize,
    uploaded_bytes: usize,
    reports: Vec<PushProgressInfo>,
}

/// A push that uploads the configuration.
#[derive(Debug)]
pub struct PushConfig {
    upload: Upload,
    reports: Vec<PushProgressInfo>,
}

/// A push that uploads the manifest.
#[derive(Debug)]
pub struct PushManifest {
    upload: Upload,
    reports: Vec<PushProgressInfo>,
}

/// A push that is done.
#[derive(Debug)]
pub struct PushDone {
    report: PushProgressInfo,
    text: String,
}

/// What a push does next. Before it does so, it gives its reports on the progress.
#[derive(Debug)]
pub enum PushStep {
    /// Ask the registry for a layer, by mounting it.
    Mount(PushMount),
    /// Push the configuration and the manifest, without layers.
    Whole(PushWhole),
    /// Upload a layer.
    Blob(PushBlob),
    /// Upload the configuration.
    Config(PushConfig),
    /// Upload the manifest.
    Manifest(PushManifest),
    /// The image is pushed.
    Done(PushDone),
}

impl View for PushMount {
    type V = MountView;

    closed spec fn view(&self) -> MountView {
        MountView {
            payload: self.payload@,
            layers: self.layers@,
            asked: self.asked as nat,
            mounted: texts(self.mounted@),
        }
    }
}

impl View for Upload {
    type V = UploadView;

    closed spec fn view(&self) -> UploadView {
        UploadView {
            payload: self.payload@,
            blobs: layer_blobs(self.layers@),
            mounted: self.mounted as nat,
        }
    }
}

impl View for PushWhole {
    type V = (UploadView, Seq<ProgressView>);

    closed spec fn view(&self) -> (UploadView, Seq<ProgressView>) {
        (self.upload@, reports_of(self.reports@))
    }
}

impl View for PushBlob {
    type V = (UploadView, nat, Seq<ProgressView>);

    closed spec fn view(&self) -> (UploadView, nat, Seq<ProgressView>) {
        (self.upload@, self.at as nat, reports_of(self.reports@))
    }
}

impl View for PushConfig {
    type V = (UploadView, Seq<ProgressView>);

    closed spec fn view(&self) -> (UploadView, Seq<ProgressView>) {
        (self.upload@, reports_of(self.reports@))
    }
}

impl View for PushManifest {
    type V = (UploadView, Seq<ProgressView>);

    closed spec fn view(&self) -> (UploadView, Seq<ProgressView>) {
        (self.upload@, reports_of(self.reports@))
    }
}

impl View for PushDone {
    type V = (Seq<char>, ProgressView);

    closed spec fn view(&self) -> (Seq<char>, ProgressView) {
        (self.text@, self.report@)
    }
}

impl View for PushStep {
    type V = PushStepView;

    open spec fn view(&self) -> PushStepView {
        match self {
            PushStep::Mount(mount) => PushStepView::Mount(mount@),
            PushStep::Whole(whole) => PushStepView::Whole(whole@.0, whole@.1),
            PushStep::Blob(blob) => PushStepView::Blob(blob@.0, blob@.1, blob@.2),
            PushStep::Config(config) => PushStepView::Config(config@.0, config@.1),
            PushStep::Manifest(manifest) => PushStepView::Manifest(manifest@.0, manifest@.1),
            PushStep::Done(done) => PushStepView::Done(done@.0, done@.1),
        }
    }
}

impl PushMount {
    #[verifier::type_invariant]
    spec fn counts(self) -> bool {
        &&& self.asked < self.layers.len()
        &&& total_size(layer_blobs(self.layers@)) <= usize::MAX
        &&& missing_layers(
            self.layers@.take(self.asked as int),
            texts(self.mounted@),
        ).len() + self.mounted.len() <= self.asked
    }
}

impl Upload {
    #[verifier::type_invariant]
    spec fn counts(self) -> bool {
        &&& self.total_bytes == total_size(layer_blobs(self.layers@))
        &&& self.mounted + self.layers.len() <= usize::MAX
    }
}

impl PushBlob {
    #[verifier::type_invariant]
    spec fn counts(self) -> bool {
        &&& self.at < self.upload.layers.len()
        &&& self.uploaded_bytes == total_size(self.upload@.blobs.take(self.at as int))
    }
}

proof fn lemma_size_of_part(blobs: Seq<Seq<u8>>, count: int)
    requires
        0 <= count <= blobs.len(),
    ensures
        total_size(blobs.take(count)) <= total_size(blobs),
    decreases blobs.len(),
{
    if count < blobs.len() {
        lemma_size_of_part(blobs.drop_last(), count);
        assert(blobs.drop_last().take(count) == blobs.take(count));
    } else {
        assert(blobs.take(count) == blobs);
    }
}

proof fn lemma_size_grows(blobs: Seq<Seq<u8>>, at: int)
    requires
        0 <= at < blobs.len(),
    ensures
        total_size(blobs.take(at + 1)) == total_size(blobs.take(at)) + blobs[at].len(),
{
    assert(blobs.take(at + 1).drop_last() == blobs.take(at));
}

proof fn lemma_missing_shrinks(
    layers: Seq<LayerBlob>,
    mounted: Seq<Seq<char>>,
    digest: Seq<char>,
)
    ensures
        missing_layers(layers, mounted.push(digest)).len() <= missing_layers(layers, mounted).len(),
    decreases layers.len(),
{
    if layers.len() > 0 {
        lemma_missing_shrinks(layers.drop_last(), mounted, digest);
        let last = layers.last().digest@;
        if mounted.contains(last) {
            let k = choose|k: int| 0 <= k < mounted.len() && mounted[k] == last;
            assert(mounted.push(digest)[k] == last);
        }
    }
}

proof fn lemma_missing_size(layers: Seq<LayerBlob>, mounted: Seq<Seq<char>>)
    ensures
        total_size(layer_blobs(missing_layers(layers, mounted))) <= total_size(
            layer_blobs(layers),
        ),
        missing_layers(layers, mounted).len() <= layers.len(),
    decreases layers.len(),
{
    if layers.len() > 0 {
        let front = layers.drop_last();
        lemma_missing_size(front, mounted);
        assert(layer_blobs(layers).drop_last() =~= layer_blobs(front));
        if !mounted.contains(layers.last().digest@) {
            let rest = missing_layers(front, mounted);
            assert(layer_blobs(rest.push(layers.last())).drop_last() =~= layer_blobs(rest));
        }
    }
}

/// Whether the registry has a layer.
fn is_mounted(mounted: &Vec<String>, digest: &str) -> (found: bool)
    ensures
        found == texts(mounted@).contains(digest@),
{
    for i in 0..mounted.len()
        invariant
            forall|j: int| 0 <= j < i ==> texts(mounted@)[j] != digest@,
    {
        if same_text(mounted[i].as_str(), digest) {
            assert(texts(mounted@)[i as int] == digest@);
            return true;
        }
    }
    false
}

/// Drops the layers that the registry has.
fn drop_mounted(layers: Vec<LayerBlob>, mounted: &Vec<String>) -> (missing: Vec<LayerBlob>)
    ensures
        missing@ == missing_layers(layers@, texts(mounted@)),
{
    let ghost all = layers@;
    let mut layers = layers;
    let count: usize = layers.len();
    let mut kept: usize = 0;
    let ghost digests = texts(mounted@);
    assert(layers@ =~= missing_layers(all.take(0), digests) + all.skip(0));
    for n in 0..count
        invariant
            count == all.len(),
            digests == texts(mounted@),
            kept <= n,
            kept == missing_layers(all.take(n as int), digests).len(),
            layers@ == missing_layers(all.take(n as int), digests) + all.skip(n as int),
    {
        proof {
            assert(layers@[kept as int] == all[n as int]);
            assert(all.take(n + 1).drop_last() == all.take(n as int));
            assert(all.take(n + 1).last() == all[n as int]);
        }
        let ghost before = layers@;
        if is_mounted(mounted, layers[kept].digest.as_str()) {
            let _ = layers.remove(kept);
            assert(layers@ =~= missing_layers(all.take(n + 1), digests) + all.skip(n + 1));
        } else {
            kept = kept + 1;
            assert(layers@ =~= missing_layers(all.take(n + 1), digests) + all.skip(n + 1));
        }
    }
    assert(all.take(all.len() as int) == all);
    assert(layers@ =~= missing_layers(all, digests));
    layers
}

/// The sizes of layers in all.
fn size_of(layers: &Vec<LayerBlob>) -> (size: usize)
    requires
        total_size(layer_blobs(layers@)) <= usize::MAX,
    ensures
        size == total_size(layer_blobs(layers@)),
{
    let ghost blobs = layer_blobs(layers@);
    let mut size: usize = 0;
    for i in 0..layers.len()
        invariant
            blobs == layer_blobs(layers@),
            total_size(blobs) <= usize::MAX,
            size == total_size(blobs.take(i as int)),
    {
        proof {
            lemma_size_grows(blobs, i as int);
            lemma_size_of_part(blobs, i + 1);
        }
        size = size + layers[i].blob.len();
    }
    assert(blobs.take(blobs.len() as int) == blobs);
    size
}

/// Begins the upload.
fn start_upload(
    payload: Payload,
    layers: Vec<LayerBlob>,
    mounted: usize,
) -> (step: PushStep)
    requires
        total_size(layer_blobs(layers@)) <= usize::MAX,
        mounted + layers.len() <= usize::MAX,
    ensures
        step@ == upload_step(
            UploadView {
                payload: payload@,
                blobs: layer_blobs(layers@),
                mounted: mounted as nat,
            },
        ),
{
    let total_bytes: usize = size_of(&layers);
    let total_layers: usize = mounted + layers.len();
    let total: u64 = total_bytes as u64;
    let first = report("Uploading layers", mounted, total_layers, 0, total);
    let ghost blobs = layer_blobs(layers@);
    assert(total_size(blobs.take(0)) == 0);
    let is_empty = layers.len() == 0;
    let second = if is_empty {
        report("Uploading config and manifest", total_layers, total_layers, total, total)
    } else {
        let count = decimal(layers.len() as u64);
        let text = if total_bytes > LARGE_PUSH {
            join5(
                "Uploading ",
                megabytes(total).as_str(),
                " MB in ",
                count.as_str(),
                " layers",
            )
        } else {
            join3("Uploading ", count.as_str(), " layers")
        };
        report(text.as_str(), mounted, total_layers, 0, total)
    };
    let upload = Upload { payload, layers, mounted, total_bytes };
    let ghost view = upload@;
    let mut reports: Vec<PushProgressInfo> = Vec::new();
    reports.push(first);
    reports.push(second);
    assert(reports_of(reports@) =~= seq![first@, second@]);
    assert(is_empty ==> blobs.take(0) == blobs);
    if is_empty {
        PushStep::Whole(PushWhole { upload, reports })
    } else {
        PushStep::Blob(PushBlob { upload, at: 0, uploaded_bytes: 0, reports })
    }
}

impl PushLayers {
    /// Goes on with the layers in the image archive: the registry is asked for each of them.
    pub fn resume(self, layers: Result<Vec<LayerBlob>, ArchiveFailure>) -> (step: Result<
        PushStep,
        Error,
    >)
        requires
            layers matches Ok(l) ==> total_size(layer_blobs(l@)) <= usize::MAX,
        ensures
            match layers {
                Err(failure) => step matches Err(error) && is_oci_archive(
                    error,
                    archive_message(self.archive(), failure),
                    Some(Cause::Text(failure_words(failure))),
                ),
                Ok(l) => step matches Ok(next) && next@ == if l@.len() == 0 {
                    upload_step(
                        UploadView { payload: self@, blobs: Seq::empty(), mounted: 0 },
                    )
                } else {
                    PushStepView::Mount(
                        MountView {
                            payload: self@,
                            layers: l@,
                            asked: 0,
                            mounted: Seq::empty(),
                        },
                    )
                },
            },
    {
        let layers = match layers {
            Ok(layers) => layers,
            Err(failure) => {
                return Err(archive_error(self.payload.archive_path.as_str(), failure));
            },
        };
        if layers.len() == 0 {
            assert(layer_blobs(layers@) =~= Seq::<Seq<u8>>::empty());
            return Ok(start_upload(self.payload, layers, 0));
        }
        let mounted: Vec<String> = Vec::new();
        assert(texts(mounted@) =~= Seq::<Seq<char>>::empty());
        assert(layers@.take(0).len() == 0);
        Ok(PushStep::Mount(PushMount { payload: self.payload, layers, asked: 0, mounted }))
    }
}

impl PushMount {
    /// The digest of the layer to ask for.
    pub fn digest(&self) -> (digest: &str)
        ensures
            digest@ == self@.layers[self@.asked as int].digest@,
    {
        proof {
            use_type_invariant(self);
        }
        self.layers[self.asked].digest.as_str()
    }

    /// Goes on after the registry said whether it has the layer.
    pub fn resume(self, has_it: bool) -> (step: PushStep)
        ensures
            step@ == after_mount(self@, has_it),
    {
        proof {
            use_type_invariant(&self);
        }
        let ghost view = self@;
        let PushMount { payload, layers, asked, mut mounted } = self;
        let ghost before = texts(mounted@);
        let ghost digest = layers@[asked as int].digest@;
        let known = is_mounted(&mounted, layers[asked].digest.as_str());
        proof {
            let now = layers@.take(asked + 1);
            assert(now.drop_last() == layers@.take(asked as int));
            assert(now.last() == layers@[asked as int]);
            lemma_missing_shrinks(layers@.take(asked as int), before, digest);
        }
        if has_it && !known {
            mounted.push(layers[asked].digest.clone());
            proof {
                assert(texts(mounted@) =~= before.push(digest));
                assert(before.push(digest)[before.len() as int] == digest);
            }
        }
        let asked: usize = asked + 1;
        if asked < layers.len() {
            PushStep::Mount(PushMount { payload, layers, asked, mounted })
        } else {
            proof {
                assert(layers@.take(asked as int) == layers@);
                lemma_missing_size(layers@, texts(mounted@));
            }
            let missing = drop_mounted(layers, &mounted);
            start_upload(payload, missing, mounted.len())
        }
    }
}

/// The end of a push.
fn finish(upload: Upload) -> (step: PushStep)
    ensures
        step@ == push_done(upload@),
{
    proof {
        use_type_invariant(&upload);
        assert(upload@.blobs.take(upload@.blobs.len() as int) == upload@.blobs);
    }
    let total_layers: usize = upload.mounted + upload.layers.len();
    let total: u64 = upload.total_bytes as u64;
    let report = report("Push completed", total_layers, total_layers, total, total);
    PushStep::Done(PushDone { report, text: upload.payload.text })
}

impl PushWhole {
    /// The reports on the progress.
    pub fn reports(&self) -> (reports: &Vec<PushProgressInfo>)
        ensures
            reports_of(reports@) == self@.1,
    {
        &self.reports
    }

    /// The configuration to push.
    pub fn config(&self) -> (config: &ConfigBlob)
        ensures
            *config == self@.0.payload.config,
    {
        &self.upload.payload.config
    }

    /// The manifest to push.
    pub fn manifest(&self) -> (manifest: &ImageManifest)
        ensures
            manifest@ == self@.0.payload.manifest,
    {
        &self.upload.payload.manifest
    }

    /// Goes on after the configuration and the manifest were pushed.
    pub fn resume(self, pushed: Result<(), RegistryError>) -> (step: Result<PushStep, Error>)
        ensures
            match pushed {
                Ok(_) => step matches Ok(next) && next@ == push_done(self@.0),
                Err(e) => step matches Err(error) && is_generic(
                    error,
                    "OCI client push to "@ + self@.0.payload.target.reference.whole
                        + " failed: "@ + e.text@,
                    Some(Cause::Registry(e)),
                ),
            },
    {
        match pushed {
            Ok(_) => Ok(finish(self.upload)),
            Err(error) => {
                let message = join3(
                    "OCI client push to ",
                    self.upload.payload.reference.whole.as_str(),
                    " failed: ",
                ).concat(error.text.as_str());
                Err(Error::Generic { message, source: Some(Cause::Registry(error)) })
            },
        }
    }
}

impl PushBlob {
    /// The reports on the progress.
    pub fn reports(&self) -> (reports: &Vec<PushProgressInfo>)
        ensures
            reports_of(reports@) == self@.2,
    {
        &self.reports
    }

    /// The blob to upload.
    pub fn blob(&self) -> (blob: &Vec<u8>)
        ensures
            blob@ == self@.0.blobs[self@.1 as int],
    {
        proof {
            use_type_invariant(self);
        }
        &self.upload.layers[self.at].blob
    }

    /// The digest to upload the blob under.
    pub fn digest(&self) -> (digest: String)
        ensures
            digest@ == digest_of(self@.0.blobs[self@.1 as int]),
    {
        content_digest(self.blob().as_slice())
    }

    /// Goes on after the blob was uploaded.
    pub fn resume(self, pushed: Result<(), RegistryError>) -> (step: Result<PushStep, Error>)
        ensures
            match pushed {
                Ok(_) => step matches Ok(next) && next@ == after_blob(self@.0, self@.1),
                Err(e) => step matches Err(error) && is_generic(
                    error,
                    "Failed to push layer "@ + digest_of(self@.0.blobs[self@.1 as int]) + ": "@
                        + e.text@,
                    Some(Cause::Registry(e)),
                ),
            },
    {
        if let Err(error) = pushed {
            let message = join3("Failed to push layer ", self.digest().as_str(), ": ").concat(
                error.text.as_str(),
            );
            return Err(Error::Generic { message, source: Some(Cause::Registry(error)) });
        }
        proof {
            use_type_invariant(&self);
        }
        let PushBlob { upload, at, uploaded_bytes, reports: _ } = self;
        proof {
            use_type_invariant(&upload);
            lemma_size_grows(upload@.blobs, at as int);
            lemma_size_of_part(upload@.blobs, at + 1);
        }
        let uploaded_bytes: usize = uploaded_bytes + upload.layers[at].blob.len();
        let at: usize = at + 1;
        let uploaded: usize = upload.mounted + at;
        let total_layers: usize = upload.mounted + upload.layers.len();
        let (bytes, total): (u64, u64) = (uploaded_bytes as u64, upload.total_bytes as u64);
        let mut reports: Vec<PushProgressInfo> = Vec::new();
        proof {
            reveal_strlit("");
        }
        let done = report("", uploaded, total_layers, bytes, total);
        reports.push(done);
        if at < upload.layers.len() {
            assert(reports_of(reports@) =~= seq![progress(upload@, ""@, at as nat)]);
            Ok(PushStep::Blob(PushBlob { upload, at, uploaded_bytes, reports }))
        } else {
            let next = report("Uploading config", uploaded, total_layers, bytes, total);
            reports.push(next);
            assert(reports_of(reports@) =~= seq![
                progress(upload@, ""@, at as nat),
                progress(upload@, "Uploading config"@, at as nat),
            ]);
            Ok(PushStep::Config(PushConfig { upload, reports }))
        }
    }
}

impl PushConfig {
    /// The reports on the progress.
    pub fn reports(&self) -> (reports: &Vec<PushProgressInfo>)
        ensures
            reports_of(reports@) == self@.1,
    {
        &self.reports
    }

    /// The configuration to upload.
    pub fn config(&self) -> (config: &ConfigBlob)
        ensures
            *config == self@.0.payload.config,
    {
        &self.upload.payload.config
    }

    /// The digest to upload the configuration under: the one that the manifest gives.
    pub fn digest(&self) -> (digest: &str)
        ensures
            digest@ == self@.0.payload.manifest.config.digest,
    {
        self.upload.payload.manifest.config.digest.as_str()
    }

    /// Goes on after the configuration was uploaded.
    pub fn resume(self, pushed: Result<(), RegistryError>) -> (step: Result<PushStep, Error>)
        ensures
            match pushed {
                Ok(_) => step matches Ok(next) && next@ == PushStepView::Manifest(
                    self@.0,
                    seq![progress(self@.0, "Uploading manifest"@, self@.0.blobs.len())],
                ),
                Err(e) => step matches Err(error) && is_generic(
                    error,
                    "Failed to push config blob: "@ + e.text@,
                    Some(Cause::Registry(e)),
                ),
            },
    {
        if let Err(error) = pushed {
            let message = join("Failed to push config blob: ", error.text.as_str());
            return Err(Error::Generic { message, source: Some(Cause::Registry(error)) });
        }
        let PushConfig { upload, reports: _ } = self;
        proof {
            use_type_invariant(&upload);
            assert(upload@.blobs.take(upload@.blobs.len() as int) == upload@.blobs);
        }
        let total_layers: usize = upload.mounted + upload.layers.len();
        let total: u64 = upload.total_bytes as u64;
        let next = report("Uploading manifest", total_layers, total_layers, total, total);
        let mut reports: Vec<PushProgressInfo> = Vec::new();
        reports.push(next);
        assert(reports_of(reports@) =~= seq![
            progress(upload@, "Uploading manifest"@, upload@.blobs.len()),
        ]);
        Ok(PushStep::Manifest(PushManifest { upload, reports }))
    }
}

impl PushManifest {
    /// The reports on the progress.
    pub fn reports(&self) -> (reports: &Vec<PushProgressInfo>)
        ensures
            reports_of(reports@) == self@.1,
    {
        &self.reports
    }

    /// The manifest to upload.
    pub fn manifest(&self) -> (manifest: &ImageManifest)
        ensures
            manifest@ == self@.0.payload.manifest,
    {
        &self.upload.payload.manifest
    }

    /// Goes on after the manifest was uploaded.
    pub fn resume(self, pushed: Result<(), RegistryError>) -> (step: Result<PushStep, Error>)
        ensures
            match pushed {
                Ok(_) => step matches Ok(next) && next@ == push_done(self@.0),
                Err(e) => step matches Err(error) && is_generic(
                    error,
                    "Failed to push manifest: "@ + e.text@,
                    Some(Cause::Registry(e)),
                ),
            },
    {
        match pushed {
            Ok(_) => Ok(finish(self.upload)),
            Err(error) => {
                let message = join("Failed to push manifest: ", error.text.as_str());
                Err(Error::Generic { message, source: Some(Cause::Registry(error)) })
            },
        }
    }
}

impl PushDone {
    /// The last report on the progress.
    pub fn report(&self) -> (report: &PushProgressInfo)
        ensures
            report@ == self@.1,
    {
        &self.report
    }

    /// The reference that was pushed to, as it was asked for.
    pub fn into_reference(self) -> (reference: String)
        ensures
            reference@ == self@.0,
    {
        self.text
    }
}

/// Progress never goes back: with each blob one more layer and its bytes count as uploaded, and
/// neither count goes beyond its total.
pub proof fn law_progress_grows(upload: UploadView, operation: Seq<char>, uploaded: nat)
    requires
        uploaded < upload.blobs.len(),
    ensures
        ({
            let before = progress(upload, operation, uploaded);
            let after = progress(upload, operation, uploaded + 1);
            &&& after.layers_uploaded == before.layers_uploaded + 1
            &&& after.bytes_uploaded == before.bytes_uploaded + upload.blobs[uploaded as int].len()
            &&& after.layers_uploaded <= after.total_layers == before.total_layers
            &&& after.bytes_uploaded <= after.total_bytes == before.total_bytes
        }),
{
    lemma_size_grows(upload.blobs, uploaded as int);
    lemma_size_of_part(upload.blobs, uploaded as int + 1);
}

/// A push that is done has uploaded all layers and all bytes that it said it would.
pub proof fn law_done_push_is_complete(upload: UploadView)
    ensures
        push_done(upload) matches PushStepView::Done(_, last) && last.layers_uploaded
            == last.total_layers && last.bytes_uploaded == last.total_bytes,
{
    assert(upload.blobs.take(upload.blobs.len() as int) == upload.blobs);
}

/// Every layer reaches the registry: it is there already, or it is uploaded.
pub proof fn law_every_layer_is_pushed(
    layers: Seq<LayerBlob>,
    mounted: Seq<Seq<char>>,
    number: int,
)
    requires
        0 <= number < layers.len(),
    ensures
        mounted.contains(layers[number].digest@) != missing_layers(layers, mounted).contains(
            layers[number],
        ),
    decreases layers.len(),
{
    let front = layers.drop_last();
    let rest = missing_layers(front, mounted);
    lemma_missing_are_missing(layers, mounted);
    if number < layers.len() - 1 {
        law_every_layer_is_pushed(front, mounted, number);
        assert(front[number] == layers[number]);
        if rest.contains(layers[number]) {
            let k = choose|k: int| 0 <= k < rest.len() && rest[k] == layers[number];
            assert(missing_layers(layers, mounted)[k] == layers[number]);
        }
    } else if !mounted.contains(layers[number].digest@) {
        assert(missing_layers(layers, mounted).last() == layers[number]);
    }
    if mounted.contains(layers[number].digest@) && missing_layers(layers, mounted).contains(
        layers[number],
    ) {
        let all = missing_layers(layers, mounted);
        let k = choose|k: int| 0 <= k < all.len() && all[k] == layers[number];
        assert(!mounted.contains(all[k].digest@));
    }
}

proof fn lemma_missing_are_missing(layers: Seq<LayerBlob>, mounted: Seq<Seq<char>>)
    ensures
        forall|i: int|
            0 <= i < missing_layers(layers, mounted).len() ==> !mounted.contains(
                (#[trigger] missing_layers(layers, mounted)[i]).digest@,
            ),
    decreases layers.len(),
{
    if layers.len() > 0 {
        let rest = missing_layers(layers.drop_last(), mounted);
        let all = missing_layers(layers, mounted);
        lemma_missing_are_missing(layers.drop_last(), mounted);
        assert forall|i: int| 0 <= i < all.len() implies !mounted.contains(
            (#[trigger] all[i]).digest@,
        ) by {
            if i < rest.len() {
                assert(all[i] == rest[i]);
            }
        }
    }
}

/// Where the registry has every layer, nothing is uploaded but the configuration and the manifest.
pub proof fn law_existing_layers_are_not_uploaded(
    payload: PayloadView,
    layers: Seq<LayerBlob>,
    mounted: Seq<Seq<char>>,
)
    requires
        forall|i: int| 0 <= i < layers.len() ==> mounted.contains((#[trigger] layers[i]).digest@),
    ensures
        missing_layers(layers, mounted).len() == 0,
        upload_step(
            UploadView {
                payload,
                blobs: layer_blobs(missing_layers(layers, mounted)),
                mounted: mounted.len(),
            },
        ) is Whole,
    decreases layers.len(),
{
    if layers.len() > 0 {
        let front = layers.drop_last();
        assert forall|i: int| 0 <= i < front.len() implies mounted.contains(
            (#[trigger] front[i]).digest@,
        ) by {
            assert(mounted.contains(layers[i].digest@));
        }
        law_existing_layers_are_not_uploaded(payload, front, mounted);
        assert(mounted.contains(layers[layers.len() - 1].digest@));
    }
}

/// What follows once the registry was asked for some layers, one after the other.
pub open spec fn after_mounts(mount: MountView, outcomes: Seq<bool>) -> PushStepView
    decreases outcomes.len(),
{
    if outcomes.len() == 0 {
        PushStepView::Mount(mount)
    } else {
        match after_mounts(mount, outcomes.drop_last()) {
            PushStepView::Mount(next) => after_mount(next, outcomes.last()),
            step => step,
        }
    }
}

proof fn lemma_mounts(mount: MountView, outcomes: Seq<bool>)
    requires
        mount.asked == 0,
        mount.mounted.len() == 0,
        outcomes.len() < mount.layers.len(),
    ensures
        after_mounts(mount, outcomes) == PushStepView::Mount(
            MountView {
                asked: outcomes.len(),
                mounted: mounted_digests(digests_of(mount.layers), outcomes),
                ..mount
            },
        ),
    decreases outcomes.len(),
{
    if outcomes.len() > 0 {
        lemma_mounts(mount, outcomes.drop_last());
    } else {
        assert(mount.mounted == Seq::<Seq<char>>::empty());
    }
}

/// A push uploads exactly the layers for which the registry did not say that it has them, in their
/// order; a layer counts as there if the registry has its digest.
pub proof fn law_push_uploads_what_is_missing(mount: MountView, outcomes: Seq<bool>)
    requires
        mount.asked == 0,
        mount.mounted.len() == 0,
        0 < outcomes.len() == mount.layers.len(),
    ensures
        ({
            let mounted = mounted_digests(digests_of(mount.layers), outcomes);
            after_mounts(mount, outcomes) == upload_step(
                UploadView {
                    payload: mount.payload,
                    blobs: layer_blobs(missing_layers(mount.layers, mounted)),
                    mounted: mounted.len(),
                },
            )
        }),
{
    lemma_mounts(mount, outcomes.drop_last());
}

/// What follows once some more blobs are uploaded, one after the other.
pub open spec fn after_blobs(step: PushStepView, count: nat) -> PushStepView
    decreases count,
{
    if count == 0 {
        step
    } else {
        match after_blobs(step, (count - 1) as nat) {
            PushStepView::Blob(upload, at, _) => after_blob(upload, at),
            other => other,
        }
    }
}

/// The blobs are uploaded in order, each once, and then comes the configuration.
pub proof fn law_blobs_are_uploaded_in_order(upload: UploadView, count: nat)
    requires
        0 < upload.blobs.len(),
        count <= upload.blobs.len(),
    ensures
        match after_blobs(upload_step(upload), count) {
            PushStepView::Blob(u, at, _) => u == upload && at == count && count
                < upload.blobs.len(),
            PushStepView::Config(u, reports) => u == upload && count == upload.blobs.len()
                && reports.last().bytes_uploaded == total_size(upload.blobs),
            _ => false,
        },
    decreases count,
{
    if count > 0 {
        law_blobs_are_uploaded_in_order(upload, (count - 1) as nat);
        assert(upload.blobs.take(upload.blobs.len() as int) == upload.blobs);
    }
}

} // verus!

use vstd::prelude::*;

use crate::digest::digest_of;
use crate::error::{Cause, Error, RegistryError};
use crate::image::{
    needs_monolithic_push, ArchiveFailure, Image, LayerBlob, MonolithicPushPolicy, PushOptions,
    PushProgressInfo,
};
use crate::manifest::parsed_image_manifest;
use crate::push::{
    after_blob, after_mount, after_mounts, digests_of, double_spacing,
    law_push_uploads_what_is_missing, layer_blobs, megabytes, megabytes_text, missing_layers,
    mounted_digests, nearest_double, push_done, rounded_quotient, total_size, upload_step,
    ConfigBlob, MountView, PushAuth, PushBlob, PushConfig, PushLayers, PushLoad, PushManifest,
    PushMount, PushSource, PushStep, PushStepView, PushWhole, UploadView,
};
use crate::reference::parsed_reference;
use crate::text::decimal_text;

verus! {

/// Whether the registry said that it has the blob of this digest, when it was asked for the first
/// layers; `outcomes` says what it answered for each.
pub open spec fn is_there(
    layers: Seq<LayerBlob>,
    outcomes: Seq<bool>,
    digest: Seq<char>,
) -> bool {
    exists|i: int|
        #![trigger outcomes[i]]
        0 <= i < outcomes.len() && outcomes[i] && layers[i].digest@ == digest
}

proof fn lemma_mounted(layers: Seq<LayerBlob>, outcomes: Seq<bool>)
    requires
        outcomes.len() <= layers.len(),
    ensures
        ({
            let mounted = mounted_digests(digests_of(layers), outcomes);
            &&& mounted.no_duplicates()
            &&& forall|d: Seq<char>| #[trigger]
                mounted.contains(d) <==> is_there(layers, outcomes, d)
        }),
    decreases outcomes.len(),
{
    let mounted = mounted_digests(digests_of(layers), outcomes);
    if outcomes.len() == 0 {
        assert forall|d: Seq<char>| #[trigger] mounted.contains(d) <==> is_there(
            layers,
            outcomes,
            d,
        ) by {}
    } else {
        let front = outcomes.drop_last();
        let before = mounted_digests(digests_of(layers), front);
        let digest = layers[outcomes.len() - 1].digest@;
        lemma_mounted(layers, front);
        assert(digests_of(layers)[outcomes.len() - 1] == digest);
        assert forall|d: Seq<char>| #[trigger] mounted.contains(d) <==> is_there(
            layers,
            outcomes,
            d,
        ) by {
            if mounted.contains(d) {
                let k = choose|k: int| 0 <= k < mounted.len() && mounted[k] == d;
                if k < before.len() {
                    assert(before[k] == d);
                    assert(before.contains(d));
                    let i = choose|i: int|
                        #![trigger front[i]]
                        0 <= i < front.len() && front[i] && layers[i].digest@ == d;
                    assert(outcomes[i] == front[i]);
                } else {
                    assert(outcomes[outcomes.len() - 1]);
                }
            }
            if is_there(layers, outcomes, d) {
                let i = choose|i: int|
                    #![trigger outcomes[i]]
                    0 <= i < outcomes.len() && outcomes[i] && layers[i].digest@ == d;
                if i < front.len() {
                    assert(front[i] == outcomes[i]);
                    assert(before.contains(d));
                }
                if before.contains(d) {
                    let k = choose|k: int| 0 <= k < before.len() && before[k] == d;
                    assert(mounted[k] == d);
                } else {
                    assert(mounted[before.len() as int] == d);
                }
            }
        }
    }
}

/// A digest counts as there if and only if the registry said so for a layer of that digest; what it
/// said of other layers does not matter. Layers are asked for one after the other.
pub proof fn law_only_what_the_registry_has_counts_as_there(
    mount: MountView,
    outcomes: Seq<bool>,
)
    requires
        mount.asked == 0,
        mount.mounted.len() == 0,
        outcomes.len() < mount.layers.len(),
    ensures
        after_mounts(mount, outcomes) matches PushStepView::Mount(next) && {
            &&& next.layers == mount.layers
            &&& next.payload == mount.payload
            &&& next.asked == outcomes.len()
            &&& next.mounted.no_duplicates()
            &&& forall|d: Seq<char>| #[trigger]
                next.mounted.contains(d) <==> is_there(mount.layers, outcomes, d)
        },
    decreases outcomes.len(),
{
    if outcomes.len() > 0 {
        let front = outcomes.drop_last();
        law_only_what_the_registry_has_counts_as_there(mount, front);
        let before = after_mounts(mount, front)->Mount_0;
        let digest = mount.layers[front.len() as int].digest@;
        let next = after_mount(before, outcomes.last())->Mount_0;
        assert forall|d: Seq<char>| #[trigger] next.mounted.contains(d) <==> is_there(
            mount.layers,
            outcomes,
            d,
        ) by {
            if next.mounted.contains(d) {
                let k = choose|k: int| 0 <= k < next.mounted.len() && next.mounted[k] == d;
                if k < before.mounted.len() {
                    assert(before.mounted[k] == d);
                    assert(before.mounted.contains(d));
                    let i = choose|i: int|
                        #![trigger front[i]]
                        0 <= i < front.len() && front[i] && mount.layers[i].digest@ == d;
                    assert(outcomes[i] == front[i]);
                } else {
                    assert(outcomes[outcomes.len() - 1]);
                }
            }
            if is_there(mount.layers, outcomes, d) {
                let i = choose|i: int|
                    #![trigger outcomes[i]]
                    0 <= i < outcomes.len() && outcomes[i] && mount.layers[i].digest@ == d;
                if i < front.len() {
                    assert(front[i] == outcomes[i]);
                    assert(before.mounted.contains(d));
                }
                if before.mounted.contains(d) {
                    let k = choose|k: int| 0 <= k < before.mounted.len() && before.mounted[k] == d;
                    assert(next.mounted[k] == d);
                } else {
                    assert(next.mounted[before.mounted.len() as int] == d);
                }
            }
        }
    }
}

/// Whether blobs are those of the layers at some places, in the order of the layers.
pub open spec fn are_blobs_at(
    blobs: Seq<Seq<u8>>,
    layers: Seq<LayerBlob>,
    places: Seq<int>,
) -> bool {
    &&& blobs.len() == places.len()
    &&& forall|j: int|
        0 <= j < places.len() ==> 0 <= #[trigger] places[j] < layers.len() && blobs[j]
            == layers[places[j]].blob@
    &&& forall|j: int, k: int|
        0 <= j < k < places.len() ==> #[trigger] places[j] < #[trigger] places[k]
}

/// What a push uploads, once the registry was asked for every layer.
pub open spec fn upload_in(step: PushStepView) -> Option<UploadView> {
    match step {
        PushStepView::Whole(upload, _) => Some(upload),
        PushStepView::Blob(upload, _, _) => Some(upload),
        _ => None,
    }
}

proof fn lemma_missing_places(layers: Seq<LayerBlob>, mounted: Seq<Seq<char>>) -> (places: Seq<int>)
    ensures
        are_blobs_at(layer_blobs(missing_layers(layers, mounted)), layers, places),
        forall|k: int|
            0 <= k < layers.len() ==> (#[trigger] places.contains(k) <==> !mounted.contains(
                layers[k].digest@,
            )),
    decreases layers.len(),
{
    if layers.len() == 0 {
        Seq::empty()
    } else {
        let front = layers.drop_last();
        let before = lemma_missing_places(front, mounted);
        let blobs = layer_blobs(missing_layers(layers, mounted));
        let fewer = layer_blobs(missing_layers(front, mounted));
        let last = layers.len() - 1;
        let places = if mounted.contains(layers.last().digest@) {
            before
        } else {
            before.push(last)
        };
        assert forall|j: int| 0 <= j < places.len() implies 0 <= #[trigger] places[j]
            < layers.len() && blobs[j] == layers[places[j]].blob@ by {
            if j < before.len() {
                assert(0 <= before[j] < front.len() && fewer[j] == front[before[j]].blob@);
                assert(missing_layers(layers, mounted)[j] == missing_layers(front, mounted)[j]);
            }
        }
        assert forall|j: int, k: int| 0 <= j < k < places.len() implies #[trigger] places[j]
            < #[trigger] places[k] by {
            assert(0 <= before[j] < front.len());
            if k < before.len() {
                assert(before[j] < before[k]);
            }
        }
        assert forall|k: int| 0 <= k < layers.len() implies (#[trigger] places.contains(k)
            <==> !mounted.contains(layers[k].digest@)) by {
            if k < front.len() {
                assert(front[k] == layers[k]);
                assert(before.contains(k) <==> !mounted.contains(front[k].digest@));
                if before.contains(k) {
                    let j = choose|j: int| 0 <= j < before.len() && before[j] == k;
                    assert(places[j] == k);
                }
                if places.contains(k) {
                    let j = choose|j: int| 0 <= j < places.len() && places[j] == k;
                    assert(before[j] == k);
                }
            } else {
                if places.contains(k) {
                    let j = choose|j: int| 0 <= j < places.len() && places[j] == k;
                    if j < before.len() {
                        assert(0 <= before[j] < front.len());
                    }
                } else if !mounted.contains(layers[k].digest@) {
                    assert(places[before.len() as int] == k);
                }
            }
        }
        places
    }
}

/// A push uploads the blob of a layer if and only if no mount of its digest succeeded, each in the
/// order of the layers; and the number of layers that it counts as there is the number of digests
/// for which the registry said that it has them.
pub proof fn law_push_uploads_what_the_registry_lacks(mount: MountView, outcomes: Seq<bool>)
    requires
        mount.asked == 0,
        mount.mounted.len() == 0,
        0 < outcomes.len() == mount.layers.len(),
    ensures
        ({
            let step = after_mounts(mount, outcomes);
            let upload = upload_in(step);
            &&& upload is Some
            &&& upload->0.payload == mount.payload
            &&& upload->0.mounted == Set::new(
                |d: Seq<char>| is_there(mount.layers, outcomes, d),
            ).len()
            &&& exists|places: Seq<int>| #[trigger]
                are_blobs_at(upload->0.blobs, mount.layers, places) && forall|k: int|
                    0 <= k < mount.layers.len() ==> (#[trigger] places.contains(k) <==> !is_there(
                        mount.layers,
                        outcomes,
                        mount.layers[k].digest@,
                    ))
        }),
{
    let mounted = mounted_digests(digests_of(mount.layers), outcomes);
    law_push_uploads_what_is_missing(mount, outcomes);
    lemma_mounted(mount.layers, outcomes);
    let places = lemma_missing_places(mount.layers, mounted);
    mounted.unique_seq_to_set();
    assert(mounted.to_set() =~= Set::new(|d: Seq<char>| is_there(mount.layers, outcomes, d)));
    let upload = upload_in(after_mounts(mount, outcomes))->0;
    assert(are_blobs_at(upload.blobs, mount.layers, places));
    assert forall|k: int| 0 <= k < mount.layers.len() implies (#[trigger] places.contains(k)
        <==> !is_there(mount.layers, outcomes, mount.layers[k].digest@)) by {
        assert(mounted.contains(mount.layers[k].digest@) <==> is_there(
            mount.layers,
            outcomes,
            mount.layers[k].digest@,
        ));
    }
}

/// The configuration and the manifest are pushed without any layer if and only if the registry has
/// every layer.
pub proof fn law_nothing_is_uploaded_only_where_all_is_there(
    mount: MountView,
    outcomes: Seq<bool>,
)
    requires
        mount.asked == 0,
        mount.mounted.len() == 0,
        0 < outcomes.len() == mount.layers.len(),
    ensures
        after_mounts(mount, outcomes) is Whole <==> forall|k: int|
            0 <= k < mount.layers.len() ==> is_there(
                mount.layers,
                outcomes,
                (#[trigger] mount.layers[k]).digest@,
            ),
        after_mounts(mount, outcomes) is Whole || after_mounts(mount, outcomes) is Blob,
{
    law_push_uploads_what_the_registry_lacks(mount, outcomes);
    let upload = upload_in(after_mounts(mount, outcomes))->0;
    let places = choose|places: Seq<int>| #[trigger]
        are_blobs_at(upload.blobs, mount.layers, places) && forall|k: int|
            0 <= k < mount.layers.len() ==> (#[trigger] places.contains(k) <==> !is_there(
                mount.layers,
                outcomes,
                mount.layers[k].digest@,
            ));
    if after_mounts(mount, outcomes) is Whole {
        assert(upload.blobs.len() == 0) by {
            law_push_uploads_what_is_missing(mount, outcomes);
        }
        assert forall|k: int| 0 <= k < mount.layers.len() implies is_there(
            mount.layers,
            outcomes,
            (#[trigger] mount.layers[k]).digest@,
        ) by {
            assert(!places.contains(k));
        }
    }
    if forall|k: int|
        0 <= k < mount.layers.len() ==> is_there(
            mount.layers,
            outcomes,
            (#[trigger] mount.layers[k]).digest@,
        ) {
        assert(upload.blobs.len() == 0) by {
            if places.len() > 0 {
                let k = places[0];
                assert(places.contains(k));
                assert(is_there(mount.layers, outcomes, mount.layers[k].digest@));
            }
        }
        law_push_uploads_what_is_missing(mount, outcomes);
    }
}

/// The size of blobs in all is the sum of their sizes.
pub proof fn law_total_size_is_the_sum(blobs: Seq<Seq<u8>>, blob: Seq<u8>)
    ensures
        total_size(Seq::empty()) == 0,
        total_size(blobs.push(blob)) == total_size(blobs) + blob.len(),
{
    assert(blobs.push(blob).drop_last() == blobs);
}

/// When the upload begins, the reports count the layers that the registry has as uploaded and all
/// others as not; and no byte as uploaded.
pub proof fn law_upload_begins_with_what_is_there(upload: UploadView)
    ensures
        ({
            let (found, reports) = match upload_step(upload) {
                PushStepView::Whole(u, r) => (Some(u), r),
                PushStepView::Blob(u, _, r) => (Some(u), r),
                _ => (None, Seq::empty()),
            };
            &&& found == Some(upload)
            &&& upload_step(upload) is Whole == (upload.blobs.len() == 0)
            &&& upload_step(upload) matches PushStepView::Blob(_, at, _) ==> at == 0
            &&& reports.len() == 2
            &&& reports[0].operation == "Uploading layers"@
            &&& forall|i: int|
                0 <= i < 2 ==> {
                    &&& (#[trigger] reports[i]).layers_uploaded == upload.mounted
                    &&& reports[i].total_layers == upload.mounted + upload.blobs.len()
                    &&& reports[i].bytes_uploaded == 0
                    &&& reports[i].total_bytes == total_size(upload.blobs)
                }
            &&& upload.blobs.len() == 0 ==> reports[1].operation
                == "Uploading config and manifest"@
            &&& upload.blobs.len() > 0 && total_size(upload.blobs) <= 10 * 1024 * 1024
                ==> reports[1].operation == "Uploading "@ + decimal_text(upload.blobs.len())
                + " layers"@
            &&& upload.blobs.len() > 0 && total_size(upload.blobs) > 10 * 1024 * 1024
                ==> reports[1].operation == "Uploading "@ + megabytes_text(
                total_size(upload.blobs),
            ) + " MB in "@ + decimal_text(upload.blobs.len()) + " layers"@
        }),
{
    assert(upload.blobs.take(0) =~= Seq::<Seq<u8>>::empty());
}

/// With each blob one more layer and its bytes count as uploaded. The next blob follows, or, behind
/// the last one, the configuration.
pub proof fn law_blob_counts_once_uploaded(upload: UploadView, at: nat)
    requires
        at < upload.blobs.len(),
    ensures
        ({
            let (found, reports) = match after_blob(upload, at) {
                PushStepView::Blob(u, _, r) => (Some(u), r),
                PushStepView::Config(u, r) => (Some(u), r),
                _ => (None, Seq::empty()),
            };
            &&& found == Some(upload)
            &&& after_blob(upload, at) is Config == (at + 1 == upload.blobs.len())
            &&& after_blob(upload, at) matches PushStepView::Blob(_, next, _) ==> next == at + 1
            &&& reports.len() == if at + 1 == upload.blobs.len() {
                2
            } else {
                1nat
            }
            &&& reports[0].operation == ""@
            &&& at + 1 == upload.blobs.len() ==> reports[1].operation == "Uploading config"@
            &&& forall|i: int|
                0 <= i < reports.len() ==> {
                    &&& (#[trigger] reports[i]).layers_uploaded == upload.mounted + at + 1
                    &&& reports[i].total_layers == upload.mounted + upload.blobs.len()
                    &&& reports[i].bytes_uploaded == total_size(upload.blobs.take(at as int))
                        + upload.blobs[at as int].len()
                    &&& reports[i].total_bytes == total_size(upload.blobs)
                }
        }),
{
    assert(upload.blobs.take(at as int + 1).drop_last() == upload.blobs.take(at as int));
}

/// A push that is done gives the target as it was asked for and a report in which all layers and
/// all bytes are uploaded.
pub proof fn law_done_push_names_its_target(upload: UploadView)
    ensures
        push_done(upload) matches PushStepView::Done(target, last) && {
            &&& target == upload.payload.target.text
            &&& last.operation == "Push completed"@
            &&& last.layers_uploaded == upload.mounted + upload.blobs.len()
            &&& last.total_layers == upload.mounted + upload.blobs.len()
            &&& last.bytes_uploaded == total_size(upload.blobs)
            &&& last.total_bytes == total_size(upload.blobs)
        },
{
    assert(upload.blobs.take(upload.blobs.len() as int) == upload.blobs);
}

/// A push starts with a report of no progress. It goes on if and only if the target can be read;
/// then to that target, with the archive of this image.
pub proof fn law_push_starts(
    image: &Image,
    target: &str,
    options: &PushOptions,
    start: (PushProgressInfo, Result<PushLoad, Error>),
)
    requires
        call_ensures(Image::push, (image, target, options), start),
    ensures
        start.0.operation@ == "Starting push"@,
        start.0.layers_uploaded == 0,
        start.0.total_layers == 0,
        start.0.bytes_uploaded == 0,
        start.0.total_bytes == 0,
        start.1 is Ok <==> parsed_reference(target@) is Ok,
        start.1 matches Ok(load) ==> {
            &&& load.archive() == image@.path
            &&& load.target().text == target@
            &&& load.target().reference == parsed_reference(target@)->Ok_0
            &&& options.monolithic_push == MonolithicPushPolicy::Always ==> load.is_monolithic()
            &&& options.monolithic_push == MonolithicPushPolicy::Never ==> !load.is_monolithic()
            &&& options.monolithic_push == MonolithicPushPolicy::Auto ==> load.is_monolithic()
                == needs_monolithic_push(load.target().reference.resolved_registry)
        },
{
}

/// What is pushed is the manifest and the configuration of the archive, to the target that was
/// asked for; where one of them cannot be read, nothing is pushed.
pub proof fn law_push_takes_what_the_archive_holds(
    load: PushLoad,
    loaded: Result<PushSource, ArchiveFailure>,
    next: Result<PushAuth, Error>,
)
    requires
        call_ensures(PushLoad::resume, (load, loaded), next),
    ensures
        next is Ok <==> {
            &&& loaded is Ok
            &&& loaded->Ok_0.manifest is Ok
            &&& parsed_image_manifest(loaded->Ok_0.manifest->Ok_0@) is Some
            &&& loaded->Ok_0.config is Ok
        },
        next matches Ok(auth) ==> {
            &&& auth@.target == load.target()
            &&& Some(auth@.manifest) == parsed_image_manifest(loaded->Ok_0.manifest->Ok_0@)
            &&& auth@.config == loaded->Ok_0.config->Ok_0
        },
{
}

/// After the login, the registry is asked for every layer of the archive, from the lowest one on;
/// without layers, the configuration and the manifest are pushed at once.
pub proof fn law_push_asks_for_every_layer(
    auth: PushAuth,
    login: Result<(), RegistryError>,
    after_login: Result<PushLayers, Error>,
    push: PushLayers,
    layers: Result<Vec<LayerBlob>, ArchiveFailure>,
    step: Result<PushStep, Error>,
)
    requires
        call_ensures(PushAuth::resume, (auth, login), after_login),
        call_ensures(PushLayers::resume, (push, layers), step),
    ensures
        after_login is Ok == login is Ok,
        after_login matches Ok(next) ==> next@ == auth@,
        step is Ok == layers is Ok,
        step matches Ok(next) ==> if layers->Ok_0@.len() > 0 {
            &&& next@ matches PushStepView::Mount(mount)
            &&& mount.payload == push@
            &&& mount.layers == layers->Ok_0@
            &&& mount.asked == 0
            &&& mount.mounted.len() == 0
        } else {
            &&& next@ matches PushStepView::Whole(upload, _)
            &&& upload.payload == push@
            &&& upload.blobs.len() == 0
            &&& upload.mounted == 0
        },
{
}

/// The layer that the registry is asked for is the next one, and each blob is uploaded under its
/// own digest.
pub proof fn law_blobs_go_by_their_digests(
    mount: &PushMount,
    asked: &str,
    push: &PushBlob,
    blob: &Vec<u8>,
    digest: String,
)
    requires
        call_ensures(PushMount::digest, (mount,), asked),
        call_ensures(PushBlob::blob, (push,), blob),
        call_ensures(PushBlob::digest, (push,), digest),
    ensures
        asked@ == mount@.layers[mount@.asked as int].digest@,
        blob@ == push@.0.blobs[push@.1 as int],
        digest@ == digest_of(blob@),
{
}

/// The configuration goes up behind the blobs, under the digest that the manifest gives for it; the
/// manifest goes up last; and then the push is done. Both are those of the archive.
pub proof fn law_manifest_comes_last(
    config: PushConfig,
    config_digest: &str,
    config_blob: &ConfigBlob,
    after_config: Result<PushStep, Error>,
    manifest: PushManifest,
    after_manifest: Result<PushStep, Error>,
    whole: PushWhole,
    after_whole: Result<PushStep, Error>,
    pushed: Result<(), RegistryError>,
)
    requires
        call_ensures(PushConfig::digest, (&config,), config_digest),
        call_ensures(PushConfig::config, (&config,), config_blob),
        call_ensures(PushConfig::resume, (config, pushed), after_config),
        call_ensures(PushManifest::resume, (manifest, pushed), after_manifest),
        call_ensures(PushWhole::resume, (whole, pushed), after_whole),
    ensures
        config_digest@ == config@.0.payload.manifest.config.digest,
        *config_blob == config@.0.payload.config,
        after_config is Ok == pushed is Ok,
        after_manifest is Ok == pushed is Ok,
        after_whole is Ok == pushed is Ok,
        after_config matches Ok(next) ==> next@ matches PushStepView::Manifest(upload, reports) && {
            &&& upload == config@.0
            &&& reports.len() == 1
            &&& reports[0].operation == "Uploading manifest"@
            &&& reports[0].layers_uploaded == upload.mounted + upload.blobs.len()
            &&& reports[0].total_layers == upload.mounted + upload.blobs.len()
            &&& reports[0].bytes_uploaded == total_size(upload.blobs)
            &&& reports[0].total_bytes == total_size(upload.blobs)
        },
        after_manifest matches Ok(next) ==> next@ matches PushStepView::Done(target, _) && target
            == manifest@.0.payload.target.text,
        after_whole matches Ok(next) ==> next@ matches PushStepView::Done(target, _) && target
            == whole@.0.payload.target.text,
{
    let blobs = config@.0.blobs;
    assert(blobs.take(blobs.len() as int) == blobs);
}

/// A blob that could not be uploaded ends the push.
pub proof fn law_failed_upload_ends_the_push(
    push: PushBlob,
    pushed: Result<(), RegistryError>,
    step: Result<PushStep, Error>,
)
    requires
        call_ensures(PushBlob::resume, (push, pushed), step),
    ensures
        step is Ok == pushed is Ok,
{
}

proof fn lemma_rounded(n: nat, d: nat)
    requires
        d > 0,
    ensures
        ({
            let q = rounded_quotient(n, d);
            &&& 2 * (n - q * d) <= d
            &&& 2 * (q * d - n) <= d
            &&& (2 * (n - q * d) == d || 2 * (q * d - n) == d) ==> q % 2 == 0
        }),
{
    let q = n / d;
    let r = n % d;
    assert(n == q * d + r && 0 <= r < d) by (nonlinear_arith)
        requires
            q == n / d,
            r == n % d,
            d > 0,
    ;
    assert((q + 1) * d == q * d + d) by (nonlinear_arith);
}

/// A number of bytes is told in MiB with one decimal, rounded to the nearest; where two are as
/// near, to the even one. That holds up to where a double can count bytes.
pub proof fn law_megabytes_are_rounded(bytes: u64, text: String)
    requires
        call_ensures(megabytes, (bytes,), text),
        bytes < 0x20_0000_0000_0000,
    ensures
        exists|tenths: nat|
            {
                &&& text@ == #[trigger] decimal_text(tenths / 10) + "."@ + decimal_text(
                    tenths % 10,
                )
                &&& 2 * (10 * bytes - tenths * 0x10_0000) <= 0x10_0000
                &&& 2 * (tenths * 0x10_0000 - 10 * bytes) <= 0x10_0000
                &&& (2 * (10 * bytes - tenths * 0x10_0000) == 0x10_0000 || 2 * (tenths * 0x10_0000
                    - 10 * bytes) == 0x10_0000) ==> tenths % 2 == 0
            },
{
    let n = bytes as nat;
    lemma_rounded(n, 1);
    assert(nearest_double(n) == n);
    lemma_rounded(10 * n, 0x10_0000);
    let tenths = rounded_quotient(10 * n, 0x10_0000);
    assert(text@ == decimal_text(tenths / 10) + "."@ + decimal_text(tenths % 10));
}

/// The pushed manifest names no layer that the registry does not have: where the registry says what
/// it has and each layer goes by the digest of its blob, every layer was there or is uploaded.
pub proof fn law_every_layer_is_in_the_registry(
    mount: MountView,
    outcomes: Seq<bool>,
    registry: Set<Seq<char>>,
    number: int,
)
    requires
        mount.asked == 0,
        mount.mounted.len() == 0,
        0 < outcomes.len() == mount.layers.len(),
        forall|i: int|
            0 <= i < outcomes.len() ==> #[trigger] outcomes[i] == registry.contains(
                mount.layers[i].digest@,
            ),
        forall|i: int|
            0 <= i < mount.layers.len() ==> (#[trigger] mount.layers[i]).digest@ == digest_of(
                mount.layers[i].blob@,
            ),
        0 <= number < mount.layers.len(),
    ensures
        ({
            let upload = upload_in(after_mounts(mount, outcomes))->0;
            registry.contains(mount.layers[number].digest@) != exists|j: int|
                0 <= j < upload.blobs.len() && digest_of(#[trigger] upload.blobs[j])
                    == mount.layers[number].digest@
        }),
{
    law_push_uploads_what_the_registry_lacks(mount, outcomes);
    let upload = upload_in(after_mounts(mount, outcomes))->0;
    let layers = mount.layers;
    let digest = layers[number].digest@;
    let places = choose|places: Seq<int>| #[trigger]
        are_blobs_at(upload.blobs, layers, places) && forall|k: int|
            0 <= k < layers.len() ==> (#[trigger] places.contains(k) <==> !is_there(
                layers,
                outcomes,
                layers[k].digest@,
            ));
    assert(registry.contains(digest) <==> is_there(layers, outcomes, digest)) by {
        assert(outcomes[number] == registry.contains(digest));
        if is_there(layers, outcomes, digest) {
            let i = choose|i: int|
                #![trigger outcomes[i]]
                0 <= i < outcomes.len() && outcomes[i] && layers[i].digest@ == digest;
            assert(outcomes[i] == registry.contains(layers[i].digest@));
        }
    }
    if !is_there(layers, outcomes, digest) {
        assert(places.contains(number));
        let j = choose|j: int| 0 <= j < places.len() && places[j] == number;
        assert(upload.blobs[j] == layers[places[j]].blob@);
        assert(digest_of(upload.blobs[j]) == digest);
    } else if exists|j: int|
        0 <= j < upload.blobs.len() && digest_of(#[trigger] upload.blobs[j]) == digest {
        let j = choose|j: int|
            0 <= j < upload.blobs.len() && digest_of(#[trigger] upload.blobs[j]) == digest;
        let k = places[j];
        assert(upload.blobs[j] == layers[k].blob@);
        assert(layers[k].digest@ == digest_of(layers[k].blob@));
        assert(places.contains(k));
        assert(!is_there(layers, outcomes, layers[k].digest@));
    }
}

proof fn lemma_spacing(n: nat)
    ensures
        double_spacing(n) > 0,
        n < 0x20_0000_0000_0000 * double_spacing(n),
        double_spacing(n) > 1 ==> 0x10_0000_0000_0000 * double_spacing(n) <= n,
        double_spacing(n) == 1 || double_spacing(n) % 2 == 0,
    decreases n,
{
    if n >= 0x20_0000_0000_0000 {
        lemma_spacing(n / 2);
        if double_spacing(n / 2) == 1 {
            assert(n / 2 >= 0x10_0000_0000_0000);
        }
    }
}

/// The number that stands for a number of bytes is the nearest one that has no more than 53 binary
/// digits before its zeros, as a double holds it; where two are as near, it is the one with the
/// even last digit.
pub proof fn law_bytes_are_counted_as_a_double_does(bytes: nat)
    ensures
        ({
            let near = nearest_double(bytes);
            let spacing = double_spacing(bytes);
            &&& bytes < 0x20_0000_0000_0000 ==> near == bytes
            &&& 2 * (near - bytes) <= spacing
            &&& 2 * (bytes - near) <= spacing
            &&& exists|count: nat|
                #![trigger count * spacing]
                {
                    &&& near == count * spacing
                    &&& (2 * (near - bytes) == spacing || 2 * (bytes - near) == spacing) ==> count
                        % 2 == 0
                }
            &&& bytes < 0x20_0000_0000_0000 * spacing
            &&& spacing > 1 ==> 0x10_0000_0000_0000 * spacing <= bytes
        }),
{
    lemma_spacing(bytes);
    lemma_rounded(bytes, double_spacing(bytes));
    let count = rounded_quotient(bytes, double_spacing(bytes));
    assert(nearest_double(bytes) == count * double_spacing(bytes));
    if bytes < 0x20_0000_0000_0000 {
        lemma_rounded(bytes, 1);
    }
}

/// A number of bytes is told in MiB with one decimal: the tenths are the nearest to what a double
/// holds of it.
pub proof fn law_megabytes_are_those_of_a_double(bytes: u64, text: String)
    requires
        call_ensures(megabytes, (bytes,), text),
    ensures
        exists|tenths: nat|
            {
                let near = nearest_double(bytes as nat);
                &&& text@ == #[trigger] decimal_text(tenths / 10) + "."@ + decimal_text(
                    tenths % 10,
                )
                &&& 2 * (10 * near - tenths * 0x10_0000) <= 0x10_0000
                &&& 2 * (tenths * 0x10_0000 - 10 * near) <= 0x10_0000
            },
{
    let near = nearest_double(bytes as nat);
    lemma_rounded(10 * near, 0x10_0000);
    let tenths = rounded_quotient(10 * near, 0x10_0000);
    assert(text@ == decimal_text(tenths / 10) + "."@ + decimal_text(tenths % 10));
}

/// What fails in a push is told, with the words of the registry, and its cause is kept.
pub proof fn law_failed_push_says_why(
    why: RegistryError,
    auth: PushAuth,
    after_auth: Result<PushLayers, Error>,
    blob: PushBlob,
    after_blob: Result<PushStep, Error>,
    config: PushConfig,
    after_config: Result<PushStep, Error>,
    manifest: PushManifest,
    after_manifest: Result<PushStep, Error>,
    whole: PushWhole,
    after_whole: Result<PushStep, Error>,
)
    requires
        call_ensures(PushAuth::resume, (auth, Err(why)), after_auth),
        call_ensures(PushBlob::resume, (blob, Err(why)), after_blob),
        call_ensures(PushConfig::resume, (config, Err(why)), after_config),
        call_ensures(PushManifest::resume, (manifest, Err(why)), after_manifest),
        call_ensures(PushWhole::resume, (whole, Err(why)), after_whole),
    ensures
        after_auth matches Err(error) && says(
            error,
            "Authentication failed for push to "@ + auth@.target.reference.whole + ": "@
                + why.text@,
            why,
        ),
        after_blob matches Err(error) && says(
            error,
            "Failed to push layer "@ + digest_of(blob@.0.blobs[blob@.1 as int]) + ": "@
                + why.text@,
            why,
        ),
        after_config matches Err(error) && says(
            error,
            "Failed to push config blob: "@ + why.text@,
            why,
        ),
        after_manifest matches Err(error) && says(
            error,
            "Failed to push manifest: "@ + why.text@,
            why,
        ),
        after_whole matches Err(error) && says(
            error,
            "OCI client push to "@ + whole@.0.payload.target.reference.whole + " failed: "@
                + why.text@,
            why,
        ),
{
}

/// Whether an error says something and was caused by a failed request.
pub open spec fn says(error: Error, text: Seq<char>, why: RegistryError) -> bool {
    &&& error is Generic
    &&& error->Generic_message@ == text
    &&& error->Generic_source == Some(Cause::Registry(why))
}

} // verus!

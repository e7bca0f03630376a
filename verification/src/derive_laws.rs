use vstd::prelude::*;

use crate::derive::{
    base_step, derive_remote_image, derived_entry, derived_manifest, first_derive, index_step,
    law_every_platform_has_its_image, manifest_step, matching_digest, platform_reference,
    platform_step, published_image, with_upload, DeriveAuthBase, DeriveAuthTarget, DeriveMountBase,
    DeriveMountConfig, DeriveMountLayer, DerivePullBase, DerivePullConfig, DerivePullPlatformConfig,
    DerivePullPlatformManifest, DerivePushConfig, DerivePushIndex, DerivePushLayer,
    DerivePushManifest, DeriveStep, DeriveStepView, DeriveView, SetupView,
};
use crate::derive_run::{
    derivation, is_derivable, law_derivation_runs_to_its_end, next_state, picked_configs,
    picked_images, BaseView, DeriveState,
};
use crate::digest::digest_of;
use crate::error::{Error, RegistryError};
use crate::image::{needs_monolithic_push, MonolithicPushPolicy};
use crate::json::{json_parsed, json_rendered, member, Json, JsonView};
use crate::layer_build::Layer;
use crate::manifest::{
    canonical_image_index, canonical_image_manifest, Descriptor, ImageIndexView, ImageManifest,
    ImageManifestView, IndexEntryView, Manifest, ManifestView, Platform,
};
use crate::reference::{parsed_reference, ImageReference};
use crate::remote::{
    add_layer, append_diff_id, config_platform, derived_config, descriptor_for_bytes,
    platform_from_image_config, platform_in, RemoteDeriveOptions, RemoteDerivedImage,
    RemotePlatform, RemotePlatformView,
};
use crate::text::text_of;

verus! {

/// A platform stands in an index under its own operating system, architecture and variant, and
/// nothing else is said of it.
pub proof fn law_platform_is_listed_as_it_is(platform: RemotePlatform, listed: Platform)
    requires
        call_ensures(RemotePlatform::as_oci_platform, (&platform,), listed),
    ensures
        listed.os@ == platform.os@,
        listed.architecture@ == platform.architecture@,
        text_of(listed.variant) == text_of(platform.variant),
        listed.os_version is None,
        listed.os_features is None,
        listed.features is None,
{
}

/// An image in an index is for a platform if and only if the operating system, the architecture and
/// the variant are the same; its version and its features do not matter.
pub proof fn law_platform_matches_by_three_fields(
    platform: RemotePlatform,
    listed: Platform,
    fits: bool,
)
    requires
        call_ensures(RemotePlatform::matches_platform, (&platform, &listed), fits),
    ensures
        fits <==> listed.os@ == platform.os@ && listed.architecture@ == platform.architecture@
            && text_of(listed.variant) == text_of(platform.variant),
{
}

/// What was listed for a platform is found for that platform, and for no other one.
pub proof fn law_listed_platform_is_found_again(
    asked: RemotePlatform,
    listed: Platform,
    other: RemotePlatform,
    fits: bool,
)
    requires
        call_ensures(RemotePlatform::as_oci_platform, (&asked,), listed),
        call_ensures(RemotePlatform::matches_platform, (&other, &listed), fits),
    ensures
        fits <==> other@ == asked@,
{
    assert(fits ==> other@ == asked@);
}

/// A Linux platform is one: the operating system is `linux`, and there is no variant.
pub proof fn law_linux_platform(architecture: &str, platform: RemotePlatform)
    requires
        call_ensures(RemotePlatform::linux, (architecture,), platform),
    ensures
        platform.os@ == "linux"@,
        platform.architecture@ == architecture@,
        platform.variant is None,
{
}

/// Whether an image in an index has the operating system, the architecture and the variant of a
/// platform.
pub open spec fn is_listed_for(entry: IndexEntryView, platform: RemotePlatformView) -> bool {
    &&& entry.platform is Some
    &&& entry.platform->0.os == platform.os
    &&& entry.platform->0.architecture == platform.architecture
    &&& entry.platform->0.variant == platform.variant
}

/// The first image in an index that has the operating system, the architecture and the variant of a
/// platform is the one that is taken for it.
pub proof fn law_first_image_for_the_platform_is_taken(
    entries: Seq<IndexEntryView>,
    platform: RemotePlatformView,
    first: int,
)
    requires
        0 <= first < entries.len(),
        is_listed_for(entries[first], platform),
        forall|j: int| 0 <= j < first ==> !is_listed_for(#[trigger] entries[j], platform),
    ensures
        matching_digest(entries, platform) == Some(entries[first].digest),
    decreases entries.len(),
{
    let front = entries.drop_last();
    if first < front.len() {
        assert forall|j: int| 0 <= j < first implies !is_listed_for(
            #[trigger] front[j],
            platform,
        ) by {
            assert(!is_listed_for(entries[j], platform));
        }
        law_first_image_for_the_platform_is_taken(front, platform, first);
    } else {
        assert forall|j: int| 0 <= j < front.len() implies !is_listed_for(
            #[trigger] front[j],
            platform,
        ) by {
            assert(!is_listed_for(entries[j], platform));
        }
        law_no_image_for_the_platform_is_taken(front, platform);
    }
}

/// Where no image in an index has the operating system, the architecture and the variant of a
/// platform, none is taken for it.
pub proof fn law_no_image_for_the_platform_is_taken(
    entries: Seq<IndexEntryView>,
    platform: RemotePlatformView,
)
    requires
        forall|j: int| 0 <= j < entries.len() ==> !is_listed_for(#[trigger] entries[j], platform),
    ensures
        matching_digest(entries, platform) is None,
    decreases entries.len(),
{
    if entries.len() > 0 {
        let front = entries.drop_last();
        assert forall|j: int| 0 <= j < front.len() implies !is_listed_for(
            #[trigger] front[j],
            platform,
        ) by {
            assert(!is_listed_for(entries[j], platform));
        }
        law_no_image_for_the_platform_is_taken(front, platform);
        assert(!is_listed_for(entries[entries.len() - 1], platform));
    }
}

/// The manifest of a derived image names the layers of the base image, then the new layer by its
/// own digest, size and media type, and the derived configuration by its digest and size. The
/// annotations of the base image stay; what it is attached to does not.
pub proof fn law_derived_manifest_names_its_blobs(
    setup: SetupView,
    image: ImageManifestView,
    config: Seq<u8>,
)
    requires
        setup.layer.blob.len() <= i64::MAX,
        config.len() <= i64::MAX,
    ensures
        ({
            let manifest = derived_manifest(setup, image, config);
            let layers = manifest.layers;
            &&& manifest.schema_version == 2
            &&& manifest.media_type == Some("application/vnd.oci.image.manifest.v1+json"@)
            &&& layers.len() == image.layers.len() + 1
            &&& forall|i: int| 0 <= i < image.layers.len() ==> #[trigger] layers[i]
                == image.layers[i]
            &&& layers[image.layers.len() as int].digest == setup.layer.blob_digest
            &&& layers[image.layers.len() as int].size as int == setup.layer.blob.len()
            &&& layers[image.layers.len() as int].media_type == setup.layer.media_type
            &&& layers[image.layers.len() as int].urls is None
            &&& layers[image.layers.len() as int].annotations is None
            &&& manifest.config.digest == digest_of(config)
            &&& manifest.config.size as int == config.len()
            &&& image.config.media_type.len() > 0 ==> manifest.config.media_type
                == image.config.media_type
            &&& image.config.media_type.len() == 0 ==> manifest.config.media_type
                == "application/vnd.oci.image.config.v1+json"@
            &&& manifest.config.urls is None
            &&& manifest.config.annotations is None
            &&& manifest.annotations == image.annotations
            &&& manifest.subject is None
            &&& manifest.artifact_type is None
        }),
{
}

/// The image that is derived for a platform stands in the index under that platform, with the
/// digest and the size of its manifest.
pub proof fn law_derived_image_is_listed(platform: RemotePlatformView, manifest: Seq<u8>)
    requires
        manifest.len() <= i64::MAX,
    ensures
        ({
            let entry = derived_entry(platform, manifest);
            &&& is_listed_for(entry, platform)
            &&& entry.platform->0.os_version is None
            &&& entry.platform->0.os_features is None
            &&& entry.platform->0.features is None
            &&& entry.digest == digest_of(manifest)
            &&& entry.size as int == manifest.len()
            &&& entry.media_type == "application/vnd.oci.image.manifest.v1+json"@
            &&& entry.annotations is None
        }),
{
}

/// The published index lists an image for each platform that was asked for, in that order: under
/// its operating system, architecture and variant, with the digest of the manifest that was derived
/// for it.
pub proof fn law_index_lists_the_platforms(
    setup: SetupView,
    base: BaseView,
    blobs: Set<Seq<char>>,
    number: int,
)
    requires
        is_derivable(setup, base),
        0 <= number < setup.platforms.len(),
    ensures
        ({
            let entries = derivation(setup, base, blobs).derive.entries;
            let image = picked_images(setup, base)[number];
            let config = derived_config(
                picked_configs(setup, base)[number],
                setup.layer.diff_id,
            );
            &&& entries.len() == setup.platforms.len()
            &&& is_listed_for(entries[number], setup.platforms[number])
            &&& config is Some
            &&& entries[number].digest == digest_of(
                canonical_image_manifest(derived_manifest(setup, image, config->0)),
            )
        }),
{
    let images = picked_images(setup, base);
    let configs = picked_configs(setup, base);
    law_derivation_runs_to_its_end(setup, base, blobs);
    law_every_platform_has_its_image(setup, images, configs, number);
    assert(crate::derive_run::is_platform_derivable(setup, base, number));
}

/// An index that was derived can be derived from again: for each platform the image that was
/// derived for it is the one that is taken, where no platform was asked for twice.
pub proof fn law_derived_index_is_derived_from_again(
    setup: SetupView,
    base: BaseView,
    blobs: Set<Seq<char>>,
    number: int,
    again: DeriveView,
    index: ImageIndexView,
)
    requires
        is_derivable(setup, base),
        0 <= number < setup.platforms.len(),
        forall|i: int, j: int|
            0 <= i < j < setup.platforms.len() ==> #[trigger] setup.platforms[i]
                != #[trigger] setup.platforms[j],
        index.manifests == derivation(setup, base, blobs).derive.entries,
        again.manifest == ManifestView::ImageIndex(index),
        again.entries.len() < again.setup.platforms.len(),
        again.setup.platforms[again.entries.len() as int] == setup.platforms[number],
    ensures
        platform_step(again) == Ok::<DeriveStepView, Seq<char>>(
            DeriveStepView::PullPlatformManifest(again, index.manifests[number].digest),
        ),
{
    let entries = index.manifests;
    law_index_lists_the_platforms(setup, base, blobs, number);
    assert forall|j: int| 0 <= j < number implies !is_listed_for(
        #[trigger] entries[j],
        setup.platforms[number],
    ) by {
        law_index_lists_the_platforms(setup, base, blobs, j);
        let (a, b) = (setup.platforms[j], setup.platforms[number]);
        assert(a != b);
        if is_listed_for(entries[j], b) {
            assert(a == b);
        }
    }
    law_first_image_for_the_platform_is_taken(entries, setup.platforms[number], number);
}

/// What is published at the end of a derivation is an index of the derived images, and nothing
/// else; and what is given is the target as it was asked for, the digest of that index, the number
/// of bytes that were uploaded, and that no byte of a base layer was downloaded.
pub proof fn law_index_is_published(derive: DeriveView)
    ensures
        index_step(derive) matches DeriveStepView::PushIndex(setup, uploaded, index) && {
            &&& setup == derive.setup
            &&& uploaded == derive.uploaded
            &&& index == canonical_image_index(
                ImageIndexView {
                    schema_version: 2,
                    media_type: Some("application/vnd.oci.image.index.v1+json"@),
                    manifests: derive.entries,
                    artifact_type: None,
                    annotations: None,
                },
            )
            &&& published_image(setup, uploaded, index).reference == derive.setup.target_text
            &&& published_image(setup, uploaded, index).digest == digest_of(index)
            &&& published_image(setup, uploaded, index).bytes_uploaded == derive.uploaded
            &&& published_image(setup, uploaded, index).base_layer_bytes_downloaded == 0
        },
{
}

/// An upload adds its bytes to the number of bytes that were uploaded, and changes nothing else.
pub proof fn law_upload_counts_its_bytes(derive: DeriveView, bytes: nat)
    ensures
        with_upload(derive, bytes).uploaded == derive.uploaded + bytes,
        with_upload(derive, bytes).setup == derive.setup,
        with_upload(derive, bytes).manifest == derive.manifest,
        with_upload(derive, bytes).entries == derive.entries,
{
}

/// A derivation for one platform uploads the new layer and the derived configuration where the
/// target repository has neither, and their sizes are what it says it uploaded.
pub proof fn law_first_derivation_uploads_layer_and_config(setup: SetupView, base: BaseView)
    requires
        is_derivable(setup, base),
        setup.platforms.len() == 1,
        ({
            let image = picked_images(setup, base)[0];
            let config = derived_config(
                picked_configs(setup, base)[0],
                setup.layer.diff_id,
            )->0;
            &&& digest_of(config) != setup.layer.blob_digest
            &&& forall|i: int|
                0 <= i < image.layers.len() ==> (#[trigger] image.layers[i]).digest != digest_of(
                    config,
                )
        }),
    ensures
        ({
            let config = derived_config(
                picked_configs(setup, base)[0],
                setup.layer.diff_id,
            )->0;
            derivation(setup, base, Set::empty()).derive.uploaded == setup.layer.blob.len()
                + config.len()
        }),
{
    let images = picked_images(setup, base);
    let configs = picked_configs(setup, base);
    let start = crate::derive_run::with_new_layer(
        crate::derive_run::DeriveRun {
            derive: crate::derive::first_derive(setup, base.manifest),
            blobs: Set::empty(),
        },
    );
    assert(images.drop_last().len() == 0);
    assert(crate::derive_run::with_platforms(start, images.drop_last(), configs) == start);
    let digests = Seq::new(images[0].layers.len(), |i: int| images[0].layers[i].digest);
    let config = derived_config(configs[0], setup.layer.diff_id)->0;
    assert(!digests.contains(digest_of(config)));
    assert(crate::derive_run::layer_digests(images[0]) == digests.to_set());
    assert(!crate::derive_run::layer_digests(images[0]).contains(digest_of(config)));
}

/// A derived configuration lists the digests that the configuration of the base image lists in
/// `rootfs.diff_ids`, then that of the new layer. Its history is that of the base image, where it
/// has one, with an entry behind it that says who made the layer. All else stays.
pub proof fn law_layer_is_added_to_the_configuration(
    config: Json,
    diff_id: &str,
    derived: Result<Json, Error>,
    ids: Seq<JsonView>,
)
    requires
        call_ensures(add_layer, (config, diff_id), derived),
        member(config@, "rootfs"@) is Some,
        member(member(config@, "rootfs"@)->0, "diff_ids"@) == Some(JsonView::List(ids)),
        member(config@, "history"@) is None || member(config@, "history"@)->0 is List,
    ensures
        derived is Ok,
        ({
            let new = derived->Ok_0@;
            let old_root = member(config@, "rootfs"@)->0;
            let maker = JsonView::Text("dockdash remote derived layer"@);
            &&& member(new, "rootfs"@) is Some
            &&& member(member(new, "rootfs"@)->0, "diff_ids"@) == Some(
                JsonView::List(ids.push(JsonView::Text(diff_id@))),
            )
            &&& forall|key: Seq<char>|
                key != "diff_ids"@ ==> #[trigger] member(member(new, "rootfs"@)->0, key) == member(
                    old_root,
                    key,
                )
            &&& forall|key: Seq<char>|
                key != "rootfs"@ && key != "history"@ ==> #[trigger] member(new, key) == member(
                    config@,
                    key,
                )
            &&& member(new, "history"@) matches Some(JsonView::List(history)) && {
                &&& history.len() > 0
                &&& member(history.last(), "created_by"@) == Some(maker)
                &&& forall|key: Seq<char>|
                    key != "created_by"@ ==> #[trigger] member(history.last(), key) is None
                &&& member(config@, "history"@) is Some ==> history == (member(
                    config@,
                    "history"@,
                )->0)->List_0.push(history.last())
                &&& member(config@, "history"@) is None ==> history.len() == 1
            }
        }),
{
    reveal_strlit("rootfs");
    reveal_strlit("history");
    assert("rootfs"@.len() != "history"@.len());
}

/// No layer is added to a configuration that does not list the digests of its layers in
/// `rootfs.diff_ids`, nor to one whose history is no list.
pub proof fn law_layer_is_not_added_without_a_list(
    config: Json,
    diff_id: &str,
    derived: Result<Json, Error>,
)
    requires
        call_ensures(add_layer, (config, diff_id), derived),
    ensures
        derived is Ok <==> {
            &&& member(config@, "rootfs"@) is Some
            &&& member(member(config@, "rootfs"@)->0, "diff_ids"@) is Some
            &&& member(member(config@, "rootfs"@)->0, "diff_ids"@)->0 is List
            &&& (member(config@, "history"@) is None || member(config@, "history"@)->0 is List)
        },
{
}

/// A configuration in JSON is derived by reading it, adding the layer, and writing it down.
pub proof fn law_configuration_is_derived_as_json(
    base: &[u8],
    diff_id: &str,
    written: Result<Vec<u8>, Error>,
    config: Json,
    derived: Result<Json, Error>,
)
    requires
        call_ensures(append_diff_id, (base, diff_id), written),
        call_ensures(add_layer, (config, diff_id), derived),
        json_parsed(base@) == Some(config@),
    ensures
        written is Ok == derived is Ok,
        written matches Ok(json) ==> json@ == json_rendered(derived->Ok_0@),
        json_parsed(base@) is None ==> written is Err,
{
}

/// What is no JSON is not derived from.
pub proof fn law_only_json_is_derived_from(
    base: &[u8],
    diff_id: &str,
    written: Result<Vec<u8>, Error>,
)
    requires
        call_ensures(append_diff_id, (base, diff_id), written),
        json_parsed(base@) is None,
    ensures
        written is Err,
{
}

/// Whether there is a value and it is a text.
pub open spec fn is_text(value: Option<JsonView>) -> bool {
    value is Some && value->0 is Text
}

/// A configuration is for the operating system and the architecture that it names, with the variant
/// that it names, if any. One that does not name the first two is for no platform.
pub proof fn law_configuration_names_its_platform(
    document: Json,
    platform: Result<RemotePlatform, Error>,
)
    requires
        call_ensures(platform_in, (&document,), platform),
    ensures
        platform is Ok <==> is_text(member(document@, "os"@)) && is_text(
            member(document@, "architecture"@),
        ),
        platform matches Ok(p) ==> {
            &&& member(document@, "os"@) == Some(JsonView::Text(p.os@))
            &&& member(document@, "architecture"@) == Some(JsonView::Text(p.architecture@))
            &&& match p.variant {
                Some(variant) => member(document@, "variant"@) == Some(JsonView::Text(variant@)),
                None => !is_text(member(document@, "variant"@)),
            }
        },
{
}

/// The platform of a configuration in JSON is the one that its document names.
pub proof fn law_json_names_its_platform(
    config: &[u8],
    read: Result<RemotePlatform, Error>,
    document: Json,
    platform: Result<RemotePlatform, Error>,
)
    requires
        call_ensures(platform_from_image_config, (config,), read),
        call_ensures(platform_in, (&document,), platform),
        json_parsed(config@) == Some(document@),
    ensures
        read is Ok == platform is Ok,
        read matches Ok(r) ==> r@ == platform->Ok_0@,
        config_platform(config@) == (match platform {
            Ok(p) => Some(p@),
            Err(_) => None,
        }),
{
}

/// A blob is described by the media type that was given, its digest and its size.
pub proof fn law_blob_is_described(
    media_type: &str,
    bytes: &[u8],
    descriptor: Result<Descriptor, Error>,
)
    requires
        call_ensures(descriptor_for_bytes, (media_type, bytes), descriptor),
    ensures
        descriptor is Ok == (bytes@.len() <= i64::MAX),
        descriptor matches Ok(d) ==> {
            &&& d.media_type@ == media_type@
            &&& d.digest@ == digest_of(bytes@)
            &&& d.size as int == bytes@.len()
            &&& d.urls is None
            &&& d.annotations is None
        },
{
}

proof fn lemma_first_dash(a: Seq<char>, b: Seq<char>, x: Seq<char>, y: Seq<char>)
    requires
        a + seq!['-'] + x == b + seq!['-'] + y,
        !a.contains('-'),
        !b.contains('-'),
    ensures
        a == b,
        x == y,
{
    let whole = a + seq!['-'] + x;
    assert(whole[a.len() as int] == '-');
    assert((b + seq!['-'] + y)[b.len() as int] == '-');
    if a.len() < b.len() {
        assert(b[a.len() as int] == whole[a.len() as int]);
        assert(b.contains('-'));
    }
    if b.len() < a.len() {
        assert(a[b.len() as int] == whole[b.len() as int]);
        assert(a.contains('-'));
    }
    assert(a == whole.take(a.len() as int));
    assert(b == whole.take(a.len() as int));
    assert(x == whole.skip(a.len() as int + 1));
    assert(y == whole.skip(a.len() as int + 1));
}

/// The name under which the image for a platform is published is the registry, the repository and
/// the tag of the target, with the operating system, the architecture and the variant behind it.
pub proof fn law_image_is_published_in_the_target_repository(
    setup: SetupView,
    platform: RemotePlatformView,
)
    ensures
        ({
            let front = setup.target.registry + "/"@ + setup.target.repository + ":"@ + setup.tag;
            let behind = "-"@ + platform.os + "-"@ + platform.architecture;
            &&& platform.variant is None ==> platform_reference(setup, platform) == front + behind
            &&& platform.variant is Some ==> platform_reference(setup, platform) == front + (behind
                + ("-"@ + platform.variant->0))
        }),
{
    let front = setup.target.registry + "/"@ + setup.target.repository + ":"@ + setup.tag;
    let behind = "-"@ + platform.os + "-"@ + platform.architecture;
    if platform.variant is None {
        assert(platform_reference(setup, platform) =~= front + behind);
    } else {
        assert(platform_reference(setup, platform) =~= front + (behind + ("-"@
            + platform.variant->0)));
    }
}

/// The images for different platforms are published under different names, where no part of a
/// platform has a hyphen in it.
pub proof fn law_platforms_have_names_of_their_own(
    setup: SetupView,
    a: RemotePlatformView,
    b: RemotePlatformView,
)
    requires
        platform_reference(setup, a) == platform_reference(setup, b),
        !a.os.contains('-') && !b.os.contains('-'),
        !a.architecture.contains('-') && !b.architecture.contains('-'),
    ensures
        a == b,
{
    reveal_strlit("-");
    assert("-"@ == seq!['-']);
    let front = setup.target.registry + "/"@ + setup.target.repository + ":"@ + setup.tag + "-"@;
    let (first, second) = (platform_reference(setup, a), platform_reference(setup, b));
    let behind_a = match a.variant {
        Some(variant) => a.architecture + seq!['-'] + variant,
        None => a.architecture,
    };
    let behind_b = match b.variant {
        Some(variant) => b.architecture + seq!['-'] + variant,
        None => b.architecture,
    };
    assert(first =~= front + (a.os + seq!['-'] + behind_a));
    assert(second =~= front + (b.os + seq!['-'] + behind_b));
    assert(first.skip(front.len() as int) =~= a.os + seq!['-'] + behind_a);
    assert(second.skip(front.len() as int) =~= b.os + seq!['-'] + behind_b);
    lemma_first_dash(a.os, b.os, behind_a, behind_b);
    match (a.variant, b.variant) {
        (Some(v), Some(w)) => {
            lemma_first_dash(a.architecture, b.architecture, v, w);
        },
        (Some(v), None) => {
            assert(behind_a[a.architecture.len() as int] == '-');
            assert(b.architecture.contains('-'));
        },
        (None, Some(w)) => {
            assert(behind_b[b.architecture.len() as int] == '-');
            assert(a.architecture.contains('-'));
        },
        (None, None) => {},
    }
}

/// A derivation starts if and only if a platform is asked for, both references can be read, and the
/// target has a tag and no digest. It is then for these references, platforms and layer.
pub proof fn law_derivation_starts(
    base_reference: &str,
    target_reference: &str,
    platforms: Vec<RemotePlatform>,
    layer: &Layer,
    options: &RemoteDeriveOptions,
    start: Result<(DeriveStep, bool), Error>,
)
    requires
        call_ensures(
            derive_remote_image,
            (base_reference, target_reference, platforms, layer, options),
            start,
        ),
    ensures
        start is Ok <==> {
            &&& platforms@.len() > 0
            &&& parsed_reference(base_reference@) is Ok
            &&& parsed_reference(target_reference@) matches Ok(target) && target.tag is Some
                && target.digest is None
        },
        start matches Ok((step, monolithic)) ==> step@ matches DeriveStepView::AuthBase(setup) && {
            &&& setup.base == parsed_reference(base_reference@)->Ok_0
            &&& setup.target == parsed_reference(target_reference@)->Ok_0
            &&& setup.target_text == target_reference@
            &&& setup.target.tag == Some(setup.tag)
            &&& setup.platforms.len() == platforms@.len()
            &&& forall|i: int|
                0 <= i < platforms@.len() ==> {
                    &&& (#[trigger] setup.platforms[i]).os == platforms@[i].os@
                    &&& setup.platforms[i].architecture == platforms@[i].architecture@
                    &&& setup.platforms[i].variant == text_of(platforms@[i].variant)
                }
            &&& setup.layer == layer@
            &&& options.monolithic_push == MonolithicPushPolicy::Always ==> monolithic
            &&& options.monolithic_push == MonolithicPushPolicy::Never ==> !monolithic
            &&& options.monolithic_push == MonolithicPushPolicy::Auto ==> monolithic
                == needs_monolithic_push(setup.target.resolved_registry)
        },
{
}

/// Whether a step leads to a state of the run.
pub open spec fn leads_to(step: Result<DeriveStep, Error>, state: DeriveState) -> bool {
    match state.step {
        Some(next) => step matches Ok(s) && s@ == next,
        None => step is Err,
    }
}

/// The first steps of a derivation lead on as its run says: two logins, and then what the base
/// reference names.
pub proof fn law_first_steps_follow_the_run(
    blobs: Set<Seq<char>>,
    base: BaseView,
    login: DeriveAuthBase,
    after_login: Result<DeriveStep, Error>,
    target_login: DeriveAuthTarget,
    after_target_login: Result<DeriveStep, Error>,
    pull: DerivePullBase,
    manifest: Manifest,
    after_pull: Result<DeriveStep, Error>,
)
    requires
        call_ensures(DeriveAuthBase::resume, (login, Ok(())), after_login),
        call_ensures(DeriveAuthTarget::resume, (target_login, Ok(())), after_target_login),
        call_ensures(DerivePullBase::resume, (pull, Ok(manifest)), after_pull),
        manifest@ == base.manifest,
    ensures
        leads_to(
            after_login,
            next_state(DeriveState { step: Some(DeriveStepView::AuthBase(login@)), blobs }, base),
        ),
        leads_to(
            after_target_login,
            next_state(
                DeriveState { step: Some(DeriveStepView::AuthTarget(target_login@)), blobs },
                base,
            ),
        ),
        leads_to(
            after_pull,
            next_state(DeriveState { step: Some(DeriveStepView::PullBase(pull@)), blobs }, base),
        ),
{
}

/// The steps for the new layer lead on as the run says: it is uploaded only where the target
/// repository does not have it.
pub proof fn law_layer_steps_follow_the_run(
    blobs: Set<Seq<char>>,
    base: BaseView,
    mount: DeriveMountLayer,
    after_mount: Result<DeriveStep, Error>,
    push: DerivePushLayer,
    after_push: Result<DeriveStep, Error>,
)
    requires
        call_ensures(
            DeriveMountLayer::resume,
            (mount, blobs.contains(mount@.setup.layer.blob_digest)),
            after_mount,
        ),
        call_ensures(DerivePushLayer::resume, (push, Ok(())), after_push),
    ensures
        leads_to(
            after_mount,
            next_state(
                DeriveState { step: Some(DeriveStepView::MountLayer(mount@)), blobs },
                base,
            ),
        ),
        leads_to(
            after_push,
            next_state(DeriveState { step: Some(DeriveStepView::PushLayer(push@)), blobs }, base),
        ),
{
}

/// The steps that read the base image for a platform and mount its layers lead on as the run says.
pub proof fn law_base_steps_follow_the_run(
    blobs: Set<Seq<char>>,
    base: BaseView,
    single: DerivePullPlatformConfig,
    single_config: Vec<u8>,
    after_single: Result<DeriveStep, Error>,
    listed: DerivePullPlatformManifest,
    image: ImageManifest,
    after_listed: Result<DeriveStep, Error>,
    mount: DeriveMountBase,
    after_mount: Result<DeriveStep, Error>,
)
    requires
        call_ensures(DerivePullPlatformConfig::resume, (single, Ok(single_config)), after_single),
        single_config@ == base.configs[single@.1.digest],
        call_ensures(DerivePullPlatformManifest::resume, (listed, Ok(image)), after_listed),
        image@ == base.images[listed@.1],
        call_ensures(DeriveMountBase::resume, (mount, Ok(())), after_mount),
    ensures
        leads_to(
            after_single,
            next_state(
                DeriveState {
                    step: Some(DeriveStepView::PullPlatformConfig(single@.0, single@.1)),
                    blobs,
                },
                base,
            ),
        ),
        leads_to(
            after_listed,
            next_state(
                DeriveState {
                    step: Some(DeriveStepView::PullPlatformManifest(listed@.0, listed@.1)),
                    blobs,
                },
                base,
            ),
        ),
        leads_to(
            after_mount,
            next_state(
                DeriveState {
                    step: Some(DeriveStepView::MountBase(mount@.0, mount@.1, mount@.2)),
                    blobs,
                },
                base,
            ),
        ),
{
}

/// The steps for the derived configuration lead on as the run says: it is uploaded only where the
/// target repository does not have it.
pub proof fn law_config_steps_follow_the_run(
    blobs: Set<Seq<char>>,
    base: BaseView,
    pull: DerivePullConfig,
    config: Vec<u8>,
    after_pull: Result<DeriveStep, Error>,
    mount: DeriveMountConfig,
    after_mount: Result<DeriveStep, Error>,
    push: DerivePushConfig,
    after_push: Result<DeriveStep, Error>,
)
    requires
        call_ensures(DerivePullConfig::resume, (pull, Ok(config)), after_pull),
        config@ == base.configs[pull@.1.config.digest],
        call_ensures(
            DeriveMountConfig::resume,
            (mount, blobs.contains(digest_of(mount@.2))),
            after_mount,
        ),
        call_ensures(DerivePushConfig::resume, (push, Ok(())), after_push),
    ensures
        leads_to(
            after_pull,
            next_state(
                DeriveState { step: Some(DeriveStepView::PullConfig(pull@.0, pull@.1)), blobs },
                base,
            ),
        ),
        leads_to(
            after_mount,
            next_state(
                DeriveState {
                    step: Some(DeriveStepView::MountConfig(mount@.0, mount@.1, mount@.2)),
                    blobs,
                },
                base,
            ),
        ),
        leads_to(
            after_push,
            next_state(
                DeriveState {
                    step: Some(DeriveStepView::PushConfig(push@.0, push@.1, push@.2)),
                    blobs,
                },
                base,
            ),
        ),
{
}

/// The last steps lead on as the run says; and once the index is published, the result names the
/// target as it was asked for, the digest of that index, and what was uploaded.
pub proof fn law_last_steps_follow_the_run(
    blobs: Set<Seq<char>>,
    base: BaseView,
    publish: DerivePushManifest,
    after_publish: Result<DeriveStep, Error>,
    index: DerivePushIndex,
    derived: Result<RemoteDerivedImage, Error>,
)
    requires
        call_ensures(DerivePushManifest::resume, (publish, Ok(())), after_publish),
        call_ensures(DerivePushIndex::resume, (index, Ok(())), derived),
    ensures
        leads_to(
            after_publish,
            next_state(
                DeriveState {
                    step: Some(DeriveStepView::PushManifest(publish@.0, publish@.1, publish@.2)),
                    blobs,
                },
                base,
            ),
        ),
        derived matches Ok(image) && {
            &&& image.reference@ == index@.0.target_text
            &&& image.digest@ == digest_of(index@.2)
            &&& image.base_layer_bytes_downloaded == 0
            &&& image.bytes_uploaded == index@.1
        },
{
}

/// No request that fails is passed over: where the registry refuses one, the derivation ends.
pub proof fn law_failed_requests_end_the_derivation(
    why: RegistryError,
    login: DeriveAuthBase,
    target_login: DeriveAuthTarget,
    pull: DerivePullBase,
    push: DerivePushLayer,
    mount: DeriveMountBase,
    push_config: DerivePushConfig,
    publish: DerivePushManifest,
    step: Result<DeriveStep, Error>,
)
    requires
        call_ensures(DeriveAuthBase::resume, (login, Err(why)), step) || call_ensures(
            DeriveAuthTarget::resume,
            (target_login, Err(why)),
            step,
        ) || call_ensures(DerivePullBase::resume, (pull, Err(why)), step) || call_ensures(
            DerivePushLayer::resume,
            (push, Err(why)),
            step,
        ) || call_ensures(DeriveMountBase::resume, (mount, Err(why)), step) || call_ensures(
            DerivePushConfig::resume,
            (push_config, Err(why)),
            step,
        ) || call_ensures(DerivePushManifest::resume, (publish, Err(why)), step),
    ensures
        step is Err,
{
}

/// What a derivation asks for, reads and uploads at each step: the new layer by its digest and with
/// its blob, the configuration that the base image names, each base layer by its digest in turn,
/// and the derived configuration by the digest of what is uploaded.
pub proof fn law_steps_ask_for_what_they_need(
    mount_layer: &DeriveMountLayer,
    mount_layer_digest: &str,
    push_layer: &DerivePushLayer,
    push_layer_digest: &str,
    push_layer_blob: &Vec<u8>,
    listed: &DerivePullPlatformManifest,
    listed_digest: &str,
    mount_base: &DeriveMountBase,
    mount_base_digest: &str,
    pull_config: &DerivePullConfig,
    pulled: &Descriptor,
    mount_config: &DeriveMountConfig,
    mount_config_digest: String,
    push_config: &DerivePushConfig,
    push_config_digest: String,
    push_config_blob: &Vec<u8>,
)
    requires
        call_ensures(DeriveMountLayer::digest, (mount_layer,), mount_layer_digest),
        call_ensures(DerivePushLayer::digest, (push_layer,), push_layer_digest),
        call_ensures(DerivePushLayer::blob, (push_layer,), push_layer_blob),
        call_ensures(DerivePullPlatformManifest::digest, (listed,), listed_digest),
        call_ensures(DeriveMountBase::digest, (mount_base,), mount_base_digest),
        call_ensures(DerivePullConfig::descriptor, (pull_config,), pulled),
        call_ensures(DeriveMountConfig::digest, (mount_config,), mount_config_digest),
        call_ensures(DerivePushConfig::digest, (push_config,), push_config_digest),
        call_ensures(DerivePushConfig::config, (push_config,), push_config_blob),
    ensures
        mount_layer_digest@ == mount_layer@.setup.layer.blob_digest,
        push_layer_digest@ == push_layer@.setup.layer.blob_digest,
        push_layer_blob@ == push_layer@.setup.layer.blob,
        listed_digest@ == listed@.1,
        mount_base_digest@ == mount_base@.1.layers[mount_base@.2 as int].digest,
        pulled@ == pull_config@.1.config,
        mount_config_digest@ == digest_of(mount_config@.2),
        push_config_digest@ == digest_of(push_config_blob@),
        push_config_blob@ == push_config@.2,
{
}

/// The layers of a base image are mounted in their order, each once, and then its configuration is
/// read; no layer is ever pulled.
pub proof fn law_layers_are_mounted_in_order(
    derive: DeriveView,
    image: ImageManifestView,
    mounted: nat,
)
    ensures
        mounted < image.layers.len() ==> base_step(derive, image, mounted)
            == DeriveStepView::MountBase(derive, image, mounted),
        mounted >= image.layers.len() ==> base_step(derive, image, mounted)
            == DeriveStepView::PullConfig(derive, image),
{
}

/// A single base image is used for a platform if and only if its configuration is for exactly that
/// platform.
pub proof fn law_single_image_has_to_be_for_the_platform(
    single: DerivePullPlatformConfig,
    config: Vec<u8>,
    step: Result<DeriveStep, Error>,
)
    requires
        call_ensures(DerivePullPlatformConfig::resume, (single, Ok(config)), step),
    ensures
        step is Ok <==> config_platform(config@) == Some(
            single@.0.setup.platforms[single@.0.entries.len() as int],
        ),
{
}

/// At the start of a derivation nothing is uploaded and no image is derived.
pub proof fn law_derivation_starts_with_nothing(setup: SetupView, manifest: ManifestView)
    ensures
        first_derive(setup, manifest).setup == setup,
        first_derive(setup, manifest).manifest == manifest,
        first_derive(setup, manifest).entries.len() == 0,
        first_derive(setup, manifest).uploaded == 0,
{
}

/// For each platform in turn, an index is searched for its image; where there is none, the failure
/// names the platform. Of a single image the configuration is read.
pub proof fn law_platforms_are_taken_in_turn(derive: DeriveView)
    requires
        derive.entries.len() < derive.setup.platforms.len(),
    ensures
        ({
            let platform = derive.setup.platforms[derive.entries.len() as int];
            match derive.manifest {
                ManifestView::Image(image) => platform_step(derive) == Ok::<
                    DeriveStepView,
                    Seq<char>,
                >(DeriveStepView::PullPlatformConfig(derive, image.config)),
                ManifestView::ImageIndex(index) => {
                    &&& platform_step(derive) is Ok <==> exists|i: int|
                        0 <= i < index.manifests.len() && is_listed_for(
                            #[trigger] index.manifests[i],
                            platform,
                        )
                    &&& platform_step(derive) matches Err(message) ==> message
                        == "base image has no "@ + platform.os + "/"@ + platform.architecture
                        + " manifest"@
                },
            }
        }),
{
    let platform = derive.setup.platforms[derive.entries.len() as int];
    if let ManifestView::ImageIndex(index) = derive.manifest {
        let entries = index.manifests;
        if exists|i: int|
            0 <= i < entries.len() && is_listed_for(#[trigger] entries[i], platform) {
            let some = choose|i: int|
                0 <= i < entries.len() && is_listed_for(#[trigger] entries[i], platform);
            let first = lemma_first_listed(entries, platform, some);
            law_first_image_for_the_platform_is_taken(entries, platform, first);
        } else {
            law_no_image_for_the_platform_is_taken(entries, platform);
        }
    }
}

proof fn lemma_first_listed(
    entries: Seq<IndexEntryView>,
    platform: RemotePlatformView,
    some: int,
) -> (first: int)
    requires
        0 <= some < entries.len(),
        is_listed_for(entries[some], platform),
    ensures
        0 <= first <= some,
        is_listed_for(entries[first], platform),
        forall|j: int| 0 <= j < first ==> !is_listed_for(#[trigger] entries[j], platform),
    decreases some,
{
    if exists|j: int| 0 <= j < some && is_listed_for(#[trigger] entries[j], platform) {
        let less = choose|j: int| 0 <= j < some && is_listed_for(#[trigger] entries[j], platform);
        lemma_first_listed(entries, platform, less)
    } else {
        some
    }
}

/// What is wrong with a configuration is told: that it is no JSON, that it lists no digests, or
/// that its history is no list.
pub proof fn law_failed_derivation_says_why(
    base: &[u8],
    diff_id: &str,
    written: Result<Vec<u8>, Error>,
)
    requires
        call_ensures(append_diff_id, (base, diff_id), written),
        written is Err,
    ensures
        ({
            let error = written->Err_0;
            let config = json_parsed(base@)->0;
            let root = member(config, "rootfs"@)->0;
            let has_ids = member(config, "rootfs"@) is Some && member(root, "diff_ids"@) is Some
                && member(root, "diff_ids"@)->0 is List;
            &&& json_parsed(base@) is None ==> error is ImageConfig
                && error->ImageConfig_message@ == "Failed to parse base image configuration"@
            &&& json_parsed(base@) is Some && !has_ids ==> error is Generic
                && error->Generic_message@ == "base image config has no rootfs.diff_ids array"@
            &&& json_parsed(base@) is Some && has_ids ==> error is Generic
                && error->Generic_message@ == "base image config history is not an array"@
        }),
{
}

/// What a configuration does not say of its platform is told.
pub proof fn law_missing_platform_is_told(
    document: Json,
    platform: Result<RemotePlatform, Error>,
)
    requires
        call_ensures(platform_in, (&document,), platform),
        platform is Err,
    ensures
        platform->Err_0 is Generic,
        !is_text(member(document@, "os"@)) ==> platform->Err_0->Generic_message@
            == "base image config has no string field '"@ + "os"@ + "'"@,
        is_text(member(document@, "os"@)) ==> platform->Err_0->Generic_message@
            == "base image config has no string field '"@ + "architecture"@ + "'"@,
{
}

/// The logins are made to the registries of the base image and of the target; and what is published
/// is the manifest under its reference, and the index, each as what it is.
pub proof fn law_steps_go_where_they_belong(
    login: &DeriveAuthBase,
    base: &ImageReference,
    target: &ImageReference,
    publish: &DerivePushManifest,
    reference: &ImageReference,
    manifest: &Vec<u8>,
    manifest_type: &'static str,
    last: &DerivePushIndex,
    index: &Vec<u8>,
    index_type: &'static str,
)
    requires
        call_ensures(DeriveAuthBase::reference, (login,), base),
        call_ensures(DeriveAuthBase::target, (login,), target),
        call_ensures(DerivePushManifest::reference, (publish,), reference),
        call_ensures(DerivePushManifest::manifest, (publish,), manifest),
        call_ensures(DerivePushManifest::content_type, (publish,), manifest_type),
        call_ensures(DerivePushIndex::index, (last,), index),
        call_ensures(DerivePushIndex::content_type, (last,), index_type),
    ensures
        base@ == login@.base,
        target@ == login@.target,
        reference@ == publish@.1,
        manifest@ == publish@.2,
        manifest_type@ == "application/vnd.oci.image.manifest.v1+json"@,
        index@ == last@.2,
        index_type@ == "application/vnd.oci.image.index.v1+json"@,
{
}

/// The manifest for a platform is published under the name of that platform in the target
/// repository.
pub proof fn law_manifest_is_published_for_its_platform(
    derive: DeriveView,
    image: ImageManifestView,
    config: Seq<u8>,
)
    requires
        derive.entries.len() < derive.setup.platforms.len(),
    ensures
        ({
            let platform = derive.setup.platforms[derive.entries.len() as int];
            let name = parsed_reference(platform_reference(derive.setup, platform));
            &&& manifest_step(derive, image, config) is Some == name is Ok
            &&& name is Ok ==> manifest_step(derive, image, config) == Some(
                DeriveStepView::PushManifest(
                    derive,
                    name->Ok_0,
                    canonical_image_manifest(derived_manifest(derive.setup, image, config)),
                ),
            )
        }),
{
}

/// Two platforms are the same if and only if all three of their parts are.
pub proof fn law_same_platforms(a: &RemotePlatform, b: &RemotePlatform, same: bool)
    requires
        call_ensures(RemotePlatform::is_same, (a, b), same),
    ensures
        same <==> a.os@ == b.os@ && a.architecture@ == b.architecture@ && text_of(a.variant)
            == text_of(b.variant),
{
    assert(a.os@ == b.os@ && a.architecture@ == b.architecture@ && text_of(a.variant) == text_of(
        b.variant,
    ) ==> a@ == b@);
}

/// What the target repository does not have is uploaded, and what it has is not: the new layer, and
/// the derived configuration.
pub proof fn law_only_what_is_missing_is_uploaded(
    layer: DeriveMountLayer,
    has_layer: bool,
    after_layer: Result<DeriveStep, Error>,
    config: DeriveMountConfig,
    has_config: bool,
    after_config: Result<DeriveStep, Error>,
)
    requires
        call_ensures(DeriveMountLayer::resume, (layer, has_layer), after_layer),
        call_ensures(DeriveMountConfig::resume, (config, has_config), after_config),
    ensures
        !has_layer ==> (after_layer matches Ok(next) && next@ == DeriveStepView::PushLayer(layer@)),
        has_layer ==> (after_layer matches Ok(next) ==> next@ is PullPlatformConfig
            || next@ is PullPlatformManifest),
        !has_config ==> (after_config matches Ok(next) && next@ == DeriveStepView::PushConfig(
            config@.0,
            config@.1,
            config@.2,
        )),
        has_config ==> (after_config matches Ok(next) ==> next@ is PushManifest),
        has_layer && after_layer is Ok ==> derive_in(after_layer->Ok_0@) == Some(layer@),
        has_config && after_config is Ok ==> derive_in(after_config->Ok_0@) == Some(config@.0),
{
}

/// The derivation that a step belongs to, once it has begun.
pub open spec fn derive_in(step: DeriveStepView) -> Option<DeriveView> {
    match step {
        DeriveStepView::MountLayer(derive) => Some(derive),
        DeriveStepView::PushLayer(derive) => Some(derive),
        DeriveStepView::PullPlatformConfig(derive, _) => Some(derive),
        DeriveStepView::PullPlatformManifest(derive, _) => Some(derive),
        DeriveStepView::MountBase(derive, _, _) => Some(derive),
        DeriveStepView::PullConfig(derive, _) => Some(derive),
        DeriveStepView::MountConfig(derive, _, _) => Some(derive),
        DeriveStepView::PushConfig(derive, _, _) => Some(derive),
        DeriveStepView::PushManifest(derive, _, _) => Some(derive),
        _ => None,
    }
}

/// What was uploaded counts, by its size, and by nothing else; and the derivation goes on with the
/// same setup and the same images.
pub proof fn law_uploads_count_by_their_sizes(
    layer: DerivePushLayer,
    after_layer: Result<DeriveStep, Error>,
    config: DerivePushConfig,
    after_config: Result<DeriveStep, Error>,
)
    requires
        call_ensures(DerivePushLayer::resume, (layer, Ok(())), after_layer),
        call_ensures(DerivePushConfig::resume, (config, Ok(())), after_config),
    ensures
        after_layer matches Ok(next) ==> {
            &&& next@ is PullPlatformConfig || next@ is PullPlatformManifest
            &&& derive_in(next@) == Some(
                DeriveView {
                    uploaded: layer@.uploaded + layer@.setup.layer.blob.len(),
                    ..layer@
                },
            )
        },
        after_config matches Ok(next) ==> {
            &&& next@ is PushManifest
            &&& derive_in(next@) == Some(
                DeriveView { uploaded: config@.0.uploaded + config@.2.len(), ..config@.0 },
            )
        },
{
}

/// Logins come first, then what the base reference names is read, and then the new layer is asked
/// for, unless it is too large for a descriptor.
pub proof fn law_first_steps_come_in_order(
    login: DeriveAuthBase,
    after_login: Result<DeriveStep, Error>,
    target_login: DeriveAuthTarget,
    after_target_login: Result<DeriveStep, Error>,
    pull: DerivePullBase,
    manifest: Manifest,
    after_pull: Result<DeriveStep, Error>,
)
    requires
        call_ensures(DeriveAuthBase::resume, (login, Ok(())), after_login),
        call_ensures(DeriveAuthTarget::resume, (target_login, Ok(())), after_target_login),
        call_ensures(DerivePullBase::resume, (pull, Ok(manifest)), after_pull),
    ensures
        after_login matches Ok(next) && next@ == DeriveStepView::AuthTarget(login@),
        after_target_login matches Ok(next) && next@ == DeriveStepView::PullBase(target_login@),
        after_pull is Ok <==> pull@.layer.blob.len() <= i64::MAX,
        after_pull matches Ok(next) ==> next@ == DeriveStepView::MountLayer(
            DeriveView {
                setup: pull@,
                manifest: manifest@,
                entries: Seq::empty(),
                uploaded: 0,
            },
        ),
{
}

/// Every layer of the base image is mounted before its configuration is read, and the configuration
/// that is asked for is the one that was read with the new layer added.
pub proof fn law_base_image_is_mounted_before_it_is_derived_from(
    listed: DerivePullPlatformManifest,
    image: ImageManifest,
    after_listed: Result<DeriveStep, Error>,
    mount: DeriveMountBase,
    after_mount: Result<DeriveStep, Error>,
    pull: DerivePullConfig,
    base: Vec<u8>,
    after_pull: Result<DeriveStep, Error>,
)
    requires
        call_ensures(DerivePullPlatformManifest::resume, (listed, Ok(image)), after_listed),
        call_ensures(DeriveMountBase::resume, (mount, Ok(())), after_mount),
        call_ensures(DerivePullConfig::resume, (pull, Ok(base)), after_pull),
    ensures
        after_listed is Ok && after_mount is Ok,
        image@.layers.len() > 0 ==> after_listed->Ok_0@ == DeriveStepView::MountBase(
            listed@.0,
            image@,
            0,
        ),
        image@.layers.len() == 0 ==> after_listed->Ok_0@ == DeriveStepView::PullConfig(
            listed@.0,
            image@,
        ),
        mount@.2 + 1 < mount@.1.layers.len() ==> after_mount->Ok_0@ == DeriveStepView::MountBase(
            mount@.0,
            mount@.1,
            mount@.2 + 1,
        ),
        mount@.2 + 1 >= mount@.1.layers.len() ==> after_mount->Ok_0@ == DeriveStepView::PullConfig(
            mount@.0,
            mount@.1,
        ),
        after_pull matches Ok(next) ==> {
            &&& derived_config(base@, pull@.0.setup.layer.diff_id) is Some
            &&& next@ == DeriveStepView::MountConfig(
                pull@.0,
                pull@.1,
                derived_config(base@, pull@.0.setup.layer.diff_id)->0,
            )
        },
        after_pull is Ok <==> derived_config(base@, pull@.0.setup.layer.diff_id) is Some
            && derived_config(base@, pull@.0.setup.layer.diff_id)->0.len() <= i64::MAX,
{
}

/// Once the manifest for a platform is published, its image stands last in the index, under that
/// platform; then comes the next platform, and behind the last one the index.
pub proof fn law_published_manifest_is_listed(
    publish: DerivePushManifest,
    step: Result<DeriveStep, Error>,
)
    requires
        call_ensures(DerivePushManifest::resume, (publish, Ok(())), step),
        step is Ok,
    ensures
        ({
            let derive = publish@.0;
            let platform = derive.setup.platforms[derive.entries.len() as int];
            let next = derive_in(step->Ok_0@);
            &&& publish@.2.len() <= i64::MAX
            &&& derive.entries.len() + 1 < derive.setup.platforms.len() ==> {
                &&& next is Some
                &&& next->0.setup == derive.setup
                &&& next->0.manifest == derive.manifest
                &&& next->0.uploaded == derive.uploaded
                &&& next->0.entries.len() == derive.entries.len() + 1
                &&& derive.entries.is_prefix_of(next->0.entries)
                &&& is_listed_for(next->0.entries.last(), platform)
                &&& next->0.entries.last().digest == digest_of(publish@.2)
                &&& next->0.entries.last().size as int == publish@.2.len()
            }
            &&& derive.entries.len() + 1 >= derive.setup.platforms.len() ==> {
                &&& step->Ok_0@ is PushIndex
                &&& step->Ok_0@->PushIndex_0 == derive.setup
                &&& step->Ok_0@->PushIndex_1 == derive.uploaded
            }
        }),
{
}

/// Why a derivation does not start is told: first that no platform was asked for, then which
/// reference cannot be read, then that the target has no tag or has a digest.
pub proof fn law_refused_derivation_says_why(
    base_reference: &str,
    target_reference: &str,
    platforms: Vec<RemotePlatform>,
    layer: &Layer,
    options: &RemoteDeriveOptions,
    start: Result<(DeriveStep, bool), Error>,
)
    requires
        call_ensures(
            derive_remote_image,
            (base_reference, target_reference, platforms, layer, options),
            start,
        ),
        start is Err,
    ensures
        ({
            let message = start->Err_0->Generic_message@;
            let base = parsed_reference(base_reference@);
            let target = parsed_reference(target_reference@);
            &&& start->Err_0 is Generic
            &&& platforms@.len() == 0 ==> message == "at least one target platform is required"@
            &&& platforms@.len() > 0 && base is Err ==> message == "Invalid "@ + "base"@
                + " image reference '"@ + base_reference@ + "'"@
            &&& platforms@.len() > 0 && base is Ok && target is Err ==> message == "Invalid "@
                + "target"@ + " image reference '"@ + target_reference@ + "'"@
            &&& platforms@.len() > 0 && base is Ok && target is Ok && target->Ok_0.tag is None
                ==> message == "target reference must contain a tag"@
            &&& platforms@.len() > 0 && base is Ok && target is Ok && target->Ok_0.tag is Some
                ==> message == "target reference cannot contain a digest"@
        }),
{
}

/// A name for a derived image that is no image reference is told.
pub proof fn law_bad_name_is_told(config: DeriveMountConfig, step: Result<DeriveStep, Error>)
    requires
        call_ensures(DeriveMountConfig::resume, (config, true), step),
    ensures
        ({
            let derive = config@.0;
            let platform = derive.setup.platforms[derive.entries.len() as int];
            let name = platform_reference(derive.setup, platform);
            &&& step is Ok == parsed_reference(name) is Ok
            &&& step matches Err(error) ==> error is Generic && error->Generic_message@
                == "Invalid "@ + "derived architecture"@ + " image reference '"@ + name + "'"@
        }),
{
}

/// What is no JSON says nothing of a platform, and that is told.
pub proof fn law_only_json_names_a_platform(
    config: &[u8],
    platform: Result<RemotePlatform, Error>,
)
    requires
        call_ensures(platform_from_image_config, (config,), platform),
        json_parsed(config@) is None,
    ensures
        platform matches Err(error) && error is ImageConfig && error->ImageConfig_message@
            == "Failed to parse base image configuration"@,
{
}

} // verus!

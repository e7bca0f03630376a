use vstd::prelude::*;

use crate::blobcache::BlobCache;
use crate::config::{
    configuration_fields, configuration_rest, ImageFields, ImageFieldsView, ImageSettings, RestView,
};
use crate::digest::digest_of;
use crate::error::{Error, RegistryError};
use crate::image::{
    metadata_view, BuildDiagnostics, Image, ImageMetadata, ManifestSource, PullPolicy, RegistryAuth,
};
use crate::image_builder::{
    after_manifest_record, built_fields, is_built_from_scratch, is_built_on_base, manifest_key,
    resolve_platform, with_blob, BaseFetchView, BlobLookup, BlobPull, BlobStore, BuildStep,
    BuildStepView, BuiltImage, BuiltImageView, ImageBuilder, ImageBuilderView, ManifestLookup,
    ManifestPull, ManifestStore, PendingView, PullAndExtractOptions,
};
use crate::layer_build::Layer;
use crate::manifest::{parsed_manifest_record, ImageManifest, IndexEntry};
use crate::reference::{parsed_reference, ImageReference, ReferenceView};
use crate::text::{text_of, texts, texts_of};

verus! {

/// Whether an image in an index has an operating system and an architecture.
pub open spec fn has_os_and_arch(entry: IndexEntry, os: Seq<char>, arch: Seq<char>) -> bool {
    &&& entry.platform is Some
    &&& entry.platform->0.os@ == os
    &&& entry.platform->0.architecture@ == arch
}

/// An image is picked from an index if and only if one has the operating system and the
/// architecture that are asked for, whatever its variant, its version and its features; and it is
/// the first such one.
pub proof fn law_image_is_picked_by_os_and_architecture(
    entries: Vec<IndexEntry>,
    os: &str,
    arch: &str,
    digest: Option<String>,
)
    requires
        call_ensures(resolve_platform, (&entries, os, arch), digest),
    ensures
        digest is Some <==> exists|i: int|
            0 <= i < entries@.len() && has_os_and_arch(#[trigger] entries@[i], os@, arch@),
        forall|i: int|
            0 <= i < entries@.len() && has_os_and_arch(#[trigger] entries@[i], os@, arch@) && (
            forall|j: int| 0 <= j < i ==> !has_os_and_arch(#[trigger] entries@[j], os@, arch@))
                ==> digest->0@ == entries@[i].digest@,
{
    if digest is Some {
        let k = choose|k: int|
            #![trigger entries@[k]]
            {
                &&& 0 <= k < entries.len()
                &&& crate::image_builder::is_for(entries@[k]@, os@, arch@)
                &&& entries@[k].digest@ == digest->0@
                &&& forall|j: int|
                    0 <= j < k ==> !crate::image_builder::is_for(
                        #[trigger] entries@[j]@,
                        os@,
                        arch@,
                    )
            };
        assert(has_os_and_arch(entries@[k], os@, arch@));
        assert forall|i: int|
            0 <= i < entries@.len() && has_os_and_arch(#[trigger] entries@[i], os@, arch@) && (
            forall|j: int|
                0 <= j < i ==> !has_os_and_arch(
                    #[trigger] entries@[j],
                    os@,
                    arch@,
                )) implies digest->0@ == entries@[i].digest@ by {
            assert(crate::image_builder::is_for(entries@[i]@, os@, arch@));
            if i < k {
                assert(!crate::image_builder::is_for(entries@[i]@, os@, arch@));
            }
            if k < i {
                assert(!has_os_and_arch(entries@[k], os@, arch@));
            }
        }
    } else {
        assert forall|i: int| 0 <= i < entries@.len() implies !has_os_and_arch(
            #[trigger] entries@[i],
            os@,
            arch@,
        ) by {
            assert(!crate::image_builder::is_for(entries@[i]@, os@, arch@));
        }
    }
}

/// The choice depends on nothing of the images but their operating systems, their architectures and
/// their digests: two indexes that agree on these give the same image.
pub proof fn law_variants_do_not_matter_to_the_choice(
    a: Vec<IndexEntry>,
    b: Vec<IndexEntry>,
    os: &str,
    arch: &str,
    from_a: Option<String>,
    from_b: Option<String>,
)
    requires
        call_ensures(resolve_platform, (&a, os, arch), from_a),
        call_ensures(resolve_platform, (&b, os, arch), from_b),
        a@.len() == b@.len(),
        forall|i: int|
            0 <= i < a@.len() ==> {
                &&& (#[trigger] a@[i]).platform is Some == b@[i].platform is Some
                &&& a@[i].platform is Some ==> a@[i].platform->0.os@ == b@[i].platform->0.os@
                &&& a@[i].platform is Some ==> a@[i].platform->0.architecture@
                    == b@[i].platform->0.architecture@
                &&& a@[i].digest@ == b@[i].digest@
            },
    ensures
        text_of(from_a) == text_of(from_b),
{
    law_image_is_picked_by_os_and_architecture(a, os, arch, from_a);
    law_image_is_picked_by_os_and_architecture(b, os, arch, from_b);
    assert forall|i: int| 0 <= i < a@.len() implies has_os_and_arch(#[trigger] a@[i], os@, arch@)
        == has_os_and_arch(b@[i], os@, arch@) by {}
    if from_a is Some {
        let k = lemma_first(a, os@, arch@);
        assert(has_os_and_arch(b@[k], os@, arch@));
        assert forall|j: int| 0 <= j < k implies !has_os_and_arch(
            #[trigger] b@[j],
            os@,
            arch@,
        ) by {
            assert(!has_os_and_arch(a@[j], os@, arch@));
        }
    } else if from_b is Some {
        let k = choose|k: int|
            0 <= k < b@.len() && has_os_and_arch(#[trigger] b@[k], os@, arch@);
        assert(has_os_and_arch(a@[k], os@, arch@));
    }
}

proof fn lemma_first(entries: Vec<IndexEntry>, os: Seq<char>, arch: Seq<char>) -> (first: int)
    requires
        exists|i: int|
            0 <= i < entries@.len() && has_os_and_arch(#[trigger] entries@[i], os, arch),
    ensures
        0 <= first < entries@.len(),
        has_os_and_arch(entries@[first], os, arch),
        forall|j: int| 0 <= j < first ==> !has_os_and_arch(#[trigger] entries@[j], os, arch),
{
    let some = choose|i: int|
        0 <= i < entries@.len() && has_os_and_arch(#[trigger] entries@[i], os, arch);
    lemma_first_up_to(entries, os, arch, some)
}

proof fn lemma_first_up_to(
    entries: Vec<IndexEntry>,
    os: Seq<char>,
    arch: Seq<char>,
    some: int,
) -> (first: int)
    requires
        0 <= some < entries@.len(),
        has_os_and_arch(entries@[some], os, arch),
    ensures
        0 <= first <= some,
        has_os_and_arch(entries@[first], os, arch),
        forall|j: int| 0 <= j < first ==> !has_os_and_arch(#[trigger] entries@[j], os, arch),
    decreases some,
{
    if exists|j: int| 0 <= j < some && has_os_and_arch(#[trigger] entries@[j], os, arch) {
        let less = choose|j: int|
            0 <= j < some && has_os_and_arch(#[trigger] entries@[j], os, arch);
        lemma_first_up_to(entries, os, arch, less)
    } else {
        some
    }
}

/// What is written into a configuration: the platform that was set, and else `linux` and `amd64`;
/// the command that was set, and else an empty one; an entrypoint and a working directory that were
/// set, and else those of the base image; where neither is there, none. The digests of the base
/// image's layers come first, then those of the new ones.
pub proof fn law_settings_are_what_was_set(
    builder: &ImageBuilder,
    base: Option<ImageFields>,
    settings: ImageSettings,
)
    requires
        call_ensures(ImageBuilder::settings, (builder, base), settings),
    ensures
        settings.os@ == (if builder@.platform_os is Some {
            builder@.platform_os->0
        } else {
            "linux"@
        }),
        settings.architecture@ == (if builder@.platform_arch is Some {
            builder@.platform_arch->0
        } else {
            "amd64"@
        }),
        settings.cmd is Some,
        texts(settings.cmd->0@) == (if builder@.cmd is Some {
            builder@.cmd->0
        } else {
            Seq::empty()
        }),
        builder@.entrypoint is Some ==> texts_of(settings.entrypoint) == builder@.entrypoint,
        builder@.entrypoint is None && (base is None || base->0.process is None)
            ==> settings.entrypoint is None,
        builder@.entrypoint is None && base is Some && base->0.process is Some ==> texts_of(
            settings.entrypoint,
        ) == texts_of(base->0.process->0.entrypoint),
        builder@.working_dir is Some ==> text_of(settings.working_dir) == builder@.working_dir,
        builder@.working_dir is None && (base is None || base->0.process is None)
            ==> settings.working_dir is None,
        builder@.working_dir is None && base is Some && base->0.process is Some ==> text_of(
            settings.working_dir,
        ) == text_of(base->0.process->0.working_dir),
        ({
            let below = if base is Some {
                base->0.diff_ids@.len()
            } else {
                0
            };
            &&& settings.diff_ids@.len() == below + builder@.layers.len()
            &&& forall|i: int|
                0 <= i < below ==> (#[trigger] settings.diff_ids@[i])@ == base->0.diff_ids@[i]@
            &&& forall|i: int|
                0 <= i < builder@.layers.len() ==> settings.diff_ids@[below + i]@ == (
                #[trigger] builder@.layers[i]).diff_id
        }),
{
    let ids = texts(settings.diff_ids@);
    assert(ids == settings@.diff_ids);
    assert(ids.len() == settings.diff_ids@.len());
    let below = if base is Some {
        base->0.diff_ids@.len()
    } else {
        0
    };
    assert forall|i: int| 0 <= i < below implies (#[trigger] settings.diff_ids@[i])@
        == base->0.diff_ids@[i]@ by {
        assert(ids[i] == settings.diff_ids@[i]@);
        assert(texts(base->0.diff_ids@)[i] == base->0.diff_ids@[i]@);
    }
    assert forall|i: int| 0 <= i < builder@.layers.len() implies settings.diff_ids@[below + i]@ == (
    #[trigger] builder@.layers[i]).diff_id by {
        assert(ids[below + i] == settings.diff_ids@[below + i]@);
    }
}

/// The configuration of a built image says what was set. Where no entrypoint was set and there is
/// no base image, or its configuration says nothing of a process, there is none; likewise for the
/// working directory. The environment and the user are those of the base image.
pub proof fn law_built_configuration_says_what_was_set(
    builder: ImageBuilderView,
    base: Option<ImageFieldsView>,
)
    ensures
        ({
            let fields = built_fields(builder, base);
            let process = fields.process->0;
            let old = base->0.process->0;
            let is_new = base is None || base->0.process is None;
            &&& fields.process is Some
            &&& fields.os == if builder.platform_os is Some {
                builder.platform_os->0
            } else {
                "linux"@
            }
            &&& builder.platform_arch is None ==> fields.architecture == "amd64"@
            &&& builder.platform_arch is Some && builder.platform_arch->0 != "armbe"@
                ==> fields.architecture == builder.platform_arch->0
            &&& builder.platform_arch == Some("armbe"@) ==> fields.architecture == "arm64be"@
            &&& builder.entrypoint is Some ==> process.entrypoint == builder.entrypoint
            &&& builder.entrypoint is None && is_new ==> process.entrypoint is None
            &&& builder.entrypoint is None && !is_new ==> process.entrypoint == old.entrypoint
            &&& builder.working_dir is Some ==> process.working_dir == builder.working_dir
            &&& builder.working_dir is None && is_new ==> process.working_dir is None
            &&& builder.working_dir is None && !is_new ==> process.working_dir == old.working_dir
            &&& builder.cmd is Some ==> process.cmd == builder.cmd
            &&& builder.cmd is None ==> process.cmd == Some(Seq::<Seq<char>>::empty())
            &&& is_new ==> process.env is None && process.user is None
            &&& !is_new ==> process.env == old.env && process.user == old.user
        }),
{
    reveal_strlit("amd64");
    reveal_strlit("armbe");
    assert("amd64"@[1] == 'm' && "armbe"@[1] == 'r');
}

/// The digests in the configuration of a built image are those of the base image's layers, then
/// those of the new layers, each in its order.
pub proof fn law_built_configuration_lists_the_layers(
    builder: ImageBuilderView,
    base: Option<ImageFieldsView>,
)
    ensures
        ({
            let diff_ids = built_fields(builder, base).diff_ids;
            let below = if base is Some {
                base->0.diff_ids
            } else {
                Seq::empty()
            };
            &&& diff_ids.len() == below.len() + builder.layers.len()
            &&& forall|i: int| 0 <= i < below.len() ==> #[trigger] diff_ids[i] == below[i]
            &&& forall|i: int|
                0 <= i < builder.layers.len() ==> diff_ids[below.len() + i] == (
                #[trigger] builder.layers[i]).diff_id
        }),
{
}

/// An image from scratch has the layers that were added, as zstd-compressed archives, and nothing
/// from anywhere else: its configuration says nothing but what was set.
pub proof fn law_scratch_image_has_what_was_added(
    image: BuiltImageView,
    builder: ImageBuilderView,
)
    requires
        is_built_from_scratch(image, builder),
    ensures
        image.layers.len() == builder.layers.len(),
        forall|i: int|
            0 <= i < builder.layers.len() ==> image.layers[i] == (
                "application/vnd.oci.image.layer.v1.tar+zstd"@,
                (#[trigger] builder.layers[i]).blob,
            ),
        image.base_layer_count == 0,
        image.config_digest == digest_of(image.config),
        configuration_fields(image.config) == Some(image.fields),
        configuration_rest(image.config) == image.rest,
        image.fields.diff_ids.len() == builder.layers.len(),
        image.fields.process is Some,
        image.fields.process->0.entrypoint == builder.entrypoint,
        image.fields.process->0.working_dir == builder.working_dir,
        image.fields.process->0.env is None,
        image.fields.process->0.user is None,
        image.rest == (RestView {
            created: None,
            author: None,
            os_version: None,
            os_features: None,
            variant: None,
            root_type: "layers"@,
            history: Seq::empty(),
            exposed_ports: None,
            volumes: None,
            labels: None,
            stop_signal: None,
        }),
        builder.output_name is Some ==> image.name == builder.output_name->0,
        builder.output_name is None ==> image.name == "scratch:latest"@,
        image.output_path == builder.output_path,
        image.manifest_source == ManifestSource::NotApplicable,
        image.resolved_manifest_digest.len() == 0,
{
    law_built_configuration_says_what_was_set(builder, None);
    law_built_configuration_lists_the_layers(builder, None);
}

/// An image on a base image has the layers of that, with their media types, and the new ones on
/// top, as zstd-compressed archives. What its configuration says besides the settings is what that
/// of the base image says.
pub proof fn law_image_has_base_layers_below_new_ones(
    image: BuiltImageView,
    fetch: BaseFetchView,
)
    requires
        is_built_on_base(image, fetch),
    ensures
        image.layers.len() == fetch.layers.len() + fetch.builder.layers.len(),
        forall|i: int|
            0 <= i < fetch.layers.len() ==> image.layers[i] == (
                fetch.manifest.layers[i].media_type,
                #[trigger] fetch.layers[i],
            ),
        forall|i: int|
            0 <= i < fetch.builder.layers.len() ==> image.layers[fetch.layers.len() + i] == (
                "application/vnd.oci.image.layer.v1.tar+zstd"@,
                (#[trigger] fetch.builder.layers[i]).blob,
            ),
        image.base_layer_count == fetch.layers.len(),
        image.config_digest == digest_of(image.config),
        configuration_fields(image.config) == Some(image.fields),
        configuration_rest(image.config) == image.rest,
        image.fields == built_fields(fetch.builder, configuration_fields(fetch.config->0)),
        image.rest == configuration_rest(fetch.config->0),
        fetch.builder.output_name is Some ==> image.name == fetch.builder.output_name->0,
        fetch.builder.output_name is None ==> image.name == fetch.reference.repository
            + ":latest"@,
        image.output_path == fetch.builder.output_path,
        image.manifest_source == fetch.source,
        image.resolved_manifest_digest == fetch.digest,
{
}

/// An image from scratch runs what was set: its entrypoint, then its command. With a command alone
/// it runs exactly that command.
pub proof fn law_scratch_image_runs_what_was_set(
    image: BuiltImageView,
    builder: ImageBuilderView,
    metadata: ImageMetadata,
    command: Vec<String>,
)
    requires
        is_built_from_scratch(image, builder),
        metadata_view(image.fields.process, metadata),
        call_ensures(ImageMetadata::runtime_command, (&metadata,), command),
    ensures
        texts(command@) == (if builder.entrypoint is Some {
            builder.entrypoint->0
        } else {
            Seq::empty()
        }) + (if builder.cmd is Some {
            builder.cmd->0
        } else {
            Seq::empty()
        }),
        builder.entrypoint is None && builder.cmd is Some ==> texts(command@) == builder.cmd->0,
        text_of(metadata.working_dir) == builder.working_dir,
{
    law_built_configuration_says_what_was_set(builder, None);
    if builder.entrypoint is None && builder.cmd is Some {
        assert(Seq::<Seq<char>>::empty() + builder.cmd->0 =~= builder.cmd->0);
    }
}

/// The manifest of a base image is kept under the reference in full: no two references share one.
pub proof fn law_manifests_are_kept_apart(a: ReferenceView, b: ReferenceView)
    ensures
        manifest_key(a) == manifest_key(b) <==> a.whole == b.whole,
        "manifest-v1:"@.is_prefix_of(manifest_key(a)),
{
    let front = "manifest-v1:"@;
    assert(manifest_key(a).skip(front.len() as int) =~= a.whole);
    assert(manifest_key(b).skip(front.len() as int) =~= b.whole);
}

/// Whether a build asks for the manifest of its base image goes by the reference: it looks it up
/// and stores it under the same key.
pub proof fn law_manifest_is_stored_where_it_is_looked_up(
    lookup: &ManifestLookup,
    looked_up: String,
    store: &ManifestStore,
    stored: String,
)
    requires
        call_ensures(ManifestLookup::key, (lookup,), looked_up),
        call_ensures(ManifestStore::key, (store,), stored),
        lookup@.reference.whole == store@.0.reference.whole,
    ensures
        looked_up@ == stored@,
        looked_up@ == "manifest-v1:"@ + lookup@.reference.whole,
{
}

/// A manifest that the cache has is used without a pull; without one it is pulled.
pub proof fn law_cached_manifest_is_not_pulled(
    pending: PendingView,
    record: Option<(crate::manifest::ImageManifestView, Seq<char>)>,
)
    ensures
        record is None ==> after_manifest_record(pending, record) == BuildStepView::PullManifest(
            pending,
        ),
        record is Some ==> (after_manifest_record(
            pending,
            record,
        ) matches BuildStepView::LookupBlob(fetch) && {
            &&& fetch.builder == pending.builder
            &&& fetch.image_ref == pending.image_ref
            &&& fetch.reference == pending.reference
            &&& fetch.manifest == (record->0).0
            &&& fetch.digest == (record->0).1
            &&& fetch.source == ManifestSource::FromCache
            &&& fetch.config is None
            &&& fetch.layers.len() == 0
        }),
{
}

/// What the lookup gave decides: a record that can be read is used, and else the manifest is
/// pulled.
pub proof fn law_readable_record_is_used(
    lookup: ManifestLookup,
    found: Result<Option<Vec<u8>>, Error>,
    step: BuildStep,
)
    requires
        call_ensures(ManifestLookup::resume, (lookup, found), step),
    ensures
        ({
            let record = if found is Ok && found->Ok_0 is Some {
                parsed_manifest_record(found->Ok_0->0@)
            } else {
                None
            };
            step@ == after_manifest_record(lookup@, record)
        }),
{
}

/// A manifest that was pulled is stored, with the digest that came with it, so that it can be read
/// back; and it is the one whose blobs are fetched.
pub proof fn law_pulled_manifest_is_used(
    pull: ManifestPull,
    pulled: Result<(ImageManifest, String), RegistryError>,
    step: Result<BuildStep, Error>,
)
    requires
        call_ensures(ManifestPull::resume, (pull, pulled), step),
    ensures
        step is Ok == pulled is Ok,
        step matches Ok(next) ==> (next@ matches BuildStepView::StoreManifest(fetch, record) && {
            &&& fetch.builder == pull@.builder
            &&& fetch.image_ref == pull@.image_ref
            &&& fetch.reference == pull@.reference
            &&& fetch.manifest == (pulled->Ok_0).0@
            &&& fetch.digest == (pulled->Ok_0).1@
            &&& fetch.source == ManifestSource::FromRegistry
            &&& fetch.config is None
            &&& fetch.layers.len() == 0
            &&& parsed_manifest_record(record) == Some((fetch.manifest, fetch.digest))
        }),
{
}

/// A blob that was wanted becomes the configuration where that is missing, and else the next layer;
/// nothing else changes.
pub proof fn law_blob_takes_its_place(fetch: BaseFetchView, blob: Seq<u8>)
    ensures
        ({
            let after = with_blob(fetch, blob);
            &&& fetch.config is None ==> after.config == Some(blob) && after.layers
                == fetch.layers
            &&& fetch.config is Some ==> after.config == fetch.config && after.layers
                == fetch.layers.push(blob)
            &&& after.builder == fetch.builder
            &&& after.image_ref == fetch.image_ref
            &&& after.reference == fetch.reference
            &&& after.manifest == fetch.manifest
            &&& after.digest == fetch.digest
            &&& after.source == fetch.source
        }),
{
}

/// A blob that the cache has is not pulled. With the last one the image is built, if the
/// configuration of the base image can be read.
pub proof fn law_fetching_comes_to_an_end(
    lookup: BlobLookup,
    found: Option<Vec<u8>>,
    step: Result<BuildStep, Error>,
)
    requires
        call_ensures(BlobLookup::resume, (lookup, found), step),
    ensures
        found is None ==> (step matches Ok(next) && next@ == BuildStepView::PullBlob(lookup@)),
        found is Some ==> ({
            let after = with_blob(lookup@, found->0@);
            let is_last = after.config is Some && after.layers.len()
                >= after.manifest.layers.len();
            &&& !is_last ==> (step matches Ok(next) && next@ == BuildStepView::LookupBlob(after))
            &&& is_last && configuration_fields(after.config->0) is None ==> step is Err
            &&& is_last && configuration_fields(after.config->0) is Some ==> (
            step matches Ok(next) && next@ matches BuildStepView::Write(image)
                && is_built_on_base(image, after))
        }),
{
}

/// A blob that was pulled is stored under the digest that was wanted, and then is used as one from
/// the cache is.
pub proof fn law_pulled_blob_is_used(
    pull: BlobPull,
    pulled: Result<Vec<u8>, RegistryError>,
    after_pull: Result<BuildStep, Error>,
    store: BlobStore,
    lookup: BlobLookup,
    found: Vec<u8>,
    after_store: Result<BuildStep, Error>,
)
    requires
        call_ensures(BlobPull::resume, (pull, pulled), after_pull),
        call_ensures(BlobStore::resume, (store,), after_store),
        store@ == (lookup@, found@),
    ensures
        after_pull is Ok == pulled is Ok,
        after_pull matches Ok(next) ==> next@ == BuildStepView::StoreBlob(pull@, pulled->Ok_0@),
        ({
            let after = with_blob(lookup@, found@);
            let is_last = after.config is Some && after.layers.len()
                >= after.manifest.layers.len();
            &&& !is_last ==> (after_store matches Ok(next) && next@
                == BuildStepView::LookupBlob(after))
            &&& is_last && configuration_fields(after.config->0) is Some ==> (
            after_store matches Ok(next) && next@ matches BuildStepView::Write(image)
                && is_built_on_base(image, after))
        }),
{
}

/// A build without a base image comes to its end at once. With one, the manifest is pulled at once
/// if that is the policy, and else looked up first.
pub proof fn law_policy_decides_on_the_pull(builder: ImageBuilder, step: Result<BuildStep, Error>)
    requires
        call_ensures(ImageBuilder::build, (builder,), step),
    ensures
        builder@.base_image_ref is None ==> (step matches Ok(next)
            && next@ matches BuildStepView::Write(image) && is_built_from_scratch(image, builder@)),
        builder@.base_image_ref is Some ==> (step is Ok <==> parsed_reference(
            builder@.base_image_ref->0,
        ) is Ok),
        builder@.base_image_ref is Some && step is Ok ==> ({
            let pending = PendingView {
                builder: builder@,
                image_ref: builder@.base_image_ref->0,
                reference: parsed_reference(builder@.base_image_ref->0)->Ok_0,
            };
            &&& builder@.pull_policy == Some(PullPolicy::Always) ==> step->Ok_0@
                == BuildStepView::PullManifest(pending)
            &&& builder@.pull_policy != Some(PullPolicy::Always) ==> step->Ok_0@
                == BuildStepView::LookupManifest(pending)
        }),
{
}

/// Each setting of a builder sets what it is named for.
pub proof fn law_builder_sets_what_it_is_asked_to(
    before: ImageBuilder,
    text: &str,
    other: &str,
    list: Vec<String>,
    path: String,
    layer: Layer,
    policy: PullPolicy,
    auth: RegistryAuth,
    cache: BlobCache,
    from: ImageBuilder,
    platform: ImageBuilder,
    entrypoint: ImageBuilder,
    cmd: ImageBuilder,
    working_dir: ImageBuilder,
    output: ImageBuilder,
    name: ImageBuilder,
    with_layer: ImageBuilder,
    with_policy: ImageBuilder,
    with_auth: ImageBuilder,
    with_cache: ImageBuilder,
)
    requires
        call_ensures(ImageBuilder::from, (before, text), from),
        call_ensures(ImageBuilder::platform, (before, text, other), platform),
        call_ensures(ImageBuilder::entrypoint, (before, list), entrypoint),
        call_ensures(ImageBuilder::cmd, (before, list), cmd),
        call_ensures(ImageBuilder::working_dir, (before, text), working_dir),
        call_ensures(ImageBuilder::output_to, (before, path), output),
        call_ensures(ImageBuilder::output_name_and_tag, (before, text), name),
        call_ensures(ImageBuilder::layer, (before, layer), with_layer),
        call_ensures(ImageBuilder::pull_policy, (before, policy), with_policy),
        call_ensures(ImageBuilder::auth, (before, auth), with_auth),
        call_ensures(ImageBuilder::blob_cache, (before, cache), with_cache),
    ensures
        from@ == (ImageBuilderView { base_image_ref: Some(text@), ..before@ }),
        platform@ == (ImageBuilderView {
            platform_os: Some(text@),
            platform_arch: Some(other@),
            ..before@
        }),
        entrypoint@ == (ImageBuilderView { entrypoint: Some(texts(list@)), ..before@ }),
        cmd@ == (ImageBuilderView { cmd: Some(texts(list@)), ..before@ }),
        working_dir@ == (ImageBuilderView { working_dir: Some(text@), ..before@ }),
        output@ == (ImageBuilderView { output_path: Some(path@), ..before@ }),
        name@ == (ImageBuilderView { output_name: Some(text@), ..before@ }),
        with_layer@ == (ImageBuilderView { layers: before@.layers.push(layer@), ..before@ }),
        with_policy@ == (ImageBuilderView { pull_policy: Some(policy), ..before@ }),
        with_auth@ == (ImageBuilderView { auth: Some(auth), ..before@ }),
        with_cache@ == (ImageBuilderView { blob_cache: Some(cache.location()), ..before@ }),
{
}

/// Nothing is set in a new builder.
pub proof fn law_new_builder_is_empty(builder: ImageBuilder)
    requires
        call_ensures(Image::builder, (), builder),
    ensures
        builder@.base_image_ref is None,
        builder@.platform_os is None,
        builder@.platform_arch is None,
        builder@.layers.len() == 0,
        builder@.entrypoint is None,
        builder@.cmd is None,
        builder@.working_dir is None,
        builder@.output_path is None,
        builder@.blob_cache is None,
        builder@.output_name is None,
        builder@.pull_policy is None,
        builder@.auth is None,
{
}

/// A login that was set stays; without one, the environment decides. An image is picked from an
/// index only where both parts of the platform were set.
pub proof fn law_environment_decides_only_where_nothing_was_set(
    builder: ImageBuilder,
    username: Option<String>,
    password: Option<String>,
    after: ImageBuilder,
    filter: Option<(String, String)>,
)
    requires
        call_ensures(ImageBuilder::with_environment, (builder, username, password), after),
        call_ensures(ImageBuilder::platform_filter, (&builder,), filter),
    ensures
        builder@.auth is Some ==> after@.auth == builder@.auth,
        builder@.auth is None && username is Some && password is Some && username->0@.len() > 0
            && password->0@.len() > 0 ==> after@.auth == Some(
            RegistryAuth::Basic(username->0, password->0),
        ),
        builder@.auth is None && (username is None || password is None || username->0@.len() == 0
            || password->0@.len() == 0) ==> after@.auth == Some(RegistryAuth::Anonymous),
        after@ == (ImageBuilderView { auth: after@.auth, ..builder@ }),
        filter is Some <==> builder@.platform_os is Some && builder@.platform_arch is Some,
        filter is Some ==> (filter->0).0@ == builder@.platform_os->0 && (filter->0).1@
            == builder@.platform_arch->0,
{
}

/// The options of a pull become those of the build: a platform only where both parts are given.
pub proof fn law_pull_options_become_a_builder(
    options: PullAndExtractOptions,
    image_ref: &str,
    builder: ImageBuilder,
)
    requires
        call_ensures(PullAndExtractOptions::into_builder, (options, image_ref), builder),
    ensures
        builder@.base_image_ref == Some(image_ref@),
        options.platform_os is Some && options.platform_arch is Some ==> builder@.platform_os
            == Some(options.platform_os->0@) && builder@.platform_arch == Some(
            options.platform_arch->0@,
        ),
        options.platform_os is None || options.platform_arch is None
            ==> builder@.platform_os is None && builder@.platform_arch is None,
        builder@.pull_policy == Some(options.pull_policy),
        builder@.auth == options.auth,
        options.blob_cache is Some ==> builder@.blob_cache == Some(
            options.blob_cache->0.location(),
        ),
        options.blob_cache is None ==> builder@.blob_cache is None,
        builder@.layers.len() == 0,
        builder@.entrypoint is None,
        builder@.cmd is None,
        builder@.working_dir is None,
        builder@.output_path is None,
        builder@.output_name is None,
{
}

/// What is written of a built image is what it was built of; and once it is written, the image lies
/// where it was written and has the digest of its configuration.
pub proof fn law_built_image_is_written(
    image: BuiltImage,
    number: usize,
    layer: Option<(&str, &Vec<u8>)>,
    name: &str,
    config: &Vec<u8>,
    path: String,
    done: (Image, BuildDiagnostics),
)
    requires
        call_ensures(BuiltImage::layer, (&image, number), layer),
        call_ensures(BuiltImage::name, (&image,), name),
        call_ensures(BuiltImage::config, (&image,), config),
        call_ensures(BuiltImage::written, (image, path), done),
    ensures
        layer is Some == (number < image@.layers.len()),
        layer is Some ==> (layer->0).0@ == image@.layers[number as int].0 && (layer->0).1@
            == image@.layers[number as int].1,
        name@ == image@.name,
        config@ == image@.config,
        done.0@.path == path@,
        done.0@.config_digest == image@.config_digest,
        done.1.manifest_source == image@.manifest_source,
        done.1.resolved_manifest_digest@ == image@.resolved_manifest_digest,
{
}

/// What is fetched is the configuration that the manifest names, and then its layers in order.
pub proof fn law_manifest_names_what_is_fetched(
    lookup: &BlobLookup,
    looked_up: &str,
    pull: &BlobPull,
    pulled: &crate::manifest::Descriptor,
    store: &BlobStore,
    stored: &str,
    data: &Vec<u8>,
)
    requires
        call_ensures(BlobLookup::digest, (lookup,), looked_up),
        call_ensures(BlobPull::descriptor, (pull,), pulled),
        call_ensures(BlobStore::digest, (store,), stored),
        call_ensures(BlobStore::data, (store,), data),
    ensures
        lookup@.config is None ==> looked_up@ == lookup@.manifest.config.digest,
        lookup@.config is Some ==> looked_up@
            == lookup@.manifest.layers[lookup@.layers.len() as int].digest,
        pull@.config is None ==> pulled@ == pull@.manifest.config,
        pull@.config is Some ==> pulled@ == pull@.manifest.layers[pull@.layers.len() as int],
        store@.0.config is None ==> stored@ == store@.0.manifest.config.digest,
        store@.0.config is Some ==> stored@
            == store@.0.manifest.layers[store@.0.layers.len() as int].digest,
        data@ == store@.1,
{
}

/// What fails in a build is told, with the words of the registry and the base image as it was set,
/// and its cause is kept.
pub proof fn law_failed_build_says_why(
    why: RegistryError,
    manifest: ManifestPull,
    after_manifest: Result<BuildStep, Error>,
    blob: BlobPull,
    after_blob: Result<BuildStep, Error>,
)
    requires
        call_ensures(ManifestPull::resume, (manifest, Err(why)), after_manifest),
        call_ensures(BlobPull::resume, (blob, Err(why)), after_blob),
    ensures
        after_manifest matches Err(error) && {
            &&& error is ImagePull
            &&& error->ImagePull_image_ref@ == manifest@.image_ref
            &&& error->ImagePull_message@ == "Failed to pull/resolve base image manifest ("@
                + manifest@.image_ref + "): "@ + why.text@
            &&& error->ImagePull_source == Some(crate::error::Cause::Registry(why))
        },
        after_blob matches Err(error) && {
            &&& error is ImagePull
            &&& error->ImagePull_image_ref@ == blob@.image_ref
            &&& blob@.config is None ==> error->ImagePull_message@ == "Failed to pull config blob "@
                + blob@.manifest.config.digest
            &&& blob@.config is Some ==> error->ImagePull_message@ == "Failed to pull layer blob "@
                + blob@.manifest.layers[blob@.layers.len() as int].digest
            &&& error->ImagePull_source == Some(crate::error::Cause::Registry(why))
        },
{
}

/// What is stored of a manifest is its record, and then its blobs are fetched, whether it could be
/// stored or not. It is pulled with the login that was set.
pub proof fn law_blobs_follow_the_manifest(
    store: ManifestStore,
    data: &Vec<u8>,
    step: BuildStep,
    pull: &ManifestPull,
    auth: Option<&RegistryAuth>,
    reference: &ImageReference,
    lookup: &ManifestLookup,
    looked_up: &ImageReference,
)
    requires
        call_ensures(ManifestStore::data, (&store,), data),
        call_ensures(ManifestStore::resume, (store,), step),
        call_ensures(ManifestPull::auth, (pull,), auth),
        call_ensures(ManifestPull::reference, (pull,), reference),
        call_ensures(ManifestLookup::reference, (lookup,), looked_up),
    ensures
        data@ == store@.1,
        step@ == BuildStepView::LookupBlob(store@.0),
        auth is Some == pull@.builder.auth is Some,
        auth is Some ==> Some(*auth->0) == pull@.builder.auth,
        reference@ == pull@.reference,
        looked_up@ == lookup@.reference,
{
}

/// The image is written where that was set, and its base layers are the lowest ones.
pub proof fn law_image_is_written_where_it_was_set(
    image: &BuiltImage,
    path: Option<String>,
    count: usize,
)
    requires
        call_ensures(BuiltImage::output_path, (image,), path),
        call_ensures(BuiltImage::base_layer_count, (image,), count),
    ensures
        text_of(path) == image@.output_path,
        count == image@.base_layer_count,
        count <= image@.layers.len(),
{
}

/// A base image whose configuration cannot be read is told as such.
pub proof fn law_unreadable_base_is_told(
    lookup: BlobLookup,
    blob: Vec<u8>,
    step: Result<BuildStep, Error>,
)
    requires
        call_ensures(BlobLookup::resume, (lookup, Some(blob)), step),
        step is Err,
    ensures
        step->Err_0 is ImageConfig,
        step->Err_0->ImageConfig_message@ == "Failed to parse base image configuration"@,
        configuration_fields(with_blob(lookup@, blob@).config->0) is None,
{
}

} // verus!

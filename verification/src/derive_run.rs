use vstd::prelude::*;

use crate::derive::{
    base_step, current_platform, derived_entries, derived_index, derived_manifest, first_derive,
    index_step, lemma_derived_count, manifest_step, matching_digest, platform_reference,
    platform_step, published_image, with_derived, with_upload, DeriveStepView, DeriveView,
    DerivedView, SetupView,
};
use crate::digest::digest_of;
use crate::layer_build::{
    content_search, finds_nothing, is_own_cache, is_sound_store, law_layer_digests_agree, new_store,
    whole_build, LayerStepView,
};
use crate::layer_input::FileEntry;
use crate::manifest::{
    canonical_image_index, canonical_image_manifest, ImageManifestView, ManifestView,
};
use crate::reference::parsed_reference;
use crate::remote::{config_platform, derived_config, RemotePlatformView};

verus! {

/// A derivation, and the digests of the blobs that the target repository has.
pub struct DeriveRun {
    pub derive: DeriveView,
    pub blobs: Set<Seq<char>>,
}

/// The derivation after the new layer is in the target repository: it is uploaded where it was not
/// there.
pub open spec fn with_new_layer(run: DeriveRun) -> DeriveRun {
    let layer = run.derive.setup.layer;
    DeriveRun {
        derive: if run.blobs.contains(layer.blob_digest) {
            run.derive
        } else {
            with_upload(run.derive, layer.blob.len())
        },
        blobs: run.blobs.insert(layer.blob_digest),
    }
}

/// The digests of the layers of an image.
pub open spec fn layer_digests(image: ImageManifestView) -> Set<Seq<char>> {
    Seq::new(image.layers.len(), |i: int| image.layers[i].digest).to_set()
}

/// The derivation after a platform, for which `image` is the base image and `base` its
/// configuration: the layers of the base image are mounted, the derived configuration is uploaded
/// where it was not there, and the manifest is published.
pub open spec fn with_platform(
    run: DeriveRun,
    image: ImageManifestView,
    base: Seq<u8>,
) -> DeriveRun {
    let config = derived_config(base, run.derive.setup.layer.diff_id)->0;
    let blobs = run.blobs.union(layer_digests(image));
    let derive = if blobs.contains(digest_of(config)) {
        run.derive
    } else {
        with_upload(run.derive, config.len())
    };
    DeriveRun {
        derive: with_derived(
            derive,
            canonical_image_manifest(derived_manifest(run.derive.setup, image, config)),
        ),
        blobs: blobs.insert(digest_of(config)),
    }
}

/// The derivation after the first platforms, where `images` are the base images for them and
/// `configs` the configurations of those.
pub open spec fn with_platforms(
    run: DeriveRun,
    images: Seq<ImageManifestView>,
    configs: Seq<Seq<u8>>,
) -> DeriveRun
    decreases images.len(),
{
    if images.len() == 0 {
        run
    } else {
        with_platform(
            with_platforms(run, images.drop_last(), configs),
            images.last(),
            configs[images.len() - 1],
        )
    }
}

/// A derivation from the new layer to the last platform, where no request fails.
pub open spec fn whole_derivation(
    setup: SetupView,
    manifest: ManifestView,
    images: Seq<ImageManifestView>,
    configs: Seq<Seq<u8>>,
    blobs: Set<Seq<char>>,
) -> DeriveRun {
    let start = DeriveRun { derive: first_derive(setup, manifest), blobs };
    with_platforms(with_new_layer(start), images, configs)
}

/// What a derivation gives at its end.
pub open spec fn derived_image(derive: DeriveView) -> DerivedView {
    published_image(
        derive.setup,
        derive.uploaded,
        canonical_image_index(derived_index(derive.entries)),
    )
}

proof fn lemma_platforms_add(
    run: DeriveRun,
    images: Seq<ImageManifestView>,
    configs: Seq<Seq<u8>>,
)
    ensures
        run.blobs.subset_of(with_platforms(run, images, configs).blobs),
        run.derive.uploaded <= with_platforms(run, images, configs).derive.uploaded,
        with_platforms(run, images, configs).derive.setup == run.derive.setup,
    decreases images.len(),
{
    if images.len() > 0 {
        lemma_platforms_add(run, images.drop_last(), configs);
    }
}

proof fn lemma_platforms_again(
    first: DeriveRun,
    second: DeriveRun,
    images: Seq<ImageManifestView>,
    configs: Seq<Seq<u8>>,
)
    requires
        second.derive.setup == first.derive.setup,
        second.derive.entries == first.derive.entries,
        with_platforms(first, images, configs).blobs.subset_of(second.blobs),
    ensures
        ({
            let one = with_platforms(first, images, configs);
            let two = with_platforms(second, images, configs);
            &&& two.derive.setup == second.derive.setup
            &&& two.derive.uploaded == second.derive.uploaded
            &&& two.derive.entries == one.derive.entries
            &&& two.blobs == second.blobs
        }),
    decreases images.len(),
{
    lemma_platforms_add(first, images, configs);
    if images.len() > 0 {
        let front = images.drop_last();
        let image = images.last();
        let base = configs[images.len() - 1];
        let one = with_platforms(first, front, configs);
        lemma_platforms_add(first, front, configs);
        assert(one.blobs.subset_of(with_platform(one, image, base).blobs));
        lemma_platforms_again(first, second, front, configs);
        let two = with_platforms(second, front, configs);
        let config = derived_config(base, first.derive.setup.layer.diff_id)->0;
        assert(with_platform(one, image, base).blobs.contains(digest_of(config)));
        assert(layer_digests(image).subset_of(with_platform(one, image, base).blobs));
        assert(two.blobs.union(layer_digests(image)) =~= two.blobs);
        assert(two.blobs.insert(digest_of(config)) =~= two.blobs);
    }
}

/// A derivation adds the images that are derived from the base images, one for each platform.
pub proof fn law_derivation_adds_every_image(
    setup: SetupView,
    manifest: ManifestView,
    images: Seq<ImageManifestView>,
    configs: Seq<Seq<u8>>,
    blobs: Set<Seq<char>>,
)
    ensures
        whole_derivation(setup, manifest, images, configs, blobs).derive.entries
            == derived_entries(setup, images, configs),
    decreases images.len(),
{
    let one = with_new_layer(DeriveRun { derive: first_derive(setup, manifest), blobs });
    lemma_platforms_add(one, images, configs);
    if images.len() > 0 {
        law_derivation_adds_every_image(setup, manifest, images.drop_last(), configs, blobs);
        lemma_platforms_add(one, images.drop_last(), configs);
        lemma_derived_count(setup, images.drop_last(), configs);
    }
}

/// What a registry holds of a base image.
pub struct BaseView {
    /// What the base reference names.
    pub manifest: ManifestView,
    /// The image manifests in the base repository, by their digests.
    pub images: Map<Seq<char>, ImageManifestView>,
    /// The configurations in the base repository, by their digests.
    pub configs: Map<Seq<char>, Seq<u8>>,
}

/// How far a derivation has come: what it does next, none where it has failed; and the digests of
/// the blobs that the target repository has.
pub struct DeriveState {
    pub step: Option<DeriveStepView>,
    pub blobs: Set<Seq<char>>,
}

/// How a derivation goes on with the next platform.
pub open spec fn platform_state(derive: DeriveView, blobs: Set<Seq<char>>) -> DeriveState {
    DeriveState {
        step: match platform_step(derive) {
            Ok(step) => Some(step),
            Err(_) => None,
        },
        blobs,
    }
}

/// How a derivation goes on once the manifest for a platform is published.
pub open spec fn published_state(derive: DeriveView, blobs: Set<Seq<char>>) -> DeriveState {
    if derive.entries.len() < derive.setup.platforms.len() {
        platform_state(derive, blobs)
    } else {
        DeriveState { step: Some(index_step(derive)), blobs }
    }
}

/// The derivation after its next request, where no request fails and the registry has the base
/// image. A blob that was mounted or uploaded is in the target repository.
pub open spec fn next_state(state: DeriveState, base: BaseView) -> DeriveState {
    let blobs = state.blobs;
    match state.step {
        None => state,
        Some(step) => match step {
            DeriveStepView::AuthBase(setup) => DeriveState {
                step: Some(DeriveStepView::AuthTarget(setup)),
                blobs,
            },
            DeriveStepView::AuthTarget(setup) => DeriveState {
                step: Some(DeriveStepView::PullBase(setup)),
                blobs,
            },
            DeriveStepView::PullBase(setup) => DeriveState {
                step: if setup.layer.blob.len() > i64::MAX {
                    None
                } else {
                    Some(DeriveStepView::MountLayer(first_derive(setup, base.manifest)))
                },
                blobs,
            },
            DeriveStepView::MountLayer(derive) => if blobs.contains(
                derive.setup.layer.blob_digest,
            ) {
                platform_state(derive, blobs)
            } else {
                DeriveState { step: Some(DeriveStepView::PushLayer(derive)), blobs }
            },
            DeriveStepView::PushLayer(derive) => platform_state(
                with_upload(derive, derive.setup.layer.blob.len()),
                blobs.insert(derive.setup.layer.blob_digest),
            ),
            DeriveStepView::PullPlatformConfig(derive, descriptor) => DeriveState {
                step: match derive.manifest {
                    ManifestView::Image(image) => if config_platform(
                        base.configs[descriptor.digest],
                    ) == Some(current_platform(derive)) {
                        Some(base_step(derive, image, 0))
                    } else {
                        None
                    },
                    ManifestView::ImageIndex(_) => None,
                },
                blobs,
            },
            DeriveStepView::PullPlatformManifest(derive, digest) => DeriveState {
                step: Some(base_step(derive, base.images[digest], 0)),
                blobs,
            },
            DeriveStepView::MountBase(derive, image, mounted) => DeriveState {
                step: Some(base_step(derive, image, mounted + 1)),
                blobs: blobs.insert(image.layers[mounted as int].digest),
            },
            DeriveStepView::PullConfig(derive, image) => DeriveState {
                step: match derived_config(
                    base.configs[image.config.digest],
                    derive.setup.layer.diff_id,
                ) {
                    None => None,
                    Some(config) => if config.len() > i64::MAX {
                        None
                    } else {
                        Some(DeriveStepView::MountConfig(derive, image, config))
                    },
                },
                blobs,
            },
            DeriveStepView::MountConfig(derive, image, config) => DeriveState {
                step: if blobs.contains(digest_of(config)) {
                    manifest_step(derive, image, config)
                } else {
                    Some(DeriveStepView::PushConfig(derive, image, config))
                },
                blobs,
            },
            DeriveStepView::PushConfig(derive, image, config) => DeriveState {
                step: manifest_step(with_upload(derive, config.len()), image, config),
                blobs: blobs.insert(digest_of(config)),
            },
            DeriveStepView::PushManifest(derive, _, manifest) => if manifest.len() > i64::MAX {
                DeriveState { step: None, blobs }
            } else {
                published_state(with_derived(derive, manifest), blobs)
            },
            DeriveStepView::PushIndex(_, _, _) => state,
        },
    }
}

/// The derivation after some requests.
pub open spec fn states_on(state: DeriveState, base: BaseView, count: nat) -> DeriveState
    decreases count,
{
    if count == 0 {
        state
    } else {
        states_on(next_state(state, base), base, (count - 1) as nat)
    }
}

/// Whether the derivation comes from one state to another.
pub open spec fn comes_to(from: DeriveState, to: DeriveState, base: BaseView) -> bool {
    exists|count: nat| #[trigger] states_on(from, base, count) == to
}

proof fn lemma_states_on(state: DeriveState, base: BaseView, first: nat, second: nat)
    ensures
        states_on(state, base, first + second) == states_on(
            states_on(state, base, first),
            base,
            second,
        ),
    decreases first,
{
    if first > 0 {
        lemma_states_on(next_state(state, base), base, (first - 1) as nat, second);
    }
}

proof fn lemma_comes_by(a: DeriveState, b: DeriveState, c: DeriveState, base: BaseView)
    requires
        comes_to(a, b, base),
        comes_to(b, c, base),
    ensures
        comes_to(a, c, base),
{
    let first = choose|count: nat| #[trigger] states_on(a, base, count) == b;
    let second = choose|count: nat| #[trigger] states_on(b, base, count) == c;
    lemma_states_on(a, base, first, second);
    assert(states_on(a, base, first + second) == c);
}

proof fn lemma_comes_next(state: DeriveState, base: BaseView)
    ensures
        comes_to(state, state, base),
        comes_to(state, next_state(state, base), base),
{
    assert(states_on(state, base, 0) == state);
    assert(states_on(next_state(state, base), base, 0) == next_state(state, base));
    assert(states_on(state, base, 1) == next_state(state, base));
}

/// The state in which the first layers of a base image are mounted.
spec fn mounted_state(
    derive: DeriveView,
    image: ImageManifestView,
    blobs: Set<Seq<char>>,
    mounted: nat,
) -> DeriveState {
    let digests = Seq::new(image.layers.len(), |i: int| image.layers[i].digest);
    DeriveState {
        step: Some(base_step(derive, image, mounted)),
        blobs: blobs.union(digests.take(mounted as int).to_set()),
    }
}

proof fn lemma_layers_are_mounted(
    derive: DeriveView,
    image: ImageManifestView,
    blobs: Set<Seq<char>>,
    mounted: nat,
    base: BaseView,
)
    requires
        mounted <= image.layers.len(),
    ensures
        comes_to(
            mounted_state(derive, image, blobs, 0),
            mounted_state(derive, image, blobs, mounted),
            base,
        ),
    decreases mounted,
{
    let first = mounted_state(derive, image, blobs, 0);
    if mounted == 0 {
        lemma_comes_next(first, base);
    } else {
        let less = (mounted - 1) as nat;
        let before = mounted_state(derive, image, blobs, less);
        let after = mounted_state(derive, image, blobs, mounted);
        let digests = Seq::new(image.layers.len(), |i: int| image.layers[i].digest);
        lemma_layers_are_mounted(derive, image, blobs, less, base);
        lemma_comes_next(before, base);
        assert(digests.take(mounted as int) == digests.take(less as int).push(
            digests[less as int],
        ));
        assert(next_state(before, base).blobs =~= after.blobs) by {
            let shorter = digests.take(less as int);
            let longer = shorter.push(digests[less as int]);
            assert forall|d: Seq<char>| longer.contains(d) == (shorter.contains(d) || d
                == digests[less as int]) by {
                if shorter.contains(d) {
                    let k = choose|k: int| 0 <= k < shorter.len() && shorter[k] == d;
                    assert(longer[k] == d);
                }
                assert(longer[less as int] == digests[less as int]);
            }
        }
        assert(next_state(before, base) == after);
        lemma_comes_by(first, before, after, base);
    }
}

/// The base image for a platform, where the registry has one.
pub open spec fn picked_image(base: BaseView, platform: RemotePlatformView) -> Option<
    ImageManifestView,
> {
    match base.manifest {
        ManifestView::Image(image) => if config_platform(base.configs[image.config.digest])
            == Some(platform) {
            Some(image)
        } else {
            None
        },
        ManifestView::ImageIndex(index) => match matching_digest(index.manifests, platform) {
            Some(digest) => Some(base.images[digest]),
            None => None,
        },
    }
}

/// The base images for the platforms.
pub open spec fn picked_images(setup: SetupView, base: BaseView) -> Seq<ImageManifestView> {
    Seq::new(setup.platforms.len(), |i: int| picked_image(base, setup.platforms[i])->0)
}

/// The configurations of the base images for the platforms.
pub open spec fn picked_configs(setup: SetupView, base: BaseView) -> Seq<Seq<u8>> {
    Seq::new(
        setup.platforms.len(),
        |i: int| base.configs[picked_images(setup, base)[i].config.digest],
    )
}

/// Whether an image can be derived for a platform: there is a base image, a layer can be added to
/// its configuration, the name for the derived image is an image reference, and what is published
/// is not beyond the range of a descriptor.
pub open spec fn is_platform_derivable(setup: SetupView, base: BaseView, number: int) -> bool {
    let platform = setup.platforms[number];
    let image = picked_images(setup, base)[number];
    let config = derived_config(picked_configs(setup, base)[number], setup.layer.diff_id);
    &&& picked_image(base, platform) is Some
    &&& config is Some
    &&& config->0.len() <= i64::MAX
    &&& parsed_reference(platform_reference(setup, platform)) is Ok
    &&& canonical_image_manifest(derived_manifest(setup, image, config->0)).len() <= i64::MAX
}

/// Whether an image can be derived for all platforms.
pub open spec fn is_derivable(setup: SetupView, base: BaseView) -> bool {
    &&& setup.platforms.len() > 0
    &&& setup.layer.blob.len() <= i64::MAX
    &&& forall|i: int|
        0 <= i < setup.platforms.len() ==> #[trigger] is_platform_derivable(setup, base, i)
}

/// A platform takes a derivation to the next platform, or to the index.
#[verifier::spinoff_prover]
proof fn lemma_platform(run: DeriveRun, base: BaseView)
    requires
        run.derive.entries.len() < run.derive.setup.platforms.len(),
        run.derive.manifest == base.manifest,
        is_platform_derivable(run.derive.setup, base, run.derive.entries.len() as int),
    ensures
        ({
            let number = run.derive.entries.len() as int;
            let after = with_platform(
                run,
                picked_images(run.derive.setup, base)[number],
                picked_configs(run.derive.setup, base)[number],
            );
            comes_to(
                platform_state(run.derive, run.blobs),
                published_state(after.derive, after.blobs),
                base,
            )
        }),
{
    let derive = run.derive;
    let setup = derive.setup;
    let number = derive.entries.len() as int;
    let image = picked_images(setup, base)[number];
    let config = derived_config(picked_configs(setup, base)[number], setup.layer.diff_id)->0;
    let after = with_platform(run, image, picked_configs(setup, base)[number]);
    let digests = Seq::new(image.layers.len(), |i: int| image.layers[i].digest);
    let start = platform_state(derive, run.blobs);

    let unmounted = mounted_state(derive, image, run.blobs, 0);
    lemma_comes_next(start, base);
    assert(digests.take(0).to_set() =~= Set::<Seq<char>>::empty());
    assert(unmounted.blobs =~= run.blobs);
    assert(next_state(start, base) == unmounted);

    let mounted = mounted_state(derive, image, run.blobs, image.layers.len());
    lemma_layers_are_mounted(derive, image, run.blobs, image.layers.len(), base);
    assert(digests.take(image.layers.len() as int) == digests);
    lemma_comes_by(start, unmounted, mounted, base);

    let asked = next_state(mounted, base);
    lemma_comes_next(mounted, base);
    lemma_comes_by(start, mounted, asked, base);
    assert(asked.step == Some(DeriveStepView::MountConfig(derive, image, config)));

    let blobs = run.blobs.union(layer_digests(image));
    assert(asked.blobs == blobs);
    lemma_comes_next(asked, base);
    let answered = next_state(asked, base);
    lemma_comes_by(start, asked, answered, base);
    if blobs.contains(digest_of(config)) {
        assert(blobs.insert(digest_of(config)) =~= blobs);
        lemma_comes_next(answered, base);
        lemma_comes_by(start, answered, next_state(answered, base), base);
    } else {
        let uploaded = next_state(answered, base);
        lemma_comes_next(answered, base);
        lemma_comes_by(start, answered, uploaded, base);
        lemma_comes_next(uploaded, base);
        lemma_comes_by(start, uploaded, next_state(uploaded, base), base);
    }
}

proof fn lemma_platforms(setup: SetupView, base: BaseView, blobs: Set<Seq<char>>, count: nat)
    requires
        is_derivable(setup, base),
        count <= setup.platforms.len(),
    ensures
        ({
            let run = whole_derivation(
                setup,
                base.manifest,
                picked_images(setup, base).take(count as int),
                picked_configs(setup, base),
                blobs,
            );
            &&& run.derive.setup == setup
            &&& run.derive.manifest == base.manifest
            &&& run.derive.entries.len() == count
            &&& comes_to(
                DeriveState { step: Some(DeriveStepView::AuthBase(setup)), blobs },
                published_state(run.derive, run.blobs),
                base,
            )
        }),
    decreases count,
{
    let images = picked_images(setup, base);
    let configs = picked_configs(setup, base);
    let start = DeriveState { step: Some(DeriveStepView::AuthBase(setup)), blobs };
    let run = whole_derivation(setup, base.manifest, images.take(count as int), configs, blobs);
    if count == 0 {
        let first = next_state(start, base);
        let second = next_state(first, base);
        let third = next_state(second, base);
        let fourth = next_state(third, base);
        lemma_comes_next(start, base);
        lemma_comes_next(first, base);
        lemma_comes_by(start, first, second, base);
        lemma_comes_next(second, base);
        lemma_comes_by(start, second, third, base);
        lemma_comes_next(third, base);
        lemma_comes_by(start, third, fourth, base);
        assert(third.step == Some(
            DeriveStepView::MountLayer(first_derive(setup, base.manifest)),
        ));
        if blobs.contains(setup.layer.blob_digest) {
            assert(run.blobs =~= blobs);
        } else {
            lemma_comes_next(fourth, base);
            lemma_comes_by(start, fourth, next_state(fourth, base), base);
        }
    } else {
        let less = (count - 1) as nat;
        let before = whole_derivation(
            setup,
            base.manifest,
            images.take(less as int),
            configs,
            blobs,
        );
        lemma_platforms(setup, base, blobs, less);
        assert(images.take(count as int).drop_last() == images.take(less as int));
        assert(images.take(count as int).last() == images[less as int]);
        assert(is_platform_derivable(setup, base, less as int));
        lemma_platform(before, base);
        lemma_comes_by(
            start,
            published_state(before.derive, before.blobs),
            published_state(run.derive, run.blobs),
            base,
        );
    }
}

/// Whether a derivation comes to its end, where the index is published, with this result.
pub open spec fn ends_with(
    setup: SetupView,
    base: BaseView,
    blobs: Set<Seq<char>>,
    end: DeriveRun,
) -> bool {
    comes_to(
        DeriveState { step: Some(DeriveStepView::AuthBase(setup)), blobs },
        DeriveState { step: Some(index_step(end.derive)), blobs: end.blobs },
        base,
    )
}

/// The derivation of a layer from a base image, from its start to its end.
pub open spec fn derivation(
    setup: SetupView,
    base: BaseView,
    blobs: Set<Seq<char>>,
) -> DeriveRun {
    whole_derivation(
        setup,
        base.manifest,
        picked_images(setup, base),
        picked_configs(setup, base),
        blobs,
    )
}

/// A derivation runs step by step to its end, and publishes an index with the image that is derived
/// for each platform, where an image can be derived for all of them and no request fails.
pub proof fn law_derivation_runs_to_its_end(
    setup: SetupView,
    base: BaseView,
    blobs: Set<Seq<char>>,
)
    requires
        is_derivable(setup, base),
    ensures
        ends_with(setup, base, blobs, derivation(setup, base, blobs)),
        derivation(setup, base, blobs).derive.entries == derived_entries(
            setup,
            picked_images(setup, base),
            picked_configs(setup, base),
        ),
{
    let images = picked_images(setup, base);
    let configs = picked_configs(setup, base);
    lemma_platforms(setup, base, blobs, setup.platforms.len());
    assert(images.take(setup.platforms.len() as int) == images);
    law_derivation_adds_every_image(setup, base.manifest, images, configs, blobs);
}

/// A derivation that is repeated, with the registry as the first one left it, gives the same index
/// and uploads nothing. The first one uploads at least the new layer where the target repository
/// did not have it. No layer of the base image is downloaded.
pub proof fn law_repeated_derivation_uploads_nothing(
    setup: SetupView,
    base: BaseView,
    blobs: Set<Seq<char>>,
)
    requires
        is_derivable(setup, base),
    ensures
        ({
            let first = derivation(setup, base, blobs);
            let second = derivation(setup, base, first.blobs);
            &&& ends_with(setup, base, blobs, first)
            &&& ends_with(setup, base, first.blobs, second)
            &&& derived_image(second.derive) == (DerivedView {
                bytes_uploaded: 0,
                ..derived_image(first.derive)
            })
            &&& derived_image(first.derive).base_layer_bytes_downloaded == 0
            &&& !blobs.contains(setup.layer.blob_digest) ==> derived_image(
                first.derive,
            ).bytes_uploaded >= setup.layer.blob.len()
        }),
{
    let images = picked_images(setup, base);
    let configs = picked_configs(setup, base);
    let start = first_derive(setup, base.manifest);
    let one = with_new_layer(DeriveRun { derive: start, blobs });
    let first = derivation(setup, base, blobs);
    lemma_platforms_add(one, images, configs);
    assert(first.blobs.contains(setup.layer.blob_digest));
    let two = with_new_layer(DeriveRun { derive: start, blobs: first.blobs });
    assert(two.blobs =~= first.blobs);
    lemma_platforms_again(one, two, images, configs);
    law_derivation_runs_to_its_end(setup, base, blobs);
    law_derivation_runs_to_its_end(setup, base, first.blobs);
}

/// A derivation uploads something where the target repository was empty, for a layer that was
/// built with a cache whose records are all of layers that this library made.
pub proof fn law_first_derivation_uploads_something(
    entries: Seq<FileEntry>,
    archive: Seq<u8>,
    cache: Map<Seq<char>, Seq<u8>>,
    setup: SetupView,
    base: BaseView,
)
    requires
        finds_nothing(entries, archive, cache) ==> is_sound_store(
            content_search(entries, archive),
            new_store(entries, archive),
        ),
        is_own_cache(cache),
        whole_build(entries, archive, cache).0 == LayerStepView::Done(setup.layer),
        is_derivable(setup, base),
    ensures
        ({
            let end = derivation(setup, base, Set::empty());
            &&& ends_with(setup, base, Set::empty(), end)
            &&& derived_image(end.derive).bytes_uploaded > 0
        }),
{
    law_layer_digests_agree(entries, archive, cache);
    law_repeated_derivation_uploads_nothing(setup, base, Set::empty());
}

} // verus!

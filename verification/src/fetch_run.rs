use vstd::prelude::*;

use crate::image_builder::{is_waiting, wanted, with_blob, BaseFetchView, BuildStepView};
use crate::layer_build::looked_up;
use crate::manifest::ImageManifestView;

verus! {

/// The blobs of a base image by their digests, in the order in which they are fetched.
pub open spec fn blob_digests(manifest: ImageManifestView) -> Seq<Seq<char>> {
    seq![manifest.config.digest] + Seq::new(
        manifest.layers.len(),
        |i: int| manifest.layers[i].digest,
    )
}

/// The digests that a cache does not hold, each once, in their order.
pub open spec fn missing_digests(
    digests: Seq<Seq<char>>,
    cache: Map<Seq<char>, Seq<u8>>,
) -> Seq<Seq<char>>
    decreases digests.len(),
{
    if digests.len() == 0 {
        Seq::empty()
    } else {
        let before = missing_digests(digests.drop_last(), cache);
        if cache.contains_key(digests.last()) || before.contains(digests.last()) {
            before
        } else {
            before.push(digests.last())
        }
    }
}

/// A build, the cache that it uses, and the digests that it has pulled.
pub struct FetchRun {
    pub fetch: BaseFetchView,
    pub cache: Map<Seq<char>, Seq<u8>>,
    pub pulled: Seq<Seq<char>>,
}

/// The build after the next blob is there, where neither the cache nor the registry fails: from the
/// cache, or else pulled and stored in the cache.
pub open spec fn fetch_next(run: FetchRun, registry: Map<Seq<char>, Seq<u8>>) -> FetchRun {
    let digest = wanted(run.fetch).digest;
    match looked_up(run.cache, digest) {
        Some(blob) => FetchRun { fetch: with_blob(run.fetch, blob), ..run },
        None => FetchRun {
            fetch: with_blob(run.fetch, registry[digest]),
            cache: run.cache.insert(digest, registry[digest]),
            pulled: run.pulled.push(digest),
        },
    }
}

/// The build after some blobs are there.
pub open spec fn fetch_some(
    run: FetchRun,
    registry: Map<Seq<char>, Seq<u8>>,
    count: nat,
) -> FetchRun
    decreases count,
{
    if count == 0 {
        run
    } else {
        fetch_next(fetch_some(run, registry, (count - 1) as nat), registry)
    }
}

/// The build after all blobs are there.
pub open spec fn fetch_all(
    start: BaseFetchView,
    cache: Map<Seq<char>, Seq<u8>>,
    registry: Map<Seq<char>, Seq<u8>>,
) -> FetchRun {
    fetch_some(
        FetchRun { fetch: start, cache, pulled: Seq::empty() },
        registry,
        start.manifest.layers.len() + 1,
    )
}

/// The blob that a build gets for a digest.
pub open spec fn blob_for(
    digest: Seq<char>,
    cache: Map<Seq<char>, Seq<u8>>,
    registry: Map<Seq<char>, Seq<u8>>,
) -> Seq<u8> {
    if cache.contains_key(digest) {
        cache[digest]
    } else {
        registry[digest]
    }
}

proof fn lemma_missing_digests(digests: Seq<Seq<char>>, cache: Map<Seq<char>, Seq<u8>>)
    ensures
        missing_digests(digests, cache).no_duplicates(),
        forall|d: Seq<char>|
            #![trigger missing_digests(digests, cache).contains(d)]
            #![trigger digests.contains(d)]
            missing_digests(digests, cache).contains(d) <==> digests.contains(d)
                && !cache.contains_key(d),
    decreases digests.len(),
{
    if digests.len() > 0 {
        let front = digests.drop_last();
        let before = missing_digests(front, cache);
        let all = missing_digests(digests, cache);
        let last = digests.last();
        lemma_missing_digests(front, cache);
        assert forall|d: Seq<char>| all.contains(d) <==> digests.contains(d)
            && !cache.contains_key(d) by {
            if before.contains(d) {
                let k = choose|k: int| 0 <= k < before.len() && before[k] == d;
                assert(all[k] == d);
            }
            if front.contains(d) {
                let k = choose|k: int| 0 <= k < front.len() && front[k] == d;
                assert(digests[k] == d);
            }
            if digests.contains(d) && d != last {
                let k = choose|k: int| 0 <= k < digests.len() && digests[k] == d;
                assert(front[k] == d);
            }
            if d == last {
                assert(digests[digests.len() - 1] == d);
                if all.len() > before.len() {
                    assert(all[before.len() as int] == d);
                }
            }
            if all.contains(d) {
                let k = choose|k: int| 0 <= k < all.len() && all[k] == d;
                if k < before.len() {
                    assert(before[k] == d);
                }
            }
        }
    }
}

/// What holds after `count` blobs are there.
spec fn is_fetched_so_far(
    run: FetchRun,
    start: BaseFetchView,
    cache: Map<Seq<char>, Seq<u8>>,
    registry: Map<Seq<char>, Seq<u8>>,
    count: nat,
) -> bool {
    let digests = blob_digests(start.manifest);
    &&& run.fetch.manifest == start.manifest
    &&& run.pulled == missing_digests(digests.take(count as int), cache)
    &&& forall|d: Seq<char>|
        #![trigger run.cache.contains_key(d)]
        run.cache.contains_key(d) <==> cache.contains_key(d) || run.pulled.contains(d)
    &&& forall|d: Seq<char>|
        #![trigger run.cache[d]]
        run.cache.contains_key(d) ==> run.cache[d] == blob_for(d, cache, registry)
    &&& run.fetch.config == if count == 0 {
        None
    } else {
        Some(blob_for(digests[0], cache, registry))
    }
    &&& run.fetch.layers.len() == if count == 0 {
        0
    } else {
        count - 1
    }
    &&& forall|i: int|
        0 <= i < run.fetch.layers.len() ==> #[trigger] run.fetch.layers[i] == blob_for(
            digests[i + 1],
            cache,
            registry,
        )
}

proof fn lemma_fetch(
    start: BaseFetchView,
    cache: Map<Seq<char>, Seq<u8>>,
    registry: Map<Seq<char>, Seq<u8>>,
    count: nat,
)
    requires
        start.config is None,
        start.layers.len() == 0,
        count <= start.manifest.layers.len() + 1,
    ensures
        is_fetched_so_far(
            fetch_some(
                FetchRun { fetch: start, cache, pulled: Seq::empty() },
                registry,
                count,
            ),
            start,
            cache,
            registry,
            count,
        ),
    decreases count,
{
    let first = FetchRun { fetch: start, cache, pulled: Seq::empty() };
    let digests = blob_digests(start.manifest);
    if count > 0 {
        let less = (count - 1) as nat;
        lemma_fetch(start, cache, registry, less);
        let before = fetch_some(first, registry, less);
        let after = fetch_next(before, registry);
        let digest = digests[less as int];
        assert(wanted(before.fetch).digest == digest);
        assert(digests.take(count as int).drop_last() == digests.take(less as int));
        assert(digests.take(count as int).last() == digest);
        if !before.cache.contains_key(digest) {
            assert forall|d: Seq<char>| after.pulled.contains(d) <==> before.pulled.contains(d) || d
                == digest by {
                if before.pulled.contains(d) {
                    let k = choose|k: int| 0 <= k < before.pulled.len() && before.pulled[k] == d;
                    assert(after.pulled[k] == d);
                }
                if d == digest {
                    assert(after.pulled[before.pulled.len() as int] == d);
                }
            }
        }
    }
}

/// How far the fetching has come: the step that is next, none where all blobs are there; the build;
/// the cache; and the digests that were pulled.
pub struct FetchState {
    pub step: Option<BuildStepView>,
    pub fetch: BaseFetchView,
    pub cache: Map<Seq<char>, Seq<u8>>,
    pub pulled: Seq<Seq<char>>,
}

/// The state in which the next blob is looked up, where one is missing.
pub open spec fn blob_state(run: FetchRun) -> FetchState {
    FetchState {
        step: if is_waiting(run.fetch) {
            Some(BuildStepView::LookupBlob(run.fetch))
        } else {
            None
        },
        fetch: run.fetch,
        cache: run.cache,
        pulled: run.pulled,
    }
}

/// The fetching after its next step, where neither the cache nor the registry fails.
pub open spec fn next_state(state: FetchState, registry: Map<Seq<char>, Seq<u8>>) -> FetchState {
    match state.step {
        Some(BuildStepView::LookupBlob(fetch)) => match looked_up(
            state.cache,
            wanted(fetch).digest,
        ) {
            Some(blob) => blob_state(
                FetchRun {
                    fetch: with_blob(fetch, blob),
                    cache: state.cache,
                    pulled: state.pulled,
                },
            ),
            None => FetchState { step: Some(BuildStepView::PullBlob(fetch)), ..state },
        },
        Some(BuildStepView::PullBlob(fetch)) => {
            let digest = wanted(fetch).digest;
            FetchState {
                step: Some(BuildStepView::StoreBlob(fetch, registry[digest])),
                pulled: state.pulled.push(digest),
                ..state
            }
        },
        Some(BuildStepView::StoreBlob(fetch, blob)) => blob_state(
            FetchRun {
                fetch: with_blob(fetch, blob),
                cache: state.cache.insert(wanted(fetch).digest, blob),
                pulled: state.pulled,
            },
        ),
        _ => state,
    }
}

/// The fetching after some steps.
pub open spec fn states_on(
    state: FetchState,
    registry: Map<Seq<char>, Seq<u8>>,
    count: nat,
) -> FetchState
    decreases count,
{
    if count == 0 {
        state
    } else {
        next_state(states_on(state, registry, (count - 1) as nat), registry)
    }
}

/// Whether the fetching comes from one state to another.
pub open spec fn comes_to(
    from: FetchState,
    to: FetchState,
    registry: Map<Seq<char>, Seq<u8>>,
) -> bool {
    exists|count: nat| #[trigger] states_on(from, registry, count) == to
}

proof fn lemma_comes_next(
    from: FetchState,
    to: FetchState,
    registry: Map<Seq<char>, Seq<u8>>,
)
    requires
        comes_to(from, to, registry),
    ensures
        comes_to(from, next_state(to, registry), registry),
{
    let count = choose|count: nat| #[trigger] states_on(from, registry, count) == to;
    assert(states_on(from, registry, count + 1) == next_state(to, registry));
}

proof fn lemma_steps_fetch(
    start: BaseFetchView,
    cache: Map<Seq<char>, Seq<u8>>,
    registry: Map<Seq<char>, Seq<u8>>,
    count: nat,
)
    requires
        start.config is None,
        start.layers.len() == 0,
        count <= start.manifest.layers.len() + 1,
    ensures
        ({
            let first = FetchRun { fetch: start, cache, pulled: Seq::empty() };
            comes_to(
                blob_state(first),
                blob_state(fetch_some(first, registry, count)),
                registry,
            )
        }),
    decreases count,
{
    let first = FetchRun { fetch: start, cache, pulled: Seq::empty() };
    let from = blob_state(first);
    if count == 0 {
        assert(states_on(from, registry, 0) == from);
    } else {
        let less = (count - 1) as nat;
        lemma_fetch(start, cache, registry, less);
        lemma_steps_fetch(start, cache, registry, less);
        let before = fetch_some(first, registry, less);
        assert(is_waiting(before.fetch));
        let asked = blob_state(before);
        let answered = next_state(asked, registry);
        lemma_comes_next(from, asked, registry);
        if !before.cache.contains_key(wanted(before.fetch).digest) {
            let stored = next_state(answered, registry);
            lemma_comes_next(from, answered, registry);
            lemma_comes_next(from, stored, registry);
        }
    }
}

/// Each blob of a base image that the cache does not hold is pulled, once, in the order of the
/// manifest; those that it holds are not. Then the cache holds them all, each as it was pulled.
///
/// So a build on the same base image, with that cache, pulls no blob and gets the same ones. Either
/// build comes step by step to its end, where neither the cache nor the registry fails.
pub proof fn law_blobs_are_pulled_once(
    start: BaseFetchView,
    again: BaseFetchView,
    cache: Map<Seq<char>, Seq<u8>>,
    registry: Map<Seq<char>, Seq<u8>>,
)
    requires
        start.config is None,
        start.layers.len() == 0,
        again.config is None,
        again.layers.len() == 0,
        again.manifest == start.manifest,
    ensures
        ({
            let digests = blob_digests(start.manifest);
            let run = fetch_all(start, cache, registry);
            let second = fetch_all(again, run.cache, registry);
            &&& comes_to(
                blob_state(FetchRun { fetch: start, cache, pulled: Seq::empty() }),
                blob_state(run),
                registry,
            )
            &&& !is_waiting(run.fetch)
            &&& run.pulled == missing_digests(digests, cache)
            &&& run.pulled.no_duplicates()
            &&& forall|d: Seq<char>|
                run.pulled.contains(d) <==> digests.contains(d) && !cache.contains_key(d)
            &&& forall|d: Seq<char>|
                #![trigger digests.contains(d)]
                digests.contains(d) ==> looked_up(run.cache, d) == Some(
                    blob_for(d, cache, registry),
                )
            &&& comes_to(
                blob_state(FetchRun { fetch: again, cache: run.cache, pulled: Seq::empty() }),
                blob_state(second),
                registry,
            )
            &&& !is_waiting(second.fetch)
            &&& second.pulled.len() == 0
            &&& second.fetch.config == run.fetch.config
            &&& second.fetch.layers == run.fetch.layers
        }),
{
    let digests = blob_digests(start.manifest);
    let run = fetch_all(start, cache, registry);
    let second = fetch_all(again, run.cache, registry);
    let count = start.manifest.layers.len() + 1;
    lemma_fetch(start, cache, registry, count);
    lemma_fetch(again, run.cache, registry, count);
    lemma_steps_fetch(start, cache, registry, count);
    lemma_steps_fetch(again, run.cache, registry, count);
    assert(digests.take(count as int) == digests);
    lemma_missing_digests(digests, cache);
    lemma_missing_digests(digests, run.cache);
    assert(second.pulled.len() == 0) by {
        if second.pulled.len() > 0 {
            let d = second.pulled[0];
            assert(missing_digests(digests, run.cache).contains(d));
            assert(!cache.contains_key(d) ==> missing_digests(digests, cache).contains(d));
        }
    }
    assert forall|i: int| 0 <= i < digests.len() implies #[trigger] blob_for(
        digests[i],
        run.cache,
        registry,
    ) == blob_for(digests[i], cache, registry) by {
        assert(digests.contains(digests[i]));
    }
    assert(second.fetch.layers =~= run.fetch.layers);
}

} // verus!

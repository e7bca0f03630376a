# dockdash

A library that builds OCI container images and pushes them to registries, without a container
daemon. It is written in Rust and verified with Verus.

## Layout

- `src/` is the library. It computes and decides: what stands in a layer's archive, under which keys
  layers are cached, what an image's configuration says, which request comes next. Each function
  states in its contract what it gives, and Verus proves it. What takes several requests, such as a
  build or a push, is a chain of steps; each step has a method `resume` that takes what came back.
- `app/` does what the steps ask for: it reads files, keeps the cache on disk and speaks to
  registries.
- `tests/` runs the library, with caches and registries in memory.

## Modules

| module | what it holds |
| --- | --- |
| `layer`, `layer_input`, `layer_build` | layers: their contents, their cache keys, their build |
| `image_builder`, `fetch_run`, `config`, `manifest` | images on a base image or from scratch |
| `push` | the push of an image, and the reports on its progress |
| `remote`, `derive`, `derive_run` | images that are derived in a registry, without downloading their layers |
| `image`, `reference`, `blobcache`, `error` | images, references, the cache, errors |
| `path`, `order`, `text`, `json`, `digest`, `compress`, `archive` | what the others are made of |

## What is taken on trust

Hashing, compression, archives, JSON and the parsing of references are left to other crates. Each
call stands in a small function that is marked `external_body` and says above its contract what is
believed of the call. The proof functions whose names start with `law_` state what holds of the
library as a whole.

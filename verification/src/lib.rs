//! Builds and pushes OCI container images, without a container daemon.
//!
//! A `LayerBuilder` collects files and data into a layer. An `ImageBuilder` puts layers on top of
//! a base image, or on nothing. `Image::push` brings an image into a registry, and
//! `derive_remote_image` adds a layer to an image without its layers leaving the registry.
//!
//! Everything here computes; nothing here reads a file or speaks to a registry. What takes several
//! requests is a chain of steps: a step says what to request next, and its `resume` takes what
//! came back and gives the next step.

pub mod archive;
pub mod blobcache;
pub mod builder_laws;
pub mod compress;
pub mod config;
pub mod contents_laws;
pub mod derive;
pub mod derive_laws;
pub mod derive_run;
pub mod digest;
pub mod error;
pub mod fetch_run;
pub mod image;
pub mod image_builder;
pub mod image_laws;
pub mod json;
pub mod layer;
pub mod layer_build;
pub mod layer_input;
pub mod layer_laws;
pub mod manifest;
pub mod order;
pub mod path;
pub mod push;
pub mod push_laws;
pub mod reference;
pub mod remote;
pub mod text;
pub mod text_laws;

pub use archive::EntryHeader;
pub use blobcache::{BlobCache, CacheFailure};
pub use derive::{derive_remote_image, DeriveStep};
pub use error::{Cause, Error, ErrorCode, RegistryError, RegistryErrorKind};
pub use image::{
    is_registry_requiring_monolithic_push, ArchiveContents, ArchiveFailure, BuildDiagnostics,
    ClientProtocol, Extraction, Image, ImageMetadata, LayerArchive, LayerBlob, ManifestSource,
    MonolithicPushPolicy, PullPolicy, PushOptions, PushProgressInfo, RegistryAuth,
};
pub use image_builder::{
    resolve_platform, BuildStep, BuiltImage, ImageBuilder, PullAndExtractOptions,
};
pub use layer::{LayerBuilder, SourceFailure, SourceFile, WalkFailure, WalkedEntry};
pub use layer_build::{Layer, LayerStep};
pub use manifest::{
    Descriptor, ImageIndex, ImageManifest, IndexEntry, Manifest, Platform,
};
pub use path::normalize_archive_path;
pub use push::{ConfigBlob, PushSource, PushStep};
pub use reference::ImageReference;
pub use remote::{RemoteDeriveOptions, RemoteDerivedImage, RemotePlatform};

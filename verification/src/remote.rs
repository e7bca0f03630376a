use vstd::prelude::*;

use crate::digest::{content_digest, digest_of};
use crate::error::{is_bad_json, is_generic, Cause, Error, RegistryError};
use crate::image::{ClientProtocol, MonolithicPushPolicy, RegistryAuth};
use crate::json::{
    items_view, json_parsed, json_rendered, lemma_push_item, lemma_push_member, member,
    members_view, parse_json, render_json, take_member, text_member, Json, JsonView,
};
use crate::manifest::{Descriptor, DescriptorView, Platform, PlatformView};
use crate::text::{copy_text, join, join3, same_optional_text, same_text, text_of};

verus! {

/// A platform of a derived image: an operating system and an architecture.
#[derive(Clone, Debug, Eq, PartialEq)]
pub struct RemotePlatform {
    /// The operating system by the OCI's name, such as `linux`.
    pub os: String,
    /// The architecture by the OCI's name, such as `amd64` or `arm64`.
    pub architecture: String,
    /// The variant of the architecture, where there is one.
    pub variant: Option<String>,
}

/// The contents of a `RemotePlatform`.
pub struct RemotePlatformView {
    pub os: Seq<char>,
    pub architecture: Seq<char>,
    pub variant: Option<Seq<char>>,
}

impl View for RemotePlatform {
    type V = RemotePlatformView;

    open spec fn view(&self) -> RemotePlatformView {
        RemotePlatformView {
            os: self.os@,
            architecture: self.architecture@,
            variant: text_of(self.variant),
        }
    }
}

/// Whether an image in an index is for the platform.
pub open spec fn platform_matches(target: RemotePlatformView, platform: PlatformView) -> bool {
    platform.os == target.os && platform.architecture == target.architecture && platform.variant
        == target.variant
}

impl RemotePlatform {
    /// A Linux platform.
    pub fn linux(architecture: &str) -> (platform: Self)
        ensures
            platform@ == (RemotePlatformView {
                os: "linux"@,
                architecture: architecture@,
                variant: None,
            }),
    {
        RemotePlatform {
            os: "linux".to_owned(),
            architecture: architecture.to_owned(),
            variant: None,
        }
    }

    /// Whether an image in an index is for this platform.
    pub fn matches_platform(&self, platform: &Platform) -> (fits: bool)
        ensures
            fits == platform_matches(self@, platform@),
    {
        same_text(platform.os.as_str(), self.os.as_str()) && same_text(
            platform.architecture.as_str(),
            self.architecture.as_str(),
        ) && same_optional_text(&platform.variant, &self.variant)
    }

    /// Whether this is the same platform as another.
    pub fn is_same(&self, other: &RemotePlatform) -> (same: bool)
        ensures
            same == (self@ == other@),
    {
        same_text(self.os.as_str(), other.os.as_str()) && same_text(
            self.architecture.as_str(),
            other.architecture.as_str(),
        ) && same_optional_text(&self.variant, &other.variant)
    }

    /// This platform as it stands in an index.
    pub fn as_oci_platform(&self) -> (platform: Platform)
        ensures
            platform@ == oci_platform(self@),
    {
        Platform {
            architecture: self.architecture.clone(),
            os: self.os.clone(),
            os_version: None,
            os_features: None,
            variant: copy_text(&self.variant),
            features: None,
        }
    }
}

/// A platform as it stands in an index.
pub open spec fn oci_platform(platform: RemotePlatformView) -> PlatformView {
    PlatformView {
        architecture: platform.architecture,
        os: platform.os,
        os_version: None,
        os_features: None,
        variant: platform.variant,
        features: None,
    }
}

/// How to derive an image in a registry.
#[derive(Clone, Debug)]
pub struct RemoteDeriveOptions {
    /// How to log in to read the base image.
    pub source_auth: RegistryAuth,
    /// How to log in to publish the derived image.
    pub target_auth: RegistryAuth,
    pub protocol: ClientProtocol,
    /// Whether new blobs are uploaded in one request.
    pub monolithic_push: MonolithicPushPolicy,
}

impl Default for RemoteDeriveOptions {
    fn default() -> (options: Self)
        ensures
            options.source_auth is Anonymous,
            options.target_auth is Anonymous,
            options.protocol is Https,
            options.monolithic_push == MonolithicPushPolicy::Auto,
    {
        RemoteDeriveOptions {
            source_auth: RegistryAuth::Anonymous,
            target_auth: RegistryAuth::Anonymous,
            protocol: ClientProtocol::Https,
            monolithic_push: MonolithicPushPolicy::Auto,
        }
    }
}

/// A derived image that was published.
#[derive(Clone, Debug, Eq, PartialEq)]
pub struct RemoteDerivedImage {
    /// The target as it was asked for.
    pub reference: String,
    /// The digest of the image index.
    pub digest: String,
    /// The number of bytes of the base image's layers that were downloaded: always none.
    pub base_layer_bytes_downloaded: u64,
    /// The number of bytes of new layers and configurations that were uploaded. Blobs that were in
    /// the target repository do not count.
    pub bytes_uploaded: u64,
}

/// An error without a cause.
pub(crate) fn generic_error(message: String) -> (error: Error)
    ensures
        is_generic(error, message@, None),
{
    Error::Generic { message, source: None }
}

/// The error for a request that failed.
pub(crate) fn registry_error(operation: &str, error: RegistryError) -> (failure: Error)
    ensures
        is_generic(failure, "Failed to "@ + operation@, Some(Cause::Registry(error))),
{
    Error::Generic { message: join("Failed to ", operation), source: Some(Cause::Registry(error)) }
}

/// The history that a derived layer adds.
pub open spec fn derived_history() -> JsonView {
    JsonView::Object(
        Map::empty().insert("created_by"@, JsonView::Text("dockdash remote derived layer"@)),
    )
}

/// The digests of the layers' archives that an image configuration lists.
pub open spec fn listed_diff_ids(config: JsonView) -> Option<Seq<JsonView>> {
    match member(config, "rootfs"@) {
        Some(root) => match member(root, "diff_ids"@) {
            Some(JsonView::List(ids)) => Some(ids),
            _ => None,
        },
        None => None,
    }
}

/// The history that an image configuration lists: none where it says nothing of it. Absent where
/// it is no list.
pub open spec fn listed_history(config: JsonView) -> Option<Seq<JsonView>> {
    match member(config, "history"@) {
        Some(JsonView::List(history)) => Some(history),
        Some(_) => None,
        None => Some(Seq::empty()),
    }
}

/// An image configuration with one more layer: the digest of its archive comes last, and so does
/// its history. All else stays.
pub open spec fn with_layer(config: JsonView, diff_id: Seq<char>) -> JsonView {
    let members = config->Object_0;
    let root = members["rootfs"@]->Object_0;
    JsonView::Object(
        members.insert(
            "rootfs"@,
            JsonView::Object(
                root.insert(
                    "diff_ids"@,
                    JsonView::List(listed_diff_ids(config)->0.push(JsonView::Text(diff_id))),
                ),
            ),
        ).insert("history"@, JsonView::List(listed_history(config)->0.push(derived_history()))),
    )
}

/// Adds a layer to an image configuration.
pub fn add_layer(config: Json, diff_id: &str) -> (derived: Result<Json, Error>)
    ensures
        match listed_diff_ids(config@) {
            None => derived matches Err(error) && is_generic(
                error,
                "base image config has no rootfs.diff_ids array"@,
                None,
            ),
            Some(_) => match listed_history(config@) {
                None => derived matches Err(error) && is_generic(
                    error,
                    "base image config history is not an array"@,
                    None,
                ),
                Some(_) => derived matches Ok(d) && d@ == with_layer(config@, diff_id@),
            },
        },
{
    let ghost view = config@;
    let mut members = match config {
        Json::Object(members) => members,
        _ => {
            return Err(
                generic_error("base image config has no rootfs.diff_ids array".to_owned()),
            );
        },
    };
    let ghost all = members_view(members@);
    let mut root = match take_member(&mut members, "rootfs") {
        Some(Json::Object(root)) => root,
        _ => {
            return Err(
                generic_error("base image config has no rootfs.diff_ids array".to_owned()),
            );
        },
    };
    let ghost root_view = members_view(root@);
    let mut diff_ids = match take_member(&mut root, "diff_ids") {
        Some(Json::List(diff_ids)) => diff_ids,
        _ => {
            return Err(
                generic_error("base image config has no rootfs.diff_ids array".to_owned()),
            );
        },
    };
    let ghost old_ids = diff_ids@;
    let id = Json::Text(diff_id.to_owned());
    assert(id@ == JsonView::Text(diff_id@));
    proof {
        lemma_push_item(old_ids, id);
    }
    diff_ids.push(id);
    let ids = Json::List(diff_ids);
    assert(ids@ == JsonView::List(items_view(old_ids).push(JsonView::Text(diff_id@))));
    let key = "diff_ids".to_owned();
    proof {
        lemma_push_member(root@, key, ids);
    }
    root.push((key, ids));
    let new_root = Json::Object(root);
    assert(new_root@ == JsonView::Object(root_view.insert("diff_ids"@, ids@)));
    let key = "rootfs".to_owned();
    proof {
        lemma_push_member(members@, key, new_root);
    }
    members.push((key, new_root));
    let ghost rooted = members_view(members@);
    proof {
        assert(rooted == all.insert("rootfs"@, new_root@));
        reveal_strlit("rootfs");
        reveal_strlit("history");
        assert("rootfs"@.len() != "history"@.len());
    }
    let mut history = match take_member(&mut members, "history") {
        None => Vec::new(),
        Some(Json::List(history)) => history,
        Some(_) => {
            return Err(generic_error("base image config history is not an array".to_owned()));
        },
    };
    let ghost old_history = history@;
    assert(items_view(old_history) == listed_history(view)->0);
    let mut entry: Vec<(String, Json)> = Vec::new();
    let key = "created_by".to_owned();
    let maker = Json::Text("dockdash remote derived layer".to_owned());
    proof {
        assert(maker@ == JsonView::Text("dockdash remote derived layer"@));
        assert(members_view(entry@) == Map::<Seq<char>, JsonView>::empty());
        lemma_push_member(entry@, key, maker);
    }
    entry.push((key, maker));
    let entry = Json::Object(entry);
    assert(entry@ == derived_history());
    proof {
        lemma_push_item(old_history, entry);
    }
    history.push(entry);
    let history = Json::List(history);
    assert(history@ == JsonView::List(items_view(old_history).push(derived_history())));
    let key = "history".to_owned();
    proof {
        lemma_push_member(members@, key, history);
    }
    members.push((key, history));
    assert(members_view(members@) == rooted.insert("history"@, history@));
    Ok(Json::Object(members))
}

/// An image configuration in JSON with one more layer, where a layer can be added to it.
pub open spec fn derived_config(base: Seq<u8>, diff_id: Seq<char>) -> Option<Seq<u8>> {
    match json_parsed(base) {
        Some(config) => if listed_diff_ids(config) is Some && listed_history(config) is Some {
            Some(json_rendered(with_layer(config, diff_id)))
        } else {
            None
        },
        None => None,
    }
}

/// Whether the error tells why no layer can be added to an image configuration.
pub open spec fn is_layer_error(error: Error, base: Seq<u8>) -> bool {
    match json_parsed(base) {
        None => is_bad_json(error, "Failed to parse base image configuration"@),
        Some(config) => is_generic(
            error,
            if listed_diff_ids(config) is None {
                "base image config has no rootfs.diff_ids array"@
            } else {
                "base image config history is not an array"@
            },
            None,
        ),
    }
}

/// Adds a layer to an image configuration in JSON.
pub fn append_diff_id(base: &[u8], diff_id: &str) -> (derived: Result<Vec<u8>, Error>)
    ensures
        match derived_config(base@, diff_id@) {
            None => derived matches Err(error) && is_layer_error(error, base@),
            Some(expected) => derived matches Ok(json) && json@ == expected,
        },
{
    let config = match parse_json(base) {
        Ok(config) => config,
        Err(source) => {
            return Err(
                Error::ImageConfig {
                    message: "Failed to parse base image configuration".to_owned(),
                    source: Some(Cause::Json(source)),
                },
            );
        },
    };
    let derived = match add_layer(config, diff_id) {
        Ok(derived) => derived,
        Err(error) => {
            return Err(error);
        },
    };
    match render_json(&derived) {
        Ok(json) => Ok(json),
        Err(source) => Err(
            Error::ImageConfig {
                message: "Failed to serialize derived image configuration".to_owned(),
                source: Some(Cause::Json(source)),
            },
        ),
    }
}

/// The message for a text that an image configuration does not have.
pub open spec fn no_field_message(key: Seq<char>) -> Seq<char> {
    "base image config has no string field '"@ + key + "'"@
}

/// The text of a member of an image configuration.
fn json_string(config: &Json, key: &str) -> (text: Result<String, Error>)
    ensures
        match text_member(config@, key@) {
            Some(found) => text matches Ok(t) && t@ == found,
            None => text matches Err(error) && is_generic(error, no_field_message(key@), None),
        },
{
    match config.get_text(key) {
        Some(text) => Ok(text),
        None => Err(
            generic_error(join3("base image config has no string field '", key, "'")),
        ),
    }
}

/// The platform that an image configuration is for, where it says so.
pub open spec fn document_platform(document: JsonView) -> Option<RemotePlatformView> {
    match (text_member(document, "os"@), text_member(document, "architecture"@)) {
        (Some(os), Some(architecture)) => Some(
            RemotePlatformView { os, architecture, variant: text_member(document, "variant"@) },
        ),
        _ => None,
    }
}

/// Whether the error tells what an image configuration does not say of its platform.
pub open spec fn is_field_error(error: Error, document: JsonView) -> bool {
    is_generic(
        error,
        no_field_message(
            if text_member(document, "os"@) is None {
                "os"@
            } else {
                "architecture"@
            },
        ),
        None,
    )
}

/// The platform that an image configuration in JSON is for, where it says so.
pub open spec fn config_platform(config: Seq<u8>) -> Option<RemotePlatformView> {
    match json_parsed(config) {
        Some(document) => document_platform(document),
        None => None,
    }
}

/// Whether the error tells why an image configuration does not say what platform it is for.
pub open spec fn is_platform_error(error: Error, config: Seq<u8>) -> bool {
    match json_parsed(config) {
        None => is_bad_json(error, "Failed to parse base image configuration"@),
        Some(document) => is_field_error(error, document),
    }
}

/// The platform that an image configuration is for.
pub fn platform_in(document: &Json) -> (platform: Result<RemotePlatform, Error>)
    ensures
        match document_platform(document@) {
            Some(found) => platform matches Ok(p) && p@ == found,
            None => platform matches Err(error) && is_field_error(error, document@),
        },
{
    let os = match json_string(document, "os") {
        Ok(os) => os,
        Err(error) => {
            return Err(error);
        },
    };
    let architecture = match json_string(document, "architecture") {
        Ok(architecture) => architecture,
        Err(error) => {
            return Err(error);
        },
    };
    Ok(RemotePlatform { os, architecture, variant: document.get_text("variant") })
}

/// The platform that an image configuration in JSON is for.
pub fn platform_from_image_config(config: &[u8]) -> (platform: Result<RemotePlatform, Error>)
    ensures
        match config_platform(config@) {
            Some(found) => platform matches Ok(p) && p@ == found,
            None => platform matches Err(error) && is_platform_error(error, config@),
        },
{
    match parse_json(config) {
        Ok(document) => platform_in(&document),
        Err(source) => Err(
            Error::ImageConfig {
                message: "Failed to parse base image configuration".to_owned(),
                source: Some(Cause::Json(source)),
            },
        ),
    }
}

/// The descriptor of a blob.
pub open spec fn blob_descriptor(media_type: Seq<char>, blob: Seq<u8>) -> DescriptorView {
    DescriptorView {
        media_type,
        digest: digest_of(blob),
        size: blob.len() as i64,
        urls: None,
        annotations: None,
    }
}

/// The descriptor of a blob. A blob whose size is beyond the range of a descriptor has none.
pub fn descriptor_for_bytes(media_type: &str, bytes: &[u8]) -> (descriptor: Result<
    Descriptor,
    Error,
>)
    ensures
        if bytes@.len() <= i64::MAX {
            descriptor matches Ok(d) && d@ == blob_descriptor(media_type@, bytes@)
        } else {
            descriptor matches Err(error) && is_generic(
                error,
                "blob is too large for an OCI descriptor"@,
                None,
            )
        },
{
    let length: u64 = bytes.len() as u64;
    if length > i64::MAX as u64 {
        return Err(generic_error("blob is too large for an OCI descriptor".to_owned()));
    }
    Ok(
        Descriptor {
            media_type: media_type.to_owned(),
            digest: content_digest(bytes),
            size: length as i64,
            urls: None,
            annotations: None,
        },
    )
}

/// A derived configuration lists the layers of the base image, then the new one, and nothing else
/// of it changes but the history, which gains one entry.
pub proof fn law_derived_config_adds_one_layer(config: JsonView, diff_id: Seq<char>)
    requires
        listed_diff_ids(config) is Some,
        listed_history(config) is Some,
    ensures
        ({
            let derived = with_layer(config, diff_id);
            &&& listed_diff_ids(derived) == Some(
                listed_diff_ids(config)->0.push(JsonView::Text(diff_id)),
            )
            &&& listed_history(derived) == Some(listed_history(config)->0.push(derived_history()))
            &&& forall|key: Seq<char>|
                key != "rootfs"@ && key != "history"@ ==> member(derived, key) == #[trigger] member(
                    config,
                    key,
                )
            &&& forall|key: Seq<char>|
                key != "diff_ids"@ ==> member(member(derived, "rootfs"@)->0, key)
                    == #[trigger] member(member(config, "rootfs"@)->0, key)
        }),
{
    reveal_strlit("rootfs");
    reveal_strlit("history");
    assert("rootfs"@.len() != "history"@.len());
}

} // verus!

use oci_spec::image::{
    ConfigBuilder, ImageConfiguration, ImageConfigurationBuilder, RootFsBuilder,
};
use vstd::prelude::*;

use crate::text::{text_of, texts, texts_of};

verus! {

#[verifier::external_type_specification]
#[verifier::external_body]
pub struct ExImageConfiguration(ImageConfiguration);

/// What an image configuration says of the process to run.
#[derive(Debug)]
pub struct ProcessFields {
    pub entrypoint: Option<Vec<String>>,
    pub cmd: Option<Vec<String>>,
    pub working_dir: Option<String>,
    pub env: Option<Vec<String>>,
    pub user: Option<String>,
}

/// What this library reads of an image configuration.
#[derive(Debug)]
pub struct ImageFields {
    pub os: String,
    pub architecture: String,
    /// The digests of the layers' archives, the lowest layer first.
    pub diff_ids: Vec<String>,
    pub process: Option<ProcessFields>,
}

/// What is written into an image configuration.
#[derive(Debug)]
pub struct ImageSettings {
    pub os: String,
    pub architecture: String,
    pub diff_ids: Vec<String>,
    pub entrypoint: Option<Vec<String>>,
    pub cmd: Option<Vec<String>>,
    pub working_dir: Option<String>,
}

/// The contents of `ProcessFields`.
pub struct ProcessView {
    pub entrypoint: Option<Seq<Seq<char>>>,
    pub cmd: Option<Seq<Seq<char>>>,
    pub working_dir: Option<Seq<char>>,
    pub env: Option<Seq<Seq<char>>>,
    pub user: Option<Seq<char>>,
}

/// The contents of `ImageFields`.
pub struct ImageFieldsView {
    pub os: Seq<char>,
    pub architecture: Seq<char>,
    pub diff_ids: Seq<Seq<char>>,
    pub process: Option<ProcessView>,
}

/// The contents of `ImageSettings`.
pub struct ImageSettingsView {
    pub os: Seq<char>,
    pub architecture: Seq<char>,
    pub diff_ids: Seq<Seq<char>>,
    pub entrypoint: Option<Seq<Seq<char>>>,
    pub cmd: Option<Seq<Seq<char>>>,
    pub working_dir: Option<Seq<char>>,
}

impl View for ProcessFields {
    type V = ProcessView;

    open spec fn view(&self) -> ProcessView {
        ProcessView {
            entrypoint: texts_of(self.entrypoint),
            cmd: texts_of(self.cmd),
            working_dir: text_of(self.working_dir),
            env: texts_of(self.env),
            user: text_of(self.user),
        }
    }
}

impl View for ImageFields {
    type V = ImageFieldsView;

    open spec fn view(&self) -> ImageFieldsView {
        ImageFieldsView {
            os: self.os@,
            architecture: self.architecture@,
            diff_ids: texts(self.diff_ids@),
            process: match self.process {
                Some(process) => Some(process@),
                None => None,
            },
        }
    }
}

/// The contents of fields that may be absent.
pub open spec fn fields_of(fields: Option<ImageFields>) -> Option<ImageFieldsView> {
    match fields {
        Some(f) => Some(f@),
        None => None,
    }
}

impl View for ImageSettings {
    type V = ImageSettingsView;

    open spec fn view(&self) -> ImageSettingsView {
        ImageSettingsView {
            os: self.os@,
            architecture: self.architecture@,
            diff_ids: texts(self.diff_ids@),
            entrypoint: texts_of(self.entrypoint),
            cmd: texts_of(self.cmd),
            working_dir: text_of(self.working_dir),
        }
    }
}

/// The fields of the image configuration that JSON holds; none where it holds none.
pub uninterp spec fn configuration_fields(json: Seq<u8>) -> Option<ImageFieldsView>;

/// What an image configuration says of one step of an image's making.
pub struct HistoryView {
    pub created: Option<Seq<char>>,
    pub author: Option<Seq<char>>,
    pub created_by: Option<Seq<char>>,
    pub comment: Option<Seq<char>>,
    pub empty_layer: Option<bool>,
}

/// What an image configuration says besides its `ImageFieldsView`.
pub struct RestView {
    pub created: Option<Seq<char>>,
    pub author: Option<Seq<char>>,
    pub os_version: Option<Seq<char>>,
    pub os_features: Option<Seq<Seq<char>>>,
    pub variant: Option<Seq<char>>,
    /// The type of the root file system.
    pub root_type: Seq<char>,
    pub history: Seq<HistoryView>,
    pub exposed_ports: Option<Set<Seq<char>>>,
    pub volumes: Option<Set<Seq<char>>>,
    pub labels: Option<Map<Seq<char>, Seq<char>>>,
    pub stop_signal: Option<Seq<char>>,
}

/// What the image configuration that JSON holds says besides its fields; of no meaning where JSON
/// holds none.
pub uninterp spec fn configuration_rest(json: Seq<u8>) -> RestView;

/// The fields of an image configuration: what its getters give.
pub uninterp spec fn object_fields(config: ImageConfiguration) -> ImageFieldsView;

/// What an image configuration says besides its fields: what its other getters give.
pub uninterp spec fn object_rest(config: ImageConfiguration) -> RestView;

/// The JSON of an image configuration whose maps have one order.
pub uninterp spec fn configuration_json(fields: ImageFieldsView, rest: RestView) -> Seq<u8>;

/// Whether a set that may be absent has one element at most.
pub open spec fn has_one_at_most(set: Option<Set<Seq<char>>>) -> bool {
    set matches Some(s) ==> forall|a: Seq<char>, b: Seq<char>|
        #![trigger s.contains(a), s.contains(b)]
        s.contains(a) && s.contains(b) ==> a == b
}

/// Whether the ports, the volumes and the labels of a configuration each have one order only, for
/// there is one of them at most.
pub open spec fn has_one_order(rest: RestView) -> bool {
    &&& has_one_at_most(rest.exposed_ports)
    &&& has_one_at_most(rest.volumes)
    &&& has_one_at_most(
        match rest.labels {
            Some(labels) => Some(labels.dom()),
            None => None,
        },
    )
}

/// Whether JSON is what an image configuration with these fields and this rest is written down as:
/// the same is read back from it. Where there is one order only, that leaves one JSON.
pub open spec fn is_json_of(json: Seq<u8>, fields: ImageFieldsView, rest: RestView) -> bool {
    &&& configuration_fields(json) == Some(fields)
    &&& configuration_rest(json) == rest
    &&& has_one_order(rest) ==> json == configuration_json(fields, rest)
}

/// A configuration that says nothing besides its fields.
pub open spec fn no_rest(root_type: Seq<char>) -> RestView {
    RestView {
        created: None,
        author: None,
        os_version: None,
        os_features: None,
        variant: None,
        root_type,
        history: Seq::empty(),
        exposed_ports: None,
        volumes: None,
        labels: None,
        stop_signal: None,
    }
}

/// The architecture that is read back where `name` was written: 32-bit big-endian ARM is taken
/// for its 64-bit successor.
pub open spec fn kept_architecture(name: Seq<char>) -> Seq<char> {
    if name == "armbe"@ {
        "arm64be"@
    } else {
        name
    }
}

/// The fields of a configuration after the settings were written into it, where `process` is what
/// it said of the process before.
pub open spec fn with_settings(
    process: Option<ProcessView>,
    settings: ImageSettingsView,
) -> ImageFieldsView {
    ImageFieldsView {
        os: settings.os,
        architecture: kept_architecture(settings.architecture),
        diff_ids: settings.diff_ids,
        process: Some(
            ProcessView {
                entrypoint: settings.entrypoint,
                cmd: settings.cmd,
                working_dir: settings.working_dir,
                env: match process {
                    Some(p) => p.env,
                    None => None,
                },
                user: match process {
                    Some(p) => p.user,
                    None => None,
                },
            },
        ),
    }
}

/// Reads an image configuration, by `serde_json::from_slice` into an
/// `oci_spec::image::ImageConfiguration` and its getters.
///
/// Trusted: the fields are a function of the bytes.
#[verifier::external_body]
pub(crate) fn read_configuration(json: &[u8]) -> (fields: Result<ImageFields, serde_json::Error>)
    ensures
        match fields {
            Ok(f) => configuration_fields(json@) == Some(f@),
            Err(_) => configuration_fields(json@) is None,
        },
{
    let config: ImageConfiguration = serde_json::from_slice(json)?;
    let process = config.config().as_ref().map(
        |c| ProcessFields {
            entrypoint: c.entrypoint().clone(),
            cmd: c.cmd().clone(),
            working_dir: c.working_dir().clone(),
            env: c.env().clone(),
            user: c.user().clone(),
        },
    );
    let diff_ids = config.rootfs().diff_ids().clone();
    let (os, architecture) = (config.os().to_string(), config.architecture().to_string());
    Ok(ImageFields { os, architecture, diff_ids, process })
}

/// Writes settings into an image configuration, by the setters of
/// `oci_spec::image::ImageConfiguration` and `oci_spec::image::Config` between
/// `serde_json::from_slice` and `serde_json::to_vec`. Gives the configuration and its JSON.
///
/// Trusted: this fails only where there is no configuration to read. The configuration has the
/// settings, and all else that it said before stays. The same is read back from the JSON. Ports,
/// volumes and labels come out in the order of a hash map; where there is one of each at most, the
/// JSON is a function of what the configuration says, and else nothing more is said of the bytes.
#[verifier::external_body]
pub(crate) fn write_configuration(base: &[u8], settings: ImageSettings) -> (written: Result<
    (ImageConfiguration, Vec<u8>),
    serde_json::Error,
>)
    ensures
        written is Ok == configuration_fields(base@) is Some,
        written matches Ok((config, json)) ==> {
            &&& object_fields(config) == with_settings(
                configuration_fields(base@)->0.process,
                settings@,
            )
            &&& object_rest(config) == configuration_rest(base@)
            &&& configuration_fields(json@) == Some(object_fields(config))
            &&& configuration_rest(json@) == object_rest(config)
            &&& has_one_order(object_rest(config)) ==> json@ == configuration_json(
                object_fields(config),
                object_rest(config),
            )
        },
{
    let mut config: ImageConfiguration = serde_json::from_slice(base)?;
    *config.rootfs_mut().diff_ids_mut() = settings.diff_ids;
    let mut process = config.config().clone().unwrap_or_default();
    process.set_entrypoint(settings.entrypoint);
    process.set_cmd(settings.cmd);
    process.set_working_dir(settings.working_dir);
    config.set_os(settings.os.as_str().into());
    config.set_architecture(settings.architecture.as_str().into());
    config.set_config(Some(process));
    let json = serde_json::to_vec(&config)?;
    Ok((config, json))
}

/// Makes a new image configuration, by `oci_spec::image::RootFsBuilder`,
/// `oci_spec::image::ConfigBuilder` and `oci_spec::image::ImageConfigurationBuilder`, and writes
/// it down by `oci_spec::image::ImageConfiguration::to_string`. Gives the configuration and its
/// JSON.
///
/// Trusted: this does not fail, for nothing that the builders need is left out. The configuration
/// has the settings and says nothing else but the type of the root file system. The same is read
/// back from the JSON, which is a function of it.
#[verifier::external_body]
pub(crate) fn new_configuration(root_type: &str, settings: ImageSettings) -> (written: Result<
    (ImageConfiguration, Vec<u8>),
    (String, oci_spec::OciSpecError),
>)
    ensures
        written is Ok,
        written matches Ok((config, json)) ==> {
            &&& object_fields(config) == with_settings(None, settings@)
            &&& object_rest(config) == no_rest(root_type@)
            &&& configuration_fields(json@) == Some(object_fields(config))
            &&& configuration_rest(json@) == object_rest(config)
            &&& has_one_order(object_rest(config)) ==> json@ == configuration_json(
                object_fields(config),
                object_rest(config),
            )
        },
{
    let fault = |e: oci_spec::OciSpecError| (e.to_string(), e);
    let mut process = ConfigBuilder::default().build().map_err(fault)?;
    process.set_entrypoint(settings.entrypoint);
    process.set_cmd(settings.cmd);
    process.set_working_dir(settings.working_dir);
    let root = RootFsBuilder::default().typ(root_type).diff_ids(settings.diff_ids);
    let root = root.build().map_err(fault)?;
    let config = ImageConfigurationBuilder::default().os(settings.os.as_str());
    let config = config.architecture(settings.architecture.as_str()).rootfs(root);
    let config = config.config(process).build().map_err(fault)?;
    let json = config.to_string().map_err(fault)?;
    Ok((config, json.into_bytes()))
}

} // verus!

use cacache::Error as CacheError;
use vstd::prelude::*;

verus! {

#[verifier::external_type_specification]
#[verifier::external_body]
pub struct ExIoError(std::io::Error);

#[verifier::external_type_specification]
#[verifier::external_body]
pub struct ExJoinError(tokio::task::JoinError);

#[verifier::external_type_specification]
#[verifier::external_body]
pub struct ExDistributionError(oci_client::errors::OciDistributionError);

#[verifier::external_type_specification]
#[verifier::external_body]
pub struct ExParseError(oci_client::ParseError);

#[verifier::external_type_specification]
#[verifier::external_body]
pub struct ExOciSpecError(oci_spec::OciSpecError);

#[verifier::external_type_specification]
#[verifier::external_body]
pub struct ExCacheError(CacheError);

/// A code in a registry's error response.
#[derive(Clone, Copy, Debug, PartialEq, Eq, Structural)]
pub enum ErrorCode {
    /// The manifest is unknown to the registry.
    ManifestUnknown,
    /// Any other code.
    Other,
}

/// What a registry request failed of.
#[derive(Debug)]
pub enum RegistryErrorKind {
    /// The registry answered with an error response that holds these codes.
    Response(Vec<ErrorCode>),
    /// The image manifest was not found.
    ManifestNotFound,
    /// Anything else.
    Other,
}

/// A request to a registry that failed.
#[derive(Debug)]
pub struct RegistryError {
    pub kind: RegistryErrorKind,
    /// The failure in words.
    pub text: String,
    pub source: oci_client::errors::OciDistributionError,
}

/// What lies behind an error.
#[derive(Debug)]
pub enum Cause {
    Registry(RegistryError),
    Reference(oci_client::ParseError),
    Configuration(oci_spec::OciSpecError),
    Cache(cacache::Error),
    Json(serde_json::Error),
    Io(std::io::Error),
    /// A failure of which only the words are known.
    Text(String),
}

/// The errors of this library.
#[derive(Debug)]
#[non_exhaustive]
#[allow(inconsistent_fields)]
pub enum Error {
    /// A failure that no other variant describes.
    Generic { message: String, source: Option<Cause> },
    Io { message: String, source: std::io::Error },
    Join { message: String, source: tokio::task::JoinError },
    ImagePull { image_ref: String, message: String, source: Option<Cause> },
    ImageConfig { message: String, source: Option<Cause> },
    OciArchive { message: String, source: Option<Cause> },
    Cache { message: String, source: Option<Cause> },
    InvalidPath { message: String },
}

/// Whether the error is a generic one with this message and cause.
pub open spec fn is_generic(error: Error, text: Seq<char>, cause: Option<Cause>) -> bool {
    error matches Error::Generic { message, source } && message@ == text && source == cause
}

/// Whether the error is an I/O error with this message and cause.
pub open spec fn is_io(error: Error, text: Seq<char>, cause: std::io::Error) -> bool {
    error matches Error::Io { message, source } && message@ == text && source == cause
}

/// Whether the error is an I/O error with this message.
pub open spec fn is_io_saying(error: Error, text: Seq<char>) -> bool {
    error matches Error::Io { message, .. } && message@ == text
}

/// Whether the error is a failed pull of `image` with this message and cause.
pub open spec fn is_image_pull(
    error: Error,
    image: Seq<char>,
    text: Seq<char>,
    cause: Option<Cause>,
) -> bool {
    error matches Error::ImagePull { image_ref, message, source } && image_ref@ == image && message@
        == text && source == cause
}

/// Whether the error is a configuration error with this message, for JSON that could not be read or
/// written.
pub open spec fn is_bad_json(error: Error, text: Seq<char>) -> bool {
    error matches Error::ImageConfig { message, source: Some(Cause::Json(_)) } && message@ == text
}

/// Whether the error is a generic one with this message, for a text that is no image reference.
pub open spec fn is_bad_reference(error: Error, text: Seq<char>) -> bool {
    error matches Error::Generic { message, source: Some(Cause::Reference(_)) } && message@ == text
}

/// Whether the error is an archive error with this message and cause.
pub open spec fn is_oci_archive(error: Error, text: Seq<char>, cause: Option<Cause>) -> bool {
    error matches Error::OciArchive { message, source } && message@ == text && source == cause
}

/// Whether the error is a cache error with this message and cause.
pub open spec fn is_cache(error: Error, text: Seq<char>, cause: Option<Cause>) -> bool {
    error matches Error::Cache { message, source } && message@ == text && source == cause
}

/// Whether the error is an invalid path with this message.
pub open spec fn is_invalid_path(error: Error, text: Seq<char>) -> bool {
    error matches Error::InvalidPath { message } && message@ == text
}

/// Whether a failed request says that the manifest does not exist: it was not found, or one of
/// the codes in the response says so.
pub open spec fn says_manifest_missing(kind: RegistryErrorKind) -> bool {
    match kind {
        RegistryErrorKind::Response(codes) => codes@.contains(ErrorCode::ManifestUnknown),
        RegistryErrorKind::ManifestNotFound => true,
        RegistryErrorKind::Other => false,
    }
}

/// Whether a failed request says that the manifest does not exist.
pub fn is_oci_manifest_not_found(kind: &RegistryErrorKind) -> (missing: bool)
    ensures
        missing == says_manifest_missing(*kind),
{
    match kind {
        RegistryErrorKind::Response(codes) => {
            for i in 0..codes.len()
                invariant
                    *kind == RegistryErrorKind::Response(*codes),
                    forall|j: int| 0 <= j < i ==> codes@[j] != ErrorCode::ManifestUnknown,
            {
                if codes[i] == ErrorCode::ManifestUnknown {
                    assert(codes@[i as int] == ErrorCode::ManifestUnknown);
                    return true;
                }
            }
            false
        },
        RegistryErrorKind::ManifestNotFound => true,
        RegistryErrorKind::Other => false,
    }
}

impl Error {
    /// Whether this error means that a manifest was not found in the registry, so that another
    /// base image may be tried.
    pub fn is_manifest_not_found(&self) -> (missing: bool)
        ensures
            missing == (self matches Error::ImagePull { source: Some(Cause::Registry(e)), .. }
                && says_manifest_missing(e.kind)),
    {
        match self {
            Error::ImagePull { source: Some(Cause::Registry(error)), .. } => {
                is_oci_manifest_not_found(&error.kind)
            },
            _ => false,
        }
    }
}

impl vstd::std_specs::convert::FromSpecImpl<std::io::Error> for Error {
    open spec fn obeys_from_spec() -> bool {
        false
    }

    open spec fn from_spec(err: std::io::Error) -> Self {
        arbitrary()
    }
}

impl From<std::io::Error> for Error {
    fn from(err: std::io::Error) -> (error: Self)
        ensures
            is_io(error, "An I/O error occurred"@, err),
    {
        Error::Io { message: "An I/O error occurred".to_owned(), source: err }
    }
}

} // verus!

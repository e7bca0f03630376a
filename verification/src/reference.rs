use vstd::prelude::*;

use crate::text::text_of;

verus! {

/// The parts of an image reference such as `ghcr.io/user/image:tag`.
#[derive(Debug)]
pub struct ImageReference {
    pub registry: String,
    /// The host that serves the registry.
    pub resolved_registry: String,
    pub repository: String,
    pub tag: Option<String>,
    pub digest: Option<String>,
    /// The reference in full.
    pub whole: String,
}

/// The contents of an `ImageReference`.
pub struct ReferenceView {
    pub registry: Seq<char>,
    pub resolved_registry: Seq<char>,
    pub repository: Seq<char>,
    pub tag: Option<Seq<char>>,
    pub digest: Option<Seq<char>>,
    pub whole: Seq<char>,
}

impl View for ImageReference {
    type V = ReferenceView;

    open spec fn view(&self) -> ReferenceView {
        ReferenceView {
            registry: self.registry@,
            resolved_registry: self.resolved_registry@,
            repository: self.repository@,
            tag: text_of(self.tag),
            digest: text_of(self.digest),
            whole: self.whole@,
        }
    }
}

/// Why a text is no image reference.
#[derive(Debug)]
pub struct ReferenceError {
    /// The failure in words.
    pub text: String,
    pub source: oci_client::ParseError,
}

/// The reference that a text holds, or in words why it holds none.
pub uninterp spec fn parsed_reference(text: Seq<char>) -> Result<ReferenceView, Seq<char>>;

/// Parses an image reference, by `oci_client::Reference::try_from` and the getters of
/// `oci_client::Reference`.
///
/// Trusted: the parts of the reference, and the words of a failure, are a function of the text.
#[verifier::external_body]
pub(crate) fn reference_of(text: &str) -> (reference: Result<ImageReference, ReferenceError>)
    ensures
        match reference {
            Ok(r) => parsed_reference(text@) == Ok::<ReferenceView, Seq<char>>(r@),
            Err(e) => parsed_reference(text@) == Err::<ReferenceView, Seq<char>>(e.text@),
        },
{
    let reference = oci_client::Reference::try_from(text);
    reference.map_err(|e| ReferenceError { text: e.to_string(), source: e }).map(
        |r| ImageReference {
            registry: r.registry().to_string(),
            resolved_registry: r.resolve_registry().to_string(),
            repository: r.repository().to_string(),
            tag: r.tag().map(str::to_string),
            digest: r.digest().map(str::to_string),
            whole: r.whole(),
        },
    )
}

} // verus!

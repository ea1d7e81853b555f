//! Files that become resources.
use crate::contracts::{ResourceRef, ResourceSemantic};
use crate::resource::provider::{BlobPlan, EntryView, TauriResourceProvider};
use crate::resource::provider;
use crate::text;
use vstd::prelude::*;
use vstd::string::*;

verus! {

broadcast use vstd::string::group_string_axioms;

/// The media type that is guessed from the name of a file.
pub uninterp spec fn guessed_media_type(path: Seq<char>) -> Option<Seq<char>>;

/// `mime_guess::MimeGuess::from_path` and `first_raw`: the first media type that is listed for
/// the extension of a path, where one is. No file is read.
#[verifier::external_body]
fn guess_media_type(path: &str) -> (media_type: Option<&'static str>)
    ensures
        match media_type {
            Some(guess) => guessed_media_type(path@) == Some(guess@),
            None => guessed_media_type(path@) is None,
        },
{
    mime_guess::MimeGuess::from_path(path).first_raw()
}

/// How a file is registered.
#[derive(Debug, PartialEq, Eq)]
pub struct ImportKind {
    pub schema: String,
    pub media_type: Option<String>,
}

/// A file of a media type has that type as its schema, and a file of none is taken as plain bytes.
pub fn import_kind(media_type: Option<String>) -> (kind: ImportKind)
    ensures
        kind.media_type == media_type,
        kind.schema@ == match media_type {
            Some(guess) => guess@,
            None => "application/octet-stream"@,
        },
{
    let schema = match &media_type {
        Some(guess) => guess.clone(),
        None => "application/octet-stream".to_owned(),
    };
    ImportKind { schema, media_type }
}

/// How the file at a path is registered.
pub fn import_kind_of(path: &str) -> (kind: ImportKind)
    ensures
        text::opt_text(kind.media_type) == guessed_media_type(path@),
        kind.schema@ == match guessed_media_type(path@) {
            Some(guess) => guess,
            None => "application/octet-stream"@,
        },
{
    let media_type = match guess_media_type(path) {
        Some(guess) => Some(guess.to_owned()),
        None => None,
    };
    import_kind(media_type)
}

/// Desktop file import/export affordance; registers descriptors via the provider.
#[derive(Clone, Copy, Debug, PartialEq, Eq)]
pub struct TauriFileImportExport;

impl TauriFileImportExport {
    /// Registers the body of the file at `path` that was written where it was planned. Its media
    /// type is guessed from the path.
    pub fn import_file(
        provider: &mut TauriResourceProvider,
        path: &str,
        plan: BlobPlan,
        bytes: &Vec<u8>,
    ) -> (descriptor: ResourceRef)
        ensures
            provider::describes_blob(
                descriptor,
                plan.ref_id@,
                "blob"@,
                ResourceSemantic::VersionedSnapshot,
                match guessed_media_type(path@) {
                    Some(guess) => guess,
                    None => "application/octet-stream"@,
                },
                bytes.len() as u64,
                provider::hash_of(bytes@),
                plan.key@,
            ),
            exists|media_type: Option<String>| #[trigger]
                old(provider)@.with(
                    plan.ref_id@,
                    EntryView { descriptor, media_type, path: plan.path@ },
                ) == final(provider)@ && text::opt_text(media_type) == guessed_media_type(path@),
    {
        let kind = import_kind_of(path);
        provider.create_blob(plan, kind.schema.as_str(), bytes, kind.media_type)
    }
}

} // verus!

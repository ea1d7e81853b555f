//! The three layers of the host's resources as one.
use crate::bridge::PreviewHandle;
use crate::config::HostPath;
use crate::contracts::{ResourceRef, ResourceSemantic};
use crate::ids;
use crate::resource::error::ResourceBridgeError;
use crate::resource::import_export::TauriFileImportExport;
use crate::resource::import_export;
use crate::resource::preview::{TauriPreviewStore, TokenView};
use crate::resource::preview;
use crate::resource::provider::{
    BlobPlan, EntryView, ProviderView, ResourceEntry, TauriResourceProvider,
};
use crate::resource::provider;
use crate::text;
use vstd::prelude::*;
use vstd::string::*;

verus! {

broadcast use vstd::string::group_string_axioms;

/// Host-facing aggregate over the three resource layers.
#[derive(Debug)]
pub struct TauriResourceStore {
    pub provider: TauriResourceProvider,
    pub preview: TauriPreviewStore,
}

impl TauriResourceStore {
    pub fn new(root: HostPath) -> (store: Self)
        ensures
            store.provider@ == (ProviderView { root: root@, entries: Map::empty() }),
            store.preview@ == Map::<Seq<char>, TokenView>::empty(),
    {
        TauriResourceStore {
            provider: TauriResourceProvider::new(root),
            preview: TauriPreviewStore::new(),
        }
    }

    pub fn descriptor(&self, ref_id: &str) -> (found: Result<ResourceRef, ResourceBridgeError>)
        ensures
            match found {
                Ok(descriptor) => self.provider@.entries.contains_key(ref_id@) && descriptor
                    == self.provider@.entries[ref_id@].descriptor,
                Err(error) => !self.provider@.entries.contains_key(ref_id@) && (error matches
                    ResourceBridgeError::NotFound(id) && id@ == ref_id@),
            },
    {
        self.provider.descriptor(ref_id)
    }

    /// Registers a body of a schema that was written where it was planned.
    pub fn create_blob(
        &mut self,
        plan: BlobPlan,
        schema: &str,
        bytes: &Vec<u8>,
        media_type: Option<String>,
    ) -> (descriptor: ResourceRef)
        ensures
            provider::describes_blob(
                descriptor,
                plan.ref_id@,
                "blob"@,
                ResourceSemantic::VersionedSnapshot,
                schema@,
                bytes.len() as u64,
                provider::hash_of(bytes@),
                plan.key@,
            ),
            final(self).provider@ == old(self).provider@.with(
                plan.ref_id@,
                EntryView { descriptor, media_type, path: plan.path@ },
            ),
            final(self).preview == old(self).preview,
    {
        self.provider.create_blob(plan, schema, bytes, media_type)
    }

    /// Registers the body of a file that was written where it was planned.
    pub fn import_file(&mut self, path: &str, plan: BlobPlan, bytes: &Vec<u8>) -> (descriptor:
        ResourceRef)
        ensures
            provider::describes_blob(
                descriptor,
                plan.ref_id@,
                "blob"@,
                ResourceSemantic::VersionedSnapshot,
                match import_export::guessed_media_type(path@) {
                    Some(guess) => guess,
                    None => "application/octet-stream"@,
                },
                bytes.len() as u64,
                provider::hash_of(bytes@),
                plan.key@,
            ),
            exists|media_type: Option<String>| #[trigger]
                old(self).provider@.with(
                    plan.ref_id@,
                    EntryView { descriptor, media_type, path: plan.path@ },
                ) == final(self).provider@ && text::opt_text(media_type)
                    == import_export::guessed_media_type(path@),
            final(self).preview == old(self).preview,
    {
        TauriFileImportExport::import_file(&mut self.provider, path, plan, bytes)
    }

    /// UI preview-only write path; not a runtime ResourcePlanGateway write. Takes in that a new
    /// body was written for an entry.
    pub fn write_bytes(&mut self, ref_id: &str, entry: ResourceEntry, bytes: &Vec<u8>) -> (descriptor:
        ResourceRef)
        requires
            old(self).provider@.entries.contains_key(ref_id@),
            entry@ == old(self).provider@.entries[ref_id@],
            entry.descriptor.version < u64::MAX,
        ensures
            provider::rewritten(
                old(self).provider@.entries[ref_id@].descriptor,
                descriptor,
                bytes@,
            ),
            final(self).provider@ == old(self).provider@.with(
                ref_id@,
                EntryView { descriptor, ..old(self).provider@.entries[ref_id@] },
            ),
            final(self).preview == old(self).preview,
    {
        self.provider.write_bytes(ref_id, entry, bytes)
    }

    /// Makes a link to a resource that the provider knows.
    pub fn create_preview_handle(&mut self, ref_id: &str, now_ns: i128, ttl_ns: u128) -> (made: Result<
        PreviewHandle,
        ResourceBridgeError,
    >)
        requires
            ttl_ns <= i128::MAX,
            preview::tellable(now_ns + ttl_ns),
        ensures
            final(self).provider == old(self).provider,
            match made {
                Ok(handle) => {
                    &&& old(self).provider@.entries.contains_key(ref_id@)
                    &&& handle.ref_id@ == ref_id@
                    &&& ids::id_shape(handle.token@)
                    &&& handle.url@ == "mutsuki-resource://"@ + handle.token@
                    &&& handle.expires_at_unix_secs == preview::unix_secs(now_ns + ttl_ns)
                    &&& final(self).preview@ == old(self).preview@.insert(
                        handle.token@,
                        TokenView { ref_id: ref_id@, expires_at_ns: now_ns + ttl_ns },
                    )
                },
                Err(error) => {
                    &&& !old(self).provider@.entries.contains_key(ref_id@)
                    &&& error matches ResourceBridgeError::NotFound(id) && id@ == ref_id@
                    &&& final(self).preview == old(self).preview
                },
            },
    {
        match self.provider.descriptor(ref_id) {
            Ok(_) => Ok(self.preview.create_preview_handle(ref_id, now_ns, ttl_ns)),
            Err(error) => Err(error),
        }
    }

    /// The resource that a link leads to.
    pub fn resolve_preview_token(&mut self, token: &str, now_ns: i128) -> (found: Result<
        String,
        ResourceBridgeError,
    >)
        ensures
            final(self).provider == old(self).provider,
            final(self).preview@ == preview::live(old(self).preview@, now_ns as int),
            match found {
                Ok(ref_id) => final(self).preview@.contains_key(token@) && ref_id@
                    == final(self).preview@[token@].ref_id,
                Err(error) => !final(self).preview@.contains_key(token@) && (error matches
                    ResourceBridgeError::InvalidToken(t) && t@ == token@),
            },
    {
        self.preview.resolve_preview_token(token, now_ns)
    }

    /// The entry whose body is shown under a link.
    pub fn read_preview_token(&mut self, token: &str, now_ns: i128) -> (found: Result<
        ResourceEntry,
        ResourceBridgeError,
    >)
        ensures
            final(self).provider == old(self).provider,
            final(self).preview@ == preview::live(old(self).preview@, now_ns as int),
            ({
                let tokens = final(self).preview@;
                let entries = old(self).provider@.entries;
                if !tokens.contains_key(token@) {
                    found matches Err(ResourceBridgeError::InvalidToken(t)) && t@ == token@
                } else if !entries.contains_key(tokens[token@].ref_id) {
                    found matches Err(ResourceBridgeError::NotFound(id)) && id@
                        == tokens[token@].ref_id
                } else {
                    found matches Ok(entry) && entry@ == entries[tokens[token@].ref_id]
                }
            }),
    {
        match self.preview.resolve_preview_token(token, now_ns) {
            Ok(ref_id) => self.provider.entry(ref_id.as_str()),
            Err(error) => Err(error),
        }
    }

    /// Takes a link back.
    pub fn release_preview_token(&mut self, token: &str) -> (released: Result<
        (),
        ResourceBridgeError,
    >)
        ensures
            final(self).provider == old(self).provider,
            final(self).preview@ == old(self).preview@.remove(token@),
            match released {
                Ok(_) => old(self).preview@.contains_key(token@),
                Err(error) => !old(self).preview@.contains_key(token@) && (error matches
                    ResourceBridgeError::InvalidToken(t) && t@ == token@),
            },
    {
        self.preview.release_preview_token(token)
    }
}

} // verus!

//! The provider of the host's resources: it knows each of them by its descriptor, and where its
//! body lies.
use crate::config::{HostPath, HostPathView};
use crate::contracts::{
    ERR_RESOURCE_GENERATION_MISMATCH, ERR_RESOURCE_NOT_FOUND, ResourceAccess, ResourceId,
    ResourceLifetime, ResourceRef, ResourceSealState, ResourceSemantic, RuntimeError,
    RuntimeErrorView,
};
use crate::ids;
use crate::json;
use crate::json::{JsonMember, JsonValue, JsonView};
use crate::ordered_map::OrderedMap;
use crate::resource::error::ResourceBridgeError;
use crate::text;
use vstd::prelude::*;
use vstd::string::*;

verus! {

broadcast use vstd::string::group_string_axioms;

/// The name of the provider.
pub const PROVIDER_ID: &'static str = "mutsuki.tauri.resource";

/// The name of the store that holds the bodies.
pub const STORE_ID: &'static str = "mutsuki-tauri-resource";

/// A resource that the provider knows.
#[derive(Debug, PartialEq, Eq)]
pub struct ResourceEntry {
    pub descriptor: ResourceRef,
    pub media_type: Option<String>,
    pub path: HostPath,
}

#[verifier::ext_equal]
pub struct EntryView {
    pub descriptor: ResourceRef,
    pub media_type: Option<String>,
    pub path: HostPathView,
}

impl View for ResourceEntry {
    type V = EntryView;

    open spec fn view(&self) -> EntryView {
        EntryView {
            descriptor: self.descriptor,
            media_type: self.media_type,
            path: self.path@,
        }
    }
}

impl Clone for ResourceEntry {
    fn clone(&self) -> (copy: Self)
        ensures
            copy@ == self@,
    {
        ResourceEntry {
            descriptor: self.descriptor.clone(),
            media_type: self.media_type.clone(),
            path: self.path.clone(),
        }
    }
}

/// The SHA-256 digest of a row of bytes.
pub uninterp spec fn sha256(bytes: Seq<u8>) -> Seq<u8>;

/// `sha2::Sha256::digest`: the digest of a row of bytes, which is 32 bytes long.
#[verifier::external_body]
fn digest_of(bytes: &[u8]) -> (digest: [u8; 32])
    ensures
        digest@ == sha256(bytes@),
{
    <sha2::Sha256 as sha2::Digest>::digest(bytes).into()
}

/// A hexadecimal digit as a character.
pub open spec fn hex_char(d: nat) -> char {
    if d < 10 {
        (('0' as u32) + d) as char
    } else {
        (('a' as u32) + (d - 10)) as char
    }
}

/// A row of bytes in hexadecimal, two digits for each.
pub open spec fn hex(bytes: Seq<u8>) -> Seq<char>
    decreases bytes.len(),
{
    if bytes.len() == 0 {
        Seq::empty()
    } else {
        hex(bytes.drop_last()).push(hex_char(bytes.last() as nat / 16)).push(
            hex_char(bytes.last() as nat % 16),
        )
    }
}

fn hex_digit_text(d: u8) -> (text: &'static str)
    requires
        d < 16,
    ensures
        text@ == seq![hex_char(d as nat)],
{
    proof {
        reveal_strlit("0");
        reveal_strlit("1");
        reveal_strlit("2");
        reveal_strlit("3");
        reveal_strlit("4");
        reveal_strlit("5");
        reveal_strlit("6");
        reveal_strlit("7");
        reveal_strlit("8");
        reveal_strlit("9");
        reveal_strlit("a");
        reveal_strlit("b");
        reveal_strlit("c");
        reveal_strlit("d");
        reveal_strlit("e");
        reveal_strlit("f");
    }
    match d {
        0 => "0",
        1 => "1",
        2 => "2",
        3 => "3",
        4 => "4",
        5 => "5",
        6 => "6",
        7 => "7",
        8 => "8",
        9 => "9",
        10 => "a",
        11 => "b",
        12 => "c",
        13 => "d",
        14 => "e",
        _ => "f",
    }
}

/// Writes a digest as a content hash: its algorithm, and its bytes in hexadecimal.
pub fn hash_text(digest: &[u8]) -> (hash: String)
    ensures
        hash@ == "sha256:"@ + hex(digest@),
{
    let mut hash = "sha256:".to_owned();
    let mut i: usize = 0;
    assert(digest@.take(0) =~= Seq::empty());
    assert("sha256:"@ + hex(digest@.take(0)) =~= "sha256:"@);
    while i < digest.len()
        invariant
            i <= digest.len(),
            hash@ == "sha256:"@ + hex(digest@.take(i as int)),
        decreases digest.len() - i,
    {
        let byte: u8 = digest[i];
        let ghost before = hash@;
        hash = hash.concat(hex_digit_text(byte / 16)).concat(hex_digit_text(byte % 16));
        proof {
            assert(digest@.take(i + 1).drop_last() =~= digest@.take(i as int));
            assert(hash@ =~= "sha256:"@ + hex(digest@.take(i + 1)));
        }
        i = i + 1;
    }
    assert(digest@.take(i as int) =~= digest@);
    hash
}

/// The content hash of a body.
pub open spec fn hash_of(bytes: Seq<u8>) -> Seq<char> {
    "sha256:"@ + hex(sha256(bytes))
}

/// The content hash of a body.
pub fn content_hash(bytes: &[u8]) -> (hash: String)
    ensures
        hash@ == hash_of(bytes@),
{
    let digest = digest_of(bytes);
    hash_text(digest.as_slice())
}

/// `descriptor` describes a body that has just been put under a key of the store.
pub open spec fn describes_blob(
    descriptor: ResourceRef,
    ref_id: Seq<char>,
    kind_id: Seq<char>,
    semantic: ResourceSemantic,
    schema: Seq<char>,
    len: u64,
    hash: Seq<char>,
    key: Seq<char>,
) -> bool {
    &&& descriptor.ref_id@ == ref_id
    &&& descriptor.resource_id.kind_id@ == kind_id
    &&& descriptor.resource_id.slot_id@ == ref_id
    &&& descriptor.resource_id.generation == 1
    &&& descriptor.resource_id.version == 1
    &&& descriptor.semantic == semantic
    &&& descriptor.provider_id@ == PROVIDER_ID@
    &&& descriptor.resource_kind@ == kind_id
    &&& descriptor.schema@ == schema
    &&& descriptor.version == 1
    &&& descriptor.generation == 1
    &&& descriptor.access matches ResourceAccess::Blob { store_id, key: k } && store_id@ == STORE_ID@
        && k@ == key
    &&& descriptor.size_hint == Some(len)
    &&& text::opt_text(descriptor.content_hash) == Some(hash)
    &&& descriptor.lifetime == ResourceLifetime::Persistent
    &&& descriptor.lease is None
    &&& descriptor.seal_state == ResourceSealState::Sealed
}

fn resource_ref(
    ref_id: &str,
    kind_id: &str,
    semantic: ResourceSemantic,
    schema: &str,
    len: u64,
    hash: String,
    key: String,
) -> (descriptor: ResourceRef)
    ensures
        describes_blob(descriptor, ref_id@, kind_id@, semantic, schema@, len, hash@, key@),
{
    ResourceRef {
        ref_id: ref_id.to_owned(),
        resource_id: ResourceId {
            kind_id: kind_id.to_owned(),
            slot_id: ref_id.to_owned(),
            generation: 1,
            version: 1,
        },
        semantic,
        provider_id: PROVIDER_ID.to_owned(),
        resource_kind: kind_id.to_owned(),
        schema: schema.to_owned(),
        version: 1,
        generation: 1,
        access: ResourceAccess::Blob { store_id: STORE_ID.to_owned(), key },
        size_hint: Some(len),
        content_hash: Some(hash),
        lifetime: ResourceLifetime::Persistent,
        lease: None,
        seal_state: ResourceSealState::Sealed,
    }
}

/// Where a new body goes.
#[derive(Debug, PartialEq, Eq)]
pub struct BlobPlan {
    pub ref_id: String,
    pub key: String,
    pub path: HostPath,
}

/// Which part of a body is read.
#[derive(Debug, PartialEq, Eq)]
pub struct ChunkPlan {
    pub path: HostPath,
    pub offset: u64,
    pub length: usize,
}

/// A plan to read a resource.
#[derive(Debug, PartialEq, Eq)]
pub struct ReadPlan {
    pub plan_id: String,
    pub resource: ResourceRef,
}

/// A plan to copy a resource to a file.
#[derive(Debug, PartialEq, Eq)]
pub struct ExportPlan {
    pub plan_id: String,
    pub resource: ResourceRef,
    pub target: String,
}

/// The change that a write makes, and the version that it starts from.
#[derive(Debug, PartialEq, Eq)]
pub struct PatchDescriptor {
    pub patch_id: String,
    pub target_ref: ResourceRef,
    pub base_version: u64,
    pub conflict_policy: String,
    pub operations: serde_json::Value,
}

/// A plan to write a resource.
#[derive(Debug, PartialEq, Eq)]
pub struct WritePlan {
    pub plan_id: String,
    pub resource: ResourceRef,
    pub base_version: u64,
    pub conflict_policy: String,
    pub patch: PatchDescriptor,
    pub returning: Option<String>,
}

/// A plan to run a command on a resource.
#[derive(Debug, PartialEq, Eq)]
pub struct CommandPlan {
    pub plan_id: String,
    pub operation: String,
}

/// A plan to stream a resource.
#[derive(Debug, PartialEq, Eq)]
pub struct StreamPlan {
    pub plan_id: String,
    pub resource: ResourceRef,
    pub operation: String,
    pub args: JsonValue,
}

/// A copy of a resource at a version.
#[derive(Debug, PartialEq, Eq)]
pub struct SnapshotDescriptor {
    pub snapshot_ref: ResourceRef,
    pub source_ref: ResourceRef,
    pub source_version: u64,
    pub snapshot_version: u64,
    pub is_stale: bool,
    pub is_latest: bool,
}

/// What carrying out a plan gives.
#[derive(Debug, PartialEq, Eq)]
pub struct PlanReceipt {
    pub plan_id: String,
    pub status: String,
    pub resource_ref: Option<ResourceRef>,
    pub snapshot: Option<SnapshotDescriptor>,
    pub descriptor_updates: Vec<ResourceRef>,
    pub new_version: Option<u64>,
    pub output: JsonValue,
}

/// Runtime `ResourceProviderGateway` / `ResourcePlanGateway` for desktop host resources.
#[derive(Debug)]
pub struct TauriResourceProvider {
    root: HostPath,
    entries: OrderedMap<ResourceEntry>,
}

#[verifier::ext_equal]
pub struct ProviderView {
    pub root: HostPathView,
    pub entries: Map<Seq<char>, EntryView>,
}

/// The entries of a map of resources.
pub open spec fn entry_views(entries: Map<Seq<char>, ResourceEntry>) -> Map<Seq<char>, EntryView> {
    entries.map_values(|entry: ResourceEntry| entry@)
}

impl View for TauriResourceProvider {
    type V = ProviderView;

    closed spec fn view(&self) -> ProviderView {
        ProviderView { root: self.root@, entries: entry_views(self.entries@) }
    }
}

impl ProviderView {
    /// The provider once it knows an entry.
    pub open spec fn with(self, ref_id: Seq<char>, entry: EntryView) -> ProviderView {
        ProviderView { entries: self.entries.insert(ref_id, entry), ..self }
    }
}

/// `after` is the descriptor of a body that took the place of the one of `before`: the version
/// goes up by one, and size and hash are those of the new body.
pub open spec fn rewritten(before: ResourceRef, after: ResourceRef, bytes: Seq<u8>) -> bool {
    &&& after.version == before.version + 1
    &&& text::opt_text(after.content_hash) == Some(hash_of(bytes))
    &&& after == (ResourceRef {
        version: after.version,
        resource_id: ResourceId { version: after.version, ..before.resource_id },
        size_hint: Some(bytes.len() as u64),
        content_hash: after.content_hash,
        ..before
    })
}

fn rewrite(descriptor: ResourceRef, bytes: &Vec<u8>) -> (after: ResourceRef)
    requires
        descriptor.version < u64::MAX,
    ensures
        rewritten(descriptor, after, bytes@),
{
    let mut after = descriptor;
    after.version = after.version + 1;
    after.resource_id.version = after.version;
    after.size_hint = Some(bytes.len() as u64);
    after.content_hash = Some(content_hash(bytes.as_slice()));
    after
}

/// A descriptor still describes the resource it was taken from.
pub open spec fn current(requested: ResourceRef, known: ResourceRef) -> bool {
    &&& requested.generation == known.generation
    &&& requested.resource_id.generation == requested.generation
    &&& requested.version == known.version
    &&& requested.resource_id.version == requested.version
}

/// The error of a plan, told on a route.
pub open spec fn plan_error(code: Seq<char>, route: Seq<char>) -> RuntimeErrorView {
    RuntimeError::plain(code, "tauri.resource"@, route)
}

/// `checked` is what a plan on a resource comes to: the entry of the resource, unless the resource
/// belongs to another provider, is unknown, or has moved on.
pub open spec fn plan_checked(
    v: ProviderView,
    resource: ResourceRef,
    route: Seq<char>,
    checked: Result<ResourceEntry, RuntimeError>,
) -> bool {
    let id = resource.ref_id@;
    if resource.provider_id@ != PROVIDER_ID@ {
        checked matches Err(error) && error@ == plan_error(
            "resource.unsupported"@,
            route + "."@ + resource.provider_id@,
        )
    } else if !v.entries.contains_key(id) {
        checked matches Err(error) && error@ == plan_error(ERR_RESOURCE_NOT_FOUND@, "resource."@ + id)
    } else if !current(resource, v.entries[id].descriptor) {
        checked matches Err(error) && error@ == plan_error(
            ERR_RESOURCE_GENERATION_MISMATCH@,
            route + "."@ + id,
        )
    } else {
        checked matches Ok(entry) && entry@ == v.entries[id]
    }
}

/// `checked` is what a plan to write comes to: besides what holds of every plan, it has to start
/// from the version of the resource.
pub open spec fn write_checked(
    v: ProviderView,
    plan: WritePlan,
    checked: Result<ResourceEntry, RuntimeError>,
) -> bool {
    let id = plan.resource.ref_id@;
    if plan.resource.provider_id@ == PROVIDER_ID@ && v.entries.contains_key(id) && current(
        plan.resource,
        v.entries[id].descriptor,
    ) && (plan.base_version != v.entries[id].descriptor.version || plan.patch.base_version
        != v.entries[id].descriptor.version) {
        checked matches Err(error) && error@ == plan_error(
            ERR_RESOURCE_GENERATION_MISMATCH@,
            "resource.tauri.write."@ + id,
        )
    } else {
        plan_checked(v, plan.resource, "resource.tauri.write"@, checked)
    }
}

/// The provider went from `before` to `after` when the body of a plan was written, and `done` is
/// the receipt: the resource of the plan has a new descriptor, and nothing else has changed.
pub open spec fn write_committed(
    before: ProviderView,
    after: ProviderView,
    plan: WritePlan,
    bytes: Seq<u8>,
    done: PlanReceipt,
) -> bool {
    let id = plan.resource.ref_id@;
    &&& done.plan_id@ == plan.plan_id@
    &&& done.status@ == "written"@
    &&& done.snapshot is None
    &&& done.output@ == status_output("written"@)
    &&& done.resource_ref matches Some(descriptor) && rewritten(
        before.entries[id].descriptor,
        descriptor,
        bytes,
    ) && done.descriptor_updates@ == seq![descriptor] && done.new_version == Some(
        descriptor.version,
    ) && after == before.with(id, EntryView { descriptor, ..before.entries[id] })
}

/// Every resource of `before` is known to `after`, and in no older version.
pub open spec fn moved_on(before: ProviderView, after: ProviderView) -> bool {
    forall|id: Seq<char>| #[trigger]
        before.entries.contains_key(id) ==> after.entries.contains_key(id)
            && after.entries[id].descriptor.version >= before.entries[id].descriptor.version
}

/// A write, and the registration of a resource that was not known, take no resource back to an
/// older version.
pub proof fn law_versions_never_go_back(
    v: ProviderView,
    id: Seq<char>,
    entry: EntryView,
    bytes: Seq<u8>,
)
    requires
        v.entries.contains_key(id) ==> rewritten(
            v.entries[id].descriptor,
            entry.descriptor,
            bytes,
        ),
    ensures
        moved_on(v, v.with(id, entry)),
{
}

/// A plan commits at most once: once it was committed it is refused, however much the provider has
/// moved on since.
pub proof fn law_plan_commits_at_most_once(
    v: ProviderView,
    plan: WritePlan,
    entry: ResourceEntry,
    bytes: Seq<u8>,
    done: PlanReceipt,
    committed: ProviderView,
    later: ProviderView,
    checked: Result<ResourceEntry, RuntimeError>,
)
    requires
        write_checked(v, plan, Ok(entry)),
        write_committed(v, committed, plan, bytes, done),
        moved_on(committed, later),
        write_checked(later, plan, checked),
    ensures
        checked matches Err(error) && error@ == plan_error(
            ERR_RESOURCE_GENERATION_MISMATCH@,
            "resource.tauri.write."@ + plan.resource.ref_id@,
        ),
{
    assert(committed.entries.contains_key(plan.resource.ref_id@));
    assert("resource.tauri.write"@ + "."@ =~= "resource.tauri.write."@) by {
        reveal_strlit("resource.tauri.write");
        reveal_strlit(".");
        reveal_strlit("resource.tauri.write.");
    }
}

/// A plan is accepted exactly where the resource is the provider's own, is known, and stands at
/// the generation and the version that the plan was made for; one for another generation or version
/// is refused as outdated.
pub proof fn law_only_current_plans_are_accepted(
    v: ProviderView,
    plan: WritePlan,
    checked: Result<ResourceEntry, RuntimeError>,
)
    requires
        plan.resource.provider_id@ == PROVIDER_ID@,
        v.entries.contains_key(plan.resource.ref_id@),
        write_checked(v, plan, checked),
    ensures
        checked is Ok <==> current(plan.resource, v.entries[plan.resource.ref_id@].descriptor)
            && plan.base_version == plan.resource.version && plan.patch.base_version
            == plan.resource.version,
        checked matches Err(error) ==> error@ == plan_error(
            ERR_RESOURCE_GENERATION_MISMATCH@,
            "resource.tauri.write."@ + plan.resource.ref_id@,
        ),
{
    assert("resource.tauri.write"@ + "."@ =~= "resource.tauri.write."@) by {
        reveal_strlit("resource.tauri.write");
        reveal_strlit(".");
        reveal_strlit("resource.tauri.write.");
    }
}

/// A descriptor that was just handed out is accepted by every plan.
pub proof fn law_fresh_descriptor_is_accepted(
    v: ProviderView,
    entry: EntryView,
    ref_id: Seq<char>,
    kind_id: Seq<char>,
    semantic: ResourceSemantic,
    schema: Seq<char>,
    len: u64,
    hash: Seq<char>,
    key: Seq<char>,
    route: Seq<char>,
    checked: Result<ResourceEntry, RuntimeError>,
)
    requires
        describes_blob(entry.descriptor, ref_id, kind_id, semantic, schema, len, hash, key),
        plan_checked(v.with(ref_id, entry), entry.descriptor, route, checked),
    ensures
        checked matches Ok(found) && found@ == entry,
{
}

/// A new descriptor of a written resource is accepted by every plan. The entry it leads to has the
/// size and the hash of what was written, and its body lies where it was written.
pub proof fn law_rewritten_descriptor_is_accepted(
    v: ProviderView,
    entry: EntryView,
    after: ResourceRef,
    bytes: Seq<u8>,
    route: Seq<char>,
    checked: Result<ResourceEntry, RuntimeError>,
)
    requires
        entry.descriptor.provider_id@ == PROVIDER_ID@,
        entry.descriptor.resource_id.generation == entry.descriptor.generation,
        rewritten(entry.descriptor, after, bytes),
        plan_checked(
            v.with(entry.descriptor.ref_id@, EntryView { descriptor: after, ..entry }),
            after,
            route,
            checked,
        ),
    ensures
        checked matches Ok(found) && found.descriptor == after && found.descriptor.size_hint == Some(
            bytes.len() as u64,
        ) && text::opt_text(found.descriptor.content_hash) == Some(hash_of(bytes)) && found.path@
            == entry.path,
{
}

/// The number of bytes that are read of a body of `total` bytes from `offset` on: as many as are
/// asked for, but no more than there are.
pub open spec fn chunk_length(total: int, offset: int, length: int) -> int {
    if length <= total - offset {
        length
    } else {
        total - offset
    }
}

/// The bytes that are read of a body from `offset` on.
pub open spec fn chunk(body: Seq<u8>, offset: int, length: int) -> Seq<u8> {
    body.subrange(offset, offset + chunk_length(body.len() as int, offset, length))
}

/// The first `n` chunks of a body, put together: those at 0, `length`, twice `length` and so on.
pub open spec fn chunks(body: Seq<u8>, length: int, n: nat) -> Seq<u8>
    decreases n,
{
    if n == 0 {
        Seq::empty()
    } else {
        chunks(body, length, (n - 1) as nat) + chunk(body, (n - 1) * length, length)
    }
}

proof fn lemma_full_chunks(body: Seq<u8>, length: int, n: nat)
    requires
        length > 0,
        n * length <= body.len(),
    ensures
        chunks(body, length, n) == body.take(n * length),
    decreases n,
{
    if n > 0 {
        assert(n * length == (n - 1) * length + length) by (nonlinear_arith);
        assert(0 <= (n - 1) * length) by (nonlinear_arith)
            requires
                n > 0,
                length > 0,
        ;
        lemma_full_chunks(body, length, (n - 1) as nat);
    } else {
        assert(n * length == 0) by (nonlinear_arith)
            requires
                n == 0,
        ;
    }
    assert(chunks(body, length, n) =~= body.take(n * length));
}

/// The chunks of a body at 0, `length`, twice `length` and so on, up to the first one that is
/// shorter than `length`, put together are the body. The last of them is empty where the body ends
/// with a full one. The same holds where the reader stops at the first chunk that reaches the end.
pub proof fn law_chunks_make_the_body(body: Seq<u8>, length: int, n: nat)
    requires
        length > 0,
        n > 0,
        (n - 1) * length <= body.len(),
        chunk(body, (n - 1) * length, length).len() < length || (n - 1) * length + chunk(
            body,
            (n - 1) * length,
            length,
        ).len() >= body.len(),
    ensures
        chunks(body, length, n) == body,
{
    let front = (n - 1) as nat;
    assert(0 <= front * length) by (nonlinear_arith)
        requires
            length > 0,
    ;
    lemma_full_chunks(body, length, front);
    assert(chunks(body, length, n) =~= body);
}

/// What a carried out plan puts out.
pub open spec fn status_output(status: Seq<char>) -> JsonView {
    JsonView::Object(seq![("status"@, JsonView::String(status))])
}

fn receipt(
    plan_id: &str,
    status: &str,
    resource_ref: Option<ResourceRef>,
    descriptor_updates: Vec<ResourceRef>,
    new_version: Option<u64>,
) -> (receipt: PlanReceipt)
    ensures
        receipt.plan_id@ == plan_id@,
        receipt.status@ == status@,
        receipt.resource_ref == resource_ref,
        receipt.snapshot is None,
        receipt.descriptor_updates == descriptor_updates,
        receipt.new_version == new_version,
        receipt.output@ == status_output(status@),
{
    let output = JsonValue::Object(
        vec![JsonMember { key: "status".to_owned(), value: JsonValue::String(status.to_owned()) }],
    );
    proof {
        reveal_with_fuel(json::json_view, 2);
        assert(output@->Object_0 =~= status_output(status@)->Object_0);
    }
    PlanReceipt {
        plan_id: plan_id.to_owned(),
        status: status.to_owned(),
        resource_ref,
        snapshot: None,
        descriptor_updates,
        new_version,
        output,
    }
}

impl TauriResourceProvider {
    /// Each entry stands under the identifier of its resource.
    #[verifier::type_invariant]
    spec fn named(self) -> bool {
        forall|id: Seq<char>| #[trigger]
            self.entries@.contains_key(id) ==> self.entries@[id].descriptor.ref_id@ == id
    }

    /// A provider that keeps the bodies in a directory.
    pub fn new(root: HostPath) -> (provider: Self)
        ensures
            provider@ == (ProviderView { root: root@, entries: Map::empty() }),
    {
        let provider = TauriResourceProvider { root, entries: OrderedMap::new() };
        assert(provider@.entries =~= Map::<Seq<char>, EntryView>::empty());
        provider
    }

    /// The directory of the bodies.
    pub fn root(&self) -> (root: &HostPath)
        ensures
            root@ == self@.root,
    {
        &self.root
    }

    pub fn entry(&self, ref_id: &str) -> (found: Result<ResourceEntry, ResourceBridgeError>)
        ensures
            match found {
                Ok(entry) => self@.entries.contains_key(ref_id@) && entry@ == self@.entries[ref_id@]
                    && entry.descriptor.ref_id@ == ref_id@,
                Err(error) => !self@.entries.contains_key(ref_id@) && (error matches
                    ResourceBridgeError::NotFound(id) && id@ == ref_id@),
            },
    {
        proof {
            use_type_invariant(self);
        }
        match self.entries.get(ref_id) {
            Some(entry) => Ok(entry.clone()),
            None => Err(ResourceBridgeError::NotFound(ref_id.to_owned())),
        }
    }

    pub fn descriptor(&self, ref_id: &str) -> (found: Result<ResourceRef, ResourceBridgeError>)
        ensures
            match found {
                Ok(descriptor) => self@.entries.contains_key(ref_id@) && descriptor
                    == self@.entries[ref_id@].descriptor,
                Err(error) => !self@.entries.contains_key(ref_id@) && (error matches
                    ResourceBridgeError::NotFound(id) && id@ == ref_id@),
            },
    {
        match self.entry(ref_id) {
            Ok(entry) => Ok(entry.descriptor),
            Err(error) => Err(error),
        }
    }

    /// Where a new body goes.
    pub fn plan_blob(&self) -> (plan: BlobPlan)
        ensures
            ids::prefixed_id("resource:tauri:"@, plan.ref_id@),
            exists|id: Seq<char>| #[trigger] ids::id_shape(id) && plan.key@ == id + ".bin"@,
            plan.path@ == self@.root.child(plan.key@),
    {
        let ref_id = ids::fresh_prefixed_id("resource:tauri:");
        let id = ids::fresh_id();
        assert(ids::id_shape(id@));
        let key = text::join2(id.as_str(), ".bin");
        let path = self.root.join(key.as_str());
        BlobPlan { ref_id, key, path }
    }

    fn put(&mut self, ref_id: String, entry: ResourceEntry)
        requires
            entry.descriptor.ref_id@ == ref_id@,
        ensures
            final(self)@ == old(self)@.with(ref_id@, entry@),
    {
        proof {
            use_type_invariant(&*self);
        }
        let mut entries: OrderedMap<ResourceEntry> = OrderedMap::new();
        std::mem::swap(&mut entries, &mut self.entries);
        entries.insert(ref_id, entry);
        self.entries = entries;
        assert(self@.entries =~= old(self)@.entries.insert(ref_id@, entry@));
    }

    /// Registers a body that was written where it was planned.
    pub fn register_blob(
        &mut self,
        plan: BlobPlan,
        kind_id: &str,
        semantic: ResourceSemantic,
        schema: &str,
        bytes: &Vec<u8>,
        media_type: Option<String>,
    ) -> (descriptor: ResourceRef)
        ensures
            describes_blob(
                descriptor,
                plan.ref_id@,
                kind_id@,
                semantic,
                schema@,
                bytes.len() as u64,
                hash_of(bytes@),
                plan.key@,
            ),
            final(self)@ == old(self)@.with(
                plan.ref_id@,
                EntryView { descriptor, media_type, path: plan.path@ },
            ),
    {
        let descriptor = resource_ref(
            plan.ref_id.as_str(),
            kind_id,
            semantic,
            schema,
            bytes.len() as u64,
            content_hash(bytes.as_slice()),
            plan.key,
        );
        self.put(
            plan.ref_id,
            ResourceEntry { descriptor: descriptor.clone(), media_type, path: plan.path },
        );
        descriptor
    }

    /// Registers a body of a schema that was written where it was planned.
    pub fn create_blob(
        &mut self,
        plan: BlobPlan,
        schema: &str,
        bytes: &Vec<u8>,
        media_type: Option<String>,
    ) -> (descriptor: ResourceRef)
        ensures
            describes_blob(
                descriptor,
                plan.ref_id@,
                "blob"@,
                ResourceSemantic::VersionedSnapshot,
                schema@,
                bytes.len() as u64,
                hash_of(bytes@),
                plan.key@,
            ),
            final(self)@ == old(self)@.with(
                plan.ref_id@,
                EntryView { descriptor, media_type, path: plan.path@ },
            ),
    {
        self.register_blob(
            plan,
            "blob",
            ResourceSemantic::VersionedSnapshot,
            schema,
            bytes,
            media_type,
        )
    }

    /// Registers a state that is copied when it is written.
    pub fn create_cow_state_resource(
        &mut self,
        plan: BlobPlan,
        kind_id: &str,
        schema: &str,
        bytes: &Vec<u8>,
    ) -> (descriptor: ResourceRef)
        ensures
            describes_blob(
                descriptor,
                plan.ref_id@,
                kind_id@,
                ResourceSemantic::CowVersionedState,
                schema@,
                bytes.len() as u64,
                hash_of(bytes@),
                plan.key@,
            ),
            final(self)@ == old(self)@.with(
                plan.ref_id@,
                EntryView { descriptor, media_type: None, path: plan.path@ },
            ),
    {
        self.register_blob(
            plan,
            kind_id,
            ResourceSemantic::CowVersionedState,
            schema,
            bytes,
            None,
        )
    }

    /// Describes a resource without a body, on which commands are run.
    pub fn create_capability_resource(kind_id: &str, schema: &str) -> (descriptor: ResourceRef)
        ensures
            ids::prefixed_id("resource:tauri:"@, descriptor.ref_id@),
            descriptor.resource_id.kind_id@ == kind_id@,
            descriptor.resource_id.slot_id == descriptor.ref_id,
            descriptor.resource_id.generation == 1,
            descriptor.resource_id.version == 1,
            descriptor.semantic == ResourceSemantic::CapabilityResource,
            descriptor.provider_id@ == PROVIDER_ID@,
            descriptor.resource_kind@ == kind_id@,
            descriptor.schema@ == schema@,
            descriptor.version == 1,
            descriptor.generation == 1,
            descriptor.access matches ResourceAccess::ProviderRpc { provider_id, method }
                && provider_id@ == PROVIDER_ID@ && method@ == "command"@,
            descriptor.size_hint is None,
            descriptor.content_hash is None,
            descriptor.lifetime == ResourceLifetime::Persistent,
            descriptor.lease is None,
            descriptor.seal_state == ResourceSealState::Sealed,
    {
        let ref_id = ids::fresh_prefixed_id("resource:tauri:");
        ResourceRef {
            ref_id: ref_id.clone(),
            resource_id: ResourceId {
                kind_id: kind_id.to_owned(),
                slot_id: ref_id,
                generation: 1,
                version: 1,
            },
            semantic: ResourceSemantic::CapabilityResource,
            provider_id: PROVIDER_ID.to_owned(),
            resource_kind: kind_id.to_owned(),
            schema: schema.to_owned(),
            version: 1,
            generation: 1,
            access: ResourceAccess::ProviderRpc {
                provider_id: PROVIDER_ID.to_owned(),
                method: "command".to_owned(),
            },
            size_hint: None,
            content_hash: None,
            lifetime: ResourceLifetime::Persistent,
            lease: None,
            seal_state: ResourceSealState::Sealed,
        }
    }

    /// Which part of a body is read: up to `length` bytes from `offset` on, and no more than there
    /// are. An offset behind the end of the body is refused.
    pub fn plan_chunk(&self, ref_id: &str, offset: u64, length: usize) -> (plan: Result<
        ChunkPlan,
        ResourceBridgeError,
    >)
        ensures
            if !self@.entries.contains_key(ref_id@) {
                plan matches Err(ResourceBridgeError::NotFound(id)) && id@ == ref_id@
            } else {
                let entry = self@.entries[ref_id@];
                let total = size_of(entry.descriptor);
                if offset > total {
                    plan == Err::<ChunkPlan, ResourceBridgeError>(
                        ResourceBridgeError::InvalidRange { offset, length: total },
                    )
                } else {
                    plan matches Ok(p) && p.path@ == entry.path && p.offset == offset && p.length
                        == chunk_length(total as int, offset as int, length as int)
                }
            },
    {
        let entry = match self.entry(ref_id) {
            Ok(entry) => entry,
            Err(error) => {
                return Err(error);
            },
        };
        let total: u64 = match entry.descriptor.size_hint {
            Some(size) => size,
            None => 0,
        };
        if offset > total {
            return Err(ResourceBridgeError::InvalidRange { offset, length: total });
        }
        let left: u64 = total - offset;
        let length: usize = if (length as u64) <= left {
            length
        } else {
            left as usize
        };
        Ok(ChunkPlan { path: entry.path, offset, length })
    }

    /// Takes in that a new body was written for an entry. Its version goes up by one.
    pub fn write_bytes(&mut self, ref_id: &str, entry: ResourceEntry, bytes: &Vec<u8>) -> (descriptor:
        ResourceRef)
        requires
            old(self)@.entries.contains_key(ref_id@),
            entry@ == old(self)@.entries[ref_id@],
            entry.descriptor.version < u64::MAX,
        ensures
            rewritten(old(self)@.entries[ref_id@].descriptor, descriptor, bytes@),
            final(self)@ == old(self)@.with(
                ref_id@,
                EntryView { descriptor, ..old(self)@.entries[ref_id@] },
            ),
    {
        proof {
            use_type_invariant(&*self);
            assert(self.entries@.contains_key(ref_id@));
        }
        let descriptor = rewrite(entry.descriptor, bytes);
        self.put(
            ref_id.to_owned(),
            ResourceEntry {
                descriptor: descriptor.clone(),
                media_type: entry.media_type,
                path: entry.path,
            },
        );
        descriptor
    }

    /// Checks a plan on a resource.
    fn check_plan(&self, resource: &ResourceRef, route: &str) -> (checked: Result<
        ResourceEntry,
        RuntimeError,
    >)
        ensures
            plan_checked(self@, *resource, route@, checked),
    {
        if !text::text_eq(resource.provider_id.as_str(), PROVIDER_ID) {
            return Err(
                RuntimeError::new(
                    "resource.unsupported",
                    "tauri.resource",
                    text::join3(route, ".", resource.provider_id.as_str()).as_str(),
                ),
            );
        }
        let entry = match self.entry(resource.ref_id.as_str()) {
            Ok(entry) => entry,
            Err(_) => {
                return Err(
                    RuntimeError::new(
                        ERR_RESOURCE_NOT_FOUND,
                        "tauri.resource",
                        text::join2("resource.", resource.ref_id.as_str()).as_str(),
                    ),
                );
            },
        };
        let known = &entry.descriptor;
        if resource.generation != known.generation || resource.resource_id.generation
            != resource.generation || resource.version != known.version
            || resource.resource_id.version != resource.version {
            return Err(
                RuntimeError::new(
                    ERR_RESOURCE_GENERATION_MISMATCH,
                    "tauri.resource",
                    text::join3(route, ".", resource.ref_id.as_str()).as_str(),
                ),
            );
        }
        Ok(entry)
    }

    /// Checks a plan to read: the entry says where the body lies.
    pub fn check_read_plan(&self, plan: &ReadPlan) -> (checked: Result<ResourceEntry, RuntimeError>)
        ensures
            plan_checked(self@, plan.resource, "resource.tauri.read"@, checked),
    {
        self.check_plan(&plan.resource, "resource.tauri.read")
    }

    /// Checks a plan to export: the entry says where the body lies.
    pub fn check_export_plan(&self, plan: &ExportPlan) -> (checked: Result<
        ResourceEntry,
        RuntimeError,
    >)
        ensures
            plan_checked(self@, plan.resource, "resource.tauri.export"@, checked),
    {
        self.check_plan(&plan.resource, "resource.tauri.export")
    }

    /// Checks a plan to write: the entry says where the body goes.
    pub fn check_write_plan(&self, plan: &WritePlan) -> (checked: Result<ResourceEntry, RuntimeError>)
        ensures
            write_checked(self@, *plan, checked),
    {
        let entry = match self.check_plan(&plan.resource, "resource.tauri.write") {
            Ok(entry) => entry,
            Err(error) => {
                return Err(error);
            },
        };
        if plan.base_version != entry.descriptor.version || plan.patch.base_version
            != entry.descriptor.version {
            return Err(
                RuntimeError::new(
                    ERR_RESOURCE_GENERATION_MISMATCH,
                    "tauri.resource",
                    text::join2("resource.tauri.write.", plan.resource.ref_id.as_str()).as_str(),
                ),
            );
        }
        Ok(entry)
    }

    /// The receipt of a plan whose resource was copied to its target.
    pub fn execute_export_plan(plan: &ExportPlan, entry: ResourceEntry) -> (done: PlanReceipt)
        ensures
            done.plan_id@ == plan.plan_id@,
            done.status@ == "exported"@,
            done.resource_ref == Some(entry.descriptor),
            done.snapshot is None,
            done.descriptor_updates@ == Seq::<ResourceRef>::empty(),
            done.new_version is None,
            done.output@ == status_output("exported"@),
    {
        receipt(plan.plan_id.as_str(), "exported", Some(entry.descriptor), Vec::new(), None)
    }

    /// Takes in that the body of a plan was written for the entry it was checked for. The receipt
    /// holds the new descriptor.
    pub fn commit_write_plan(&mut self, plan: &WritePlan, entry: ResourceEntry, bytes: &Vec<u8>) -> (done:
        PlanReceipt)
        requires
            write_checked(old(self)@, *plan, Ok(entry)),
            entry.descriptor.version < u64::MAX,
        ensures
            write_committed(old(self)@, final(self)@, *plan, bytes@, done),
    {
        proof {
            use_type_invariant(&*self);
            assert(self.entries@.contains_key(plan.resource.ref_id@));
        }
        let ref_id = entry.descriptor.ref_id.clone();
        let descriptor = rewrite(entry.descriptor, bytes);
        let new_version: u64 = descriptor.version;
        self.put(
            ref_id,
            ResourceEntry {
                descriptor: descriptor.clone(),
                media_type: entry.media_type,
                path: entry.path,
            },
        );
        let updates = vec![descriptor.clone()];
        assert(updates@ =~= seq![descriptor]);
        receipt(plan.plan_id.as_str(), "written", Some(descriptor), updates, Some(new_version))
    }

    /// The snapshot of a resource that was read and registered again.
    pub fn snapshot_of(plan: &ReadPlan, snapshot_ref: ResourceRef) -> (snapshot: SnapshotDescriptor)
        ensures
            snapshot == (SnapshotDescriptor {
                snapshot_ref,
                source_ref: plan.resource,
                source_version: plan.resource.version,
                snapshot_version: plan.resource.version,
                is_stale: false,
                is_latest: true,
            }),
    {
        SnapshotDescriptor {
            snapshot_ref,
            source_ref: plan.resource.clone(),
            source_version: plan.resource.version,
            snapshot_version: plan.resource.version,
            is_stale: false,
            is_latest: true,
        }
    }

    /// The plan to stream what a plan reads.
    pub fn open_stream_plan(plan: &ReadPlan) -> (stream: StreamPlan)
        ensures
            stream.plan_id@ == "stream-plan:"@ + plan.plan_id@,
            stream.resource == plan.resource,
            stream.operation@ == "open_stream"@,
            stream.args is Null,
    {
        StreamPlan {
            plan_id: text::join2("stream-plan:", plan.plan_id.as_str()),
            resource: plan.resource.clone(),
            operation: "open_stream".to_owned(),
            args: JsonValue::Null,
        }
    }

    /// No command can be run on a resource of this provider.
    pub fn execute_command_plan(plan: &CommandPlan) -> (done: Result<PlanReceipt, RuntimeError>)
        ensures
            done matches Err(error) && error@ == plan_error(
                "resource.command_unsupported"@,
                "command."@ + plan.operation@,
            ),
    {
        Err(
            RuntimeError::new(
                "resource.command_unsupported",
                "tauri.resource",
                text::join2("command.", plan.operation.as_str()).as_str(),
            ),
        )
    }

    /// A row of commands fails with its first one. An empty row has nothing to fail.
    pub fn execute_command_batch(commands: &Vec<CommandPlan>) -> (done: Result<
        Vec<PlanReceipt>,
        RuntimeError,
    >)
        ensures
            if commands.len() == 0 {
                done matches Ok(receipts) && receipts@ == Seq::<PlanReceipt>::empty()
            } else {
                done matches Err(error) && error@ == plan_error(
                    "resource.command_unsupported"@,
                    "command."@ + commands@[0].operation@,
                )
            },
    {
        if commands.len() == 0 {
            return Ok(Vec::new());
        }
        match TauriResourceProvider::execute_command_plan(&commands[0]) {
            Ok(_) => Ok(Vec::new()),
            Err(error) => Err(error),
        }
    }

    /// The error of a plan whose body could not be read or written.
    pub fn io_failure(message: &str) -> (error: RuntimeError)
        ensures
            error@ == plan_error("resource.io"@, message@),
    {
        RuntimeError::new("resource.io", "tauri.resource", message)
    }
}

/// The size of a body as its descriptor tells it.
pub open spec fn size_of(descriptor: ResourceRef) -> u64 {
    match descriptor.size_hint {
        Some(size) => size,
        None => 0,
    }
}

/// `String::from_utf8` of std: the text of bytes that are valid UTF-8, and an error for any other.
#[verifier::external_body]
fn utf8_text(bytes: Vec<u8>) -> (text: Option<String>)
    ensures
        match text {
            Some(t) => vstd::utf8::valid_utf8(bytes@) && t@ == vstd::utf8::decode_utf8(bytes@),
            None => !vstd::utf8::valid_utf8(bytes@),
        },
{
    String::from_utf8(bytes).ok()
}

/// Reads a body as text.
pub fn text_of(ref_id: &str, bytes: Vec<u8>) -> (read: Result<String, ResourceBridgeError>)
    ensures
        match read {
            Ok(t) => vstd::utf8::valid_utf8(bytes@) && t@ == vstd::utf8::decode_utf8(bytes@),
            Err(error) => !vstd::utf8::valid_utf8(bytes@) && (error matches
                ResourceBridgeError::NotUtf8(id) && id@ == ref_id@),
        },
{
    match utf8_text(bytes) {
        Some(t) => Ok(t),
        None => Err(ResourceBridgeError::NotUtf8(ref_id.to_owned())),
    }
}

/// The value of a hexadecimal digit.
pub open spec fn hex_value(c: char) -> int {
    if '0' <= c <= '9' {
        c as int - 48
    } else {
        c as int - 87
    }
}

proof fn lemma_hex_char(d: nat)
    requires
        d < 16,
    ensures
        ids::hex_digit(hex_char(d)),
        hex_value(hex_char(d)) == d,
{
    if d < 10 {
        let c = (('0' as u32) + d) as char;
        assert(c as int == 48 + d);
    } else {
        let c = (('a' as u32) + (d - 10)) as char;
        assert(c as int == 97 + (d - 10));
    }
}

/// A row of bytes is read back from its hexadecimal digits: two of them for each byte, the higher
/// one first, in lower case.
pub proof fn law_hexadecimal_reads_back(bytes: Seq<u8>, i: int)
    ensures
        hex(bytes).len() == 2 * bytes.len(),
        0 <= i < bytes.len() ==> hex_value(hex(bytes)[2 * i]) * 16 + hex_value(hex(bytes)[2 * i + 1])
            == bytes[i],
        0 <= i < bytes.len() ==> ids::hex_digit(hex(bytes)[2 * i]) && ids::hex_digit(
            hex(bytes)[2 * i + 1],
        ),
    decreases bytes.len(),
{
    if bytes.len() > 0 {
        let front = bytes.drop_last();
        law_hexadecimal_reads_back(front, i);
        lemma_hex_char(bytes.last() as nat / 16);
        lemma_hex_char(bytes.last() as nat % 16);
        if 0 <= i < front.len() {
            assert(front[i] == bytes[i]);
            assert(hex(bytes)[2 * i] == hex(front)[2 * i]);
            assert(hex(bytes)[2 * i + 1] == hex(front)[2 * i + 1]);
        }
    }
}

/// The content hash of a body is the hexadecimal text of its digest behind the name of the
/// algorithm, so that bodies with one hash have one digest.
pub proof fn law_content_hash_is_the_digest(a: Seq<u8>, b: Seq<u8>)
    ensures
        hash_of(a).take(7) == "sha256:"@,
        hash_of(a).skip(7) == hex(sha256(a)),
        hash_of(a) == hash_of(b) <==> sha256(a) == sha256(b),
{
    reveal_strlit("sha256:");
    assert("sha256:"@.len() == 7);
    assert(hash_of(a).take(7) =~= "sha256:"@);
    assert(hash_of(a).skip(7) =~= hex(sha256(a)));
    assert(hash_of(b).skip(7) =~= hex(sha256(b)));
    if hash_of(a) == hash_of(b) {
        let x = sha256(a);
        let y = sha256(b);
        law_hexadecimal_reads_back(x, 0);
        law_hexadecimal_reads_back(y, 0);
        assert(x.len() == y.len());
        assert forall|i: int| 0 <= i < x.len() implies x[i] == y[i] by {
            law_hexadecimal_reads_back(x, i);
            law_hexadecimal_reads_back(y, i);
        }
        assert(x =~= y);
    }
}

/// A body that has just been put under a key is described by its identifier, kind, schema, size and
/// hash; it belongs to this provider, lies in its store under that key, stands at its first version
/// and stays.
pub proof fn law_new_body_is_described(
    descriptor: ResourceRef,
    ref_id: Seq<char>,
    kind_id: Seq<char>,
    semantic: ResourceSemantic,
    schema: Seq<char>,
    len: u64,
    hash: Seq<char>,
    key: Seq<char>,
)
    requires
        describes_blob(descriptor, ref_id, kind_id, semantic, schema, len, hash, key),
    ensures
        descriptor.ref_id@ == ref_id && descriptor.resource_id.slot_id@ == ref_id,
        descriptor.resource_kind@ == kind_id && descriptor.resource_id.kind_id@ == kind_id,
        descriptor.semantic == semantic,
        descriptor.schema@ == schema,
        descriptor.version == 1 && descriptor.resource_id.version == 1,
        descriptor.generation == 1 && descriptor.resource_id.generation == 1,
        descriptor.provider_id@ == "mutsuki.tauri.resource"@,
        descriptor.access matches ResourceAccess::Blob { store_id, key: k } && store_id@
            == "mutsuki-tauri-resource"@ && k@ == key,
        descriptor.size_hint == Some(len),
        descriptor.content_hash matches Some(h) && h@ == hash,
        descriptor.lifetime is Persistent,
        descriptor.lease is None,
        descriptor.seal_state is Sealed,
{
}

/// The size of a body is the one that its descriptor names, and none where it names none.
pub proof fn law_size_is_the_one_described(descriptor: ResourceRef)
    ensures
        descriptor.size_hint matches Some(size) ==> size_of(descriptor) == size,
        descriptor.size_hint is None ==> size_of(descriptor) == 0,
{
}

/// A body that took the place of another has the next version, its own size and hash, and is the
/// same resource in everything else.
pub proof fn law_rewritten_body_is_the_same_resource(
    before: ResourceRef,
    after: ResourceRef,
    bytes: Seq<u8>,
)
    requires
        rewritten(before, after, bytes),
        bytes.len() <= u64::MAX,
    ensures
        after.version == before.version + 1,
        after.resource_id.version == after.version,
        size_of(after) == bytes.len(),
        after.content_hash matches Some(hash) && hash@ == hash_of(bytes),
        after.ref_id == before.ref_id,
        after.resource_id.kind_id == before.resource_id.kind_id,
        after.resource_id.slot_id == before.resource_id.slot_id,
        after.resource_id.generation == before.resource_id.generation,
        after.generation == before.generation,
        after.semantic == before.semantic,
        after.provider_id == before.provider_id,
        after.resource_kind == before.resource_kind,
        after.schema == before.schema,
        after.access == before.access,
        after.lifetime == before.lifetime,
        after.lease == before.lease,
        after.seal_state == before.seal_state,
{
}

/// A plan is carried out exactly where its resource belongs to this provider, is known, and stands
/// at the generation and the version that the plan names; what stands in its way is told otherwise.
pub proof fn law_plan_needs_a_current_resource(
    v: ProviderView,
    resource: ResourceRef,
    route: Seq<char>,
    checked: Result<ResourceEntry, RuntimeError>,
)
    requires
        plan_checked(v, resource, route, checked),
    ensures
        ({
            let id = resource.ref_id@;
            let own = resource.provider_id@ == "mutsuki.tauri.resource"@;
            let known = v.entries.contains_key(id);
            let now = v.entries[id].descriptor;
            let stands = resource.generation == now.generation && resource.resource_id.generation
                == now.generation && resource.version == now.version
                && resource.resource_id.version == now.version;
            &&& checked is Ok <==> own && known && stands
            &&& checked matches Ok(entry) ==> entry@ == v.entries[id]
            &&& checked matches Err(error) ==> {
                &&& error@.source == "tauri.resource"@
                &&& !own ==> error@.code == "resource.unsupported"@ && error@.route == route + "."@
                    + resource.provider_id@
                &&& own && !known ==> error@.code == "resource.not_found"@ && error@.route
                    == "resource."@ + id
                &&& own && known ==> error@.code == "resource.generation_mismatch"@ && error@.route
                    == route + "."@ + id
            }
        }),
{
}

/// A plan that was written is told so: the receipt names the plan, the new descriptor and its
/// version. The body lies where it did, and every other resource stays as it is.
pub proof fn law_written_plan_is_told(
    before: ProviderView,
    after: ProviderView,
    plan: WritePlan,
    bytes: Seq<u8>,
    done: PlanReceipt,
    other: Seq<char>,
)
    requires
        write_committed(before, after, plan, bytes, done),
        before.entries.contains_key(plan.resource.ref_id@),
        other != plan.resource.ref_id@,
    ensures
        done.plan_id@ == plan.plan_id@,
        done.status@ == "written"@,
        done.output@ == JsonView::Object(seq![("status"@, JsonView::String("written"@))]),
        done.resource_ref == Some(after.entries[plan.resource.ref_id@].descriptor),
        done.new_version == Some(after.entries[plan.resource.ref_id@].descriptor.version),
        done.descriptor_updates@ == seq![after.entries[plan.resource.ref_id@].descriptor],
        after.entries[plan.resource.ref_id@].descriptor.version
            == before.entries[plan.resource.ref_id@].descriptor.version + 1,
        after.entries[plan.resource.ref_id@].path == before.entries[plan.resource.ref_id@].path,
        after.entries.contains_key(other) == before.entries.contains_key(other),
        before.entries.contains_key(other) ==> after.entries[other] == before.entries[other],
        after.root == before.root,
{
}

/// As many bytes are read as are asked for where there are that many, and all that are left
/// otherwise.
pub proof fn law_chunk_is_as_long_as_asked(total: int, offset: int, length: int)
    requires
        0 <= offset <= total,
        0 <= length,
    ensures
        offset + length <= total ==> chunk_length(total, offset, length) == length,
        offset + length > total ==> offset + chunk_length(total, offset, length) == total,
{
}

/// The provider that came to know an entry knows that entry and all the others.
pub proof fn law_new_entry_joins_the_others(
    v: ProviderView,
    ref_id: Seq<char>,
    entry: EntryView,
    other: Seq<char>,
)
    requires
        other != ref_id,
    ensures
        v.with(ref_id, entry).entries.contains_key(ref_id),
        v.with(ref_id, entry).entries[ref_id] == entry,
        v.with(ref_id, entry).entries.contains_key(other) == v.entries.contains_key(other),
        v.entries.contains_key(other) ==> v.with(ref_id, entry).entries[other] == v.entries[other],
        v.with(ref_id, entry).root == v.root,
{
}

/// The view of an entry tells all of it.
pub proof fn law_entry_is_seen_whole(entry: ResourceEntry)
    ensures
        entry@.descriptor == entry.descriptor,
        entry@.media_type == entry.media_type,
        entry@.path == entry.path@,
{
}

} // verus!

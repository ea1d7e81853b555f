//! Resources: descriptors, plans, links and the answers to the frontend.
use mutsuki_tauri_host::bridge::ResourceChunk;
use mutsuki_tauri_host::builder::plan_host;
use mutsuki_tauri_host::config::{HostPath, MutsukiTauriConfig};
use mutsuki_tauri_host::contracts::{
    ResourceAccess, ResourceRef, ResourceSemantic, RuntimeError, ERR_RESOURCE_GENERATION_MISMATCH,
    ERR_RESOURCE_NOT_FOUND,
};
use mutsuki_tauri_host::error::HostError;
use mutsuki_tauri_host::events::{EventHub, MutsukiFrontendEvent};
use mutsuki_tauri_host::health::HostHealthState;
use mutsuki_tauri_host::host::{MutsukiTauriHost, MAX_RESOURCE_INVOKE_BYTES};
use mutsuki_tauri_host::json::{JsonMember, JsonValue};
use mutsuki_tauri_host::plugin_runner::scan::PluginRunnerLoad;
use mutsuki_tauri_host::resource::error::ResourceBridgeError;
use mutsuki_tauri_host::resource::import_export::{import_kind, import_kind_of, TauriFileImportExport};
use mutsuki_tauri_host::resource::preview::{
    preview_reply, preview_token, PreviewBody, TauriPreviewStore,
};
use mutsuki_tauri_host::resource::provider::{
    content_hash, hash_text, text_of, CommandPlan, ExportPlan, PatchDescriptor, ReadPlan,
    TauriResourceProvider, WritePlan, PROVIDER_ID,
};
use mutsuki_tauri_host::resource::store::TauriResourceStore;

const SECOND: i128 = 1_000_000_000;

fn test_provider() -> TauriResourceProvider {
    TauriResourceProvider::new(HostPath::at("/resources".to_string()))
}

fn host() -> MutsukiTauriHost {
    let config = MutsukiTauriConfig::for_app("MutsukiTauriHostTest".to_string());
    let plan = plan_host(
        PluginRunnerLoad {
            manifests: Vec::new(),
            plugins: Vec::new(),
            runners: Vec::new(),
        },
        Vec::new(),
    )
    .expect("host builds");
    let resources = TauriResourceStore::new(config.paths.resources_dir.clone());
    MutsukiTauriHost::new(
        config,
        resources,
        EventHub::new(16),
        HostHealthState::new(),
        plan.plugins,
        plan.runners,
        plan.active_protocols,
        0,
    )
}

fn create(host: &mut MutsukiTauriHost, bytes: &[u8]) -> ResourceRef {
    let plan = host.resources.provider.plan_blob();
    host.resources.create_blob(
        plan,
        "text/plain",
        &bytes.to_vec(),
        Some("text/plain".to_string()),
    )
}

fn write_plan(plan_id: &str, resource: ResourceRef) -> WritePlan {
    let mut operations = serde_json::Map::new();
    operations.insert("replace".to_string(), serde_json::Value::from(true));
    WritePlan {
        plan_id: plan_id.to_string(),
        resource: resource.clone(),
        base_version: resource.version,
        conflict_policy: "replace".to_string(),
        patch: PatchDescriptor {
            patch_id: format!("patch:{plan_id}"),
            target_ref: resource.clone(),
            base_version: resource.version,
            conflict_policy: "replace".to_string(),
            operations: serde_json::Value::Object(operations),
        },
        returning: None,
    }
}

fn read_plan(resource: &ResourceRef) -> ReadPlan {
    ReadPlan {
        plan_id: "read:1".to_string(),
        resource: resource.clone(),
    }
}

#[test]
fn created_resources_use_tauri_provider_id() {
    let mut provider = test_provider();
    let plan = provider.plan_blob();
    let blob = provider.create_blob(plan, "text/plain", &b"hello".to_vec(), None);
    assert_eq!(blob.provider_id, PROVIDER_ID);
}

#[test]
fn commit_write_plan_emits_descriptor_updates_and_rejects_stale() {
    let mut provider = test_provider();
    let plan = provider.plan_blob();
    let resource =
        provider.create_cow_state_resource(plan, "text_buffer", "text/plain", &b"old".to_vec());
    let write = write_plan("write:1", resource.clone());
    let entry = provider.check_write_plan(&write).expect("write commits");
    let receipt = provider.commit_write_plan(&write, entry, &b"new".to_vec());
    assert_eq!(receipt.new_version, Some(2));
    assert_eq!(receipt.descriptor_updates.len(), 1);
    assert_eq!(receipt.descriptor_updates[0].version, 2);
    assert_eq!(
        receipt.descriptor_updates[0].content_hash,
        Some(content_hash(b"new"))
    );

    let stale: RuntimeError = provider
        .check_write_plan(&write)
        .expect_err("stale write rejected");
    assert_eq!(stale.code, ERR_RESOURCE_GENERATION_MISMATCH);
    assert_eq!(receipt.status, "written");
    assert_eq!(
        receipt.output,
        JsonValue::Object(vec![JsonMember {
            key: "status".to_string(),
            value: JsonValue::String("written".to_string()),
        }])
    );
}

#[test]
fn resource_store_round_trips_written_bytes() {
    let mut host = host();
    let resource = create(&mut host, b"before");
    let entry = host.resources.provider.entry(&resource.ref_id).unwrap();
    let path = entry.path.clone();
    let updated = host.write_resource_bytes(&resource.ref_id, entry, &b"after".to_vec());
    assert_eq!(updated.version, 2);
    let entry = host
        .check_whole(&resource.ref_id)
        .expect("resource text readable");
    assert_eq!(entry.path, path);
    assert_eq!(entry.descriptor.content_hash, Some(content_hash(b"after")));
    let text = MutsukiTauriHost::read_resource_text(&resource.ref_id, b"after".to_vec())
        .expect("resource text readable");

    assert_eq!(text.text, "after");
}

#[test]
fn host_resource_provider_id_matches_registered_gateway() {
    let mut host = host();
    let resource = create(&mut host, b"provider-id");
    assert_eq!(resource.provider_id, PROVIDER_ID);

    let preview = host
        .create_preview_handle(&resource.ref_id, 1_000 * SECOND)
        .expect("preview handle created");
    assert!(preview.url.starts_with("mutsuki-resource://"));
    assert_eq!(preview.ref_id, resource.ref_id);
    assert_eq!(preview.expires_at_unix_secs, 1_300);
    assert_eq!(
        preview_token(Some(&preview.url["mutsuki-resource://".len()..]), "/"),
        preview.token
    );
}

#[test]
fn content_hashes_are_those_of_the_body() {
    assert_eq!(
        content_hash(b"abc"),
        "sha256:ba7816bf8f01cfea414140de5dae2223b00361a396177a9cb410ff61f20015ad"
    );
    assert_eq!(
        content_hash(b""),
        "sha256:e3b0c44298fc1c149afbf4c8996fb92427ae41e4649b934ca495991b7852b855"
    );
    assert_eq!(hash_text(&[0x00, 0x9f, 0xa0, 0xff]), "sha256:009fa0ff");
}

#[test]
fn a_blob_is_described_as_it_was_written() {
    let mut provider = test_provider();
    let plan = provider.plan_blob();
    assert!(plan.ref_id.starts_with("resource:tauri:"));
    assert!(plan.key.ends_with(".bin"));
    assert_eq!(plan.path.root.as_deref(), Some("/resources"));
    assert_eq!(plan.path.segments, [plan.key.clone()]);
    let ref_id = plan.ref_id.clone();
    let key = plan.key.clone();
    let blob = provider.create_blob(plan, "text/plain", &b"hello".to_vec(), None);
    assert_eq!(blob.ref_id, ref_id);
    assert_eq!(blob.resource_id.slot_id, ref_id);
    assert_eq!(blob.resource_kind, "blob");
    assert_eq!(blob.semantic, ResourceSemantic::VersionedSnapshot);
    assert_eq!(blob.size_hint, Some(5));
    assert_eq!(
        blob.access,
        ResourceAccess::Blob {
            store_id: "mutsuki-tauri-resource".to_string(),
            key,
        }
    );
    assert_eq!(provider.descriptor(&ref_id).unwrap(), blob);
    assert_eq!(
        provider.descriptor("gone"),
        Err(ResourceBridgeError::NotFound("gone".to_string()))
    );
    let capability = TauriResourceProvider::create_capability_resource("camera", "v1");
    assert_eq!(capability.semantic, ResourceSemantic::CapabilityResource);
    assert_eq!(capability.size_hint, None);
}

#[test]
fn plans_on_other_or_unknown_resources_are_refused() {
    let mut provider = test_provider();
    let plan = provider.plan_blob();
    let blob = provider.create_blob(plan, "text/plain", &b"x".to_vec(), None);
    assert!(provider.check_read_plan(&read_plan(&blob)).is_ok());

    let mut foreign = blob.clone();
    foreign.provider_id = "elsewhere".to_string();
    let error = provider.check_read_plan(&read_plan(&foreign)).unwrap_err();
    assert_eq!(error.code, "resource.unsupported");
    assert_eq!(error.route, "resource.tauri.read.elsewhere");

    let mut unknown = blob.clone();
    unknown.ref_id = "gone".to_string();
    let error = provider.check_read_plan(&read_plan(&unknown)).unwrap_err();
    assert_eq!(error.code, ERR_RESOURCE_NOT_FOUND);
    assert_eq!(error.route, "resource.gone");

    let mut stale = blob.clone();
    stale.version = 2;
    let export = ExportPlan {
        plan_id: "export:1".to_string(),
        resource: stale,
        target: "/target".to_string(),
    };
    let error = provider.check_export_plan(&export).unwrap_err();
    assert_eq!(error.code, ERR_RESOURCE_GENERATION_MISMATCH);
    assert_eq!(
        error.route,
        format!("resource.tauri.export.{}", blob.ref_id)
    );

    let mut behind = write_plan("write:1", blob.clone());
    behind.patch.base_version = 0;
    let error = provider.check_write_plan(&behind).unwrap_err();
    assert_eq!(error.route, format!("resource.tauri.write.{}", blob.ref_id));

    let export = ExportPlan {
        plan_id: "export:2".to_string(),
        resource: blob,
        target: "/target".to_string(),
    };
    let entry = provider.check_export_plan(&export).unwrap();
    let receipt = TauriResourceProvider::execute_export_plan(&export, entry);
    assert_eq!(receipt.status, "exported");
    assert_eq!(receipt.new_version, None);
    assert!(receipt.descriptor_updates.is_empty());
}

#[test]
fn streams_snapshots_and_commands_are_planned() {
    let mut provider = test_provider();
    let plan = provider.plan_blob();
    let blob = provider.create_blob(plan, "text/plain", &b"x".to_vec(), None);
    let read = read_plan(&blob);
    let stream = TauriResourceProvider::open_stream_plan(&read);
    assert_eq!(stream.plan_id, "stream-plan:read:1");
    assert_eq!(stream.operation, "open_stream");
    let snapshot = TauriResourceProvider::snapshot_of(&read, blob.clone());
    assert_eq!(snapshot.source_version, 1);
    assert!(snapshot.is_latest && !snapshot.is_stale);
    let command = |operation: &str| CommandPlan {
        plan_id: "c".to_string(),
        operation: operation.to_string(),
    };
    let error = TauriResourceProvider::execute_command_plan(&command("run")).unwrap_err();
    assert_eq!(error.code, "resource.command_unsupported");
    assert_eq!(error.route, "command.run");
    let error =
        TauriResourceProvider::execute_command_batch(&vec![command("one"), command("two")])
            .unwrap_err();
    assert_eq!(error.route, "command.one");
    assert!(TauriResourceProvider::execute_command_batch(&Vec::new())
        .unwrap()
        .is_empty());
    assert_eq!(TauriResourceProvider::io_failure("disk").code, "resource.io");
}

#[test]
fn bodies_are_read_in_bounded_pieces() {
    let mut host = host();
    let size = 1024 * 1024;
    let resource = create(&mut host, &vec![7; size]);
    let id = resource.ref_id.as_str();
    assert_eq!(
        host.check_whole(id),
        Err(HostError::Resource(format!(
            "resource exceeds 65536 bytes and is read in chunks: {id}"
        )))
    );
    let mut offset = 0;
    let mut pieces = 0;
    loop {
        let plan = host.plan_resource_chunk(id, offset, 1 << 30).unwrap();
        assert!(plan.length <= MAX_RESOURCE_INVOKE_BYTES);
        let chunk: ResourceChunk = host
            .read_resource_chunk(id, plan.offset, vec![7; plan.length])
            .unwrap();
        assert_eq!(chunk.total_bytes, size as u64);
        offset += chunk.bytes.len() as u64;
        pieces += 1;
        if chunk.eof {
            break;
        }
    }
    assert_eq!(offset, size as u64);
    assert_eq!(pieces, 16);
    let end = host.plan_resource_chunk(id, size as u64, 10).unwrap();
    assert_eq!(end.length, 0);
    assert_eq!(
        host.plan_resource_chunk(id, size as u64 + 1, 10),
        Err(HostError::Resource(
            "invalid resource range: offset 1048577 exceeds length 1048576".to_string()
        ))
    );
    assert_eq!(
        host.plan_resource_chunk("gone", 0, 1),
        Err(HostError::Resource("resource not found: gone".to_string()))
    );
    let small = create(&mut host, b"0123456789");
    let plan = host.plan_resource_chunk(&small.ref_id, 8, 4).unwrap();
    assert_eq!(plan.length, 2);
    let entry = host.check_whole(&small.ref_id).unwrap();
    let answer = MutsukiTauriHost::read_resource_bytes(entry, b"0123456789".to_vec()).unwrap();
    assert_eq!(answer.resource, small);
    assert_eq!(answer.bytes, b"0123456789");
    assert_eq!(answer.media_type, None);
}

#[test]
fn the_pieces_of_a_body_make_the_body() {
    for size in [0_usize, 1, 9, 10, 11, 65_536, 200_000] {
        let body: Vec<u8> = (0..size).map(|index| (index % 251) as u8).collect();
        let mut host = host();
        let resource = create(&mut host, &body);
        let id = resource.ref_id.as_str();
        for length in [10, 70_000, usize::MAX] {
            let mut joined = Vec::new();
            loop {
                let plan = host
                    .plan_resource_chunk(id, joined.len() as u64, length)
                    .unwrap();
                let start = plan.offset as usize;
                let bytes = body[start..start + plan.length].to_vec();
                let piece = host.read_resource_chunk(id, plan.offset, bytes).unwrap();
                joined.extend(piece.bytes);
                if piece.eof {
                    break;
                }
            }
            assert_eq!(joined, body);
        }
    }
}

#[test]
fn no_answer_carries_more_than_its_bound() {
    let mut host = host();
    let resource = create(&mut host, b"small when it was registered");
    let id = resource.ref_id.as_str();
    let in_pieces = HostError::Resource(format!(
        "resource exceeds 65536 bytes and is read in chunks: {id}"
    ));
    let full = vec![b'a'; MAX_RESOURCE_INVOKE_BYTES];
    let over = vec![b'a'; MAX_RESOURCE_INVOKE_BYTES + 1];
    let large = vec![0x5a; 1024 * 1024];

    let entry = host.check_whole(id).unwrap();
    let answer = MutsukiTauriHost::read_resource_bytes(entry.clone(), full.clone()).unwrap();
    assert_eq!(answer.bytes.len(), 65_536);
    for bytes in [over.clone(), large] {
        assert_eq!(
            MutsukiTauriHost::read_resource_bytes(entry.clone(), bytes),
            Err(HostError::Resource(format!(
                "resource exceeds 65536 bytes and is read in chunks: {id}"
            )))
        );
    }
    let text = MutsukiTauriHost::read_resource_text(id, full.clone()).unwrap();
    assert_eq!(text.text.len(), 65_536);
    assert_eq!(
        MutsukiTauriHost::read_resource_text(id, over.clone()),
        Err(in_pieces)
    );
    let chunk = host.read_resource_chunk(id, 0, full).unwrap();
    assert_eq!(chunk.bytes.len(), 65_536);
    assert_eq!(
        host.read_resource_chunk(id, 0, over),
        Err(HostError::Resource(format!(
            "resource chunk exceeds 65536 bytes: {id}"
        )))
    );
}

#[test]
fn a_committed_plan_stays_refused_after_further_writes() {
    let mut provider = test_provider();
    let plan = provider.plan_blob();
    let resource =
        provider.create_cow_state_resource(plan, "text_buffer", "text/plain", &b"old".to_vec());
    let id = resource.ref_id.clone();
    let write = write_plan("write:once", resource);
    let entry = provider.check_write_plan(&write).unwrap();
    assert_eq!(entry.descriptor.ref_id, id);
    provider.commit_write_plan(&write, entry, &b"new".to_vec());
    let entry = provider.entry(&id).unwrap();
    let descriptor = provider.write_bytes(&id, entry, &b"newer".to_vec());
    assert_eq!(descriptor.version, 3);
    assert_eq!(descriptor.ref_id, id);
    let refused = provider.check_write_plan(&write).unwrap_err();
    assert_eq!(refused.code, ERR_RESOURCE_GENERATION_MISMATCH);
    assert_eq!(refused.route, format!("resource.tauri.write.{id}"));
    assert_eq!(provider.descriptor(&id).unwrap(), descriptor);

    let mut other_base = write_plan("write:base", descriptor);
    other_base.patch.base_version = 2;
    assert_eq!(
        provider.check_write_plan(&other_base).unwrap_err().code,
        ERR_RESOURCE_GENERATION_MISMATCH
    );
}

#[test]
fn only_text_is_read_as_text() {
    assert_eq!(text_of("r", vec![0xc3, 0xa9]).unwrap(), "\u{e9}");
    assert_eq!(
        text_of("r", vec![0xff]),
        Err(ResourceBridgeError::NotUtf8("r".to_string()))
    );
    assert_eq!(
        MutsukiTauriHost::read_resource_text("r", vec![0xff]),
        Err(HostError::Resource("resource is not utf-8 text: r".to_string()))
    );
}

#[test]
fn files_are_imported_by_their_media_type() {
    let kind = import_kind_of("/pictures/one.png");
    assert_eq!(kind.media_type.as_deref(), Some("image/png"));
    assert_eq!(kind.schema, "image/png");
    assert_eq!(import_kind_of("/bare").media_type, None);
    assert_eq!(import_kind(None).schema, "application/octet-stream");
    assert_eq!(import_kind(Some("a/b".to_string())).schema, "a/b");

    let mut provider = test_provider();
    let plan = provider.plan_blob();
    let resource =
        TauriFileImportExport::import_file(&mut provider, "notes.txt", plan, &b"n".to_vec());
    assert_eq!(resource.schema, "text/plain");
    let entry = provider.entry(&resource.ref_id).unwrap();
    assert_eq!(entry.media_type.as_deref(), Some("text/plain"));

    let mut host = host();
    let mut rx = host.events.subscribe();
    let plan = host.resources.provider.plan_blob();
    let imported = host.import_file("x.bin", plan, &b"n".to_vec());
    host.export_resource_to_file(&imported.ref_id);
    for expected in ["import_file", "export_file"] {
        let envelope = rx.try_recv().unwrap();
        assert_eq!(envelope.channel, "mutsuki://resource/event");
        assert!(matches!(
            envelope.payload,
            MutsukiFrontendEvent::Resource { ref_id, operation }
                if ref_id == imported.ref_id && operation == expected
        ));
    }
}

#[test]
fn links_last_until_they_expire_or_are_taken_back() {
    let mut store = TauriPreviewStore::new();
    let first = store.create_preview_handle("r1", 10 * SECOND, 5_000_000_000);
    let second = store.create_preview_handle("r2", 10 * SECOND, 60_000_000_000);
    assert_eq!(first.expires_at_unix_secs, 15);
    assert_eq!(first.url, format!("mutsuki-resource://{}", first.token));
    assert_eq!(
        store.resolve_preview_token(&first.token, 15 * SECOND - 1).unwrap(),
        "r1"
    );
    assert_eq!(
        store.resolve_preview_token(&first.token, 15 * SECOND),
        Err(ResourceBridgeError::InvalidToken(first.token.clone()))
    );
    assert_eq!(
        store.resolve_preview_token(&first.token, 0),
        Err(ResourceBridgeError::InvalidToken(first.token.clone()))
    );
    assert_eq!(store.resolve_preview_token(&second.token, 0).unwrap(), "r2");
    assert!(store.release_preview_token(&second.token).is_ok());
    assert!(store.release_preview_token(&second.token).is_err());
    assert!(store.resolve_preview_token(&second.token, 0).is_err());
    let early = store.create_preview_handle("r3", -5 * SECOND, 1_000_000_000);
    assert_eq!(early.expires_at_unix_secs, 0);
}

#[test]
fn a_link_leads_to_a_known_resource_only() {
    let mut host = host();
    assert_eq!(
        host.create_preview_handle("gone", 0),
        Err(HostError::Resource("resource not found: gone".to_string()))
    );
    let resource = create(&mut host, b"shown");
    let handle = host.create_preview_handle(&resource.ref_id, 0).unwrap();
    let entry = host
        .resources
        .read_preview_token(&handle.token, SECOND)
        .unwrap();
    assert_eq!(entry.descriptor, resource);
    assert_eq!(
        host.resources.resolve_preview_token(&handle.token, SECOND).unwrap(),
        resource.ref_id
    );
    assert!(host.release_preview_handle(&handle.token).is_ok());
    assert_eq!(
        host.release_preview_handle(&handle.token),
        Err(HostError::Resource(format!(
            "resource token not found or expired: {}",
            handle.token
        )))
    );
    assert!(host
        .resources
        .read_preview_token(&handle.token, SECOND)
        .is_err());
}

#[test]
fn the_token_of_an_address_is_found() {
    assert_eq!(preview_token(Some("abc"), "/other"), "abc");
    assert_eq!(preview_token(Some("localhost"), "/abc/rest"), "abc");
    assert_eq!(preview_token(Some("x.localhost"), "//abc/"), "abc");
    assert_eq!(preview_token(Some("xlocalhost"), "/abc"), "xlocalhost");
    assert_eq!(preview_token(None, "abc"), "abc");
    assert_eq!(preview_token(None, "///"), "");
}

#[test]
fn a_link_is_answered_by_what_was_read() {
    let shown = preview_reply(Some(Ok(PreviewBody {
        bytes: vec![1, 2],
        media_type: Some("image/png".to_string()),
    })));
    assert_eq!(shown.status, 200);
    assert_eq!(shown.content_type.as_deref(), Some("image/png"));
    assert!(shown.any_origin);
    assert_eq!(shown.body, [1, 2]);
    let plain = preview_reply(Some(Ok(PreviewBody {
        bytes: Vec::new(),
        media_type: None,
    })));
    assert_eq!(plain.content_type.as_deref(), Some("application/octet-stream"));
    let unknown = preview_reply(Some(Err(ResourceBridgeError::InvalidToken("t".to_string()))));
    assert_eq!(unknown.status, 404);
    assert!(unknown.body.is_empty());
    assert_eq!(preview_reply(None).status, 503);
}

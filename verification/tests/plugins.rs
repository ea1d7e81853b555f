//! Plugins and runners: the search for them, their launch and the lists of them.
use mutsuki_tauri_host::bridge::{PluginSummary, RunnerSummary};
use mutsuki_tauri_host::contracts::{RuntimeError, ScalarValue, ERR_RUNTIME_HOST_FAILED};
use mutsuki_tauri_host::error::HostError;
use mutsuki_tauri_host::events::{EventHub, MutsukiFrontendEvent};
use mutsuki_tauri_host::health::HostHealthState;
use mutsuki_tauri_host::json::JsonValue;
use mutsuki_tauri_host::ordered_map::OrderedMap;
use mutsuki_tauri_host::plugin_runner::launch::{
    forward_stderr_line, forwarder_failure, launch_environment, no_parent, no_stderr,
    resolve_command, resolve_cwd, runner_environment,
    runner_failed, runtime_failure, spawn_failure, wanted_env, Place, RunnerLaunchSpec,
};
use mutsuki_tauri_host::plugin_runner::manifest::{
    deployment_label, ensure_process_plugin_backend, PluginArtifact, PluginDeploymentKind,
    PluginManifest, PluginProvides, RunnerDescriptor,
};
use mutsuki_tauri_host::plugin_runner::scan::{
    index_plugins, index_runners, read_failure, Claim, FileRead, LaunchAnswer, PluginScan,
};
use mutsuki_tauri_host::plugin_runner::sorting::sort_by_id;
use mutsuki_tauri_host::plugin_runner::walk::{
    inspect_failure, read_dir_failure, DirWalk, EntryKind,
};
use mutsuki_tauri_host::status::{
    current_plugins, current_runners, first_plugin_error, first_runner_error, health_component,
    plugins_health, runners_health,
};

fn manifest(plugin_id: &str, runners: &[&str]) -> PluginManifest {
    PluginManifest {
        plugin_id: plugin_id.to_string(),
        version: "1.0.0".to_string(),
        artifact: PluginArtifact {
            label: "Process".to_string(),
            is_process: true,
            default_deployment: PluginDeploymentKind::Process,
        },
        provides: PluginProvides {
            runners: runners
                .iter()
                .map(|runner_id| RunnerDescriptor {
                    runner_id: runner_id.to_string(),
                    plugin_id: plugin_id.to_string(),
                    accepted_protocol_ids: Vec::new(),
                })
                .collect(),
            host_extensions: Vec::new(),
            plugin_backends: Vec::new(),
        },
    }
}

fn launch(runner_id: &str, plugin_id: &str) -> RunnerLaunchSpec {
    RunnerLaunchSpec {
        runner_id: runner_id.to_string(),
        plugin_id: plugin_id.to_string(),
        command: "run".to_string(),
        args: Vec::new(),
        cwd: None,
        env: OrderedMap::new(),
        env_inherit: Vec::new(),
    }
}

fn read<T>(relative: &str, outcome: Result<T, String>) -> FileRead<T> {
    FileRead {
        path: format!("/d/{relative}"),
        relative: relative.to_string(),
        outcome,
    }
}

fn plugin(plugin_id: &str, status: &str, error: Option<&str>) -> PluginSummary {
    PluginSummary {
        plugin_id: plugin_id.to_string(),
        version: "1".to_string(),
        enabled: true,
        deployment: "process".to_string(),
        status: status.to_string(),
        error: error.map(|error| error.to_string()),
    }
}

fn runner(runner_id: &str, plugin_id: &str, status: &str, error: Option<&str>) -> RunnerSummary {
    RunnerSummary {
        runner_id: runner_id.to_string(),
        plugin_id: plugin_id.to_string(),
        enabled: true,
        deployment: "process".to_string(),
        status: status.to_string(),
        error: error.map(|error| error.to_string()),
    }
}

#[test]
fn plugins_are_settled_in_the_order_of_their_names() {
    let plugins = index_plugins(vec![
        read("b", Ok(manifest("b", &["b.one", "b.two"]))),
        read("a", Ok(manifest("a", &["a.one", "a.gone", "b.one"]))),
        read("c", Ok(manifest("c", &["c.one"]))),
    ]);
    let runners = index_runners(vec![
        read("1", Ok(launch("b.one", "b"))),
        read("2", Ok(launch("b.two", "b"))),
        read("3", Ok(launch("a.one", "a"))),
        read("4", Ok(launch("c.one", "c"))),
        read("5", Ok(launch("stray", "nobody"))),
        read("6", Err(read_failure("/d/6", "denied"))),
    ]);
    let mut scan = PluginScan::new(plugins, runners);
    let a = scan.next_plugin().unwrap();
    assert_eq!(a.manifest.plugin_id, "a");
    assert_eq!(scan.claim("a", "a.one"), Claim::Launch);
    assert_eq!(scan.claim("a", "a.gone"), Claim::Missing);
    assert_eq!(
        scan.claim("a", "b.one"),
        Claim::Foreign {
            owner: "b".to_string()
        }
    );
    assert_eq!(scan.launch_spec("a.one").unwrap().source, "/d/3");
    assert!(scan.launch_spec("a.gone").is_none());
    let started = || LaunchAnswer::Started;
    assert!(!scan.settle(a, vec![started(), started(), started()]));
    let b = scan.next_plugin().unwrap();
    assert!(scan.settle(b, vec![started(), started()]));
    let c = scan.next_plugin().unwrap();
    assert!(!scan.settle(c, vec![LaunchAnswer::Failed("no such program".to_string())]));
    assert!(scan.next_plugin().is_none());
    let load = scan.finish();

    assert_eq!(load.manifests.len(), 1);
    let plugins: Vec<(&str, &str, Option<&str>)> = load
        .plugins
        .iter()
        .map(|plugin| {
            (
                plugin.plugin_id.as_str(),
                plugin.status.as_str(),
                plugin.error.as_deref(),
            )
        })
        .collect();
    assert_eq!(
        plugins,
        [
            ("a", "failed", Some("runner b.one belongs to plugin b")),
            ("b", "loaded", None),
            ("c", "failed", Some("no such program")),
        ]
    );
    let runners: Vec<(&str, &str, Option<&str>)> = load
        .runners
        .iter()
        .map(|runner| {
            (
                runner.runner_id.as_str(),
                runner.status.as_str(),
                runner.error.as_deref(),
            )
        })
        .collect();
    assert_eq!(
        runners,
        [
            ("a.gone", "failed", Some("missing runner launch spec")),
            ("a.one", "loaded", None),
            ("b.one", "failed", Some("runner launch spec plugin_id mismatch")),
            ("b.one", "loaded", None),
            ("b.two", "loaded", None),
            ("c.one", "failed", Some("no such program")),
            ("invalid:6", "failed", Some("failed to read /d/6: denied")),
            (
                "stray",
                "failed",
                Some("runner spec is not referenced by a loaded plugin manifest")
            ),
        ]
    );
}

#[test]
fn a_scan_lists_every_manifest_that_was_found() {
    let mut library = manifest("d", &[]);
    library.artifact.is_process = false;
    let reads = vec![
        read("c", Ok(manifest("c", &["c.one"]))),
        read("b", Ok(manifest("b", &["b.gone"]))),
        read("again", Ok(manifest("c", &[]))),
        read("broken", Err("not toml".to_string())),
        read("d", Ok(library)),
        read("a", Ok(manifest("a", &[]))),
    ];
    let found = reads.len();
    let runners = index_runners(vec![read("1", Ok(launch("c.one", "c")))]);
    let mut scan = PluginScan::new(index_plugins(reads), runners);
    while let Some(located) = scan.next_plugin() {
        let answers = located
            .manifest
            .provides
            .runners
            .iter()
            .map(|_| LaunchAnswer::Started)
            .collect();
        scan.settle(located, answers);
    }
    let load = scan.finish();
    assert_eq!(load.plugins.len(), found);
    let loaded: Vec<&str> = load
        .plugins
        .iter()
        .filter(|plugin| plugin.status == "loaded")
        .map(|plugin| plugin.plugin_id.as_str())
        .collect();
    let manifests: Vec<&str> = load
        .manifests
        .iter()
        .map(|manifest| manifest.plugin_id.as_str())
        .collect();
    assert_eq!(loaded, ["a", "c"]);
    assert_eq!(manifests, loaded);
}

#[test]
fn a_process_plugin_gets_a_backend_once() {
    let ready = ensure_process_plugin_backend(manifest("p", &[]));
    assert_eq!(ready.provides.host_extensions.len(), 1);
    assert_eq!(
        ready.provides.host_extensions[0].extension_id,
        "host.extension.p.process"
    );
    assert_eq!(ready.provides.plugin_backends.len(), 1);
    assert_eq!(
        ready.provides.plugin_backends[0].backend_id,
        "plugin.backend.p.process"
    );
    assert_eq!(
        ready.provides.plugin_backends[0].task_client_protocol,
        "mutsuki.task.v1"
    );
    let again = ensure_process_plugin_backend(ready);
    assert_eq!(again.provides.plugin_backends.len(), 1);
    assert_eq!(again.provides.host_extensions.len(), 1);
}

#[test]
fn ways_to_run_a_plugin_have_names() {
    let names = [
        (PluginDeploymentKind::Builtin, "builtin"),
        (PluginDeploymentKind::Abi, "abi"),
        (PluginDeploymentKind::Wasm, "wasm"),
        (PluginDeploymentKind::Process, "process"),
        (PluginDeploymentKind::Python, "python"),
    ];
    for (kind, name) in names {
        assert_eq!(deployment_label(kind), name);
    }
}

#[test]
fn sorting_keeps_the_order_of_equal_names() {
    let sorted = sort_by_id(vec![
        plugin("b", "first", None),
        plugin("a", "second", None),
        plugin("b", "third", None),
        plugin("B", "fourth", None),
        plugin("a", "fifth", None),
    ]);
    let rows: Vec<(&str, &str)> = sorted
        .iter()
        .map(|plugin| (plugin.plugin_id.as_str(), plugin.status.as_str()))
        .collect();
    assert_eq!(
        rows,
        [
            ("B", "fourth"),
            ("a", "second"),
            ("a", "fifth"),
            ("b", "first"),
            ("b", "third"),
        ]
    );
}

#[test]
fn a_runner_gets_only_what_is_allowed() {
    let mut host = OrderedMap::new();
    for (key, value) in [
        ("PATH", "/bin"),
        ("SystemRoot", "C:"),
        ("SECRET", "hush"),
        ("SHARED", "host"),
        ("MUTSUKI_PLUGIN_ID", "forged"),
    ] {
        host.insert(key.to_string(), value.to_string());
    }
    let mut launch = launch("r", "p");
    launch.env_inherit = vec![
        "PATH".to_string(),
        "SHARED".to_string(),
        "UNSET".to_string(),
        "MUTSUKI_PLUGIN_ID".to_string(),
    ];
    launch.env.insert("SHARED".to_string(), "own".to_string());
    launch
        .env
        .insert("MUTSUKI_RUNNER_ID".to_string(), "forged".to_string());
    assert_eq!(
        wanted_env(&launch),
        [
            "SystemRoot",
            "WINDIR",
            "ComSpec",
            "PATHEXT",
            "PATH",
            "SHARED",
            "UNSET",
            "MUTSUKI_PLUGIN_ID"
        ]
    );
    let env = runner_environment(&host, &launch, "session", "p", "r", "profile");
    let rows: Vec<(String, String)> = env
        .into_entries()
        .into_iter()
        .map(|entry| (entry.key, entry.value))
        .collect();
    let expected: Vec<(String, String)> = [
        ("MUTSUKI_PLUGIN_ID", "p"),
        ("MUTSUKI_PROFILE_ID", "profile"),
        ("MUTSUKI_RUNNER_ID", "r"),
        ("MUTSUKI_RUNNER_SESSION_TOKEN", "session"),
        ("PATH", "/bin"),
        ("SHARED", "own"),
        ("SystemRoot", "C:"),
    ]
    .into_iter()
    .map(|(key, value)| (key.to_string(), value.to_string()))
    .collect();
    assert_eq!(rows, expected);
}

#[test]
fn commands_and_directories_are_found() {
    let given = |path: &str| Place::AsGiven(path.to_string());
    let below = |path: &str| Place::Below(path.to_string());
    assert_eq!(resolve_command("python".to_string(), false), given("python"));
    assert_eq!(resolve_command("./run".to_string(), false), below("./run"));
    assert_eq!(resolve_command("bin\\run".to_string(), false), below("bin\\run"));
    assert_eq!(resolve_command("/bin/run".to_string(), true), given("/bin/run"));
    assert_eq!(resolve_cwd(None, false), Place::SourceDir);
    assert_eq!(resolve_cwd(Some("work".to_string()), false), below("work"));
    assert_eq!(resolve_cwd(Some("/work".to_string()), true), given("/work"));
}

#[test]
fn launch_failures_are_told_in_words() {
    assert_eq!(
        spawn_failure("r", "/d/runner.toml", "denied"),
        HostError::Config("failed to spawn runner r from /d/runner.toml: denied".to_string())
    );
    assert_eq!(
        no_parent("/"),
        HostError::Config("runner spec has no parent: /".to_string())
    );
    assert_eq!(
        no_stderr("r"),
        HostError::Config("runner r stderr was not piped".to_string())
    );
    let error = runtime_failure("process.wait", "exception_repr", "gone");
    assert_eq!(error.code, ERR_RUNTIME_HOST_FAILED);
    assert_eq!(error.source, "mutsuki_tauri_host.runner");
    assert_eq!(
        error.evidence.get("exception_repr"),
        Some(&ScalarValue::String("gone".to_string()))
    );
    assert_eq!(
        spawn_failure("r", "s", "e").message(),
        "configuration failure: failed to spawn runner r from s: e"
    );
}

#[test]
fn lines_of_a_runner_are_forwarded_without_secrets() {
    let mut hub = EventHub::new(8);
    let mut rx = hub.subscribe();
    assert!(forward_stderr_line(&mut hub, "p", "r", Ok("started".to_string()), 5));
    assert!(forward_stderr_line(&mut hub, "p", "r", Ok(String::new()), 5));
    assert!(forward_stderr_line(
        &mut hub,
        "p",
        "r",
        Ok("using token=secret-token".to_string()),
        5
    ));
    assert!(!forward_stderr_line(&mut hub, "p", "r", Err("broken".to_string()), 5));
    let mut messages = Vec::new();
    let mut statuses = Vec::new();
    while let Ok(envelope) = rx.try_recv() {
        match envelope.payload {
            MutsukiFrontendEvent::Log { record } => {
                assert_eq!(record.target, "mutsuki_tauri_host.runner");
                assert_eq!(
                    record.fields.get("runner_id"),
                    Some(&JsonValue::String("r".to_string()))
                );
                messages.push(record.message);
            }
            MutsukiFrontendEvent::Runner { status, .. } => statuses.push(status),
            other => panic!("unexpected event {other:?}"),
        }
    }
    assert_eq!(messages.len(), 3);
    assert_eq!(messages[0], "started");
    assert!(!messages[1].contains("secret-token"));
    assert_eq!(messages[2], "stderr read failed: broken");
    assert_eq!(statuses, ["stderr", "stderr"]);
}

#[test]
fn a_search_finds_the_files_of_one_name() {
    let mut walk: DirWalk<&'static str> = DirWalk::new("root", true, "plugin.toml");
    assert_eq!(walk.next_directory(), Some("root"));
    walk.see("root/a", EntryKind::Directory, Some("a".to_string()));
    walk.see("root/b", EntryKind::Directory, Some("b".to_string()));
    walk.see("root/plugin.toml", EntryKind::File, Some("plugin.toml".to_string()));
    walk.see("root/other.toml", EntryKind::File, Some("other.toml".to_string()));
    walk.see("root/odd", EntryKind::File, None);
    walk.see("root/link", EntryKind::Other, Some("plugin.toml".to_string()));
    assert_eq!(walk.next_directory(), Some("root/b"));
    walk.see("root/b/plugin.toml", EntryKind::File, Some("plugin.toml".to_string()));
    assert_eq!(walk.next_directory(), Some("root/a"));
    assert_eq!(walk.next_directory(), None);
    assert_eq!(walk.into_files(), ["root/plugin.toml", "root/b/plugin.toml"]);
    let mut empty: DirWalk<&'static str> = DirWalk::new("gone", false, "plugin.toml");
    assert_eq!(empty.next_directory(), None);
    assert_eq!(
        read_dir_failure("/d", "denied"),
        HostError::Config("failed to read /d: denied".to_string())
    );
    assert_eq!(
        inspect_failure("/d/x", "denied"),
        HostError::Config("failed to inspect /d/x: denied".to_string())
    );
}

#[test]
fn failures_at_work_show_in_the_lists() {
    let mut hub = EventHub::new(8);
    let mut health = HostHealthState::new();
    let error = RuntimeError::new("code", "source", "route");
    runner_failed(&mut hub, &mut health, "p.run", "p", &error, 1);
    let runners = vec![
        runner("p.run", "p", "loaded", None),
        runner("q.run", "q", "loaded", None),
        runner("bad", "s", "failed", Some("never started")),
    ];
    let now = current_runners(&runners, &health);
    assert_eq!(now[0].status, "failed");
    assert_eq!(now[0].error.as_deref(), Some("code at route"));
    assert_eq!(now[1].status, "loaded");
    assert_eq!(now[2].error.as_deref(), Some("never started"));
    let plugins = vec![
        plugin("p", "loaded", None),
        plugin("q", "loaded", None),
        plugin("s", "failed", Some("broken")),
    ];
    let listed = current_plugins(&plugins, &now);
    assert_eq!(listed[0].status, "degraded");
    assert_eq!(listed[0].error.as_deref(), Some("runner p.run failed"));
    assert_eq!(listed[1].status, "loaded");
    assert_eq!(listed[2].error.as_deref(), Some("broken"));
}

#[test]
fn the_first_trouble_is_told() {
    assert_eq!(first_plugin_error(&vec![plugin("p", "loaded", Some("stale"))]), None);
    assert_eq!(
        first_plugin_error(&vec![plugin("p", "loaded", None), plugin("q", "odd", None)]).as_deref(),
        Some("plugin q is odd")
    );
    assert_eq!(
        first_runner_error(&vec![runner("r", "p", "failed", None)]).as_deref(),
        Some("runner r failed")
    );
    assert_eq!(
        first_runner_error(&vec![runner("r", "p", "failed", Some("why"))]).as_deref(),
        Some("why")
    );
    assert_eq!(first_runner_error(&vec![runner("r", "p", "stopped", None)]), None);
    let good = health_component(true, "ok", Some("hidden".to_string()));
    assert_eq!(good.status, "ok");
    assert_eq!(good.error, None);
    let bad = health_component(false, "ok", Some("shown".to_string()));
    assert_eq!(bad.status, "failed");
    assert_eq!(bad.error.as_deref(), Some("shown"));
    assert!(plugins_health(&Vec::new()).healthy);
    assert!(!plugins_health(&vec![plugin("p", "degraded", None)]).healthy);
    assert!(runners_health(&vec![runner("r", "p", "degraded", None)]).healthy);
    assert!(!runners_health(&vec![runner("r", "p", "failed", None)]).healthy);
}

#[test]
fn every_launch_gets_a_session_of_its_own() {
    let host = OrderedMap::new();
    let launch = launch("r", "p");
    let first = launch_environment(&host, &launch, "p", "r", "profile");
    let second = launch_environment(&host, &launch, "p", "r", "profile");
    let token = |env: &OrderedMap<String>| env.get("MUTSUKI_RUNNER_SESSION_TOKEN").cloned();
    assert_eq!(token(&first).map(|token| token.len()), Some(36));
    assert_ne!(token(&first), token(&second));
    assert_eq!(first.get("MUTSUKI_PLUGIN_ID").map(String::as_str), Some("p"));
    assert_eq!(
        forwarder_failure("no thread"),
        HostError::Config("failed to spawn stderr forwarder: no thread".to_string())
    );
}

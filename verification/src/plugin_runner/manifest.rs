//! What a plugin says of itself.
use crate::text;
use vstd::prelude::*;
use vstd::string::*;

verus! {

broadcast use vstd::string::group_string_axioms;

/// How a plugin is run.
#[derive(Clone, Copy, Debug, PartialEq, Eq, Structural)]
pub enum PluginDeploymentKind {
    Builtin,
    Abi,
    Wasm,
    Process,
    Python,
}

/// The name of a way to run a plugin.
pub open spec fn deployment_name(deployment: PluginDeploymentKind) -> Seq<char> {
    match deployment {
        PluginDeploymentKind::Builtin => "builtin"@,
        PluginDeploymentKind::Abi => "abi"@,
        PluginDeploymentKind::Wasm => "wasm"@,
        PluginDeploymentKind::Process => "process"@,
        PluginDeploymentKind::Python => "python"@,
    }
}

/// The name of a way to run a plugin.
pub fn deployment_label(deployment: PluginDeploymentKind) -> (name: &'static str)
    ensures
        name@ == deployment_name(deployment),
{
    match deployment {
        PluginDeploymentKind::Builtin => "builtin",
        PluginDeploymentKind::Abi => "abi",
        PluginDeploymentKind::Wasm => "wasm",
        PluginDeploymentKind::Process => "process",
        PluginDeploymentKind::Python => "python",
    }
}

/// What a plugin is shipped as: the name of its kind, whether it is a program of its own, and how
/// a plugin of its kind is run by default.
#[derive(Clone, Debug, PartialEq, Eq)]
pub struct PluginArtifact {
    pub label: String,
    pub is_process: bool,
    pub default_deployment: PluginDeploymentKind,
}

/// A runner that a plugin brings.
#[derive(Debug, PartialEq, Eq)]
pub struct RunnerDescriptor {
    pub runner_id: String,
    pub plugin_id: String,
    pub accepted_protocol_ids: Vec<String>,
}

/// What an extension adds to the host.
#[derive(Clone, Copy, Debug, PartialEq, Eq, Structural)]
pub enum HostExtensionKind {
    PluginBackend,
    Other,
}

/// An extension of the host that a plugin brings.
#[derive(Debug, PartialEq, Eq)]
pub struct HostExtensionDescriptor {
    pub extension_id: String,
    pub kind: HostExtensionKind,
    pub supported_deployments: Vec<PluginDeploymentKind>,
    pub reload_policy: String,
    pub drain_required: bool,
}

/// How the host reaches a plugin that is run in some way.
#[derive(Debug, PartialEq, Eq)]
pub struct PluginBackendDescriptor {
    pub backend_id: String,
    pub deployment_kind: PluginDeploymentKind,
    pub task_client_protocol: String,
    pub resource_client_protocol: String,
    pub codec_id: Option<String>,
    pub bridge_id: Option<String>,
}

/// What a plugin brings.
#[derive(Debug, PartialEq, Eq)]
pub struct PluginProvides {
    pub runners: Vec<RunnerDescriptor>,
    pub host_extensions: Vec<HostExtensionDescriptor>,
    pub plugin_backends: Vec<PluginBackendDescriptor>,
}

/// What a plugin says of itself.
#[derive(Debug, PartialEq, Eq)]
pub struct PluginManifest {
    pub plugin_id: String,
    pub version: String,
    pub artifact: PluginArtifact,
    pub provides: PluginProvides,
}

/// A plugin can be reached as a program of its own.
pub open spec fn has_process_backend(manifest: PluginManifest) -> bool {
    exists|i: int|
        0 <= i < manifest.provides.plugin_backends@.len()
            && (#[trigger] manifest.provides.plugin_backends@[i]).deployment_kind
            == PluginDeploymentKind::Process
}

/// The extension by which the host reaches a plugin as a program of its own.
pub open spec fn process_extension(
    plugin_id: Seq<char>,
    extension: HostExtensionDescriptor,
) -> bool {
    &&& extension.extension_id@ == "host.extension."@ + plugin_id + ".process"@
    &&& extension.kind == HostExtensionKind::PluginBackend
    &&& extension.supported_deployments@ == seq![PluginDeploymentKind::Process]
    &&& extension.reload_policy@ == "drain_and_swap"@
    &&& extension.drain_required
}

/// The backend by which the host reaches a plugin as a program of its own.
pub open spec fn process_backend(plugin_id: Seq<char>, backend: PluginBackendDescriptor) -> bool {
    &&& backend.backend_id@ == "plugin.backend."@ + plugin_id + ".process"@
    &&& backend.deployment_kind == PluginDeploymentKind::Process
    &&& backend.task_client_protocol@ == "mutsuki.task.v1"@
    &&& backend.resource_client_protocol@ == "mutsuki.resource-plan.v1"@
    &&& backend.codec_id is None
    &&& backend.bridge_id is None
}

/// `after` is the manifest of a plugin that can be reached as a program of its own: `before` where
/// it says so itself, and else `before` with an extension and a backend behind the others.
pub open spec fn with_process_backend(before: PluginManifest, after: PluginManifest) -> bool {
    if has_process_backend(before) {
        after == before
    } else {
        let extensions = after.provides.host_extensions@;
        let backends = after.provides.plugin_backends@;
        &&& after.plugin_id == before.plugin_id
        &&& after.version == before.version
        &&& after.artifact == before.artifact
        &&& after.provides.runners == before.provides.runners
        &&& extensions.len() == before.provides.host_extensions@.len() + 1
        &&& extensions.drop_last() == before.provides.host_extensions@
        &&& process_extension(before.plugin_id@, extensions.last())
        &&& backends.len() == before.provides.plugin_backends@.len() + 1
        &&& backends.drop_last() == before.provides.plugin_backends@
        &&& process_backend(before.plugin_id@, backends.last())
    }
}

/// Whatever a plugin says, after this it can be reached as a program of its own, and doing it
/// again changes nothing.
pub proof fn law_process_backend_is_there(
    before: PluginManifest,
    after: PluginManifest,
    again: PluginManifest,
)
    requires
        with_process_backend(before, after),
        with_process_backend(after, again),
    ensures
        has_process_backend(after),
        again == after,
{
    if !has_process_backend(before) {
        let backends = after.provides.plugin_backends@;
        assert(backends[backends.len() - 1].deployment_kind == PluginDeploymentKind::Process);
    }
}

/// Sees to it that a plugin can be reached as a program of its own.
pub fn ensure_process_plugin_backend(manifest: PluginManifest) -> (ready: PluginManifest)
    ensures
        with_process_backend(manifest, ready),
{
    let mut i: usize = 0;
    while i < manifest.provides.plugin_backends.len()
        invariant
            i <= manifest.provides.plugin_backends.len(),
            forall|j: int|
                0 <= j < i ==> (#[trigger] manifest.provides.plugin_backends@[j]).deployment_kind
                    != PluginDeploymentKind::Process,
        decreases manifest.provides.plugin_backends.len() - i,
    {
        if manifest.provides.plugin_backends[i].deployment_kind == PluginDeploymentKind::Process {
            return manifest;
        }
        i = i + 1;
    }
    let ghost before = manifest;
    let mut manifest = manifest;
    let extension_id = text::join3("host.extension.", manifest.plugin_id.as_str(), ".process");
    let backend_id = text::join3("plugin.backend.", manifest.plugin_id.as_str(), ".process");
    let supported_deployments = vec![PluginDeploymentKind::Process];
    assert(supported_deployments@ =~= seq![PluginDeploymentKind::Process]);
    manifest.provides.host_extensions.push(
        HostExtensionDescriptor {
            extension_id,
            kind: HostExtensionKind::PluginBackend,
            supported_deployments,
            reload_policy: "drain_and_swap".to_owned(),
            drain_required: true,
        },
    );
    manifest.provides.plugin_backends.push(
        PluginBackendDescriptor {
            backend_id,
            deployment_kind: PluginDeploymentKind::Process,
            task_client_protocol: "mutsuki.task.v1".to_owned(),
            resource_client_protocol: "mutsuki.resource-plan.v1".to_owned(),
            codec_id: None,
            bridge_id: None,
        },
    );
    proof {
        assert(manifest.provides.host_extensions@.drop_last()
            =~= before.provides.host_extensions@);
        assert(manifest.provides.plugin_backends@.drop_last()
            =~= before.provides.plugin_backends@);
    }
    manifest
}

/// Each way to run a plugin has its own name.
pub proof fn law_deployments_have_names_of_their_own(
    a: PluginDeploymentKind,
    b: PluginDeploymentKind,
)
    ensures
        deployment_name(a) == deployment_name(b) <==> a == b,
        a is Builtin <==> deployment_name(a) == "builtin"@,
        a is Abi <==> deployment_name(a) == "abi"@,
        a is Wasm <==> deployment_name(a) == "wasm"@,
        a is Process <==> deployment_name(a) == "process"@,
        a is Python <==> deployment_name(a) == "python"@,
{
    reveal_strlit("builtin");
    reveal_strlit("abi");
    reveal_strlit("wasm");
    reveal_strlit("process");
    reveal_strlit("python");
    assert("builtin"@.len() == 7);
    assert("abi"@.len() == 3);
    assert("wasm"@.len() == 4);
    assert("process"@.len() == 7);
    assert("python"@.len() == 6);
    assert("builtin"@[0] == 'b');
    assert("process"@[0] == 'p');
}

/// A plugin that does not say how it is reached as a program of its own gets one extension and one
/// backend for that, named after it; all that it said of itself stays.
pub proof fn law_backend_is_named_after_the_plugin(before: PluginManifest, after: PluginManifest)
    requires
        with_process_backend(before, after),
        forall|i: int|
            0 <= i < before.provides.plugin_backends@.len() ==> !((
            #[trigger] before.provides.plugin_backends@[i]).deployment_kind is Process),
    ensures
        after.plugin_id == before.plugin_id,
        after.version == before.version,
        after.artifact == before.artifact,
        after.provides.runners == before.provides.runners,
        ({
            let extensions = after.provides.host_extensions@;
            let backends = after.provides.plugin_backends@;
            &&& extensions.drop_last() == before.provides.host_extensions@
            &&& backends.drop_last() == before.provides.plugin_backends@
            &&& extensions.len() == before.provides.host_extensions@.len() + 1
            &&& backends.len() == before.provides.plugin_backends@.len() + 1
            &&& extensions.last().extension_id@ == "host.extension."@ + before.plugin_id@
                + ".process"@
            &&& extensions.last().kind is PluginBackend
            &&& extensions.last().supported_deployments@ == seq![PluginDeploymentKind::Process]
            &&& extensions.last().reload_policy@ == "drain_and_swap"@
            &&& extensions.last().drain_required
            &&& backends.last().backend_id@ == "plugin.backend."@ + before.plugin_id@ + ".process"@
            &&& backends.last().deployment_kind is Process
            &&& backends.last().task_client_protocol@ == "mutsuki.task.v1"@
            &&& backends.last().resource_client_protocol@ == "mutsuki.resource-plan.v1"@
            &&& backends.last().codec_id is None && backends.last().bridge_id is None
        }),
{
    assert(!has_process_backend(before));
}

/// A plugin that says how it is reached as a program of its own is left alone.
pub proof fn law_own_backend_is_left_alone(before: PluginManifest, after: PluginManifest, i: int)
    requires
        with_process_backend(before, after),
        0 <= i < before.provides.plugin_backends@.len(),
        before.provides.plugin_backends@[i].deployment_kind is Process,
    ensures
        after == before,
{
    assert(has_process_backend(before));
}

} // verus!

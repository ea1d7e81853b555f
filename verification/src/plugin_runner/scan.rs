//! Which of the plugins and runners that were found are loaded, and what is listed of the others.
use crate::bridge::{PluginSummary, PluginSummaryView, RunnerSummary, RunnerSummaryView};
use crate::bridge;
use crate::ordered_map::OrderedMap;
use crate::ordered_map;
use crate::plugin_runner::launch::{LocatedRunnerSpec, RunnerLaunchSpec};
use crate::plugin_runner::manifest::{
    PluginDeploymentKind, PluginManifest, RunnerDescriptor, deployment_label,
    ensure_process_plugin_backend,
};
use crate::plugin_runner::manifest;
use crate::plugin_runner::sorting;
use crate::text;
use std::collections::VecDeque;
use vstd::prelude::*;
use vstd::string::*;

verus! {

broadcast use vstd::string::group_string_axioms;

/// How a plugin that failed is listed.
pub open spec fn failed_plugin_view(
    plugin_id: Seq<char>,
    version: Seq<char>,
    deployment: Seq<char>,
    error: Seq<char>,
) -> PluginSummaryView {
    PluginSummaryView {
        plugin_id,
        version,
        enabled: false,
        deployment,
        status: "failed"@,
        error: Some(error),
    }
}

/// How a plugin that was loaded is listed.
pub open spec fn loaded_plugin_view(
    plugin_id: Seq<char>,
    version: Seq<char>,
    deployment: Seq<char>,
) -> PluginSummaryView {
    PluginSummaryView {
        plugin_id,
        version,
        enabled: true,
        deployment,
        status: "loaded"@,
        error: None,
    }
}

/// How a runner that failed is listed.
pub open spec fn failed_runner_view(
    runner_id: Seq<char>,
    plugin_id: Seq<char>,
    error: Seq<char>,
) -> RunnerSummaryView {
    RunnerSummaryView {
        runner_id,
        plugin_id,
        enabled: false,
        deployment: "process"@,
        status: "failed"@,
        error: Some(error),
    }
}

/// How a runner that was loaded is listed.
pub open spec fn loaded_runner_view(
    runner_id: Seq<char>,
    plugin_id: Seq<char>,
    deployment: Seq<char>,
) -> RunnerSummaryView {
    RunnerSummaryView {
        runner_id,
        plugin_id,
        enabled: true,
        deployment,
        status: "loaded"@,
        error: None,
    }
}

fn failed_plugin(plugin_id: String, version: String, deployment: &str, error: String) -> (summary:
    PluginSummary)
    ensures
        summary@ == failed_plugin_view(plugin_id@, version@, deployment@, error@),
{
    PluginSummary {
        plugin_id,
        version,
        enabled: false,
        deployment: deployment.to_owned(),
        status: "failed".to_owned(),
        error: Some(error),
    }
}

fn failed_runner(runner_id: String, plugin_id: String, error: String) -> (summary: RunnerSummary)
    ensures
        summary@ == failed_runner_view(runner_id@, plugin_id@, error@),
{
    RunnerSummary {
        runner_id,
        plugin_id,
        enabled: false,
        deployment: "process".to_owned(),
        status: "failed".to_owned(),
        error: Some(error),
    }
}

/// Lists a plugin that was loaded.
pub fn loaded_plugin_summary(plugin_id: &str, version: &str, deployment: PluginDeploymentKind) -> (summary:
    PluginSummary)
    ensures
        summary@ == loaded_plugin_view(
            plugin_id@,
            version@,
            manifest::deployment_name(deployment),
        ),
{
    PluginSummary {
        plugin_id: plugin_id.to_owned(),
        version: version.to_owned(),
        enabled: true,
        deployment: deployment_label(deployment).to_owned(),
        status: "loaded".to_owned(),
        error: None,
    }
}

/// Lists a runner that was loaded.
pub fn loaded_runner_summary(descriptor: &RunnerDescriptor, deployment: &str) -> (summary:
    RunnerSummary)
    ensures
        summary@ == loaded_runner_view(descriptor.runner_id@, descriptor.plugin_id@, deployment@),
{
    RunnerSummary {
        runner_id: descriptor.runner_id.clone(),
        plugin_id: descriptor.plugin_id.clone(),
        enabled: true,
        deployment: deployment.to_owned(),
        status: "loaded".to_owned(),
        error: None,
    }
}

/// What is said of a file that could not be read.
pub fn read_failure(path: &str, error: &str) -> (words: String)
    ensures
        words@ == "failed to read "@ + path@ + ": "@ + error@,
{
    text::join4("failed to read ", path, ": ", error)
}

/// What is said of a file whose contents make no sense.
pub fn parse_failure(path: &str, error: &str) -> (words: String)
    ensures
        words@ == "failed to parse "@ + path@ + ": "@ + error@,
{
    text::join4("failed to parse ", path, ": ", error)
}

/// A file that was read: its path, its path below the directory that was searched, and what stands
/// in it, or why that could not be told.
#[derive(Debug, PartialEq, Eq)]
pub struct FileRead<T> {
    pub path: String,
    pub relative: String,
    pub outcome: Result<T, String>,
}

/// A manifest and the file it stands in.
#[derive(Debug, PartialEq, Eq)]
pub struct LocatedManifest {
    pub manifest: PluginManifest,
    pub path: String,
}

/// The manifests that were found, each under the identifier of its plugin, and the list of what is
/// wrong with the other files.
#[derive(Debug)]
pub struct PluginIndex {
    pub failed: Vec<PluginSummary>,
    pub manifests: OrderedMap<LocatedManifest>,
}

#[verifier::ext_equal]
pub struct PluginIndexView {
    pub failed: Seq<PluginSummaryView>,
    pub manifests: Map<Seq<char>, LocatedManifest>,
}

impl View for PluginIndex {
    type V = PluginIndexView;

    open spec fn view(&self) -> PluginIndexView {
        PluginIndexView {
            failed: bridge::plugin_views(self.failed@),
            manifests: self.manifests@,
        }
    }
}

/// The index with one more file: the first manifest of a plugin is kept, and a later one is listed
/// as a duplicate.
pub open spec fn plugin_read(v: PluginIndexView, read: FileRead<PluginManifest>) -> PluginIndexView {
    match read.outcome {
        Ok(manifest) => if v.manifests.contains_key(manifest.plugin_id@) {
            PluginIndexView {
                failed: v.failed.push(
                    failed_plugin_view(
                        manifest.plugin_id@,
                        manifest.version@,
                        manifest::deployment_name(manifest.artifact.default_deployment),
                        "duplicate plugin id"@,
                    ),
                ),
                ..v
            }
        } else {
            PluginIndexView {
                manifests: v.manifests.insert(
                    manifest.plugin_id@,
                    LocatedManifest { manifest, path: read.path },
                ),
                ..v
            }
        },
        Err(error) => PluginIndexView {
            failed: v.failed.push(
                failed_plugin_view(
                    "invalid:"@ + read.relative@,
                    "unknown"@,
                    "process"@,
                    error@,
                ),
            ),
            ..v
        },
    }
}

/// The index of a row of files.
pub open spec fn plugins_read(reads: Seq<FileRead<PluginManifest>>) -> PluginIndexView
    decreases reads.len(),
{
    if reads.len() == 0 {
        PluginIndexView { failed: Seq::empty(), manifests: Map::empty() }
    } else {
        plugin_read(plugins_read(reads.drop_last()), reads.last())
    }
}

/// No manifest is overlooked: each file that was read is either kept under its plugin or listed as
/// failed.
pub proof fn law_no_manifest_is_overlooked(reads: Seq<FileRead<PluginManifest>>)
    ensures
        plugins_read(reads).manifests.dom().finite(),
        plugins_read(reads).failed.len() + plugins_read(reads).manifests.len() == reads.len(),
    decreases reads.len(),
{
    if reads.len() > 0 {
        law_no_manifest_is_overlooked(reads.drop_last());
    }
}

/// Sorts what was read of the plugins' manifests.
pub fn index_plugins(reads: Vec<FileRead<PluginManifest>>) -> (index: PluginIndex)
    ensures
        index@ == plugins_read(reads@),
{
    let ghost all = reads@;
    let mut failed: Vec<PluginSummary> = Vec::new();
    let mut manifests: OrderedMap<LocatedManifest> = OrderedMap::new();
    assert(all.take(0) =~= Seq::empty());
    assert(bridge::plugin_views(failed@) =~= Seq::empty());
    for read in it: reads
        invariant
            it.seq() == all,
            plugins_read(all.take(it.index())) == (PluginIndexView {
                failed: bridge::plugin_views(failed@),
                manifests: manifests@,
            }),
    {
        let ghost at = it.index();
        let ghost failed_before = failed@;
        assert(all.take(at + 1).drop_last() =~= all.take(at));
        match read.outcome {
            Ok(manifest) => {
                if manifests.contains_key(manifest.plugin_id.as_str()) {
                    failed.push(
                        failed_plugin(
                            manifest.plugin_id,
                            manifest.version,
                            deployment_label(manifest.artifact.default_deployment),
                            "duplicate plugin id".to_owned(),
                        ),
                    );
                    assert(bridge::plugin_views(failed@) =~= bridge::plugin_views(
                        failed_before,
                    ).push(failed@.last()@));
                } else {
                    let plugin_id = manifest.plugin_id.clone();
                    manifests.insert(plugin_id, LocatedManifest { manifest, path: read.path });
                }
            },
            Err(error) => {
                failed.push(
                    failed_plugin(
                        text::join2("invalid:", read.relative.as_str()),
                        "unknown".to_owned(),
                        "process",
                        error,
                    ),
                );
                assert(bridge::plugin_views(failed@) =~= bridge::plugin_views(failed_before).push(
                    failed@.last()@,
                ));
            },
        }
    }
    assert(all.take(all.len() as int) =~= all);
    PluginIndex { failed, manifests }
}

/// The launch specifications that were found, each under the identifier of its runner, and the list
/// of what is wrong with the other files.
#[derive(Debug)]
pub struct RunnerIndex {
    pub failed: Vec<RunnerSummary>,
    pub specs: OrderedMap<LocatedRunnerSpec>,
}

#[verifier::ext_equal]
pub struct RunnerIndexView {
    pub failed: Seq<RunnerSummaryView>,
    pub specs: Map<Seq<char>, LocatedRunnerSpec>,
}

impl View for RunnerIndex {
    type V = RunnerIndexView;

    open spec fn view(&self) -> RunnerIndexView {
        RunnerIndexView { failed: bridge::runner_views(self.failed@), specs: self.specs@ }
    }
}

/// The index with one more file: the first specification of a runner is kept, and a later one is
/// listed as a duplicate.
pub open spec fn runner_read(v: RunnerIndexView, read: FileRead<RunnerLaunchSpec>) -> RunnerIndexView {
    match read.outcome {
        Ok(spec_read) => if v.specs.contains_key(spec_read.runner_id@) {
            RunnerIndexView {
                failed: v.failed.push(
                    failed_runner_view(
                        spec_read.runner_id@,
                        spec_read.plugin_id@,
                        "duplicate runner id"@,
                    ),
                ),
                ..v
            }
        } else {
            RunnerIndexView {
                specs: v.specs.insert(
                    spec_read.runner_id@,
                    LocatedRunnerSpec { launch: spec_read, source: read.path },
                ),
                ..v
            }
        },
        Err(error) => RunnerIndexView {
            failed: v.failed.push(
                failed_runner_view("invalid:"@ + read.relative@, ""@, error@),
            ),
            ..v
        },
    }
}

/// The index of a row of files.
pub open spec fn runners_read(reads: Seq<FileRead<RunnerLaunchSpec>>) -> RunnerIndexView
    decreases reads.len(),
{
    if reads.len() == 0 {
        RunnerIndexView { failed: Seq::empty(), specs: Map::empty() }
    } else {
        runner_read(runners_read(reads.drop_last()), reads.last())
    }
}

/// No launch specification is overlooked: each file that was read is either kept under its runner
/// or listed as failed.
pub proof fn law_no_runner_file_is_overlooked(reads: Seq<FileRead<RunnerLaunchSpec>>)
    ensures
        runners_read(reads).specs.dom().finite(),
        runners_read(reads).failed.len() + runners_read(reads).specs.len() == reads.len(),
    decreases reads.len(),
{
    if reads.len() > 0 {
        law_no_runner_file_is_overlooked(reads.drop_last());
    }
}

/// Sorts what was read of the runners' launch specifications.
pub fn index_runners(reads: Vec<FileRead<RunnerLaunchSpec>>) -> (index: RunnerIndex)
    ensures
        index@ == runners_read(reads@),
{
    let ghost all = reads@;
    let mut failed: Vec<RunnerSummary> = Vec::new();
    let mut specs: OrderedMap<LocatedRunnerSpec> = OrderedMap::new();
    assert(all.take(0) =~= Seq::empty());
    assert(bridge::runner_views(failed@) =~= Seq::empty());
    for read in it: reads
        invariant
            it.seq() == all,
            runners_read(all.take(it.index())) == (RunnerIndexView {
                failed: bridge::runner_views(failed@),
                specs: specs@,
            }),
    {
        let ghost at = it.index();
        let ghost failed_before = failed@;
        assert(all.take(at + 1).drop_last() =~= all.take(at));
        match read.outcome {
            Ok(launch) => {
                if specs.contains_key(launch.runner_id.as_str()) {
                    failed.push(
                        failed_runner(
                            launch.runner_id,
                            launch.plugin_id,
                            "duplicate runner id".to_owned(),
                        ),
                    );
                    assert(bridge::runner_views(failed@) =~= bridge::runner_views(
                        failed_before,
                    ).push(failed@.last()@));
                } else {
                    let runner_id = launch.runner_id.clone();
                    specs.insert(runner_id, LocatedRunnerSpec { launch, source: read.path });
                }
            },
            Err(error) => {
                failed.push(
                    failed_runner(
                        text::join2("invalid:", read.relative.as_str()),
                        "".to_owned(),
                        error,
                    ),
                );
                assert(bridge::runner_views(failed@) =~= bridge::runner_views(failed_before).push(
                    failed@.last()@,
                ));
            },
        }
    }
    assert(all.take(all.len() as int) =~= all);
    RunnerIndex { failed, specs }
}

/// How a runner of a plugin stands before it is launched.
#[derive(Debug, PartialEq, Eq)]
pub enum Claim {
    /// No launch specification names the runner.
    Missing,
    /// The launch specification of the runner names another plugin.
    Foreign { owner: String },
    /// The runner is to be launched.
    Launch,
}

/// How launching a runner went.
#[derive(Debug, PartialEq, Eq)]
pub enum LaunchAnswer {
    Started,
    Failed(String),
}

/// `claim` is how a runner of a plugin stands.
pub open spec fn claims(
    specs: Map<Seq<char>, LocatedRunnerSpec>,
    plugin_id: Seq<char>,
    runner_id: Seq<char>,
    claim: Claim,
) -> bool {
    if !specs.contains_key(runner_id) {
        claim is Missing
    } else if specs[runner_id].launch.plugin_id@ != plugin_id {
        claim matches Claim::Foreign { owner } && owner@ == specs[runner_id].launch.plugin_id@
    } else {
        claim is Launch
    }
}

/// Why a runner of a plugin is not loaded, where it is not.
pub open spec fn runner_error(
    specs: Map<Seq<char>, LocatedRunnerSpec>,
    plugin_id: Seq<char>,
    runner_id: Seq<char>,
    answer: LaunchAnswer,
) -> Option<Seq<char>> {
    if !specs.contains_key(runner_id) {
        Some("missing runner.toml for runner "@ + runner_id)
    } else if specs[runner_id].launch.plugin_id@ != plugin_id {
        Some(
            "runner "@ + runner_id + " belongs to plugin "@ + specs[runner_id].launch.plugin_id@,
        )
    } else {
        match answer {
            LaunchAnswer::Started => None,
            LaunchAnswer::Failed(message) => Some(message@),
        }
    }
}

/// How a runner of a plugin is listed.
pub open spec fn runner_listed(
    specs: Map<Seq<char>, LocatedRunnerSpec>,
    plugin_id: Seq<char>,
    descriptor: RunnerDescriptor,
    answer: LaunchAnswer,
) -> RunnerSummaryView {
    let runner_id = descriptor.runner_id@;
    if !specs.contains_key(runner_id) {
        failed_runner_view(runner_id, plugin_id, "missing runner launch spec"@)
    } else if specs[runner_id].launch.plugin_id@ != plugin_id {
        failed_runner_view(runner_id, plugin_id, "runner launch spec plugin_id mismatch"@)
    } else {
        match answer {
            LaunchAnswer::Started => loaded_runner_view(
                runner_id,
                descriptor.plugin_id@,
                "process"@,
            ),
            LaunchAnswer::Failed(message) => failed_runner_view(runner_id, plugin_id, message@),
        }
    }
}

/// How the runners of a plugin are listed.
pub open spec fn runners_listed(
    specs: Map<Seq<char>, LocatedRunnerSpec>,
    plugin_id: Seq<char>,
    descriptors: Seq<RunnerDescriptor>,
    answers: Seq<LaunchAnswer>,
) -> Seq<RunnerSummaryView> {
    Seq::new(
        descriptors.len(),
        |i: int| runner_listed(specs, plugin_id, descriptors[i], answers[i]),
    )
}

/// Why a plugin is not loaded, where it is not: the error of the last of its runners that has one.
pub open spec fn plugin_failure(
    specs: Map<Seq<char>, LocatedRunnerSpec>,
    plugin_id: Seq<char>,
    descriptors: Seq<RunnerDescriptor>,
    answers: Seq<LaunchAnswer>,
) -> Option<Seq<char>>
    decreases descriptors.len(),
{
    if descriptors.len() == 0 {
        None
    } else {
        let last = descriptors.len() - 1;
        match runner_error(specs, plugin_id, descriptors[last].runner_id@, answers[last]) {
            Some(error) => Some(error),
            None => plugin_failure(specs, plugin_id, descriptors.drop_last(), answers),
        }
    }
}

/// The launch specifications that the runners of a plugin lay claim to.
pub open spec fn claimed_by(
    specs: Map<Seq<char>, LocatedRunnerSpec>,
    descriptors: Seq<RunnerDescriptor>,
) -> Set<Seq<char>> {
    Set::new(
        |runner_id: Seq<char>|
            specs.contains_key(runner_id) && exists|i: int|
                0 <= i < descriptors.len() && #[trigger] descriptors[i].runner_id@ == runner_id,
    )
}

/// What is loaded: the manifests of the plugins that run, and the lists of all plugins and runners.
#[derive(Debug)]
pub struct PluginRunnerLoad {
    pub manifests: Vec<PluginManifest>,
    pub plugins: Vec<PluginSummary>,
    pub runners: Vec<RunnerSummary>,
}

/// The plugins that were found, on their way to being loaded one after the other.
#[derive(Debug)]
pub struct PluginScan {
    waiting: VecDeque<LocatedManifest>,
    specs: OrderedMap<LocatedRunnerSpec>,
    claimed: OrderedMap<bool>,
    manifests: Vec<PluginManifest>,
    plugins: Vec<PluginSummary>,
    runners: Vec<RunnerSummary>,
}

#[verifier::ext_equal]
pub struct ScanView {
    pub waiting: Seq<LocatedManifest>,
    pub specs: Map<Seq<char>, LocatedRunnerSpec>,
    pub claimed: Set<Seq<char>>,
    pub manifests: Seq<PluginManifest>,
    pub plugins: Seq<PluginSummaryView>,
    pub runners: Seq<RunnerSummaryView>,
}

impl View for PluginScan {
    type V = ScanView;

    closed spec fn view(&self) -> ScanView {
        ScanView {
            waiting: self.waiting@,
            specs: self.specs@,
            claimed: self.claimed@.dom(),
            manifests: self.manifests@,
            plugins: bridge::plugin_views(self.plugins@),
            runners: bridge::runner_views(self.runners@),
        }
    }
}

/// The manifests of an index in the order of their plugins.
pub open spec fn manifests_in_order(manifests: Map<Seq<char>, LocatedManifest>) -> Seq<LocatedManifest> {
    ordered_map::in_order(manifests.dom()).map_values(|plugin_id: Seq<char>| manifests[plugin_id])
}

/// What is said of a plugin that is not a program of its own.
pub open spec fn unsupported(located: LocatedManifest) -> PluginSummaryView {
    failed_plugin_view(
        located.manifest.plugin_id@,
        located.manifest.version@,
        manifest::deployment_name(located.manifest.artifact.default_deployment),
        "unsupported plugin artifact "@ + located.manifest.artifact.label@ + " in "@ + located.path@,
    )
}

/// The scan went from `before` to `after` when a plugin was settled, and `kept` says whether its
/// runners go on.
pub open spec fn settled(
    before: ScanView,
    after: ScanView,
    located: LocatedManifest,
    answers: Seq<LaunchAnswer>,
    kept: bool,
) -> bool {
    let plugin_id = located.manifest.plugin_id@;
    let version = located.manifest.version@;
    let descriptors = located.manifest.provides.runners@;
    if !located.manifest.artifact.is_process {
        &&& !kept
        &&& after == (ScanView { plugins: before.plugins.push(unsupported(located)), ..before })
    } else {
        let failure = plugin_failure(before.specs, plugin_id, descriptors, answers);
        &&& kept == failure is None
        &&& after.waiting == before.waiting
        &&& after.specs == before.specs
        &&& after.claimed == before.claimed.union(claimed_by(before.specs, descriptors))
        &&& after.runners == before.runners + runners_listed(
            before.specs,
            plugin_id,
            descriptors,
            answers,
        )
        &&& match failure {
            Some(error) => {
                &&& after.plugins == before.plugins.push(
                    failed_plugin_view(plugin_id, version, "process"@, error),
                )
                &&& after.manifests == before.manifests
            },
            None => {
                &&& after.plugins == before.plugins.push(
                    loaded_plugin_view(plugin_id, version, "process"@),
                )
                &&& after.manifests.len() == before.manifests.len() + 1
                &&& after.manifests.drop_last() == before.manifests
                &&& manifest::with_process_backend(located.manifest, after.manifests.last())
            },
        }
    }
}

/// A plugin is loaded only with all of its runners: where one of them is not loaded, neither is the
/// plugin.
pub proof fn law_plugin_is_loaded_with_all_its_runners(
    before: ScanView,
    after: ScanView,
    located: LocatedManifest,
    answers: Seq<LaunchAnswer>,
    kept: bool,
)
    requires
        settled(before, after, located, answers, kept),
    ensures
        kept ==> forall|i: int|
            before.runners.len() <= i < after.runners.len() ==> (#[trigger] after.runners[i]).status
                == "loaded"@,
        kept <==> after.plugins.last().status == "loaded"@,
        !kept ==> after.manifests == before.manifests,
{
    let descriptors = located.manifest.provides.runners@;
    lemma_failed_is_not_loaded();
    if kept {
        assert forall|i: int|
            before.runners.len() <= i < after.runners.len() implies (#[trigger] after.runners[i]).status
            == "loaded"@ by {
            lemma_no_failure(
                before.specs,
                located.manifest.plugin_id@,
                descriptors,
                answers,
                i - before.runners.len(),
            );
        }
    }
}

proof fn lemma_no_failure(
    specs: Map<Seq<char>, LocatedRunnerSpec>,
    plugin_id: Seq<char>,
    descriptors: Seq<RunnerDescriptor>,
    answers: Seq<LaunchAnswer>,
    i: int,
)
    requires
        plugin_failure(specs, plugin_id, descriptors, answers) is None,
        0 <= i < descriptors.len(),
    ensures
        runner_error(specs, plugin_id, descriptors[i].runner_id@, answers[i]) is None,
    decreases descriptors.len(),
{
    if i < descriptors.len() - 1 {
        lemma_no_failure(specs, plugin_id, descriptors.drop_last(), answers, i);
        assert(descriptors.drop_last()[i] == descriptors[i]);
    }
}

/// One turn of a scan: the plugin whose turn it was, how launching its runners went, and whether
/// they go on.
pub struct ScanTurn {
    pub located: LocatedManifest,
    pub answers: Seq<LaunchAnswer>,
    pub kept: bool,
}

/// The scan went from `before` to `after` in one turn: it took the next plugin and settled it.
pub open spec fn turn_taken(before: ScanView, after: ScanView, turn: ScanTurn) -> bool {
    &&& before.waiting.len() > 0
    &&& turn.located == before.waiting[0]
    &&& settled(
        ScanView { waiting: before.waiting.drop_first(), ..before },
        after,
        turn.located,
        turn.answers,
        turn.kept,
    )
}

/// A scan as it starts with what was found on disk.
pub open spec fn scan_started(plugins: PluginIndexView, runners: RunnerIndexView) -> ScanView {
    ScanView {
        waiting: manifests_in_order(plugins.manifests),
        specs: runners.specs,
        claimed: Set::empty(),
        manifests: Seq::empty(),
        plugins: plugins.failed,
        runners: runners.failed,
    }
}

/// A whole scan: `scans` is how it stood, from its start on, until no plugin was left.
pub open spec fn scanned(
    plugins: PluginIndexView,
    runners: RunnerIndexView,
    scans: Seq<ScanView>,
    turns: Seq<ScanTurn>,
) -> bool {
    &&& scans.len() == turns.len() + 1
    &&& scans[0] == scan_started(plugins, runners)
    &&& forall|i: int|
        0 <= i < turns.len() ==> turn_taken(scans[i], scans[i + 1], #[trigger] turns[i])
    &&& scans.last().waiting.len() == 0
}

/// The plugins of a list that are loaded, in its order.
pub open spec fn loaded_ids(plugins: Seq<PluginSummaryView>) -> Seq<Seq<char>>
    decreases plugins.len(),
{
    if plugins.len() == 0 {
        Seq::empty()
    } else if plugins.last().status == "loaded"@ {
        loaded_ids(plugins.drop_last()).push(plugins.last().plugin_id)
    } else {
        loaded_ids(plugins.drop_last())
    }
}

/// The plugins of a row of manifests.
pub open spec fn manifest_ids(manifests: Seq<PluginManifest>) -> Seq<Seq<char>> {
    manifests.map_values(|manifest: PluginManifest| manifest.plugin_id@)
}

proof fn lemma_failed_is_not_loaded()
    ensures
        "loaded"@ != "failed"@,
{
    reveal_strlit("loaded");
    reveal_strlit("failed");
    assert("loaded"@[0] != "failed"@[0]);
}

proof fn lemma_index_lists_failures(reads: Seq<FileRead<PluginManifest>>)
    ensures
        loaded_ids(plugins_read(reads).failed) == Seq::<Seq<char>>::empty(),
    decreases reads.len(),
{
    lemma_failed_is_not_loaded();
    if reads.len() > 0 {
        lemma_index_lists_failures(reads.drop_last());
        let before = plugins_read(reads.drop_last()).failed;
        let after = plugins_read(reads).failed;
        if after.len() > before.len() {
            assert(after.drop_last() =~= before);
        }
    }
}

proof fn lemma_turns(
    plugins: PluginIndexView,
    runners: RunnerIndexView,
    scans: Seq<ScanView>,
    turns: Seq<ScanTurn>,
    n: int,
)
    requires
        scanned(plugins, runners, scans, turns),
        loaded_ids(plugins.failed) == Seq::<Seq<char>>::empty(),
        0 <= n <= turns.len(),
    ensures
        scans[n].waiting.len() + n == manifests_in_order(plugins.manifests).len(),
        scans[n].plugins.len() == plugins.failed.len() + n,
        loaded_ids(scans[n].plugins) == manifest_ids(scans[n].manifests),
    decreases n,
{
    if n > 0 {
        lemma_failed_is_not_loaded();
        lemma_turns(plugins, runners, scans, turns, n - 1);
        let turn = turns[n - 1];
        let before = scans[n - 1];
        let after = scans[n];
        assert(turn_taken(before, scans[n - 1 + 1], turn));
        assert(after.plugins.drop_last() =~= before.plugins);
        if turn.kept {
            assert(after.manifests =~= before.manifests.push(after.manifests.last()));
            assert(manifest_ids(after.manifests) =~= manifest_ids(before.manifests).push(
                turn.located.manifest.plugin_id@,
            ));
        }
    } else {
        assert(manifest_ids(scans[0].manifests) =~= Seq::<Seq<char>>::empty());
    }
}

/// Of a whole scan: as many plugins are listed as manifest files were found, and the loaded ones
/// among them are exactly those whose manifests are handed on, in the same order.
pub proof fn law_every_manifest_is_listed(
    reads: Seq<FileRead<PluginManifest>>,
    runners: RunnerIndexView,
    scans: Seq<ScanView>,
    turns: Seq<ScanTurn>,
)
    requires
        scanned(plugins_read(reads), runners, scans, turns),
    ensures
        scans.last().plugins.len() == reads.len(),
        loaded_ids(scans.last().plugins) == manifest_ids(scans.last().manifests),
{
    law_no_manifest_is_overlooked(reads);
    ordered_map::lemma_in_order_of(plugins_read(reads).manifests.dom());
    lemma_index_lists_failures(reads);
    lemma_turns(plugins_read(reads), runners, scans, turns, turns.len() as int);
}

proof fn lemma_loaded_ids_contain(plugins: Seq<PluginSummaryView>, id: Seq<char>)
    ensures
        loaded_ids(plugins).contains(id) <==> exists|i: int|
            0 <= i < plugins.len() && (#[trigger] plugins[i]).status == "loaded"@
                && plugins[i].plugin_id == id,
    decreases plugins.len(),
{
    if plugins.len() > 0 {
        let front = plugins.drop_last();
        let last = plugins.len() - 1;
        lemma_loaded_ids_contain(front, id);
        let all = loaded_ids(plugins);
        let some = loaded_ids(front);
        if all.contains(id) && !some.contains(id) {
            let k = choose|k: int| 0 <= k < all.len() && all[k] == id;
            if k < some.len() {
                assert(some[k] == id);
            }
            assert(plugins[last].plugin_id == id);
        }
        if some.contains(id) {
            let k = choose|k: int| 0 <= k < some.len() && some[k] == id;
            assert(all[k] == id);
            let i = choose|i: int|
                0 <= i < front.len() && (#[trigger] front[i]).status == "loaded"@
                    && front[i].plugin_id == id;
            assert(plugins[i] == front[i]);
        }
        if exists|i: int|
            0 <= i < plugins.len() && (#[trigger] plugins[i]).status == "loaded"@
                && plugins[i].plugin_id == id {
            let i = choose|i: int|
                0 <= i < plugins.len() && (#[trigger] plugins[i]).status == "loaded"@
                    && plugins[i].plugin_id == id;
            if i < last {
                assert(front[i] == plugins[i]);
            } else {
                assert(all[all.len() - 1] == id);
            }
        }
    }
}

/// Of the list that a whole scan comes to: it is as long as manifest files were found, and a plugin
/// is loaded in it exactly where its manifest is handed on.
pub proof fn law_loaded_plugins_have_their_manifests(
    reads: Seq<FileRead<PluginManifest>>,
    runners: RunnerIndexView,
    scans: Seq<ScanView>,
    turns: Seq<ScanTurn>,
    listed: Seq<PluginSummaryView>,
    id: Seq<char>,
)
    requires
        scanned(plugins_read(reads), runners, scans, turns),
        sorting::sorted_of::<PluginSummary>(scans.last().plugins, listed),
    ensures
        listed.len() == reads.len(),
        (exists|i: int|
            0 <= i < listed.len() && (#[trigger] listed[i]).status == "loaded"@
                && listed[i].plugin_id == id) <==> manifest_ids(scans.last().manifests).contains(
            id,
        ),
{
    law_every_manifest_is_listed(reads, runners, scans, turns);
    let plugins = scans.last().plugins;
    lemma_loaded_ids_contain(plugins, id);
    if exists|i: int|
        0 <= i < listed.len() && (#[trigger] listed[i]).status == "loaded"@ && listed[i].plugin_id
            == id {
        let i = choose|i: int|
            0 <= i < listed.len() && (#[trigger] listed[i]).status == "loaded"@
                && listed[i].plugin_id == id;
        sorting::lemma_sorted_holds_the_same::<PluginSummary>(plugins, listed, listed[i]);
        let k = choose|k: int| 0 <= k < plugins.len() && plugins[k] == listed[i];
        assert(plugins[k].status == "loaded"@);
    }
    if exists|i: int|
        0 <= i < plugins.len() && (#[trigger] plugins[i]).status == "loaded"@
            && plugins[i].plugin_id == id {
        let i = choose|i: int|
            0 <= i < plugins.len() && (#[trigger] plugins[i]).status == "loaded"@
                && plugins[i].plugin_id == id;
        sorting::lemma_sorted_holds_the_same::<PluginSummary>(plugins, listed, plugins[i]);
        let k = choose|k: int| 0 <= k < listed.len() && listed[k] == plugins[i];
        assert(listed[k].status == "loaded"@);
    }
}

/// How a launch specification that no plugin laid claim to is listed.
pub open spec fn unreferenced(v: ScanView) -> Seq<RunnerSummaryView> {
    unclaimed(ordered_map::in_order(v.specs.dom()), v)
}

/// How those of a row of runners are listed to which no plugin laid claim.
pub open spec fn unclaimed(row: Seq<Seq<char>>, v: ScanView) -> Seq<RunnerSummaryView>
    decreases row.len(),
{
    if row.len() == 0 {
        Seq::empty()
    } else {
        let rest = unclaimed(row.drop_last(), v);
        if v.claimed.contains(row.last()) {
            rest
        } else {
            rest.push(
                failed_runner_view(
                    row.last(),
                    v.specs[row.last()].launch.plugin_id@,
                    "runner spec is not referenced by a loaded plugin manifest"@,
                ),
            )
        }
    }
}

/// No runner is overlooked: a launch specification to which no plugin laid claim is listed.
pub proof fn law_unclaimed_runner_is_listed(v: ScanView, runner_id: Seq<char>)
    requires
        v.specs.dom().finite(),
        v.specs.contains_key(runner_id),
        !v.claimed.contains(runner_id),
    ensures
        unreferenced(v).contains(
            failed_runner_view(
                runner_id,
                v.specs[runner_id].launch.plugin_id@,
                "runner spec is not referenced by a loaded plugin manifest"@,
            ),
        ),
{
    let row = ordered_map::in_order(v.specs.dom());
    ordered_map::lemma_in_order_of(v.specs.dom());
    assert(row.to_set().contains(runner_id));
    lemma_unclaimed_contains(row, v, runner_id);
}

proof fn lemma_unclaimed_contains(row: Seq<Seq<char>>, v: ScanView, runner_id: Seq<char>)
    requires
        row.contains(runner_id),
        !v.claimed.contains(runner_id),
    ensures
        unclaimed(row, v).contains(
            failed_runner_view(
                runner_id,
                v.specs[runner_id].launch.plugin_id@,
                "runner spec is not referenced by a loaded plugin manifest"@,
            ),
        ),
    decreases row.len(),
{
    let listed = failed_runner_view(
        runner_id,
        v.specs[runner_id].launch.plugin_id@,
        "runner spec is not referenced by a loaded plugin manifest"@,
    );
    let all = unclaimed(row, v);
    if row.last() == runner_id {
        assert(all[all.len() - 1] == listed);
    } else {
        let at = choose|at: int| 0 <= at < row.len() && row[at] == runner_id;
        assert(row.drop_last()[at] == runner_id);
        lemma_unclaimed_contains(row.drop_last(), v, runner_id);
        let rest = unclaimed(row.drop_last(), v);
        let k = choose|k: int| 0 <= k < rest.len() && rest[k] == listed;
        assert(all[k] == listed);
    }
}

impl PluginScan {
    /// Starts with what was found on disk. The plugins are taken in the order of their identifiers.
    pub fn new(plugins: PluginIndex, runners: RunnerIndex) -> (scan: Self)
        ensures
            scan@ == scan_started(plugins@, runners@),
    {
        let ghost manifests = plugins.manifests@;
        let ghost order = manifests_in_order(manifests);
        let entries = plugins.manifests.into_entries();
        let ghost rows = entries@;
        let ghost keys = ordered_map::entry_keys(rows);
        let mut waiting: VecDeque<LocatedManifest> = VecDeque::new();
        for entry in it: entries
            invariant
                it.seq() == rows,
                keys == ordered_map::entry_keys(rows),
                keys == ordered_map::in_order(manifests.dom()),
                order == manifests_in_order(manifests),
                forall|i: int| 0 <= i < rows.len() ==> manifests[#[trigger] rows[i].key@]
                    == rows[i].value,
                waiting@ == order.take(it.index()),
        {
            let ghost at = it.index();
            assert(keys[at] == rows[at].key@);
            assert(order[at] == entry.value);
            waiting.push_back(entry.value);
            assert(waiting@ =~= order.take(at + 1));
        }
        assert(order.take(order.len() as int) =~= order);
        let claimed: OrderedMap<bool> = OrderedMap::new();
        assert(claimed@.dom() =~= Set::empty());
        PluginScan {
            waiting,
            specs: runners.specs,
            claimed,
            manifests: Vec::new(),
            plugins: plugins.failed,
            runners: runners.failed,
        }
    }

    /// The plugin whose turn it is.
    pub fn next_plugin(&mut self) -> (next: Option<LocatedManifest>)
        ensures
            match next {
                Some(located) => old(self)@.waiting.len() > 0 && located == old(self)@.waiting[0]
                    && final(self)@ == (ScanView {
                    waiting: old(self)@.waiting.drop_first(),
                    ..old(self)@
                }),
                None => old(self)@.waiting.len() == 0 && final(self)@ == old(self)@,
            },
    {
        let next = self.waiting.pop_front();
        proof {
            if next is Some {
                assert(self.waiting@ =~= old(self)@.waiting.drop_first());
            }
        }
        next
    }

    /// The launch specification of a runner.
    pub fn launch_spec(&self, runner_id: &str) -> (found: Option<&LocatedRunnerSpec>)
        ensures
            match found {
                Some(located) => self@.specs.contains_key(runner_id@) && *located
                    == self@.specs[runner_id@],
                None => !self@.specs.contains_key(runner_id@),
            },
    {
        self.specs.get(runner_id)
    }

    /// How a runner of a plugin stands.
    pub fn claim(&self, plugin_id: &str, runner_id: &str) -> (claim: Claim)
        ensures
            claims(self@.specs, plugin_id@, runner_id@, claim),
    {
        match self.specs.get(runner_id) {
            None => Claim::Missing,
            Some(located) => {
                if text::text_eq(located.launch.plugin_id.as_str(), plugin_id) {
                    Claim::Launch
                } else {
                    Claim::Foreign { owner: located.launch.plugin_id.clone() }
                }
            },
        }
    }

    /// Settles a plugin once its runners were launched: the plugin is loaded where all of them run.
    /// The answer of a runner that was not to be launched does not count.
    pub fn settle(&mut self, located: LocatedManifest, answers: Vec<LaunchAnswer>) -> (kept: bool)
        requires
            located.manifest.artifact.is_process ==> answers.len()
                == located.manifest.provides.runners.len(),
        ensures
            settled(old(self)@, final(self)@, located, answers@, kept),
    {
        let ghost given = located;
        let ghost before = self@;
        let ghost plugins_before = self.plugins@;
        let ghost runners_before = self.runners@;
        if !located.manifest.artifact.is_process {
            let error = text::join4(
                "unsupported plugin artifact ",
                located.manifest.artifact.label.as_str(),
                " in ",
                located.path.as_str(),
            );
            self.plugins.push(
                failed_plugin(
                    located.manifest.plugin_id,
                    located.manifest.version,
                    deployment_label(located.manifest.artifact.default_deployment),
                    error,
                ),
            );
            assert(bridge::plugin_views(self.plugins@) =~= bridge::plugin_views(
                plugins_before,
            ).push(unsupported(given)));
            return false;
        }
        let LocatedManifest { manifest, path: _ } = located;
        let ghost descriptors = manifest.provides.runners@;
        let ghost plugin_id = manifest.plugin_id@;
        let ghost listed = runners_listed(before.specs, plugin_id, descriptors, answers@);
        let ghost row = answers@;
        let mut failure: Option<String> = None;
        let mut i: usize = 0;
        assert(descriptors.take(0) =~= Seq::empty());
        assert(before.claimed.union(claimed_by(before.specs, descriptors.take(0)))
            =~= before.claimed);
        assert(before.runners + listed.take(0) =~= before.runners);
        while i < manifest.provides.runners.len()
            invariant
                i <= manifest.provides.runners.len(),
                answers.len() == manifest.provides.runners.len(),
                row == answers@,
                descriptors == manifest.provides.runners@,
                plugin_id == manifest.plugin_id@,
                listed == runners_listed(before.specs, plugin_id, descriptors, answers@),
                before == old(self)@,
                self.waiting@ == before.waiting,
                self.specs@ == before.specs,
                self.manifests@ == before.manifests,
                self.plugins@ == plugins_before,
                self.claimed@.dom() == before.claimed.union(
                    claimed_by(before.specs, descriptors.take(i as int)),
                ),
                bridge::runner_views(self.runners@) == before.runners + listed.take(i as int),
                text::opt_text(failure) == plugin_failure(
                    before.specs,
                    plugin_id,
                    descriptors.take(i as int),
                    answers@,
                ),
            decreases manifest.provides.runners.len() - i,
        {
            let descriptor = &manifest.provides.runners[i];
            let ghost runner_id = descriptor.runner_id@;
            let ghost listed_before = self.runners@;
            let ghost claimed_before = self.claimed@.dom();
            proof {
                assert(descriptors.take(i + 1).drop_last() =~= descriptors.take(i as int));
                assert(descriptors.take(i + 1)[i as int] == *descriptor);
            }
            let claim = self.claim(manifest.plugin_id.as_str(), descriptor.runner_id.as_str());
            let summary = match claim {
                Claim::Missing => {
                    failure = Some(
                        text::join2(
                            "missing runner.toml for runner ",
                            descriptor.runner_id.as_str(),
                        ),
                    );
                    failed_runner(
                        descriptor.runner_id.clone(),
                        manifest.plugin_id.clone(),
                        "missing runner launch spec".to_owned(),
                    )
                },
                Claim::Foreign { owner } => {
                    self.claimed.insert(descriptor.runner_id.clone(), true);
                    failure = Some(
                        text::join4(
                            "runner ",
                            descriptor.runner_id.as_str(),
                            " belongs to plugin ",
                            owner.as_str(),
                        ),
                    );
                    failed_runner(
                        descriptor.runner_id.clone(),
                        manifest.plugin_id.clone(),
                        "runner launch spec plugin_id mismatch".to_owned(),
                    )
                },
                Claim::Launch => {
                    self.claimed.insert(descriptor.runner_id.clone(), true);
                    match &answers[i] {
                        LaunchAnswer::Started => loaded_runner_summary(descriptor, "process"),
                        LaunchAnswer::Failed(message) => {
                            failure = Some(message.clone());
                            failed_runner(
                                descriptor.runner_id.clone(),
                                manifest.plugin_id.clone(),
                                message.clone(),
                            )
                        },
                    }
                },
            };
            assert(summary@ == listed[i as int]);
            self.runners.push(summary);
            proof {
                assert(bridge::runner_views(self.runners@) =~= bridge::runner_views(
                    listed_before,
                ).push(listed[i as int]));
                assert(before.runners + listed.take(i + 1) =~= (before.runners + listed.take(
                    i as int,
                )).push(listed[i as int]));
                let now = claimed_by(before.specs, descriptors.take(i + 1));
                let was = claimed_by(before.specs, descriptors.take(i as int));
                assert forall|k: Seq<char>|
                    self.claimed@.dom().contains(k) == before.claimed.union(now).contains(k) by {
                    if was.contains(k) {
                        let j = choose|j: int|
                            0 <= j < descriptors.take(i as int).len() && #[trigger] descriptors.take(
                                i as int,
                            )[j].runner_id@ == k;
                        assert(descriptors.take(i + 1)[j].runner_id@ == k);
                    }
                    if now.contains(k) && k != runner_id {
                        let j = choose|j: int|
                            0 <= j < descriptors.take(i + 1).len() && #[trigger] descriptors.take(
                                i + 1,
                            )[j].runner_id@ == k;
                        assert(descriptors.take(i as int)[j].runner_id@ == k);
                    }
                }
                assert(self.claimed@.dom() =~= before.claimed.union(now));
            }
            i = i + 1;
        }
        proof {
            assert(descriptors.take(i as int) =~= descriptors);
            assert(listed.take(i as int) =~= listed);
        }
        match failure {
            Some(error) => {
                self.plugins.push(
                    failed_plugin(manifest.plugin_id, manifest.version, "process", error),
                );
                assert(bridge::plugin_views(self.plugins@) =~= bridge::plugin_views(
                    plugins_before,
                ).push(self.plugins@.last()@));
                false
            },
            None => {
                let manifest = ensure_process_plugin_backend(manifest);
                self.plugins.push(
                    loaded_plugin_summary(
                        manifest.plugin_id.as_str(),
                        manifest.version.as_str(),
                        PluginDeploymentKind::Process,
                    ),
                );
                self.manifests.push(manifest);
                proof {
                    assert(bridge::plugin_views(self.plugins@) =~= bridge::plugin_views(
                        plugins_before,
                    ).push(self.plugins@.last()@));
                    assert(self.manifests@.drop_last() =~= before.manifests);
                }
                true
            },
        }
    }

    /// Ends the scan: the launch specifications to which no plugin laid claim are listed as failed,
    /// and both lists are put into the order of their identifiers.
    pub fn finish(self) -> (load: PluginRunnerLoad)
        ensures
            load.manifests@ == self@.manifests,
            sorting::sorted_of::<PluginSummary>(
                self@.plugins,
                bridge::plugin_views(load.plugins@),
            ),
            sorting::sorted_of::<RunnerSummary>(
                self@.runners + unreferenced(self@),
                bridge::runner_views(load.runners@),
            ),
    {
        let ghost v = self@;
        let PluginScan { waiting: _, specs, claimed, manifests, plugins, runners } = self;
        let mut runners = runners;
        let ghost order = ordered_map::in_order(v.specs.dom());
        let n: usize = specs.len();
        let mut i: usize = 0;
        assert(order.take(0) =~= Seq::empty());
        assert(v.runners + unclaimed(order.take(0), v) =~= v.runners);
        while i < n
            invariant
                i <= n,
                n == order.len(),
                specs@ == v.specs,
                order == specs.keys(),
                order == ordered_map::in_order(v.specs.dom()),
                claimed@.dom() == v.claimed,
                bridge::runner_views(runners@) == v.runners + unclaimed(order.take(i as int), v),
            decreases n - i,
        {
            let ghost listed_before = runners@;
            let runner_id = specs.key_at(i);
            let located = specs.value_at(i);
            proof {
                assert(order.take(i + 1).drop_last() =~= order.take(i as int));
            }
            if !claimed.contains_key(runner_id.as_str()) {
                runners.push(
                    failed_runner(
                        runner_id.clone(),
                        located.launch.plugin_id.clone(),
                        "runner spec is not referenced by a loaded plugin manifest".to_owned(),
                    ),
                );
                proof {
                    assert(bridge::runner_views(runners@) =~= bridge::runner_views(
                        listed_before,
                    ).push(runners@.last()@));
                    assert(v.runners + unclaimed(order.take(i + 1), v) =~= (v.runners + unclaimed(
                        order.take(i as int),
                        v,
                    )).push(runners@.last()@));
                }
            }
            i = i + 1;
        }
        assert(order.take(i as int) =~= order);
        proof {
            assert(sorting::views(plugins@) =~= bridge::plugin_views(plugins@));
            assert(sorting::views(runners@) =~= bridge::runner_views(runners@));
        }
        let plugins = sorting::sort_by_id(plugins);
        let runners = sorting::sort_by_id(runners);
        proof {
            assert(sorting::views(plugins@) =~= bridge::plugin_views(plugins@));
            assert(sorting::views(runners@) =~= bridge::runner_views(runners@));
        }
        PluginRunnerLoad { manifests, plugins, runners }
    }
}

/// What is listed as failed is off and says why; what is listed as loaded is on and says nothing.
pub proof fn law_list_tells_what_runs(
    id: Seq<char>,
    plugin_id: Seq<char>,
    version: Seq<char>,
    deployment: Seq<char>,
    error: Seq<char>,
)
    ensures
        failed_plugin_view(id, version, deployment, error) == (PluginSummaryView {
            plugin_id: id,
            version,
            enabled: false,
            deployment,
            status: "failed"@,
            error: Some(error),
        }),
        loaded_plugin_view(id, version, deployment) == (PluginSummaryView {
            plugin_id: id,
            version,
            enabled: true,
            deployment,
            status: "loaded"@,
            error: None,
        }),
        failed_runner_view(id, plugin_id, error) == (RunnerSummaryView {
            runner_id: id,
            plugin_id,
            enabled: false,
            deployment: "process"@,
            status: "failed"@,
            error: Some(error),
        }),
        loaded_runner_view(id, plugin_id, deployment) == (RunnerSummaryView {
            runner_id: id,
            plugin_id,
            enabled: true,
            deployment,
            status: "loaded"@,
            error: None,
        }),
{
}

/// A file holds the manifest of a plugin.
pub open spec fn tells_of(read: FileRead<PluginManifest>, plugin_id: Seq<char>) -> bool {
    read.outcome matches Ok(manifest) && manifest.plugin_id@ == plugin_id
}

/// A file holds the launch specification of a runner.
pub open spec fn launches(read: FileRead<RunnerLaunchSpec>, runner_id: Seq<char>) -> bool {
    read.outcome matches Ok(launch) && launch.runner_id@ == runner_id
}

/// A plugin is known exactly where a file holds its manifest, and is known by the first of them.
pub proof fn law_first_manifest_of_a_plugin_is_kept(
    reads: Seq<FileRead<PluginManifest>>,
    plugin_id: Seq<char>,
    i: int,
)
    ensures
        plugins_read(reads).manifests.contains_key(plugin_id) <==> exists|k: int|
            0 <= k < reads.len() && tells_of(#[trigger] reads[k], plugin_id),
        0 <= i < reads.len() && tells_of(reads[i], plugin_id) && (forall|k: int|
            0 <= k < i ==> !tells_of(#[trigger] reads[k], plugin_id)) ==> plugins_read(
            reads,
        ).manifests[plugin_id] == (LocatedManifest {
            manifest: reads[i].outcome->Ok_0,
            path: reads[i].path,
        }),
    decreases reads.len(),
{
    if reads.len() > 0 {
        let front = reads.drop_last();
        let last = reads.len() - 1;
        law_first_manifest_of_a_plugin_is_kept(front, plugin_id, i);
        if exists|k: int| 0 <= k < front.len() && tells_of(#[trigger] front[k], plugin_id) {
            let k = choose|k: int| 0 <= k < front.len() && tells_of(#[trigger] front[k], plugin_id);
            assert(tells_of(reads[k], plugin_id));
        }
        if exists|k: int| 0 <= k < reads.len() && tells_of(#[trigger] reads[k], plugin_id) {
            let k = choose|k: int| 0 <= k < reads.len() && tells_of(#[trigger] reads[k], plugin_id);
            if k < last {
                assert(tells_of(front[k], plugin_id));
            }
        }
        if 0 <= i < reads.len() && tells_of(reads[i], plugin_id) && (forall|k: int|
            0 <= k < i ==> !tells_of(#[trigger] reads[k], plugin_id)) {
            if i < last {
                assert(front[i] == reads[i]);
                assert forall|k: int| 0 <= k < i implies !tells_of(
                    #[trigger] front[k],
                    plugin_id,
                ) by {
                    assert(front[k] == reads[k]);
                }
                assert(tells_of(front[i], plugin_id));
            } else {
                assert(!(exists|k: int|
                    0 <= k < front.len() && tells_of(#[trigger] front[k], plugin_id))) by {
                    if exists|k: int|
                        0 <= k < front.len() && tells_of(#[trigger] front[k], plugin_id) {
                        let k = choose|k: int|
                            0 <= k < front.len() && tells_of(#[trigger] front[k], plugin_id);
                        assert(tells_of(reads[k], plugin_id));
                    }
                }
            }
        }
    }
}

/// A file that is no manifest is listed under its path with what is wrong with it, and a second
/// manifest of a plugin as a duplicate.
pub proof fn law_other_manifests_are_listed_as_failed(
    reads: Seq<FileRead<PluginManifest>>,
    i: int,
    first: int,
)
    requires
        0 <= i < reads.len(),
    ensures
        reads[i].outcome matches Err(error) ==> plugins_read(reads).failed.contains(
            PluginSummaryView {
                plugin_id: "invalid:"@ + reads[i].relative@,
                version: "unknown"@,
                enabled: false,
                deployment: "process"@,
                status: "failed"@,
                error: Some(error@),
            },
        ),
        reads[i].outcome is Ok && 0 <= first < i && tells_of(
            reads[first],
            reads[i].outcome->Ok_0.plugin_id@,
        ) ==> plugins_read(reads).failed.contains(
            PluginSummaryView {
                plugin_id: reads[i].outcome->Ok_0.plugin_id@,
                version: reads[i].outcome->Ok_0.version@,
                enabled: false,
                deployment: manifest::deployment_name(
                    reads[i].outcome->Ok_0.artifact.default_deployment,
                ),
                status: "failed"@,
                error: Some("duplicate plugin id"@),
            },
        ),
    decreases reads.len(),
{
    let front = reads.drop_last();
    let before = plugins_read(front);
    let after = plugins_read(reads);
    if i < reads.len() - 1 {
        law_other_manifests_are_listed_as_failed(front, i, first);
        assert(front[i] == reads[i]);
        if 0 <= first < i {
            assert(front[first] == reads[first]);
        }
        assert forall|listed: PluginSummaryView| before.failed.contains(
            listed,
        ) implies #[trigger] after.failed.contains(listed) by {
            let k = choose|k: int| 0 <= k < before.failed.len() && before.failed[k] == listed;
            assert(after.failed[k] == listed);
        }
    } else {
        if reads[i].outcome is Ok && 0 <= first < i && tells_of(
            reads[first],
            reads[i].outcome->Ok_0.plugin_id@,
        ) {
            law_first_manifest_of_a_plugin_is_kept(
                front,
                reads[i].outcome->Ok_0.plugin_id@,
                first,
            );
            assert(tells_of(front[first], reads[i].outcome->Ok_0.plugin_id@));
        }
        if after.failed.len() > before.failed.len() {
            assert(after.failed[after.failed.len() - 1] == after.failed.last());
        }
    }
}

/// A runner is known exactly where a file holds its launch specification, and is known by the first
/// of them.
pub proof fn law_first_launch_of_a_runner_is_kept(
    reads: Seq<FileRead<RunnerLaunchSpec>>,
    runner_id: Seq<char>,
    i: int,
)
    ensures
        runners_read(reads).specs.contains_key(runner_id) <==> exists|k: int|
            0 <= k < reads.len() && launches(#[trigger] reads[k], runner_id),
        0 <= i < reads.len() && launches(reads[i], runner_id) && (forall|k: int|
            0 <= k < i ==> !launches(#[trigger] reads[k], runner_id)) ==> runners_read(
            reads,
        ).specs[runner_id] == (LocatedRunnerSpec {
            launch: reads[i].outcome->Ok_0,
            source: reads[i].path,
        }),
    decreases reads.len(),
{
    if reads.len() > 0 {
        let front = reads.drop_last();
        let last = reads.len() - 1;
        law_first_launch_of_a_runner_is_kept(front, runner_id, i);
        if exists|k: int| 0 <= k < front.len() && launches(#[trigger] front[k], runner_id) {
            let k = choose|k: int| 0 <= k < front.len() && launches(#[trigger] front[k], runner_id);
            assert(launches(reads[k], runner_id));
        }
        if exists|k: int| 0 <= k < reads.len() && launches(#[trigger] reads[k], runner_id) {
            let k = choose|k: int| 0 <= k < reads.len() && launches(#[trigger] reads[k], runner_id);
            if k < last {
                assert(launches(front[k], runner_id));
            }
        }
        if 0 <= i < reads.len() && launches(reads[i], runner_id) && (forall|k: int|
            0 <= k < i ==> !launches(#[trigger] reads[k], runner_id)) {
            if i < last {
                assert(front[i] == reads[i]);
                assert forall|k: int| 0 <= k < i implies !launches(
                    #[trigger] front[k],
                    runner_id,
                ) by {
                    assert(front[k] == reads[k]);
                }
                assert(launches(front[i], runner_id));
            } else {
                assert(!(exists|k: int|
                    0 <= k < front.len() && launches(#[trigger] front[k], runner_id))) by {
                    if exists|k: int|
                        0 <= k < front.len() && launches(#[trigger] front[k], runner_id) {
                        let k = choose|k: int|
                            0 <= k < front.len() && launches(#[trigger] front[k], runner_id);
                        assert(launches(reads[k], runner_id));
                    }
                }
            }
        }
    }
}

/// A file that is no launch specification is listed under its path with what is wrong with it, and a
/// second one of a runner as a duplicate.
pub proof fn law_other_launches_are_listed_as_failed(
    reads: Seq<FileRead<RunnerLaunchSpec>>,
    i: int,
    first: int,
)
    requires
        0 <= i < reads.len(),
    ensures
        reads[i].outcome matches Err(error) ==> runners_read(reads).failed.contains(
            RunnerSummaryView {
                runner_id: "invalid:"@ + reads[i].relative@,
                plugin_id: ""@,
                enabled: false,
                deployment: "process"@,
                status: "failed"@,
                error: Some(error@),
            },
        ),
        reads[i].outcome is Ok && 0 <= first < i && launches(
            reads[first],
            reads[i].outcome->Ok_0.runner_id@,
        ) ==> runners_read(reads).failed.contains(
            RunnerSummaryView {
                runner_id: reads[i].outcome->Ok_0.runner_id@,
                plugin_id: reads[i].outcome->Ok_0.plugin_id@,
                enabled: false,
                deployment: "process"@,
                status: "failed"@,
                error: Some("duplicate runner id"@),
            },
        ),
    decreases reads.len(),
{
    let front = reads.drop_last();
    let before = runners_read(front);
    let after = runners_read(reads);
    if i < reads.len() - 1 {
        law_other_launches_are_listed_as_failed(front, i, first);
        assert(front[i] == reads[i]);
        if 0 <= first < i {
            assert(front[first] == reads[first]);
        }
        assert forall|listed: RunnerSummaryView| before.failed.contains(
            listed,
        ) implies #[trigger] after.failed.contains(listed) by {
            let k = choose|k: int| 0 <= k < before.failed.len() && before.failed[k] == listed;
            assert(after.failed[k] == listed);
        }
    } else {
        if reads[i].outcome is Ok && 0 <= first < i && launches(
            reads[first],
            reads[i].outcome->Ok_0.runner_id@,
        ) {
            law_first_launch_of_a_runner_is_kept(front, reads[i].outcome->Ok_0.runner_id@, first);
            assert(launches(front[first], reads[i].outcome->Ok_0.runner_id@));
        }
        if after.failed.len() > before.failed.len() {
            assert(after.failed[after.failed.len() - 1] == after.failed.last());
        }
    }
}

/// A runner is launched exactly where its launch specification is there and names the plugin, and is
/// loaded exactly where it then starts. Otherwise it is listed as failed, and the plugin is told
/// what stands in its way.
pub proof fn law_runner_is_loaded_where_it_starts(
    specs: Map<Seq<char>, LocatedRunnerSpec>,
    plugin_id: Seq<char>,
    descriptor: RunnerDescriptor,
    answer: LaunchAnswer,
    claim: Claim,
)
    requires
        claims(specs, plugin_id, descriptor.runner_id@, claim),
    ensures
        ({
            let runner_id = descriptor.runner_id@;
            let there = specs.contains_key(runner_id);
            let owned = there && specs[runner_id].launch.plugin_id@ == plugin_id;
            let listed = runner_listed(specs, plugin_id, descriptor, answer);
            let error = runner_error(specs, plugin_id, runner_id, answer);
            &&& claim is Launch <==> owned
            &&& claim is Missing <==> !there
            &&& claim matches Claim::Foreign { owner } ==> owner@
                == specs[runner_id].launch.plugin_id@
            &&& listed.status == "loaded"@ <==> owned && answer is Started
            &&& error is None <==> owned && answer is Started
            &&& listed.runner_id == runner_id
            &&& listed.deployment == "process"@
            &&& listed.enabled <==> owned && answer is Started
            &&& listed.error is None <==> owned && answer is Started
            &&& owned && answer is Started ==> listed.plugin_id == descriptor.plugin_id@
            &&& !(owned && answer is Started) ==> listed.plugin_id == plugin_id
            &&& !there ==> error == Some("missing runner.toml for runner "@ + runner_id)
                && listed.error == Some("missing runner launch spec"@)
            &&& there && !owned ==> error == Some(
                "runner "@ + runner_id + " belongs to plugin "@
                    + specs[runner_id].launch.plugin_id@,
            ) && listed.error == Some("runner launch spec plugin_id mismatch"@)
            &&& owned && answer is Failed ==> error == Some(answer->Failed_0@) && listed.error
                == Some(answer->Failed_0@)
        }),
{
    lemma_failed_is_not_loaded();
}

/// A plugin fails exactly where one of its runners does, with the error of the last one that does.
pub proof fn law_plugin_fails_with_its_last_failing_runner(
    specs: Map<Seq<char>, LocatedRunnerSpec>,
    plugin_id: Seq<char>,
    descriptors: Seq<RunnerDescriptor>,
    answers: Seq<LaunchAnswer>,
    at: int,
)
    requires
        0 <= at < descriptors.len(),
        runner_error(specs, plugin_id, descriptors[at].runner_id@, answers[at]) is Some,
        forall|i: int|
            at < i < descriptors.len() ==> runner_error(
                specs,
                plugin_id,
                (#[trigger] descriptors[i]).runner_id@,
                answers[i],
            ) is None,
    ensures
        plugin_failure(specs, plugin_id, descriptors, answers) == runner_error(
            specs,
            plugin_id,
            descriptors[at].runner_id@,
            answers[at],
        ),
    decreases descriptors.len(),
{
    let last = descriptors.len() - 1;
    if at < last {
        let front = descriptors.drop_last();
        assert(runner_error(
            specs,
            plugin_id,
            descriptors[last].runner_id@,
            answers[last],
        ) is None);
        assert forall|i: int| at < i < front.len() implies runner_error(
            specs,
            plugin_id,
            (#[trigger] front[i]).runner_id@,
            answers[i],
        ) is None by {
            assert(front[i] == descriptors[i]);
        }
        law_plugin_fails_with_its_last_failing_runner(specs, plugin_id, front, answers, at);
    }
}

/// A plugin none of whose runners fails does not fail.
pub proof fn law_plugin_without_failing_runner_loads(
    specs: Map<Seq<char>, LocatedRunnerSpec>,
    plugin_id: Seq<char>,
    descriptors: Seq<RunnerDescriptor>,
    answers: Seq<LaunchAnswer>,
)
    requires
        forall|i: int|
            0 <= i < descriptors.len() ==> runner_error(
                specs,
                plugin_id,
                (#[trigger] descriptors[i]).runner_id@,
                answers[i],
            ) is None,
    ensures
        plugin_failure(specs, plugin_id, descriptors, answers) is None,
    decreases descriptors.len(),
{
    if descriptors.len() > 0 {
        let front = descriptors.drop_last();
        let last = descriptors.len() - 1;
        assert(runner_error(
            specs,
            plugin_id,
            descriptors[last].runner_id@,
            answers[last],
        ) is None);
        assert forall|i: int| 0 <= i < front.len() implies runner_error(
            specs,
            plugin_id,
            (#[trigger] front[i]).runner_id@,
            answers[i],
        ) is None by {
            assert(front[i] == descriptors[i]);
        }
        law_plugin_without_failing_runner_loads(specs, plugin_id, front, answers);
    }
}

/// A plugin that is settled is listed under its own identifier and version: as a program where it is
/// one, with every runner of it behind those that were listed before, and as not supported where it
/// is not. Nothing that was listed before is lost, and the manifest that is kept is its own.
pub proof fn law_settled_plugin_is_listed(
    before: ScanView,
    after: ScanView,
    located: LocatedManifest,
    answers: Seq<LaunchAnswer>,
    kept: bool,
    i: int,
)
    requires
        settled(before, after, located, answers, kept),
    ensures
        after.waiting == before.waiting,
        after.specs == before.specs,
        after.plugins.len() == before.plugins.len() + 1,
        after.plugins.drop_last() == before.plugins,
        after.plugins.last().plugin_id == located.manifest.plugin_id@,
        after.plugins.last().version == located.manifest.version@,
        after.plugins.last().enabled == kept,
        !located.manifest.artifact.is_process ==> {
            &&& !kept
            &&& after.runners == before.runners
            &&& after.claimed == before.claimed
            &&& after.plugins.last().deployment == manifest::deployment_name(
                located.manifest.artifact.default_deployment,
            )
            &&& after.plugins.last().error == Some(
                "unsupported plugin artifact "@ + located.manifest.artifact.label@ + " in "@
                    + located.path@,
            )
        },
        located.manifest.artifact.is_process ==> {
            &&& after.plugins.last().deployment == "process"@
            &&& after.runners.len() == before.runners.len()
                + located.manifest.provides.runners@.len()
            &&& after.runners.take(before.runners.len() as int) == before.runners
            &&& 0 <= i < located.manifest.provides.runners@.len() ==> after.runners[
                before.runners.len() + i].runner_id
                == located.manifest.provides.runners@[i].runner_id@
            &&& 0 <= i < located.manifest.provides.runners@.len() && before.specs.contains_key(
                located.manifest.provides.runners@[i].runner_id@,
            ) ==> after.claimed.contains(located.manifest.provides.runners@[i].runner_id@)
        },
        kept ==> after.manifests.last().plugin_id == located.manifest.plugin_id
            && after.manifests.last().provides.runners == located.manifest.provides.runners,
{
    assert(after.plugins.drop_last() =~= before.plugins);
    assert(after.runners.take(before.runners.len() as int) =~= before.runners);
    if located.manifest.artifact.is_process && 0 <= i
        < located.manifest.provides.runners@.len() {
        let descriptors = located.manifest.provides.runners@;
        assert(descriptors[i].runner_id@ == located.manifest.provides.runners@[i].runner_id@);
        assert(after.runners[before.runners.len() + i] == runners_listed(
            before.specs,
            located.manifest.plugin_id@,
            descriptors,
            answers,
        )[i]);
    }
}

/// The launch specifications that are listed as belonging to nobody are those to which no plugin
/// laid claim, in the order of their runners.
pub proof fn law_only_unclaimed_runners_are_listed(v: ScanView, row: Seq<Seq<char>>)
    ensures
        unclaimed(row, v) == row.filter(
            |runner_id: Seq<char>| !v.claimed.contains(runner_id),
        ).map_values(
            |runner_id: Seq<char>|
                RunnerSummaryView {
                    runner_id,
                    plugin_id: v.specs[runner_id].launch.plugin_id@,
                    enabled: false,
                    deployment: "process"@,
                    status: "failed"@,
                    error: Some("runner spec is not referenced by a loaded plugin manifest"@),
                },
        ),
        unreferenced(v) == unclaimed(ordered_map::in_order(v.specs.dom()), v),
    decreases row.len(),
{
    let p = |runner_id: Seq<char>| !v.claimed.contains(runner_id);
    let f = |runner_id: Seq<char>|
        RunnerSummaryView {
            runner_id,
            plugin_id: v.specs[runner_id].launch.plugin_id@,
            enabled: false,
            deployment: "process"@,
            status: "failed"@,
            error: Some("runner spec is not referenced by a loaded plugin manifest"@),
        };
    reveal(Seq::filter);
    if row.len() > 0 {
        let front = row.drop_last();
        law_only_unclaimed_runners_are_listed(v, front);
        if p(row.last()) {
            assert(row.filter(p).map_values(f) =~= front.filter(p).map_values(f).push(
                f(row.last()),
            ));
        }
    } else {
        assert(row.filter(p).map_values(f) =~= Seq::empty());
    }
}

/// Every plugin that is known gets its turn, in the order of the identifiers, and what could not be
/// read is listed from the start.
pub proof fn law_every_known_plugin_gets_its_turn(
    plugins: PluginIndexView,
    runners: RunnerIndexView,
    located: LocatedManifest,
)
    requires
        plugins.manifests.dom().finite(),
    ensures
        ({
            let scan = scan_started(plugins, runners);
            &&& scan.waiting.len() == plugins.manifests.len()
            &&& scan.waiting.contains(located) <==> exists|id: Seq<char>| #[trigger]
                plugins.manifests.contains_key(id) && plugins.manifests[id] == located
            &&& scan.specs == runners.specs
            &&& scan.plugins == plugins.failed
            &&& scan.runners == runners.failed
            &&& scan.manifests.len() == 0
            &&& forall|id: Seq<char>| !scan.claimed.contains(id)
        }),
{
    let keys = ordered_map::in_order(plugins.manifests.dom());
    ordered_map::lemma_in_order_of(plugins.manifests.dom());
    let waiting = scan_started(plugins, runners).waiting;
    if waiting.contains(located) {
        let i = choose|i: int| 0 <= i < waiting.len() && waiting[i] == located;
        assert(keys.to_set().contains(keys[i]));
        assert(plugins.manifests.contains_key(keys[i]));
    }
    if exists|id: Seq<char>| #[trigger]
        plugins.manifests.contains_key(id) && plugins.manifests[id] == located {
        let id = choose|id: Seq<char>| #[trigger]
            plugins.manifests.contains_key(id) && plugins.manifests[id] == located;
        assert(keys.to_set().contains(id));
        let i = choose|i: int| 0 <= i < keys.len() && keys[i] == id;
        assert(waiting[i] == located);
    }
}

} // verus!

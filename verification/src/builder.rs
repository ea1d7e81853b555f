//! How a host is put together from its configuration, the plugins that were found and the runners
//! that the app brings along.
use crate::bridge::{PluginSummary, PluginSummaryView, RunnerSummary, RunnerSummaryView};
use crate::bridge;
use crate::config::{ConfigView, MutsukiTauriConfig};
use crate::config;
use crate::error::{HostError, HostResult};
use crate::ordered_map::OrderedMap;
use crate::plugin_runner::manifest::{PluginDeploymentKind, PluginManifest, RunnerDescriptor};
use crate::plugin_runner::scan::{
    PluginRunnerLoad, loaded_plugin_summary, loaded_runner_summary,
};
use crate::plugin_runner::scan;
use crate::plugin_runner::sorting;
use crate::text;
use vstd::prelude::*;
use vstd::string::*;

verus! {

broadcast use vstd::string::group_string_axioms;

/// The runners of one plugin that the app brings along.
#[derive(Debug, PartialEq, Eq)]
pub struct BuiltinPlugin {
    pub plugin_id: String,
    pub version: String,
    pub runners: Vec<RunnerDescriptor>,
}

/// What a host is made of.
#[derive(Debug)]
pub struct HostPlan {
    /// The manifests of the plugins that were found and run.
    pub manifests: Vec<PluginManifest>,
    /// The plugins that the app brings along.
    pub builtins: Vec<BuiltinPlugin>,
    /// The plugins that are enabled, and how each of them is run.
    pub deployments: OrderedMap<PluginDeploymentKind>,
    /// The protocols that some runner accepts.
    pub active_protocols: OrderedMap<bool>,
    pub plugins: Vec<PluginSummary>,
    pub runners: Vec<RunnerSummary>,
}

/// Those of a row of runners that belong to a plugin.
pub open spec fn of_plugin(plugin_id: Seq<char>) -> spec_fn(RunnerDescriptor) -> bool {
    |runner: RunnerDescriptor| runner.plugin_id@ == plugin_id
}

/// `groups` holds a row of runners by their plugins, each group in the order of the row.
pub open spec fn grouped(
    row: Seq<RunnerDescriptor>,
    groups: Map<Seq<char>, Vec<RunnerDescriptor>>,
) -> bool {
    forall|plugin_id: Seq<char>|
        if row.filter(#[trigger] of_plugin(plugin_id)).len() == 0 {
            !groups.contains_key(plugin_id)
        } else {
            groups.contains_key(plugin_id) && groups[plugin_id]@ == row.filter(of_plugin(plugin_id))
        }
}

/// Groups a row of runners by their plugins.
pub fn group_runners(row: Vec<RunnerDescriptor>) -> (groups: OrderedMap<Vec<RunnerDescriptor>>)
    ensures
        grouped(row@, groups@),
{
    let ghost all = row@;
    let mut groups: OrderedMap<Vec<RunnerDescriptor>> = OrderedMap::new();
    proof {
        assert forall|plugin_id: Seq<char>| all.take(0).filter(
            #[trigger] of_plugin(plugin_id),
        ).len() == 0 by {
            reveal(Seq::filter);
        }
    }
    for runner in it: row
        invariant
            it.seq() == all,
            grouped(all.take(it.index()), groups@),
    {
        let ghost done = all.take(it.index());
        let ghost before = groups@;
        let ghost grown = all.take(it.index() + 1);
        let ghost given = runner;
        let mut group = match groups.remove(runner.plugin_id.as_str()) {
            Some(group) => group,
            None => Vec::new(),
        };
        let plugin_id = runner.plugin_id.clone();
        let ghost id = plugin_id@;
        proof {
            let held = done.filter(of_plugin(id));
            if held.len() == 0 {
                assert(group@ =~= held);
            }
        }
        group.push(runner);
        groups.insert(plugin_id, group);
        proof {
            assert(grown =~= done.push(given));
            assert forall|k: Seq<char>|
                if grown.filter(#[trigger] of_plugin(k)).len() == 0 {
                    !groups@.contains_key(k)
                } else {
                    groups@.contains_key(k) && groups@[k]@ == grown.filter(of_plugin(k))
                } by {
                done.lemma_filter_push(given, of_plugin(k));
                let held = done.filter(of_plugin(k));
                if held.len() == 0 {
                    assert(!before.contains_key(k));
                }
            }
        }
    }
    assert(all.take(all.len() as int) =~= all);
    groups
}

/// A runner of a row accepts a protocol.
pub open spec fn accepts(row: Seq<RunnerDescriptor>, protocol: Seq<char>) -> bool {
    exists|i: int, j: int|
        0 <= i < row.len() && 0 <= j < row[i].accepted_protocol_ids@.len()
            && #[trigger] row[i].accepted_protocol_ids@[j]@ == protocol
}

/// The protocols that the runners of a row accept.
pub open spec fn protocols(row: Seq<RunnerDescriptor>) -> Set<Seq<char>> {
    Set::new(|protocol: Seq<char>| accepts(row, protocol))
}

fn collect_protocols(known: &mut OrderedMap<bool>, row: &Vec<RunnerDescriptor>)
    ensures
        final(known)@.dom() == old(known)@.dom().union(protocols(row@)),
{
    let ghost before = known@.dom();
    let mut i: usize = 0;
    assert(before.union(protocols(row@.take(0))) =~= before);
    while i < row.len()
        invariant
            i <= row.len(),
            known@.dom() == before.union(protocols(row@.take(i as int))),
        decreases row.len() - i,
    {
        let runner = &row[i];
        let ghost outer = known@.dom();
        let mut j: usize = 0;
        let ghost ids = runner.accepted_protocol_ids@;
        assert(outer.union(text::texts(ids.take(0)).to_set()) =~= outer);
        while j < runner.accepted_protocol_ids.len()
            invariant
                j <= runner.accepted_protocol_ids.len(),
                ids == runner.accepted_protocol_ids@,
                known@.dom() == outer.union(text::texts(ids.take(j as int)).to_set()),
            decreases runner.accepted_protocol_ids.len() - j,
        {
            known.insert(runner.accepted_protocol_ids[j].clone(), true);
            proof {
                let was = text::texts(ids.take(j as int));
                assert(text::texts(ids.take(j + 1)) =~= was.push(ids[j as int]@));
                was.lemma_push_to_set_commute(ids[j as int]@);
                assert(known@.dom() =~= outer.union(text::texts(ids.take(j + 1)).to_set()));
            }
            j = j + 1;
        }
        proof {
            assert(ids.take(j as int) =~= ids);
            let was = row@.take(i as int);
            let now = row@.take(i + 1);
            assert forall|p: Seq<char>|
                known@.dom().contains(p) == before.union(protocols(now)).contains(p) by {
                let own = text::texts(ids);
                if own.to_set().contains(p) {
                    let b = choose|b: int| 0 <= b < own.len() && own[b] == p;
                    assert(now[i as int].accepted_protocol_ids@[b]@ == p);
                }
                if accepts(was, p) {
                    let (a, b) = choose|a: int, b: int|
                        0 <= a < was.len() && 0 <= b < was[a].accepted_protocol_ids@.len()
                            && #[trigger] was[a].accepted_protocol_ids@[b]@ == p;
                    assert(now[a].accepted_protocol_ids@[b]@ == p);
                }
                if accepts(now, p) {
                    let (a, b) = choose|a: int, b: int|
                        0 <= a < now.len() && 0 <= b < now[a].accepted_protocol_ids@.len()
                            && #[trigger] now[a].accepted_protocol_ids@[b]@ == p;
                    if a < i {
                        assert(was[a].accepted_protocol_ids@[b]@ == p);
                    } else {
                        assert(own[b] == p);
                        assert(own.to_set().contains(p));
                    }
                }
            }
            assert(known@.dom() =~= before.union(protocols(now)));
        }
        i = i + 1;
    }
    assert(row@.take(i as int) =~= row@);
}

/// The plugins of a row of manifests, each run as a program of its own.
pub open spec fn discovered(manifests: Seq<PluginManifest>) -> Map<Seq<char>, PluginDeploymentKind>
    decreases manifests.len(),
{
    if manifests.len() == 0 {
        Map::empty()
    } else {
        discovered(manifests.drop_last()).insert(
            manifests.last().plugin_id@,
            PluginDeploymentKind::Process,
        )
    }
}

/// The protocols that the runners of a row of manifests accept.
pub open spec fn manifest_protocols(manifests: Seq<PluginManifest>) -> Set<Seq<char>>
    decreases manifests.len(),
{
    if manifests.len() == 0 {
        Set::empty()
    } else {
        manifest_protocols(manifests.drop_last()).union(
            protocols(manifests.last().provides.runners@),
        )
    }
}

/// The plugins that run once those of the app have joined the ones that were found.
pub open spec fn deployed(
    manifests: Seq<PluginManifest>,
    builtins: Seq<BuiltinPlugin>,
) -> Map<Seq<char>, PluginDeploymentKind>
    decreases builtins.len(),
{
    if builtins.len() == 0 {
        discovered(manifests)
    } else {
        deployed(manifests, builtins.drop_last()).insert(
            builtins.last().plugin_id@,
            PluginDeploymentKind::Builtin,
        )
    }
}

/// The plugin of the app at a place of the row takes the identifier of one that runs already.
pub open spec fn conflicts_at(
    manifests: Seq<PluginManifest>,
    builtins: Seq<BuiltinPlugin>,
    at: int,
) -> bool {
    0 <= at < builtins.len() && deployed(manifests, builtins.take(at)).contains_key(
        builtins[at].plugin_id@,
    )
}

/// The protocols that some runner accepts.
pub open spec fn active_protocols(
    manifests: Seq<PluginManifest>,
    builtins: Seq<BuiltinPlugin>,
) -> Set<Seq<char>>
    decreases builtins.len(),
{
    if builtins.len() == 0 {
        manifest_protocols(manifests)
    } else {
        active_protocols(manifests, builtins.drop_last()).union(protocols(builtins.last().runners@))
    }
}

/// How the plugins of the app are listed.
pub open spec fn builtin_plugins(builtins: Seq<BuiltinPlugin>) -> Seq<PluginSummaryView> {
    builtins.map_values(
        |plugin: BuiltinPlugin|
            scan::loaded_plugin_view(plugin.plugin_id@, plugin.version@, "builtin"@),
    )
}

/// How the runners of one plugin of the app are listed.
pub open spec fn runners_of(runners: Seq<RunnerDescriptor>) -> Seq<RunnerSummaryView> {
    runners.map_values(
        |runner: RunnerDescriptor|
            scan::loaded_runner_view(runner.runner_id@, runner.plugin_id@, "builtin"@),
    )
}

/// How the runners of the app are listed.
pub open spec fn builtin_runners(builtins: Seq<BuiltinPlugin>) -> Seq<RunnerSummaryView>
    decreases builtins.len(),
{
    if builtins.len() == 0 {
        Seq::empty()
    } else {
        builtin_runners(builtins.drop_last()) + runners_of(builtins.last().runners@)
    }
}

/// A protocol that a runner accepts is among those of the host, be it a runner of a plugin that was
/// found or one that the app brings along.
pub proof fn law_accepted_protocol_is_active(
    manifests: Seq<PluginManifest>,
    builtins: Seq<BuiltinPlugin>,
    protocol: Seq<char>,
)
    ensures
        active_protocols(manifests, builtins).contains(protocol) <==> ((exists|i: int|
            0 <= i < manifests.len() && accepts(
                #[trigger] manifests[i].provides.runners@,
                protocol,
            )) || (exists|i: int|
            0 <= i < builtins.len() && accepts(#[trigger] builtins[i].runners@, protocol))),
    decreases builtins.len(), manifests.len(),
{
    if builtins.len() > 0 {
        let rest = builtins.drop_last();
        law_accepted_protocol_is_active(manifests, rest, protocol);
        let last = builtins.len() - 1;
        if accepts(builtins.last().runners@, protocol) {
            assert(accepts(builtins[last].runners@, protocol));
        }
        if exists|i: int| 0 <= i < rest.len() && accepts(#[trigger] rest[i].runners@, protocol) {
            let i = choose|i: int| 0 <= i < rest.len() && accepts(
                #[trigger] rest[i].runners@,
                protocol,
            );
            assert(accepts(builtins[i].runners@, protocol));
        }
        if exists|i: int| 0 <= i < builtins.len() && accepts(#[trigger] builtins[i].runners@, protocol) {
            let i = choose|i: int| 0 <= i < builtins.len() && accepts(
                #[trigger] builtins[i].runners@,
                protocol,
            );
            if i < last {
                assert(accepts(rest[i].runners@, protocol));
            }
        }
    } else if manifests.len() > 0 {
        let rest = manifests.drop_last();
        law_accepted_protocol_is_active(rest, builtins, protocol);
        let last = manifests.len() - 1;
        if accepts(manifests.last().provides.runners@, protocol) {
            assert(accepts(manifests[last].provides.runners@, protocol));
        }
        if exists|i: int| 0 <= i < rest.len() && accepts(
            #[trigger] rest[i].provides.runners@,
            protocol,
        ) {
            let i = choose|i: int| 0 <= i < rest.len() && accepts(
                #[trigger] rest[i].provides.runners@,
                protocol,
            );
            assert(accepts(manifests[i].provides.runners@, protocol));
        }
        if exists|i: int| 0 <= i < manifests.len() && accepts(
            #[trigger] manifests[i].provides.runners@,
            protocol,
        ) {
            let i = choose|i: int| 0 <= i < manifests.len() && accepts(
                #[trigger] manifests[i].provides.runners@,
                protocol,
            );
            if i < last {
                assert(accepts(rest[i].provides.runners@, protocol));
            }
        }
    }
}

/// `plan` is what a host is made of.
pub open spec fn planned(
    load: PluginRunnerLoad,
    builtins: Seq<BuiltinPlugin>,
    plan: HostPlan,
) -> bool {
    &&& plan.manifests@ == load.manifests@
    &&& plan.builtins@ == builtins
    &&& plan.deployments@ == deployed(load.manifests@, builtins)
    &&& plan.active_protocols@.dom() == active_protocols(load.manifests@, builtins)
    &&& sorting::sorted_of::<PluginSummary>(
        bridge::plugin_views(load.plugins@) + builtin_plugins(builtins),
        bridge::plugin_views(plan.plugins@),
    )
    &&& sorting::sorted_of::<RunnerSummary>(
        bridge::runner_views(load.runners@) + builtin_runners(builtins),
        bridge::runner_views(plan.runners@),
    )
}

/// Plans a host from the plugins that were found and those that the app brings along. A plugin of
/// the app that takes the identifier of one that runs already is refused.
pub fn plan_host(load: PluginRunnerLoad, builtins: Vec<BuiltinPlugin>) -> (plan: HostResult<HostPlan>)
    ensures
        match plan {
            Ok(p) => planned(load, builtins@, p) && forall|at: int| !#[trigger]
                conflicts_at(load.manifests@, builtins@, at),
            Err(error) => exists|at: int| #[trigger]
                conflicts_at(load.manifests@, builtins@, at) && (forall|before: int|
                    before < at ==> !#[trigger]
                    conflicts_at(load.manifests@, builtins@, before)) && (error matches
                    HostError::Config(words) && words@
                    == "builtin runner plugin id conflicts with discovered plugin: "@
                    + builtins@[at].plugin_id@),
        },
{
    let ghost given = load;
    let PluginRunnerLoad { manifests, plugins, runners } = load;
    let mut plugins = plugins;
    let mut runners = runners;
    let mut deployments: OrderedMap<PluginDeploymentKind> = OrderedMap::new();
    let mut active: OrderedMap<bool> = OrderedMap::new();
    let mut i: usize = 0;
    proof {
        assert(manifests@.take(0) =~= Seq::empty());
        assert(active@.dom() =~= Set::empty());
    }
    while i < manifests.len()
        invariant
            i <= manifests.len(),
            deployments@ == discovered(manifests@.take(i as int)),
            active@.dom() == manifest_protocols(manifests@.take(i as int)),
        decreases manifests.len() - i,
    {
        let manifest = &manifests[i];
        collect_protocols(&mut active, &manifest.provides.runners);
        deployments.insert(manifest.plugin_id.clone(), PluginDeploymentKind::Process);
        assert(manifests@.take(i + 1).drop_last() =~= manifests@.take(i as int));
        i = i + 1;
    }
    assert(manifests@.take(i as int) =~= manifests@);
    let ghost found_plugins = bridge::plugin_views(plugins@);
    let ghost found_runners = bridge::runner_views(runners@);
    let mut k: usize = 0;
    proof {
        assert(builtins@.take(0) =~= Seq::empty());
        assert(found_plugins + builtin_plugins(builtins@.take(0)) =~= found_plugins);
        assert(found_runners + builtin_runners(builtins@.take(0)) =~= found_runners);
    }
    while k < builtins.len()
        invariant
            k <= builtins.len(),
            given == load,
            manifests@ == given.manifests@,
            deployments@ == deployed(manifests@, builtins@.take(k as int)),
            active@.dom() == active_protocols(manifests@, builtins@.take(k as int)),
            bridge::plugin_views(plugins@) == found_plugins + builtin_plugins(
                builtins@.take(k as int),
            ),
            bridge::runner_views(runners@) == found_runners + builtin_runners(
                builtins@.take(k as int),
            ),
            forall|before: int| before < k ==> !#[trigger]
                conflicts_at(given.manifests@, builtins@, before),
        decreases builtins.len() - k,
    {
        let plugin = &builtins[k];
        let ghost done = builtins@.take(k as int);
        let ghost grown = builtins@.take(k + 1);
        if deployments.contains_key(plugin.plugin_id.as_str()) {
            assert(conflicts_at(given.manifests@, builtins@, k as int));
            return Err(
                HostError::Config(
                    text::join2(
                        "builtin runner plugin id conflicts with discovered plugin: ",
                        plugin.plugin_id.as_str(),
                    ),
                ),
            );
        }
        proof {
            assert(grown.drop_last() =~= done);
            assert(!conflicts_at(given.manifests@, builtins@, k as int));
        }
        let ghost plugins_before = plugins@;
        plugins.push(
            loaded_plugin_summary(
                plugin.plugin_id.as_str(),
                plugin.version.as_str(),
                PluginDeploymentKind::Builtin,
            ),
        );
        proof {
            assert(bridge::plugin_views(plugins@) =~= bridge::plugin_views(plugins_before).push(
                plugins@.last()@,
            ));
            assert(builtin_plugins(grown) =~= builtin_plugins(done).push(plugins@.last()@));
            assert(found_plugins + builtin_plugins(grown) =~= (found_plugins + builtin_plugins(
                done,
            )).push(plugins@.last()@));
        }
        collect_protocols(&mut active, &plugin.runners);
        let ghost listed = found_runners + builtin_runners(done);
        let ghost own = runners_of(plugin.runners@);
        let mut j: usize = 0;
        assert(listed + own.take(0) =~= listed);
        while j < plugin.runners.len()
            invariant
                j <= plugin.runners.len(),
                own == runners_of(plugin.runners@),
                bridge::runner_views(runners@) == listed + own.take(j as int),
            decreases plugin.runners.len() - j,
        {
            let ghost runners_before = runners@;
            runners.push(loaded_runner_summary(&plugin.runners[j], "builtin"));
            proof {
                assert(bridge::runner_views(runners@) =~= bridge::runner_views(
                    runners_before,
                ).push(own[j as int]));
                assert(listed + own.take(j + 1) =~= (listed + own.take(j as int)).push(
                    own[j as int],
                ));
            }
            j = j + 1;
        }
        proof {
            assert(own.take(j as int) =~= own);
            assert(found_runners + builtin_runners(grown) =~= listed + own);
        }
        deployments.insert(plugin.plugin_id.clone(), PluginDeploymentKind::Builtin);
        k = k + 1;
    }
    proof {
        assert(builtins@.take(k as int) =~= builtins@);
        assert(sorting::views(plugins@) =~= bridge::plugin_views(plugins@));
        assert(sorting::views(runners@) =~= bridge::runner_views(runners@));
    }
    let plugins = sorting::sort_by_id(plugins);
    let runners = sorting::sort_by_id(runners);
    proof {
        assert(sorting::views(plugins@) =~= bridge::plugin_views(plugins@));
        assert(sorting::views(runners@) =~= bridge::runner_views(runners@));
        assert forall|at: int| !#[trigger] conflicts_at(given.manifests@, builtins@, at) by {}
    }
    Ok(
        HostPlan {
            manifests,
            builtins,
            deployments,
            active_protocols: active,
            plugins,
            runners,
        },
    )
}

/// Collects what a host is made of.
#[derive(Debug)]
pub struct MutsukiTauriHostBuilder {
    config: MutsukiTauriConfig,
    runners: Vec<RunnerDescriptor>,
}

#[verifier::ext_equal]
pub struct BuilderView {
    pub config: ConfigView,
    pub runners: Seq<RunnerDescriptor>,
}

impl View for MutsukiTauriHostBuilder {
    type V = BuilderView;

    closed spec fn view(&self) -> BuilderView {
        BuilderView { config: self.config@, runners: self.runners@ }
    }
}

impl MutsukiTauriHostBuilder {
    pub fn new() -> (builder: Self)
        ensures
            builder@ == (BuilderView {
                config: config::config_of_app("MutsukiTauriApp"@),
                runners: Seq::empty(),
            }),
    {
        MutsukiTauriHostBuilder {
            config: MutsukiTauriConfig::for_app("MutsukiTauriApp".to_owned()),
            runners: Vec::new(),
        }
    }

    /// Names the app. Its directories move with its name, and the rest of its configuration stays.
    pub fn app_name(self, app_name: String) -> (builder: Self)
        ensures
            builder@ == (BuilderView {
                config: ConfigView {
                    app_name: app_name@,
                    paths: config::paths_of_app(app_name@),
                    ..self@.config
                },
                ..self@
            }),
    {
        MutsukiTauriHostBuilder { config: self.config.renamed(app_name), runners: self.runners }
    }

    pub fn config(self, config: MutsukiTauriConfig) -> (builder: Self)
        ensures
            builder@ == (BuilderView { config: config@, ..self@ }),
    {
        MutsukiTauriHostBuilder { config, runners: self.runners }
    }

    /// Brings a runner along.
    pub fn runner(self, runner: RunnerDescriptor) -> (builder: Self)
        ensures
            builder@ == (BuilderView { runners: self@.runners.push(runner), ..self@ }),
    {
        let mut runners = self.runners;
        runners.push(runner);
        MutsukiTauriHostBuilder { config: self.config, runners }
    }

    /// The configuration, and the runners by their plugins.
    pub fn into_parts(self) -> (parts: (MutsukiTauriConfig, OrderedMap<Vec<RunnerDescriptor>>))
        ensures
            parts.0@ == self@.config,
            grouped(self@.runners, parts.1@),
    {
        (self.config, group_runners(self.runners))
    }
}

impl Default for MutsukiTauriHostBuilder {
    fn default() -> (builder: Self)
        ensures
            builder@ == (BuilderView {
                config: config::config_of_app("MutsukiTauriApp"@),
                runners: Seq::empty(),
            }),
    {
        MutsukiTauriHostBuilder::new()
    }
}

/// Every runner that the app brings along stands in the group of its plugin, and a group holds
/// runners of its plugin only.
pub proof fn law_runners_stand_with_their_plugin(
    row: Seq<RunnerDescriptor>,
    groups: Map<Seq<char>, Vec<RunnerDescriptor>>,
    i: int,
    plugin_id: Seq<char>,
    j: int,
)
    requires
        grouped(row, groups),
        0 <= i < row.len(),
    ensures
        groups.contains_key(row[i].plugin_id@),
        groups[row[i].plugin_id@]@.contains(row[i]),
        groups.contains_key(plugin_id) ==> groups[plugin_id].len() > 0,
        groups.contains_key(plugin_id) && 0 <= j < groups[plugin_id]@.len() ==> (
        groups[plugin_id]@[j].plugin_id@ == plugin_id && row.contains(groups[plugin_id]@[j])),
{
    let own = of_plugin(row[i].plugin_id@);
    row.lemma_filter_contains(own, i);
    assert(row.filter(own).contains(row[i]));
    assert(row.filter(of_plugin(row[i].plugin_id@)).len() > 0);
    if groups.contains_key(plugin_id) {
        let p = of_plugin(plugin_id);
        assert(row.filter(of_plugin(plugin_id)).len() > 0);
        if 0 <= j < groups[plugin_id]@.len() {
            let kept = row.filter(p);
            assert(groups[plugin_id]@ == kept);
            row.lemma_filter_pred(p, j);
            assert(kept.contains(kept[j]));
            row.lemma_filter_contains_rev(p, kept[j]);
        }
    }
}

/// A protocol is accepted exactly where it stands among those of some runner.
pub proof fn law_protocol_is_accepted_where_a_runner_names_it(
    row: Seq<RunnerDescriptor>,
    runner: RunnerDescriptor,
    protocol: Seq<char>,
)
    ensures
        accepts(row.push(runner), protocol) <==> accepts(row, protocol) || text::texts(
            runner.accepted_protocol_ids@,
        ).contains(protocol),
        !accepts(Seq::empty(), protocol),
        protocols(row).contains(protocol) <==> accepts(row, protocol),
{
    let grown = row.push(runner);
    let own = text::texts(runner.accepted_protocol_ids@);
    if accepts(row, protocol) {
        let (a, b) = choose|a: int, b: int|
            0 <= a < row.len() && 0 <= b < row[a].accepted_protocol_ids@.len()
                && #[trigger] row[a].accepted_protocol_ids@[b]@ == protocol;
        assert(grown[a].accepted_protocol_ids@[b]@ == protocol);
    }
    if own.contains(protocol) {
        let b = choose|b: int| 0 <= b < own.len() && own[b] == protocol;
        assert(grown[row.len() as int].accepted_protocol_ids@[b]@ == protocol);
    }
    if accepts(grown, protocol) {
        let (a, b) = choose|a: int, b: int|
            0 <= a < grown.len() && 0 <= b < grown[a].accepted_protocol_ids@.len()
                && #[trigger] grown[a].accepted_protocol_ids@[b]@ == protocol;
        if a < row.len() {
            assert(row[a].accepted_protocol_ids@[b]@ == protocol);
        } else {
            assert(own[b] == protocol);
        }
    }
}

/// A row of manifests holds one of a plugin.
pub open spec fn found(manifests: Seq<PluginManifest>, plugin_id: Seq<char>) -> bool {
    exists|i: int| 0 <= i < manifests.len() && (#[trigger] manifests[i]).plugin_id@ == plugin_id
}

/// The app brings a plugin along.
pub open spec fn brought(builtins: Seq<BuiltinPlugin>, plugin_id: Seq<char>) -> bool {
    exists|i: int| 0 <= i < builtins.len() && (#[trigger] builtins[i]).plugin_id@ == plugin_id
}

proof fn lemma_found_grows(manifests: Seq<PluginManifest>, plugin_id: Seq<char>)
    requires
        manifests.len() > 0,
    ensures
        found(manifests, plugin_id) <==> found(manifests.drop_last(), plugin_id)
            || manifests.last().plugin_id@ == plugin_id,
{
    let front = manifests.drop_last();
    if found(front, plugin_id) {
        let i = choose|i: int|
            0 <= i < front.len() && (#[trigger] front[i]).plugin_id@ == plugin_id;
        assert(manifests[i].plugin_id@ == plugin_id);
    }
    if manifests.last().plugin_id@ == plugin_id {
        assert(manifests[manifests.len() - 1].plugin_id@ == plugin_id);
    }
    if found(manifests, plugin_id) {
        let i = choose|i: int|
            0 <= i < manifests.len() && (#[trigger] manifests[i]).plugin_id@ == plugin_id;
        if i < front.len() {
            assert(front[i].plugin_id@ == plugin_id);
        }
    }
}

proof fn lemma_brought_grows(builtins: Seq<BuiltinPlugin>, plugin_id: Seq<char>)
    requires
        builtins.len() > 0,
    ensures
        brought(builtins, plugin_id) <==> brought(builtins.drop_last(), plugin_id)
            || builtins.last().plugin_id@ == plugin_id,
{
    let front = builtins.drop_last();
    if brought(front, plugin_id) {
        let i = choose|i: int|
            0 <= i < front.len() && (#[trigger] front[i]).plugin_id@ == plugin_id;
        assert(builtins[i].plugin_id@ == plugin_id);
    }
    if builtins.last().plugin_id@ == plugin_id {
        assert(builtins[builtins.len() - 1].plugin_id@ == plugin_id);
    }
    if brought(builtins, plugin_id) {
        let i = choose|i: int|
            0 <= i < builtins.len() && (#[trigger] builtins[i]).plugin_id@ == plugin_id;
        if i < front.len() {
            assert(front[i].plugin_id@ == plugin_id);
        }
    }
}

/// The plugins that are deployed are those that were found and those that the app brings along: the
/// latter as parts of the app, the others as programs of their own.
pub proof fn law_every_plugin_is_deployed(
    manifests: Seq<PluginManifest>,
    builtins: Seq<BuiltinPlugin>,
    plugin_id: Seq<char>,
)
    ensures
        deployed(manifests, builtins).contains_key(plugin_id) <==> found(manifests, plugin_id)
            || brought(builtins, plugin_id),
        brought(builtins, plugin_id) ==> deployed(manifests, builtins)[plugin_id] is Builtin,
        found(manifests, plugin_id) && !brought(builtins, plugin_id) ==> deployed(
            manifests,
            builtins,
        )[plugin_id] is Process,
    decreases builtins.len(), manifests.len(),
{
    if builtins.len() > 0 {
        law_every_plugin_is_deployed(manifests, builtins.drop_last(), plugin_id);
        lemma_brought_grows(builtins, plugin_id);
    } else if manifests.len() > 0 {
        law_every_plugin_is_deployed(manifests.drop_last(), builtins, plugin_id);
        lemma_found_grows(manifests, plugin_id);
    }
}

/// A plugin of the app is refused exactly where its identifier is that of a plugin that was found or
/// of one that the app brought along before it.
pub proof fn law_taken_identifier_is_refused(
    manifests: Seq<PluginManifest>,
    builtins: Seq<BuiltinPlugin>,
    at: int,
)
    requires
        0 <= at < builtins.len(),
    ensures
        conflicts_at(manifests, builtins, at) <==> found(manifests, builtins[at].plugin_id@)
            || exists|i: int|
            0 <= i < at && (#[trigger] builtins[i]).plugin_id@ == builtins[at].plugin_id@,
{
    let before = builtins.take(at);
    let id = builtins[at].plugin_id@;
    law_every_plugin_is_deployed(manifests, before, id);
    if brought(before, id) {
        let i = choose|i: int| 0 <= i < before.len() && (#[trigger] before[i]).plugin_id@ == id;
        assert(builtins[i].plugin_id@ == id);
    }
    if exists|i: int| 0 <= i < at && (#[trigger] builtins[i]).plugin_id@ == id {
        let i = choose|i: int| 0 <= i < at && (#[trigger] builtins[i]).plugin_id@ == id;
        assert(before[i].plugin_id@ == id);
    }
}

/// Every plugin that the app brings along, and each of its runners, is listed as loaded and as a
/// part of the app.
pub proof fn law_plugins_of_the_app_are_listed(builtins: Seq<BuiltinPlugin>, i: int, j: int)
    requires
        0 <= i < builtins.len(),
    ensures
        builtin_plugins(builtins).len() == builtins.len(),
        builtin_plugins(builtins)[i] == (PluginSummaryView {
            plugin_id: builtins[i].plugin_id@,
            version: builtins[i].version@,
            enabled: true,
            deployment: "builtin"@,
            status: "loaded"@,
            error: None,
        }),
        0 <= j < builtins[i].runners@.len() ==> builtin_runners(builtins).contains(
            RunnerSummaryView {
                runner_id: builtins[i].runners@[j].runner_id@,
                plugin_id: builtins[i].runners@[j].plugin_id@,
                enabled: true,
                deployment: "builtin"@,
                status: "loaded"@,
                error: None,
            },
        ),
    decreases builtins.len(),
{
    if 0 <= j < builtins[i].runners@.len() {
        let front = builtin_runners(builtins.drop_last());
        let own = runners_of(builtins.last().runners@);
        let all = builtin_runners(builtins);
        if i == builtins.len() - 1 {
            assert(all[front.len() + j] == own[j]);
        } else {
            law_plugins_of_the_app_are_listed(builtins.drop_last(), i, j);
            let listed = RunnerSummaryView {
                runner_id: builtins[i].runners@[j].runner_id@,
                plugin_id: builtins[i].runners@[j].plugin_id@,
                enabled: true,
                deployment: "builtin"@,
                status: "loaded"@,
                error: None,
            };
            let k = choose|k: int| 0 <= k < front.len() && front[k] == listed;
            assert(all[k] == listed);
        }
    }
}

/// As many runners are listed for the app as it brings along.
pub proof fn law_no_runner_of_the_app_is_made_up(
    builtins: Seq<BuiltinPlugin>,
    plugin: BuiltinPlugin,
)
    ensures
        builtin_runners(builtins.push(plugin)).len() == builtin_runners(builtins).len()
            + plugin.runners@.len(),
        builtin_runners(Seq::empty()).len() == 0,
{
    assert(builtins.push(plugin).drop_last() =~= builtins);
}

/// What a host is made of lists every plugin and every runner that was found, and those of the app.
pub proof fn law_plan_lists_everything(
    load: PluginRunnerLoad,
    builtins: Seq<BuiltinPlugin>,
    plan: HostPlan,
    plugin: PluginSummaryView,
    runner: RunnerSummaryView,
)
    requires
        planned(load, builtins, plan),
    ensures
        plan.manifests@ == load.manifests@,
        plan.builtins@ == builtins,
        plan.plugins.len() == load.plugins.len() + builtins.len(),
        bridge::plugin_views(load.plugins@).contains(plugin) ==> bridge::plugin_views(
            plan.plugins@,
        ).contains(plugin),
        builtin_plugins(builtins).contains(plugin) ==> bridge::plugin_views(
            plan.plugins@,
        ).contains(plugin),
        bridge::runner_views(load.runners@).contains(runner) ==> bridge::runner_views(
            plan.runners@,
        ).contains(runner),
        builtin_runners(builtins).contains(runner) ==> bridge::runner_views(
            plan.runners@,
        ).contains(runner),
{
    let found_plugins = bridge::plugin_views(load.plugins@);
    let own_plugins = builtin_plugins(builtins);
    let plugins = found_plugins + own_plugins;
    sorting::lemma_sorted_holds_the_same::<PluginSummary>(
        plugins,
        bridge::plugin_views(plan.plugins@),
        plugin,
    );
    assert(bridge::plugin_views(plan.plugins@).len() == plan.plugins.len());
    if found_plugins.contains(plugin) {
        let i = choose|i: int| 0 <= i < found_plugins.len() && found_plugins[i] == plugin;
        assert(plugins[i] == plugin);
    }
    if own_plugins.contains(plugin) {
        let i = choose|i: int| 0 <= i < own_plugins.len() && own_plugins[i] == plugin;
        assert(plugins[found_plugins.len() + i] == plugin);
    }
    let found_runners = bridge::runner_views(load.runners@);
    let own_runners = builtin_runners(builtins);
    let runners = found_runners + own_runners;
    sorting::lemma_sorted_holds_the_same::<RunnerSummary>(
        runners,
        bridge::runner_views(plan.runners@),
        runner,
    );
    if found_runners.contains(runner) {
        let i = choose|i: int| 0 <= i < found_runners.len() && found_runners[i] == runner;
        assert(runners[i] == runner);
    }
    if own_runners.contains(runner) {
        let i = choose|i: int| 0 <= i < own_runners.len() && own_runners[i] == runner;
        assert(runners[found_runners.len() + i] == runner);
    }
}

/// What a host is made of runs every plugin that was found and every one of the app, each in its
/// own way, and takes exactly the protocols that some runner of them accepts.
pub proof fn law_plan_runs_everything(
    load: PluginRunnerLoad,
    builtins: Seq<BuiltinPlugin>,
    plan: HostPlan,
    plugin_id: Seq<char>,
    protocol: Seq<char>,
)
    requires
        planned(load, builtins, plan),
    ensures
        plan.deployments@.contains_key(plugin_id) <==> found(load.manifests@, plugin_id) || brought(
            builtins,
            plugin_id,
        ),
        brought(builtins, plugin_id) ==> plan.deployments@[plugin_id] is Builtin,
        found(load.manifests@, plugin_id) && !brought(builtins, plugin_id)
            ==> plan.deployments@[plugin_id] is Process,
        plan.active_protocols@.contains_key(protocol) <==> ((exists|i: int|
            0 <= i < load.manifests@.len() && accepts(
                #[trigger] load.manifests@[i].provides.runners@,
                protocol,
            )) || (exists|i: int|
            0 <= i < builtins.len() && accepts(#[trigger] builtins[i].runners@, protocol))),
{
    law_every_plugin_is_deployed(load.manifests@, builtins, plugin_id);
    law_accepted_protocol_is_active(load.manifests@, builtins, protocol);
    assert(plan.active_protocols@.dom().contains(protocol) == active_protocols(
        load.manifests@,
        builtins,
    ).contains(protocol));
}

} // verus!

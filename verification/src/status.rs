//! The host at a glance: its plugins and runners as they stand, and how each part is doing.
use crate::bridge::{
    HealthComponent, HealthComponentView, PluginSummary, PluginSummaryView, RunnerSummary,
    RunnerSummaryView,
};
use crate::bridge;
use crate::health::HostHealthState;
use crate::text;
use vstd::prelude::*;
use vstd::string::*;

verus! {

broadcast use vstd::string::group_string_axioms;

/// A runner as it stands: one that failed at work is failed, with what it failed with.
pub open spec fn runner_now(
    runner: RunnerSummaryView,
    failures: Map<Seq<char>, Seq<char>>,
) -> RunnerSummaryView {
    if runner.status != "failed"@ && failures.contains_key(runner.runner_id) {
        RunnerSummaryView {
            status: "failed"@,
            error: Some(failures[runner.runner_id]),
            ..runner
        }
    } else {
        runner
    }
}

/// The runners as they stand.
pub open spec fn runners_now(
    runners: Seq<RunnerSummaryView>,
    failures: Map<Seq<char>, Seq<char>>,
) -> Seq<RunnerSummaryView> {
    runners.map_values(|runner: RunnerSummaryView| runner_now(runner, failures))
}

/// The first of a row of runners that belongs to a plugin and failed.
pub open spec fn first_failed_of(runners: Seq<RunnerSummaryView>, plugin_id: Seq<char>) -> Option<
    RunnerSummaryView,
>
    decreases runners.len(),
{
    if runners.len() == 0 {
        None
    } else if runners[0].plugin_id == plugin_id && runners[0].status == "failed"@ {
        Some(runners[0])
    } else {
        first_failed_of(runners.skip(1), plugin_id)
    }
}

/// A plugin as it stands: one that was loaded is degraded where a runner of it failed.
pub open spec fn plugin_now(
    plugin: PluginSummaryView,
    runners: Seq<RunnerSummaryView>,
) -> PluginSummaryView {
    if plugin.status == "failed"@ {
        plugin
    } else {
        match first_failed_of(runners, plugin.plugin_id) {
            Some(runner) => PluginSummaryView {
                status: "degraded"@,
                error: Some("runner "@ + runner.runner_id + " failed"@),
                ..plugin
            },
            None => plugin,
        }
    }
}

/// The plugins as they stand.
pub open spec fn plugins_now(
    plugins: Seq<PluginSummaryView>,
    runners: Seq<RunnerSummaryView>,
) -> Seq<PluginSummaryView> {
    plugins.map_values(|plugin: PluginSummaryView| plugin_now(plugin, runners))
}

/// The runners as they stand.
pub fn current_runners(runners: &Vec<RunnerSummary>, health: &HostHealthState) -> (now: Vec<
    RunnerSummary,
>)
    ensures
        bridge::runner_views(now@) == runners_now(bridge::runner_views(runners@), health@.failures),
{
    let ghost all = runners_now(bridge::runner_views(runners@), health@.failures);
    let mut now: Vec<RunnerSummary> = Vec::new();
    let mut i: usize = 0;
    assert(bridge::runner_views(now@) =~= all.take(0));
    while i < runners.len()
        invariant
            i <= runners.len(),
            all == runners_now(bridge::runner_views(runners@), health@.failures),
            bridge::runner_views(now@) == all.take(i as int),
        decreases runners.len() - i,
    {
        let ghost before = now@;
        let mut runner = runners[i].clone();
        if !text::text_eq(runner.status.as_str(), "failed") {
            if let Some(failure) = health.runner_failure(runner.runner_id.as_str()) {
                runner.status = "failed".to_owned();
                runner.error = Some(failure.message().to_owned());
            }
        }
        assert(runner@ == all[i as int]);
        now.push(runner);
        proof {
            assert(bridge::runner_views(now@) =~= bridge::runner_views(before).push(
                all[i as int],
            ));
            assert(all.take(i + 1) =~= all.take(i as int).push(all[i as int]));
        }
        i = i + 1;
    }
    assert(all.take(i as int) =~= all);
    now
}

fn failed_runner_of(runners: &Vec<RunnerSummary>, plugin_id: &str) -> (found: Option<usize>)
    ensures
        match found {
            Some(i) => i < runners.len() && first_failed_of(
                bridge::runner_views(runners@),
                plugin_id@,
            ) == Some(runners@[i as int]@),
            None => first_failed_of(bridge::runner_views(runners@), plugin_id@) is None,
        },
{
    let ghost all = bridge::runner_views(runners@);
    let mut i: usize = 0;
    assert(all.skip(0) =~= all);
    while i < runners.len()
        invariant
            i <= runners.len(),
            all == bridge::runner_views(runners@),
            first_failed_of(all.skip(i as int), plugin_id@) == first_failed_of(all, plugin_id@),
        decreases runners.len() - i,
    {
        let runner = &runners[i];
        assert(all.skip(i as int)[0] == runner@);
        if text::text_eq(runner.plugin_id.as_str(), plugin_id) && text::text_eq(
            runner.status.as_str(),
            "failed",
        ) {
            return Some(i);
        }
        assert(all.skip(i as int).skip(1) =~= all.skip(i + 1));
        i = i + 1;
    }
    None
}

/// The plugins as they stand, given the runners as they stand.
pub fn current_plugins(plugins: &Vec<PluginSummary>, runners: &Vec<RunnerSummary>) -> (now: Vec<
    PluginSummary,
>)
    ensures
        bridge::plugin_views(now@) == plugins_now(
            bridge::plugin_views(plugins@),
            bridge::runner_views(runners@),
        ),
{
    let ghost all = plugins_now(bridge::plugin_views(plugins@), bridge::runner_views(runners@));
    let mut now: Vec<PluginSummary> = Vec::new();
    let mut i: usize = 0;
    assert(bridge::plugin_views(now@) =~= all.take(0));
    while i < plugins.len()
        invariant
            i <= plugins.len(),
            all == plugins_now(bridge::plugin_views(plugins@), bridge::runner_views(runners@)),
            bridge::plugin_views(now@) == all.take(i as int),
        decreases plugins.len() - i,
    {
        let ghost before = now@;
        let mut plugin = plugins[i].clone();
        if !text::text_eq(plugin.status.as_str(), "failed") {
            if let Some(at) = failed_runner_of(runners, plugin.plugin_id.as_str()) {
                plugin.status = "degraded".to_owned();
                plugin.error = Some(
                    text::join3("runner ", runners[at].runner_id.as_str(), " failed"),
                );
            }
        }
        assert(plugin@ == all[i as int]);
        now.push(plugin);
        proof {
            assert(bridge::plugin_views(now@) =~= bridge::plugin_views(before).push(
                all[i as int],
            ));
            assert(all.take(i + 1) =~= all.take(i as int).push(all[i as int]));
        }
        i = i + 1;
    }
    assert(all.take(i as int) =~= all);
    now
}

/// How a part of the host is doing: what is wrong with it is told only where something is.
pub open spec fn component(
    healthy: bool,
    healthy_status: Seq<char>,
    error: Option<Seq<char>>,
) -> HealthComponentView {
    HealthComponentView {
        healthy,
        status: if healthy {
            healthy_status
        } else {
            "failed"@
        },
        error: if healthy {
            None
        } else {
            error
        },
    }
}

pub fn health_component(healthy: bool, healthy_status: &str, error: Option<String>) -> (part:
    HealthComponent)
    ensures
        part@ == component(healthy, healthy_status@, text::opt_text(error)),
        part.healthy == healthy,
        healthy ==> part.status@ == healthy_status@ && part.error is None,
        !healthy ==> part.status@ == "failed"@ && part.error == error,
{
    HealthComponent {
        healthy,
        status: if healthy {
            healthy_status.to_owned()
        } else {
            "failed".to_owned()
        },
        error: if healthy {
            None
        } else {
            error
        },
    }
}

/// All plugins are loaded.
pub open spec fn all_loaded(plugins: Seq<PluginSummaryView>) -> bool {
    forall|i: int| 0 <= i < plugins.len() ==> (#[trigger] plugins[i]).status == "loaded"@
}

/// No runner failed.
pub open spec fn none_failed(runners: Seq<RunnerSummaryView>) -> bool {
    forall|i: int| 0 <= i < runners.len() ==> (#[trigger] runners[i]).status != "failed"@
}

/// What is wrong with the first plugin that is not loaded.
pub open spec fn plugin_complaint(plugins: Seq<PluginSummaryView>) -> Option<Seq<char>>
    decreases plugins.len(),
{
    if plugins.len() == 0 {
        None
    } else if plugins[0].status != "loaded"@ {
        Some(
            match plugins[0].error {
                Some(error) => error,
                None => "plugin "@ + plugins[0].plugin_id + " is "@ + plugins[0].status,
            },
        )
    } else {
        plugin_complaint(plugins.skip(1))
    }
}

/// What is wrong with the first runner that failed.
pub open spec fn runner_complaint(runners: Seq<RunnerSummaryView>) -> Option<Seq<char>>
    decreases runners.len(),
{
    if runners.len() == 0 {
        None
    } else if runners[0].status == "failed"@ {
        Some(
            match runners[0].error {
                Some(error) => error,
                None => "runner "@ + runners[0].runner_id + " failed"@,
            },
        )
    } else {
        runner_complaint(runners.skip(1))
    }
}

/// Something is said of the plugins exactly where one of them is not loaded.
pub proof fn law_plugin_complaint_tells_of_trouble(plugins: Seq<PluginSummaryView>)
    ensures
        plugin_complaint(plugins) is None <==> all_loaded(plugins),
    decreases plugins.len(),
{
    if plugins.len() > 0 {
        let rest = plugins.skip(1);
        law_plugin_complaint_tells_of_trouble(rest);
        if plugins[0].status == "loaded"@ && all_loaded(rest) {
            assert forall|i: int| 0 <= i < plugins.len() implies (#[trigger] plugins[i]).status
                == "loaded"@ by {
                if i > 0 {
                    assert(rest[i - 1] == plugins[i]);
                }
            }
        }
        if all_loaded(plugins) {
            assert forall|i: int| 0 <= i < rest.len() implies (#[trigger] rest[i]).status
                == "loaded"@ by {
                assert(plugins[i + 1] == rest[i]);
            }
        }
    }
}

/// Something is said of the runners exactly where one of them failed.
pub proof fn law_runner_complaint_tells_of_trouble(runners: Seq<RunnerSummaryView>)
    ensures
        runner_complaint(runners) is None <==> none_failed(runners),
    decreases runners.len(),
{
    if runners.len() > 0 {
        let rest = runners.skip(1);
        law_runner_complaint_tells_of_trouble(rest);
        if runners[0].status != "failed"@ && none_failed(rest) {
            assert forall|i: int| 0 <= i < runners.len() implies (#[trigger] runners[i]).status
                != "failed"@ by {
                if i > 0 {
                    assert(rest[i - 1] == runners[i]);
                }
            }
        }
        if none_failed(runners) {
            assert forall|i: int| 0 <= i < rest.len() implies (#[trigger] rest[i]).status
                != "failed"@ by {
                assert(runners[i + 1] == rest[i]);
            }
        }
    }
}

/// What is wrong with the first plugin that is not loaded.
pub fn first_plugin_error(plugins: &Vec<PluginSummary>) -> (error: Option<String>)
    ensures
        text::opt_text(error) == plugin_complaint(bridge::plugin_views(plugins@)),
{
    let ghost all = bridge::plugin_views(plugins@);
    let mut i: usize = 0;
    assert(all.skip(0) =~= all);
    while i < plugins.len()
        invariant
            i <= plugins.len(),
            all == bridge::plugin_views(plugins@),
            plugin_complaint(all.skip(i as int)) == plugin_complaint(all),
        decreases plugins.len() - i,
    {
        let plugin = &plugins[i];
        assert(all.skip(i as int)[0] == plugin@);
        if !text::text_eq(plugin.status.as_str(), "loaded") {
            return match &plugin.error {
                Some(error) => Some(error.clone()),
                None => Some(
                    text::join4("plugin ", plugin.plugin_id.as_str(), " is ", plugin.status.as_str()),
                ),
            };
        }
        assert(all.skip(i as int).skip(1) =~= all.skip(i + 1));
        i = i + 1;
    }
    None
}

/// What is wrong with the first runner that failed.
pub fn first_runner_error(runners: &Vec<RunnerSummary>) -> (error: Option<String>)
    ensures
        text::opt_text(error) == runner_complaint(bridge::runner_views(runners@)),
{
    let ghost all = bridge::runner_views(runners@);
    let mut i: usize = 0;
    assert(all.skip(0) =~= all);
    while i < runners.len()
        invariant
            i <= runners.len(),
            all == bridge::runner_views(runners@),
            runner_complaint(all.skip(i as int)) == runner_complaint(all),
        decreases runners.len() - i,
    {
        let runner = &runners[i];
        assert(all.skip(i as int)[0] == runner@);
        if text::text_eq(runner.status.as_str(), "failed") {
            return match &runner.error {
                Some(error) => Some(error.clone()),
                None => Some(text::join3("runner ", runner.runner_id.as_str(), " failed")),
            };
        }
        assert(all.skip(i as int).skip(1) =~= all.skip(i + 1));
        i = i + 1;
    }
    None
}

/// How the plugins are doing.
pub fn plugins_health(plugins: &Vec<PluginSummary>) -> (part: HealthComponent)
    ensures
        part@ == component(
            all_loaded(bridge::plugin_views(plugins@)),
            "ok"@,
            plugin_complaint(bridge::plugin_views(plugins@)),
        ),
{
    let error = first_plugin_error(plugins);
    proof {
        law_plugin_complaint_tells_of_trouble(bridge::plugin_views(plugins@));
    }
    health_component(error.is_none(), "ok", error)
}

/// How the runners are doing.
pub fn runners_health(runners: &Vec<RunnerSummary>) -> (part: HealthComponent)
    ensures
        part@ == component(
            none_failed(bridge::runner_views(runners@)),
            "ok"@,
            runner_complaint(bridge::runner_views(runners@)),
        ),
{
    let error = first_runner_error(runners);
    proof {
        law_runner_complaint_tells_of_trouble(bridge::runner_views(runners@));
    }
    health_component(error.is_none(), "ok", error)
}

/// A runner that failed at work is listed as failed, and its plugin is not listed as loaded.
pub proof fn law_failed_runner_degrades_its_plugin(
    plugins: Seq<PluginSummaryView>,
    runners: Seq<RunnerSummaryView>,
    failures: Map<Seq<char>, Seq<char>>,
    plugin: int,
    runner: int,
)
    requires
        0 <= plugin < plugins.len(),
        0 <= runner < runners.len(),
        runners[runner].plugin_id == plugins[plugin].plugin_id,
        failures.contains_key(runners[runner].runner_id),
    ensures
        runners_now(runners, failures)[runner].status == "failed"@,
        plugins_now(plugins, runners_now(runners, failures))[plugin].status != "loaded"@,
{
    let now = runners_now(runners, failures);
    lemma_failed_is_found(now, plugins[plugin].plugin_id, runner);
    assert("failed"@ != "loaded"@ && "degraded"@ != "loaded"@) by {
        reveal_strlit("failed");
        reveal_strlit("loaded");
        reveal_strlit("degraded");
        assert("failed"@[0] != "loaded"@[0]);
        assert("degraded"@[0] != "loaded"@[0]);
    }
}

proof fn lemma_failed_is_found(runners: Seq<RunnerSummaryView>, plugin_id: Seq<char>, at: int)
    requires
        0 <= at < runners.len(),
        runners[at].plugin_id == plugin_id,
        runners[at].status == "failed"@,
    ensures
        first_failed_of(runners, plugin_id) is Some,
    decreases runners.len(),
{
    if at > 0 {
        lemma_failed_is_found(runners.skip(1), plugin_id, at - 1);
    }
}

/// A runner is listed as failed exactly where it failed at the start or at work; one that failed at
/// work is listed with what it failed with, and any other as it was. Nothing else of it changes.
pub proof fn law_runner_is_listed_as_it_stands(
    runner: RunnerSummaryView,
    failures: Map<Seq<char>, Seq<char>>,
)
    ensures
        ({
            let now = runner_now(runner, failures);
            let failed_at_work = runner.status != "failed"@ && failures.contains_key(
                runner.runner_id,
            );
            &&& now.status == "failed"@ <==> runner.status == "failed"@ || failures.contains_key(
                runner.runner_id,
            )
            &&& failed_at_work ==> now.error == Some(failures[runner.runner_id])
            &&& !failed_at_work ==> now.status == runner.status && now.error == runner.error
            &&& now.runner_id == runner.runner_id
            &&& now.plugin_id == runner.plugin_id
            &&& now.enabled == runner.enabled
            &&& now.deployment == runner.deployment
        }),
{
}

/// The first runner of a plugin that failed is found where one of its runners failed.
pub proof fn law_first_failed_runner_is_found(
    runners: Seq<RunnerSummaryView>,
    plugin_id: Seq<char>,
    at: int,
)
    requires
        0 <= at < runners.len(),
        runners[at].plugin_id == plugin_id && runners[at].status == "failed"@,
        forall|i: int|
            0 <= i < at ==> !((#[trigger] runners[i]).plugin_id == plugin_id && runners[i].status
                == "failed"@),
    ensures
        first_failed_of(runners, plugin_id) == Some(runners[at]),
    decreases at,
{
    if at > 0 {
        let rest = runners.skip(1);
        assert forall|i: int| 0 <= i < at - 1 implies !((#[trigger] rest[i]).plugin_id == plugin_id
            && rest[i].status == "failed"@) by {
            assert(runners[i + 1] == rest[i]);
        }
        assert(!(runners[0].plugin_id == plugin_id && runners[0].status == "failed"@));
        law_first_failed_runner_is_found(rest, plugin_id, at - 1);
    }
}

/// No runner of a plugin is found where none of its runners failed.
pub proof fn law_no_failed_runner_is_made_up(runners: Seq<RunnerSummaryView>, plugin_id: Seq<char>)
    requires
        forall|i: int|
            0 <= i < runners.len() ==> !((#[trigger] runners[i]).plugin_id == plugin_id
                && runners[i].status == "failed"@),
    ensures
        first_failed_of(runners, plugin_id) is None,
    decreases runners.len(),
{
    if runners.len() > 0 {
        let rest = runners.skip(1);
        assert forall|i: int| 0 <= i < rest.len() implies !((#[trigger] rest[i]).plugin_id
            == plugin_id && rest[i].status == "failed"@) by {
            assert(runners[i + 1] == rest[i]);
        }
        assert(!(runners[0].plugin_id == plugin_id && runners[0].status == "failed"@));
        law_no_failed_runner_is_made_up(rest, plugin_id);
    }
}

/// A plugin that failed is listed as it was. Any other is listed as degraded, with the name of the
/// first of its runners that failed, where one did, and as it was where none did. Nothing else of
/// it changes.
pub proof fn law_plugin_is_listed_as_it_stands(
    plugin: PluginSummaryView,
    runners: Seq<RunnerSummaryView>,
    at: int,
)
    ensures
        ({
            let now = plugin_now(plugin, runners);
            &&& now.plugin_id == plugin.plugin_id
            &&& now.version == plugin.version
            &&& now.enabled == plugin.enabled
            &&& now.deployment == plugin.deployment
            &&& plugin.status == "failed"@ ==> now == plugin
            &&& plugin.status != "failed"@ && 0 <= at < runners.len() && runners[at].plugin_id
                == plugin.plugin_id && runners[at].status == "failed"@ && (forall|i: int|
                0 <= i < at ==> !((#[trigger] runners[i]).plugin_id == plugin.plugin_id
                    && runners[i].status == "failed"@)) ==> now.status == "degraded"@ && now.error
                == Some("runner "@ + runners[at].runner_id + " failed"@)
            &&& (forall|i: int|
                0 <= i < runners.len() ==> !((#[trigger] runners[i]).plugin_id == plugin.plugin_id
                    && runners[i].status == "failed"@)) ==> now == plugin
        }),
{
    if 0 <= at < runners.len() && runners[at].plugin_id == plugin.plugin_id && runners[at].status
        == "failed"@ && (forall|i: int|
        0 <= i < at ==> !((#[trigger] runners[i]).plugin_id == plugin.plugin_id && runners[i].status
            == "failed"@)) {
        law_first_failed_runner_is_found(runners, plugin.plugin_id, at);
    }
    if forall|i: int|
        0 <= i < runners.len() ==> !((#[trigger] runners[i]).plugin_id == plugin.plugin_id
            && runners[i].status == "failed"@) {
        law_no_failed_runner_is_made_up(runners, plugin.plugin_id);
    }
}

/// A part of the host is told to be well or failed as it is, and what is wrong is told exactly where
/// it failed.
pub proof fn law_part_is_told_as_it_is(
    healthy: bool,
    healthy_status: Seq<char>,
    error: Option<Seq<char>>,
)
    ensures
        component(healthy, healthy_status, error).healthy == healthy,
        healthy ==> component(healthy, healthy_status, error).status == healthy_status
            && component(healthy, healthy_status, error).error is None,
        !healthy ==> component(healthy, healthy_status, error).status == "failed"@ && component(
            healthy,
            healthy_status,
            error,
        ).error == error,
{
}

/// What is said of the plugins is said of the first one that is not loaded: its own error, or that
/// it is not loaded.
pub proof fn law_first_plugin_in_trouble_is_told(plugins: Seq<PluginSummaryView>, at: int)
    requires
        0 <= at < plugins.len(),
        plugins[at].status != "loaded"@,
        forall|i: int| 0 <= i < at ==> (#[trigger] plugins[i]).status == "loaded"@,
    ensures
        plugins[at].error matches Some(error) ==> plugin_complaint(plugins) == Some(error),
        plugins[at].error is None ==> plugin_complaint(plugins) == Some(
            "plugin "@ + plugins[at].plugin_id + " is "@ + plugins[at].status,
        ),
    decreases at,
{
    if at > 0 {
        let rest = plugins.skip(1);
        assert forall|i: int| 0 <= i < at - 1 implies (#[trigger] rest[i]).status == "loaded"@ by {
            assert(plugins[i + 1] == rest[i]);
        }
        assert(plugins[0].status == "loaded"@);
        law_first_plugin_in_trouble_is_told(rest, at - 1);
    }
}

/// What is said of the runners is said of the first one that failed: its own error, or that it
/// failed.
pub proof fn law_first_runner_in_trouble_is_told(runners: Seq<RunnerSummaryView>, at: int)
    requires
        0 <= at < runners.len(),
        runners[at].status == "failed"@,
        forall|i: int| 0 <= i < at ==> (#[trigger] runners[i]).status != "failed"@,
    ensures
        runners[at].error matches Some(error) ==> runner_complaint(runners) == Some(error),
        runners[at].error is None ==> runner_complaint(runners) == Some(
            "runner "@ + runners[at].runner_id + " failed"@,
        ),
    decreases at,
{
    if at > 0 {
        let rest = runners.skip(1);
        assert forall|i: int| 0 <= i < at - 1 implies (#[trigger] rest[i]).status
            != "failed"@ by {
            assert(runners[i + 1] == rest[i]);
        }
        assert(runners[0].status != "failed"@);
        law_first_runner_in_trouble_is_told(rest, at - 1);
    }
}

} // verus!

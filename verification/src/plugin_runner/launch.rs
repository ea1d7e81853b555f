//! How an external runner is launched, and what is told of it while it runs.
use crate::contracts::{ERR_RUNTIME_HOST_FAILED, RuntimeError};
use crate::error::HostError;
use crate::events::{EventHub, FrontendEventView, MutsukiFrontendEvent};
use crate::events;
use crate::health::HostHealthState;
use crate::health;
use crate::ids;
use crate::json::{JsonValue, JsonView};
use crate::observe;
use crate::ordered_map::OrderedMap;
use crate::redact;
use crate::text;
use vstd::prelude::*;
use vstd::string::*;

verus! {

broadcast use vstd::string::group_string_axioms;

/// How a runner is launched, as its file says.
#[derive(Debug, PartialEq, Eq)]
pub struct RunnerLaunchSpec {
    pub runner_id: String,
    pub plugin_id: String,
    pub command: String,
    pub args: Vec<String>,
    pub cwd: Option<String>,
    pub env: OrderedMap<String>,
    pub env_inherit: Vec<String>,
}

/// A launch specification and the file it stands in.
#[derive(Debug, PartialEq, Eq)]
pub struct LocatedRunnerSpec {
    pub launch: RunnerLaunchSpec,
    pub source: String,
}

/// The variables of the host's own environment that every runner gets, where the host has them.
pub fn required_env() -> (keys: Vec<String>)
    ensures
        text::texts(keys@) == required_keys(),
{
    let keys = vec![
        "SystemRoot".to_owned(),
        "WINDIR".to_owned(),
        "ComSpec".to_owned(),
        "PATHEXT".to_owned(),
    ];
    assert(text::texts(keys@) =~= required_keys());
    keys
}

/// The variables of the host's own environment that every runner gets, where the host has them.
pub open spec fn required_keys() -> Seq<Seq<char>> {
    seq!["SystemRoot"@, "WINDIR"@, "ComSpec"@, "PATHEXT"@]
}

/// The variables that a runner gets from the host itself.
pub open spec fn session_env(
    session_token: Seq<char>,
    plugin_id: Seq<char>,
    runner_id: Seq<char>,
    profile_id: Seq<char>,
) -> Map<Seq<char>, Seq<char>> {
    Map::empty().insert("MUTSUKI_RUNNER_SESSION_TOKEN"@, session_token).insert(
        "MUTSUKI_PLUGIN_ID"@,
        plugin_id,
    ).insert("MUTSUKI_RUNNER_ID"@, runner_id).insert("MUTSUKI_PROFILE_ID"@, profile_id)
}

/// The texts of a map of strings.
pub open spec fn env_texts(env: Map<Seq<char>, String>) -> Map<Seq<char>, Seq<char>> {
    env.map_values(|value: String| value@)
}

/// Those of the host's own variables that stand in a row of keys.
pub open spec fn allowed(host: Map<Seq<char>, Seq<char>>, keys: Seq<Seq<char>>) -> Map<
    Seq<char>,
    Seq<char>,
> {
    Map::new(|key: Seq<char>| host.contains_key(key) && keys.contains(key), |key: Seq<char>| host[key])
}

/// The environment of a runner: the host's own variables that it always gets or asks for, then
/// those that its launch specification sets, then those of the host itself. A later one takes the
/// place of an earlier one.
pub open spec fn runner_env(
    host: Map<Seq<char>, Seq<char>>,
    launch: RunnerLaunchSpec,
    session: Map<Seq<char>, Seq<char>>,
) -> Map<Seq<char>, Seq<char>> {
    allowed(
        host,
        required_keys() + text::texts(launch.env_inherit@),
    ).union_prefer_right(env_texts(launch.env@)).union_prefer_right(session)
}

/// Nothing of the host's own environment reaches a runner but what is allowed: a variable that the
/// host does not set and the launch specification does not set is one that every runner gets or
/// that the launch specification asks for.
pub proof fn law_environment_is_allowlisted(
    host: Map<Seq<char>, Seq<char>>,
    launch: RunnerLaunchSpec,
    session: Map<Seq<char>, Seq<char>>,
    key: Seq<char>,
)
    requires
        runner_env(host, launch, session).contains_key(key),
        !session.contains_key(key),
        !launch.env@.contains_key(key),
    ensures
        host.contains_key(key),
        required_keys().contains(key) || text::texts(launch.env_inherit@).contains(key),
        runner_env(host, launch, session)[key] == host[key],
{
    let asked = text::texts(launch.env_inherit@);
    let keys = required_keys() + asked;
    let i = choose|i: int| 0 <= i < keys.len() && keys[i] == key;
    if i >= required_keys().len() {
        assert(asked[i - required_keys().len()] == key);
    } else {
        assert(required_keys()[i] == key);
    }
}

/// What the host tells a runner of itself cannot be overridden: neither by the host's own
/// environment nor by the launch specification.
pub proof fn law_session_values_win(
    host: Map<Seq<char>, Seq<char>>,
    launch: RunnerLaunchSpec,
    session: Map<Seq<char>, Seq<char>>,
    key: Seq<char>,
)
    requires
        session.contains_key(key),
    ensures
        runner_env(host, launch, session).contains_key(key),
        runner_env(host, launch, session)[key] == session[key],
{
}

/// The host's own variables that a launch wants to know of: those that every runner gets and those
/// that it asks for.
pub fn wanted_env(launch: &RunnerLaunchSpec) -> (keys: Vec<String>)
    ensures
        text::texts(keys@) == required_keys() + text::texts(launch.env_inherit@),
{
    let mut keys = required_env();
    let ghost asked = text::texts(launch.env_inherit@);
    let mut i: usize = 0;
    assert(required_keys() + asked.take(0) =~= required_keys());
    while i < launch.env_inherit.len()
        invariant
            i <= launch.env_inherit.len(),
            asked == text::texts(launch.env_inherit@),
            text::texts(keys@) == required_keys() + asked.take(i as int),
        decreases launch.env_inherit.len() - i,
    {
        let ghost before = keys@;
        keys.push(launch.env_inherit[i].clone());
        proof {
            assert(text::texts(keys@) =~= text::texts(before).push(asked[i as int]));
            assert(required_keys() + asked.take(i + 1) =~= (required_keys() + asked.take(
                i as int,
            )).push(asked[i as int]));
        }
        i = i + 1;
    }
    assert(asked.take(i as int) =~= asked);
    keys
}

/// The environment of a runner. `host` holds the host's own variables.
pub fn runner_environment(
    host: &OrderedMap<String>,
    launch: &RunnerLaunchSpec,
    session_token: &str,
    plugin_id: &str,
    runner_id: &str,
    profile_id: &str,
) -> (env: OrderedMap<String>)
    ensures
        env_texts(env@) == runner_env(
            env_texts(host@),
            *launch,
            session_env(session_token@, plugin_id@, runner_id@, profile_id@),
        ),
{
    let mut env: OrderedMap<String> = OrderedMap::new();
    let keys = wanted_env(launch);
    let ghost wanted = text::texts(keys@);
    let ghost outer = env_texts(host@);
    let mut i: usize = 0;
    assert(env_texts(env@) =~= allowed(outer, wanted.take(0)));
    while i < keys.len()
        invariant
            i <= keys.len(),
            wanted == text::texts(keys@),
            outer == env_texts(host@),
            env_texts(env@) == allowed(outer, wanted.take(i as int)),
        decreases keys.len() - i,
    {
        let ghost before = env_texts(env@);
        let key = &keys[i];
        assert(key@ == wanted[i as int]);
        if let Some(value) = host.get(key.as_str()) {
            env.insert(key.clone(), value.clone());
            assert(env_texts(env@) =~= before.insert(key@, outer[key@]));
        }
        proof {
            let now = allowed(outer, wanted.take(i + 1));
            let known = wanted.take(i as int);
            let grown = wanted.take(i + 1);
            assert(grown =~= known.push(key@));
            assert forall|k: Seq<char>| #[trigger]
                env_texts(env@).dom().contains(k) == now.dom().contains(k) by {
                if known.contains(k) {
                    let j = choose|j: int| 0 <= j < known.len() && known[j] == k;
                    assert(grown[j] == k);
                }
                if grown.contains(k) && k != key@ {
                    let j = choose|j: int| 0 <= j < grown.len() && grown[j] == k;
                    assert(known[j] == k);
                }
                assert(grown[i as int] == key@);
            }
            assert forall|k: Seq<char>| #[trigger]
                env_texts(env@).dom().contains(k) implies env_texts(env@)[k] == outer[k] by {
                if k != key@ {
                    assert(before.contains_key(k));
                }
            }
            assert(env_texts(env@).dom() =~= now.dom());
            assert(env_texts(env@) =~= now);
        }
        i = i + 1;
    }
    assert(wanted.take(i as int) =~= wanted);
    let ghost inherited = env_texts(env@);
    let ghost set = env_texts(launch.env@);
    let ghost order = launch.env.keys();
    let n: usize = launch.env.len();
    let mut i: usize = 0;
    assert(env_texts(env@) =~= inherited.union_prefer_right(
        set.restrict(order.take(0).to_set()),
    ));
    while i < n
        invariant
            i <= n,
            n == order.len(),
            order == launch.env.keys(),
            set == env_texts(launch.env@),
            env_texts(env@) == inherited.union_prefer_right(
                set.restrict(order.take(i as int).to_set()),
            ),
        decreases n - i,
    {
        let ghost before = env_texts(env@);
        let key = launch.env.key_at(i);
        let value = launch.env.value_at(i);
        env.insert(key.clone(), value.clone());
        proof {
            assert(env_texts(env@) =~= before.insert(key@, set[key@]));
            assert(order.take(i + 1) =~= order.take(i as int).push(key@));
            order.take(i as int).lemma_push_to_set_commute(key@);
            assert(env_texts(env@) =~= inherited.union_prefer_right(
                set.restrict(order.take(i + 1).to_set()),
            ));
        }
        i = i + 1;
    }
    proof {
        assert(order.take(i as int) =~= order);
        assert(set.dom() =~= launch.env@.dom());
        assert(set.restrict(order.to_set()) =~= set);
    }
    let ghost chosen = env_texts(env@);
    env.insert("MUTSUKI_RUNNER_SESSION_TOKEN".to_owned(), session_token.to_owned());
    env.insert("MUTSUKI_PLUGIN_ID".to_owned(), plugin_id.to_owned());
    env.insert("MUTSUKI_RUNNER_ID".to_owned(), runner_id.to_owned());
    env.insert("MUTSUKI_PROFILE_ID".to_owned(), profile_id.to_owned());
    assert(env_texts(env@) =~= chosen.union_prefer_right(
        session_env(session_token@, plugin_id@, runner_id@, profile_id@),
    ));
    env
}

/// The environment of a runner that is about to be launched: its session gets a token of its own.
pub fn launch_environment(
    host: &OrderedMap<String>,
    launch: &RunnerLaunchSpec,
    plugin_id: &str,
    runner_id: &str,
    profile_id: &str,
) -> (env: OrderedMap<String>)
    ensures
        exists|token: Seq<char>| #[trigger]
            ids::id_shape(token) && env_texts(env@) == runner_env(
                env_texts(host@),
                *launch,
                session_env(token, plugin_id@, runner_id@, profile_id@),
            ),
{
    let token = ids::fresh_id();
    assert(ids::id_shape(token@));
    runner_environment(host, launch, token.as_str(), plugin_id, runner_id, profile_id)
}

/// Where a program or a directory of a runner lies.
#[derive(Debug, PartialEq, Eq)]
pub enum Place {
    /// In the directory of the launch specification.
    SourceDir,
    /// At a path below the directory of the launch specification.
    Below(String),
    /// At a path as it is given.
    AsGiven(String),
}

/// Where a runner is started. `is_absolute` says whether the directory that the launch
/// specification names is an absolute path.
pub fn resolve_cwd(cwd: Option<String>, is_absolute: bool) -> (place: Place)
    ensures
        place == match cwd {
            Some(path) => if is_absolute {
                Place::AsGiven(path)
            } else {
                Place::Below(path)
            },
            None => Place::SourceDir,
        },
{
    match cwd {
        Some(path) => {
            if is_absolute {
                Place::AsGiven(path)
            } else {
                Place::Below(path)
            }
        },
        None => Place::SourceDir,
    }
}

/// A command with a separator of paths in it.
pub open spec fn is_path(command: Seq<char>) -> bool {
    command.contains('/') || command.contains('\\')
}

/// Which program is started: a path that is not absolute lies below the directory of the launch
/// specification, and a bare name is left to be looked up. `is_absolute` says whether the command
/// is an absolute path.
pub fn resolve_command(command: String, is_absolute: bool) -> (place: Place)
    ensures
        place == if !is_absolute && is_path(command@) {
            Place::Below(command)
        } else {
            Place::AsGiven(command)
        },
{
    let chars = text::chars_of(command.as_str());
    let mut i: usize = 0;
    while i < chars.len() && chars[i] != '/' && chars[i] != '\\'
        invariant
            chars@ == command@,
            i <= chars.len(),
            forall|j: int| 0 <= j < i ==> chars@[j] != '/' && chars@[j] != '\\',
        decreases chars.len() - i,
    {
        i = i + 1;
    }
    proof {
        if i < chars.len() {
            assert(command@[i as int] == chars@[i as int]);
        }
        assert(is_path(command@) == (i < chars.len()));
    }
    if !is_absolute && i < chars.len() {
        Place::Below(command)
    } else {
        Place::AsGiven(command)
    }
}

/// The error of a runner that could not be started.
pub fn spawn_failure(runner_id: &str, source: &str, error: &str) -> (failure: HostError)
    ensures
        failure matches HostError::Config(words) && words@ == "failed to spawn runner "@
            + runner_id@ + " from "@ + source@ + ": "@ + error@,
{
    HostError::Config(
        text::join3(
            text::join4("failed to spawn runner ", runner_id, " from ", source).as_str(),
            ": ",
            error,
        ),
    )
}

/// The error of a launch specification that stands in no directory.
pub fn no_parent(source: &str) -> (failure: HostError)
    ensures
        failure matches HostError::Config(words) && words@ == "runner spec has no parent: "@
            + source@,
{
    HostError::Config(text::join2("runner spec has no parent: ", source))
}

/// The error of a runner whose error output cannot be read.
pub fn no_stderr(runner_id: &str) -> (failure: HostError)
    ensures
        failure matches HostError::Config(words) && words@ == "runner "@ + runner_id@
            + " stderr was not piped"@,
{
    HostError::Config(text::join3("runner ", runner_id, " stderr was not piped"))
}

/// The error of a runner whose error output has nobody to read it.
pub fn forwarder_failure(error: &str) -> (failure: HostError)
    ensures
        failure matches HostError::Config(words) && words@ == "failed to spawn stderr forwarder: "@
            + error@,
{
    HostError::Config(text::join2("failed to spawn stderr forwarder: ", error))
}

/// The error of the runner's process.
pub fn runtime_failure(route: &str, evidence_key: &str, evidence_value: &str) -> (error: RuntimeError)
    ensures
        error@ == RuntimeError::plain_with_evidence(
            ERR_RUNTIME_HOST_FAILED@,
            "mutsuki_tauri_host.runner"@,
            route@,
            evidence_key@,
            evidence_value@,
        ),
{
    RuntimeError::with_evidence(
        ERR_RUNTIME_HOST_FAILED,
        "mutsuki_tauri_host.runner",
        route,
        evidence_key,
        evidence_value,
    )
}

/// The fields of a line of a runner's log.
pub open spec fn runner_fields(plugin_id: Seq<char>, runner_id: Seq<char>) -> Map<
    Seq<char>,
    JsonView,
> {
    Map::empty().insert("plugin_id"@, JsonView::String(plugin_id)).insert(
        "runner_id"@,
        JsonView::String(runner_id),
    )
}

/// Tells a line that a runner wrote, with what it must not show replaced.
pub fn emit_runner_log(
    events: &mut EventHub,
    plugin_id: &str,
    runner_id: &str,
    message: String,
    now: i64,
)
    ensures
        events::tried(
            old(events).story(),
            final(events).story(),
            FrontendEventView::Log {
                record: observe::log_line(
                    "info"@,
                    "mutsuki_tauri_host.runner"@,
                    message@,
                    runner_fields(plugin_id@, runner_id@),
                    now,
                ),
            },
        ),
{
    let mut fields: OrderedMap<JsonValue> = OrderedMap::new();
    fields.insert("plugin_id".to_owned(), JsonValue::String(plugin_id.to_owned()));
    fields.insert("runner_id".to_owned(), JsonValue::String(runner_id.to_owned()));
    assert(redact::json_fields(fields@) =~= runner_fields(plugin_id@, runner_id@));
    observe::emit_log_record(events, "info", "mutsuki_tauri_host.runner", message, fields, now);
}

/// Tells how a runner is doing.
pub fn emit_runner_status(events: &mut EventHub, runner_id: &str, status: &str)
    ensures
        events::tried(
            old(events).story(),
            final(events).story(),
            FrontendEventView::Runner { runner_id: runner_id@, status: status@ },
        ),
{
    events.tell(
        MutsukiFrontendEvent::Runner { runner_id: runner_id.to_owned(), status: status.to_owned() },
    );
}

/// Takes in a line that was read from a runner's error output: a line with something in it is told,
/// and an output that cannot be read is given up. `go_on` says whether to read on.
pub fn forward_stderr_line(
    events: &mut EventHub,
    plugin_id: &str,
    runner_id: &str,
    line: Result<String, String>,
    now: i64,
) -> (go_on: bool)
    ensures
        go_on == line is Ok,
        match line {
            Ok(words) => if words@.len() == 0 {
                final(events).story() == old(events).story()
            } else {
                exists|between: events::HubView|
                    events::tried(
                        old(events).story(),
                        between,
                        FrontendEventView::Log {
                            record: observe::log_line(
                                "info"@,
                                "mutsuki_tauri_host.runner"@,
                                words@,
                                runner_fields(plugin_id@, runner_id@),
                                now,
                            ),
                        },
                    ) && #[trigger] events::tried(
                        between,
                        final(events).story(),
                        FrontendEventView::Runner { runner_id: runner_id@, status: "stderr"@ },
                    )
            },
            Err(error) => events::tried(
                old(events).story(),
                final(events).story(),
                FrontendEventView::Log {
                    record: observe::log_line(
                        "info"@,
                        "mutsuki_tauri_host.runner"@,
                        "stderr read failed: "@ + error@,
                        runner_fields(plugin_id@, runner_id@),
                        now,
                    ),
                },
            ),
        },
{
    match line {
        Ok(words) => {
            if words.as_str().unicode_len() > 0 {
                emit_runner_log(events, plugin_id, runner_id, words, now);
                let ghost between = events.story();
                emit_runner_status(events, runner_id, "stderr");
                assert(events::tried(
                    between,
                    events.story(),
                    FrontendEventView::Runner { runner_id: runner_id@, status: "stderr"@ },
                ));
            }
            true
        },
        Err(error) => {
            emit_runner_log(
                events,
                plugin_id,
                runner_id,
                text::join2("stderr read failed: ", error.as_str()),
                now,
            );
            false
        },
    }
}

/// Notes that a runner failed at work, and tells of it.
pub fn runner_failed(
    events: &mut EventHub,
    health: &mut HostHealthState,
    runner_id: &str,
    plugin_id: &str,
    error: &RuntimeError,
    now: i64,
)
    ensures
        final(health)@ == health::runner_noted(
            old(health)@,
            runner_id@,
            plugin_id@,
            error.code@ + " at "@ + error.route@,
            Some(error.code@),
            Some(error.route@),
            now,
        ),
        events::tried(
            old(events).story(),
            final(events).story(),
            FrontendEventView::Runner { runner_id: runner_id@, status: "failed"@ },
        ),
{
    health.record_runner_runtime_error(runner_id, plugin_id, error, now);
    emit_runner_status(events, runner_id, "failed");
}

/// Four variables of the host's own environment reach every runner.
pub proof fn law_every_runner_gets_the_system_variables(key: Seq<char>)
    ensures
        required_keys().contains(key) <==> key == "SystemRoot"@ || key == "WINDIR"@ || key
            == "ComSpec"@ || key == "PATHEXT"@,
{
    let keys = required_keys();
    assert(keys[0] == "SystemRoot"@);
    assert(keys[1] == "WINDIR"@);
    assert(keys[2] == "ComSpec"@);
    assert(keys[3] == "PATHEXT"@);
    if keys.contains(key) {
        let i = choose|i: int| 0 <= i < keys.len() && keys[i] == key;
        assert(i == 0 || i == 1 || i == 2 || i == 3);
    }
}

/// What the launch specification sets reaches the runner, unless the host sets it itself; and what
/// the host has of the variables that every runner gets or that the launch specification asks for
/// reaches it, unless one of the two sets it.
pub proof fn law_asked_for_variables_reach_the_runner(
    host: Map<Seq<char>, Seq<char>>,
    launch: RunnerLaunchSpec,
    session: Map<Seq<char>, Seq<char>>,
    key: Seq<char>,
)
    requires
        !session.contains_key(key),
    ensures
        launch.env@.contains_key(key) ==> runner_env(host, launch, session).contains_key(key)
            && runner_env(host, launch, session)[key] == launch.env@[key]@,
        !launch.env@.contains_key(key) && host.contains_key(key) && (required_keys().contains(key)
            || text::texts(launch.env_inherit@).contains(key)) ==> runner_env(
            host,
            launch,
            session,
        ).contains_key(key) && runner_env(host, launch, session)[key] == host[key],
{
    let asked = text::texts(launch.env_inherit@);
    let keys = required_keys() + asked;
    if required_keys().contains(key) {
        let i = choose|i: int| 0 <= i < required_keys().len() && required_keys()[i] == key;
        assert(keys[i] == key);
    }
    if asked.contains(key) {
        let i = choose|i: int| 0 <= i < asked.len() && asked[i] == key;
        assert(keys[required_keys().len() + i] == key);
    }
}

/// A runner is told the token of its session, its plugin, its own name and the profile, each under
/// its own name.
pub proof fn law_runner_is_told_who_it_is(
    session_token: Seq<char>,
    plugin_id: Seq<char>,
    runner_id: Seq<char>,
    profile_id: Seq<char>,
)
    ensures
        ({
            let env = session_env(session_token, plugin_id, runner_id, profile_id);
            &&& env.dom() == set![
                "MUTSUKI_RUNNER_SESSION_TOKEN"@,
                "MUTSUKI_PLUGIN_ID"@,
                "MUTSUKI_RUNNER_ID"@,
                "MUTSUKI_PROFILE_ID"@,
            ]
            &&& env["MUTSUKI_RUNNER_SESSION_TOKEN"@] == session_token
            &&& env["MUTSUKI_PLUGIN_ID"@] == plugin_id
            &&& env["MUTSUKI_RUNNER_ID"@] == runner_id
            &&& env["MUTSUKI_PROFILE_ID"@] == profile_id
        }),
{
    reveal_strlit("MUTSUKI_RUNNER_SESSION_TOKEN");
    reveal_strlit("MUTSUKI_PLUGIN_ID");
    reveal_strlit("MUTSUKI_RUNNER_ID");
    reveal_strlit("MUTSUKI_PROFILE_ID");
    assert("MUTSUKI_RUNNER_SESSION_TOKEN"@.len() == 28);
    assert("MUTSUKI_PLUGIN_ID"@.len() == 17);
    assert("MUTSUKI_RUNNER_ID"@.len() == 17);
    assert("MUTSUKI_PROFILE_ID"@.len() == 18);
    assert("MUTSUKI_PLUGIN_ID"@[8] == 'P');
    assert("MUTSUKI_RUNNER_ID"@[8] == 'R');
    let env = session_env(session_token, plugin_id, runner_id, profile_id);
    assert(env.dom() =~= set![
        "MUTSUKI_RUNNER_SESSION_TOKEN"@,
        "MUTSUKI_PLUGIN_ID"@,
        "MUTSUKI_RUNNER_ID"@,
        "MUTSUKI_PROFILE_ID"@,
    ]);
}

/// A command is a path exactly where a slash or a backslash stands in it.
pub proof fn law_path_has_a_separator(before: Seq<char>, c: char, after: Seq<char>)
    ensures
        c == '/' || c == '\\' ==> is_path(before + seq![c] + after),
        c != '/' && c != '\\' ==> is_path(before + seq![c] + after) == (is_path(before) || is_path(
            after,
        )),
        !is_path(Seq::empty()),
{
    let whole = before + seq![c] + after;
    assert(whole[before.len() as int] == c);
    assert forall|x: char| #[trigger]
        whole.contains(x) <==> before.contains(x) || c == x || after.contains(x) by {
        if before.contains(x) {
            let i = choose|i: int| 0 <= i < before.len() && before[i] == x;
            assert(whole[i] == x);
        }
        if after.contains(x) {
            let i = choose|i: int| 0 <= i < after.len() && after[i] == x;
            assert(whole[before.len() + 1 + i] == x);
        }
        if whole.contains(x) {
            let i = choose|i: int| 0 <= i < whole.len() && whole[i] == x;
            if i < before.len() {
                assert(before[i] == x);
            } else if i > before.len() {
                assert(after[i - before.len() - 1] == x);
            }
        }
    }
}

/// A line of a runner's log names the plugin and the runner.
pub proof fn law_log_line_names_the_runner(plugin_id: Seq<char>, runner_id: Seq<char>)
    ensures
        ({
            let fields = runner_fields(plugin_id, runner_id);
            &&& fields.dom() == set!["plugin_id"@, "runner_id"@]
            &&& fields["plugin_id"@] == JsonView::String(plugin_id)
            &&& fields["runner_id"@] == JsonView::String(runner_id)
        }),
{
    reveal_strlit("plugin_id");
    reveal_strlit("runner_id");
    assert("plugin_id"@[0] == 'p');
    assert("runner_id"@[0] == 'r');
    let fields = runner_fields(plugin_id, runner_id);
    assert(fields.dom() =~= set!["plugin_id"@, "runner_id"@]);
}

} // verus!

//! How an app configures its host.
use crate::text;
use vstd::prelude::*;
use vstd::string::*;

verus! {

broadcast use vstd::string::group_string_axioms;

/// Where the runtime lives.
#[derive(Clone, Copy, Debug, PartialEq, Eq, Structural)]
pub enum HostMode {
    Embedded,
    ConnectService,
}

impl Default for HostMode {
    fn default() -> (mode: Self)
        ensures
            mode == HostMode::Embedded,
    {
        HostMode::Embedded
    }
}

/// The name of a mode.
pub open spec fn mode_name(mode: HostMode) -> Seq<char> {
    match mode {
        HostMode::Embedded => "embedded"@,
        HostMode::ConnectService => "connectservice"@,
    }
}

impl HostMode {
    /// The name of the mode.
    pub fn as_str(&self) -> (name: &'static str)
        ensures
            name@ == mode_name(*self),
    {
        match self {
            HostMode::Embedded => "embedded",
            HostMode::ConnectService => "connectservice",
        }
    }
}

/// A path in pieces: the directory that it starts from and the names below it, each joined to
/// what stands before it. Without a directory of its own it starts from the data directory of the
/// user.
#[derive(Debug, PartialEq, Eq)]
pub struct HostPath {
    pub root: Option<String>,
    pub segments: Vec<String>,
}

#[verifier::ext_equal]
pub struct HostPathView {
    pub root: Option<Seq<char>>,
    pub segments: Seq<Seq<char>>,
}

impl View for HostPath {
    type V = HostPathView;

    open spec fn view(&self) -> HostPathView {
        HostPathView {
            root: text::opt_text(self.root),
            segments: text::texts(self.segments@),
        }
    }
}

impl Clone for HostPath {
    fn clone(&self) -> (copy: Self)
        ensures
            copy@ == self@,
    {
        let segments = self.segments.clone();
        assert(segments@ =~= self.segments@);
        HostPath { root: self.root.clone(), segments }
    }
}

impl HostPathView {
    /// The path of a name below this one.
    pub open spec fn child(self, name: Seq<char>) -> HostPathView {
        HostPathView { segments: self.segments.push(name), ..self }
    }
}

impl HostPath {
    /// A directory.
    pub fn at(directory: String) -> (path: Self)
        ensures
            path@ == (HostPathView { root: Some(directory@), segments: Seq::empty() }),
    {
        let path = HostPath { root: Some(directory), segments: Vec::new() };
        assert(path@.segments =~= Seq::empty());
        path
    }

    /// The data directory of the user.
    pub fn in_data_dir() -> (path: Self)
        ensures
            path@ == (HostPathView { root: None, segments: Seq::empty() }),
    {
        let path = HostPath { root: None, segments: Vec::new() };
        assert(path@.segments =~= Seq::empty());
        path
    }

    /// The path of a name below this one.
    pub fn join(&self, name: &str) -> (path: Self)
        ensures
            path@ == self@.child(name@),
    {
        let mut path = self.clone();
        path.segments.push(name.to_owned());
        assert(path@.segments =~= self@.segments.push(name@));
        path
    }
}

/// The directories of an app.
#[derive(Debug, PartialEq, Eq)]
pub struct PathsConfig {
    pub app_data_dir: HostPath,
    pub config_dir: HostPath,
    pub data_dir: HostPath,
    pub cache_dir: HostPath,
    pub logs_dir: HostPath,
    pub plugins_dir: HostPath,
    pub resources_dir: HostPath,
    pub runners_dir: HostPath,
}

#[verifier::ext_equal]
pub struct PathsView {
    pub app_data_dir: HostPathView,
    pub config_dir: HostPathView,
    pub data_dir: HostPathView,
    pub cache_dir: HostPathView,
    pub logs_dir: HostPathView,
    pub plugins_dir: HostPathView,
    pub resources_dir: HostPathView,
    pub runners_dir: HostPathView,
}

impl View for PathsConfig {
    type V = PathsView;

    open spec fn view(&self) -> PathsView {
        PathsView {
            app_data_dir: self.app_data_dir@,
            config_dir: self.config_dir@,
            data_dir: self.data_dir@,
            cache_dir: self.cache_dir@,
            logs_dir: self.logs_dir@,
            plugins_dir: self.plugins_dir@,
            resources_dir: self.resources_dir@,
            runners_dir: self.runners_dir@,
        }
    }
}

/// The directories of an app below one of them.
pub open spec fn paths_below(base: HostPathView) -> PathsView {
    PathsView {
        app_data_dir: base,
        config_dir: base.child("config"@),
        data_dir: base.child("data"@),
        cache_dir: base.child("cache"@),
        logs_dir: base.child("logs"@),
        plugins_dir: base.child("plugins"@),
        resources_dir: base.child("resources"@),
        runners_dir: base.child("runners"@),
    }
}

/// The directories of an app of a name: below its own directory in the user's data directory.
pub open spec fn paths_of_app(app_name: Seq<char>) -> PathsView {
    paths_below(
        HostPathView { root: None, segments: seq![app_name, "mutsuki"@] },
    )
}

impl PathsConfig {
    /// The directories of an app below one of them.
    pub fn below(base: HostPath) -> (paths: Self)
        ensures
            paths@ == paths_below(base@),
    {
        PathsConfig {
            config_dir: base.join("config"),
            data_dir: base.join("data"),
            cache_dir: base.join("cache"),
            logs_dir: base.join("logs"),
            plugins_dir: base.join("plugins"),
            resources_dir: base.join("resources"),
            runners_dir: base.join("runners"),
            app_data_dir: base,
        }
    }

    pub fn for_app(app_name: &str) -> (paths: Self)
        ensures
            paths@ == paths_of_app(app_name@),
    {
        let base = HostPath::in_data_dir().join(app_name).join("mutsuki");
        assert(base@.segments =~= seq![app_name@, "mutsuki"@]);
        PathsConfig::below(base)
    }
}

/// What the host allows.
#[derive(Clone, Copy, Debug, PartialEq, Eq, Structural)]
pub struct SecurityConfig {
    pub require_approval_for_side_effect: bool,
    pub allow_dev_commands: bool,
}

impl Default for SecurityConfig {
    fn default() -> (security: Self)
        ensures
            security == (SecurityConfig {
                require_approval_for_side_effect: true,
                allow_dev_commands: false,
            }),
    {
        SecurityConfig { require_approval_for_side_effect: true, allow_dev_commands: false }
    }
}

/// How an app configures its host.
#[derive(Debug, PartialEq, Eq)]
pub struct MutsukiTauriConfig {
    pub app_name: String,
    pub app_id: String,
    pub profile_id: String,
    pub mode: HostMode,
    pub max_ticks_per_call: usize,
    pub event_buffer: usize,
    pub preview_ttl_secs: u64,
    /// How many events are kept for one task.
    pub task_event_capacity_per_task: usize,
    /// How many events are kept for all tasks together.
    pub task_event_capacity_total: usize,
    /// How many observed events are told to the frontend at once.
    pub frontend_event_batch_size: usize,
    pub paths: PathsConfig,
    pub security: SecurityConfig,
}

#[verifier::ext_equal]
pub struct ConfigView {
    pub app_name: Seq<char>,
    pub app_id: Seq<char>,
    pub profile_id: Seq<char>,
    pub mode: HostMode,
    pub max_ticks_per_call: usize,
    pub event_buffer: usize,
    pub preview_ttl_secs: u64,
    pub task_event_capacity_per_task: usize,
    pub task_event_capacity_total: usize,
    pub frontend_event_batch_size: usize,
    pub paths: PathsView,
    pub security: SecurityConfig,
}

impl View for MutsukiTauriConfig {
    type V = ConfigView;

    open spec fn view(&self) -> ConfigView {
        ConfigView {
            app_name: self.app_name@,
            app_id: self.app_id@,
            profile_id: self.profile_id@,
            mode: self.mode,
            max_ticks_per_call: self.max_ticks_per_call,
            event_buffer: self.event_buffer,
            preview_ttl_secs: self.preview_ttl_secs,
            task_event_capacity_per_task: self.task_event_capacity_per_task,
            task_event_capacity_total: self.task_event_capacity_total,
            frontend_event_batch_size: self.frontend_event_batch_size,
            paths: self.paths@,
            security: self.security,
        }
    }
}

/// The configuration that an app of a name starts with.
pub open spec fn config_of_app(app_name: Seq<char>) -> ConfigView {
    ConfigView {
        app_name,
        app_id: "local."@ + app_name,
        profile_id: "default"@,
        mode: HostMode::Embedded,
        max_ticks_per_call: 64,
        event_buffer: 1024,
        preview_ttl_secs: 300,
        task_event_capacity_per_task: 256,
        task_event_capacity_total: 4096,
        frontend_event_batch_size: 32,
        paths: paths_of_app(app_name),
        security: SecurityConfig {
            require_approval_for_side_effect: true,
            allow_dev_commands: false,
        },
    }
}

impl MutsukiTauriConfig {
    pub fn for_app(app_name: String) -> (config: Self)
        ensures
            config@ == config_of_app(app_name@),
            config.app_name == app_name,
            config.app_id@ == "local."@ + app_name@,
            config.profile_id@ == "default"@,
            config.mode is Embedded,
            config.max_ticks_per_call == 64,
            config.event_buffer == 1024,
            config.preview_ttl_secs == 300,
            config.task_event_capacity_per_task == 256,
            config.task_event_capacity_total == 4096,
            config.frontend_event_batch_size == 32,
            config.security.require_approval_for_side_effect,
            !config.security.allow_dev_commands,
    {
        MutsukiTauriConfig {
            app_id: text::join2("local.", app_name.as_str()),
            profile_id: "default".to_owned(),
            mode: HostMode::Embedded,
            max_ticks_per_call: 64,
            event_buffer: 1024,
            preview_ttl_secs: 300,
            task_event_capacity_per_task: 256,
            task_event_capacity_total: 4096,
            frontend_event_batch_size: 32,
            paths: PathsConfig::for_app(app_name.as_str()),
            security: SecurityConfig::default(),
            app_name,
        }
    }

    /// The configuration of an app whose directories move with its name.
    pub fn renamed(self, app_name: String) -> (config: Self)
        ensures
            config@ == (ConfigView {
                app_name: app_name@,
                paths: paths_of_app(app_name@),
                ..self@
            }),
            config.app_name == app_name,
            config.app_id == self.app_id,
            config.profile_id == self.profile_id,
            config.mode == self.mode,
            config.security == self.security,
    {
        let paths = PathsConfig::for_app(app_name.as_str());
        MutsukiTauriConfig {
            app_name,
            app_id: self.app_id,
            profile_id: self.profile_id,
            mode: self.mode,
            max_ticks_per_call: self.max_ticks_per_call,
            event_buffer: self.event_buffer,
            preview_ttl_secs: self.preview_ttl_secs,
            task_event_capacity_per_task: self.task_event_capacity_per_task,
            task_event_capacity_total: self.task_event_capacity_total,
            frontend_event_batch_size: self.frontend_event_batch_size,
            paths,
            security: self.security,
        }
    }
}

/// The two modes have names of their own.
pub proof fn law_modes_have_names_of_their_own(mode: HostMode)
    ensures
        mode is Embedded <==> mode_name(mode) == "embedded"@,
        mode is ConnectService <==> mode_name(mode) == "connectservice"@,
{
    reveal_strlit("embedded");
    reveal_strlit("connectservice");
    assert("embedded"@.len() == 8);
    assert("connectservice"@.len() == 14);
}

/// The directories of an app lie side by side in one of them, each under its own name, and that one
/// lies in the data directory of the user under the name of the app.
pub proof fn law_directories_lie_below_the_app(base: HostPathView, app_name: Seq<char>)
    ensures
        ({
            let paths = paths_below(base);
            let below = |name: Seq<char>|
                HostPathView { root: base.root, segments: base.segments.push(name) };
            &&& paths.app_data_dir == base
            &&& paths.config_dir == below("config"@)
            &&& paths.data_dir == below("data"@)
            &&& paths.cache_dir == below("cache"@)
            &&& paths.logs_dir == below("logs"@)
            &&& paths.plugins_dir == below("plugins"@)
            &&& paths.resources_dir == below("resources"@)
            &&& paths.runners_dir == below("runners"@)
        }),
        paths_of_app(app_name).app_data_dir.root is None,
        paths_of_app(app_name).app_data_dir.segments == seq![app_name, "mutsuki"@],
        paths_of_app(app_name) == paths_below(paths_of_app(app_name).app_data_dir),
{
}

/// A host that an app did not configure asks before it does anything that shows, offers no commands
/// for developers, and keeps its bounds.
pub proof fn law_plain_configuration_is_careful(app_name: Seq<char>)
    ensures
        ({
            let config = config_of_app(app_name);
            &&& config.app_name == app_name
            &&& config.app_id == "local."@ + app_name
            &&& config.profile_id == "default"@
            &&& config.mode is Embedded
            &&& config.security.require_approval_for_side_effect
            &&& !config.security.allow_dev_commands
            &&& 0 < config.task_event_capacity_per_task <= config.task_event_capacity_total
            &&& config.paths == paths_of_app(app_name)
        }),
{
}

/// The view of a configuration tells all of it.
pub proof fn law_configuration_is_seen_whole(config: MutsukiTauriConfig, path: HostPath)
    ensures
        config@.app_name == config.app_name@,
        config@.app_id == config.app_id@,
        config@.profile_id == config.profile_id@,
        config@.mode == config.mode,
        config@.max_ticks_per_call == config.max_ticks_per_call,
        config@.event_buffer == config.event_buffer,
        config@.preview_ttl_secs == config.preview_ttl_secs,
        config@.task_event_capacity_per_task == config.task_event_capacity_per_task,
        config@.task_event_capacity_total == config.task_event_capacity_total,
        config@.frontend_event_batch_size == config.frontend_event_batch_size,
        config@.security == config.security,
        config@.paths.app_data_dir == config.paths.app_data_dir@,
        config@.paths.config_dir == config.paths.config_dir@,
        config@.paths.data_dir == config.paths.data_dir@,
        config@.paths.cache_dir == config.paths.cache_dir@,
        config@.paths.logs_dir == config.paths.logs_dir@,
        config@.paths.plugins_dir == config.paths.plugins_dir@,
        config@.paths.resources_dir == config.paths.resources_dir@,
        config@.paths.runners_dir == config.paths.runners_dir@,
        path@.root == text::opt_text(path.root),
        path@.segments == text::texts(path.segments@),
{
}

} // verus!

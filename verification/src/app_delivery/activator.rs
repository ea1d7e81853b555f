//! The apps that can be started.
use crate::app_delivery::types::{ActivationError, ActivationReceipt, AppDescriptor, AppId};
use crate::ids;
use crate::ordered_map::OrderedMap;
use crate::text;
use vstd::prelude::*;
use vstd::string::*;

verus! {

broadcast use vstd::string::group_string_axioms;

#[verifier::ext_equal]
pub struct AppDescriptorView {
    pub app_id: AppId,
    pub display_name: String,
    pub executable: Option<String>,
    pub launch_args: Seq<String>,
    pub bundle_id: Option<String>,
}

impl View for AppDescriptor {
    type V = AppDescriptorView;

    open spec fn view(&self) -> AppDescriptorView {
        AppDescriptorView {
            app_id: self.app_id,
            display_name: self.display_name,
            executable: self.executable,
            launch_args: self.launch_args@,
            bundle_id: self.bundle_id,
        }
    }
}

impl Clone for AppDescriptor {
    fn clone(&self) -> (copy: Self)
        ensures
            copy@ == self@,
            copy.app_id == self.app_id,
            copy.display_name == self.display_name,
            copy.executable == self.executable,
            copy.launch_args@ == self.launch_args@,
            copy.bundle_id == self.bundle_id,
    {
        let launch_args = self.launch_args.clone();
        assert(launch_args@ =~= self.launch_args@);
        AppDescriptor {
            app_id: self.app_id.clone(),
            display_name: self.display_name.clone(),
            executable: self.executable.clone(),
            launch_args,
            bundle_id: self.bundle_id.clone(),
        }
    }
}

/// What has to be run to start an app.
#[derive(Debug, PartialEq, Eq)]
pub struct LaunchCommand {
    pub executable: String,
    pub args: Vec<String>,
}

/// Registry-backed activator that can launch installed executables.
#[derive(Debug)]
pub struct ProcessAppActivator {
    apps: OrderedMap<AppDescriptor>,
}

/// The descriptors by the names of their apps.
pub open spec fn descriptor_views(apps: Map<Seq<char>, AppDescriptor>) -> Map<Seq<char>, AppDescriptorView> {
    apps.map_values(|app: AppDescriptor| app@)
}

impl View for ProcessAppActivator {
    type V = Map<Seq<char>, AppDescriptorView>;

    closed spec fn view(&self) -> Map<Seq<char>, AppDescriptorView> {
        descriptor_views(self.apps@)
    }
}

impl ProcessAppActivator {
    pub fn new() -> (activator: Self)
        ensures
            activator@ == Map::<Seq<char>, AppDescriptorView>::empty(),
    {
        let activator = ProcessAppActivator { apps: OrderedMap::new() };
        assert(activator@ =~= Map::<Seq<char>, AppDescriptorView>::empty());
        activator
    }

    /// Makes an app known, in the place of one with the same name.
    pub fn register(&mut self, descriptor: AppDescriptor)
        ensures
            final(self)@ == old(self)@.insert(descriptor.app_id@, descriptor@),
    {
        let key = descriptor.app_id.as_str().to_owned();
        self.apps.insert(key, descriptor);
        assert(self@ =~= old(self)@.insert(descriptor.app_id@, descriptor@));
    }

    /// The app of a name.
    pub fn resolve(&self, app_id: &AppId) -> (found: Result<AppDescriptor, ActivationError>)
        ensures
            match found {
                Ok(app) => self@.contains_key(app_id@) && app@ == self@[app_id@],
                Err(error) => !self@.contains_key(app_id@) && (error matches
                    ActivationError::AppNotInstalled(name) && name@ == app_id@),
            },
    {
        match self.apps.get(app_id.as_str()) {
            Some(app) => Ok(app.clone()),
            None => Err(ActivationError::AppNotInstalled(app_id.as_str().to_owned())),
        }
    }

    /// What has to be run to start an app.
    pub fn launch_command(app: &AppDescriptor) -> (command: Result<LaunchCommand, ActivationError>)
        ensures
            match command {
                Ok(run) => app.executable == Some(run.executable) && run.args@ == app.launch_args@,
                Err(error) => app.executable is None && (error matches
                    ActivationError::ActivationFailed(message) && message@
                    == "no executable registered for "@ + app.app_id@),
            },
    {
        match &app.executable {
            Some(executable) => {
                let args = app.launch_args.clone();
                assert(args@ =~= app.launch_args@);
                Ok(LaunchCommand { executable: executable.clone(), args })
            },
            None => Err(
                ActivationError::ActivationFailed(
                    text::join2("no executable registered for ", app.app_id.as_str()),
                ),
            ),
        }
    }

    /// The answer to starting an app: a new instance, or the failure of the start.
    pub fn launched(app: &AppDescriptor, started: Result<(), String>) -> (receipt: Result<
        ActivationReceipt,
        ActivationError,
    >)
        ensures
            match started {
                Ok(_) => receipt matches Ok(r) && r.app_id == app.app_id && ids::id_shape(
                    r.instance_id@,
                ) && !r.already_running,
                Err(message) => receipt matches Err(ActivationError::ActivationFailed(words))
                    && words == message,
            },
    {
        match started {
            Ok(_) => Ok(
                ActivationReceipt {
                    app_id: app.app_id.clone(),
                    instance_id: ids::fresh_id(),
                    already_running: false,
                },
            ),
            Err(message) => Err(ActivationError::ActivationFailed(message)),
        }
    }
}

/// The view of an app tells all of it.
pub proof fn law_descriptor_view_tells_all(a: AppDescriptor, b: AppDescriptor)
    ensures
        a@ == b@ <==> a.app_id == b.app_id && a.display_name == b.display_name && a.executable
            == b.executable && a.launch_args@ == b.launch_args@ && a.bundle_id == b.bundle_id,
        a@.app_id == a.app_id,
        a@.executable == a.executable,
        a@.launch_args == a.launch_args@,
{
}

} // verus!

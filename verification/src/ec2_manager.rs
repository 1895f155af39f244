use crate::controller::{
    delete_attached_volumes_spec, delete_security_groups_spec, start_spec, Config, Controller,
};
use crate::model::TransitionKind;
use crate::protocol::Action;
use vstd::prelude::*;

verus! {

/// Name of the marker tag that opts an instance into lifecycle management.
pub const TAG_NAME: &'static str = "AutoTerminate";

/// Value of the marker tag.
pub const TAG_VALUE: &'static str = "true";

/// Seconds between two polls, unless configured otherwise.
pub const POLL_INTERVAL_SECS: u64 = 10;

/// Number of polls after which the wait is given up, unless configured
/// otherwise.
pub const MAX_POLLS: u32 = 60;

/// The configuration with the standard marker tag and wait budget.
pub fn default_config() -> (config: Config)
    ensures
        config.tag_name@ == TAG_NAME@,
        config.tag_value@ == TAG_VALUE@,
        config.poll_interval_secs == POLL_INTERVAL_SECS,
        config.max_polls == MAX_POLLS,
{
    Config {
        tag_name: TAG_NAME.to_owned(),
        tag_value: TAG_VALUE.to_owned(),
        poll_interval_secs: POLL_INTERVAL_SECS,
        max_polls: MAX_POLLS,
    }
}

/// Begins a run that stops the instances bearing the marker tag, waits for
/// them to be stopped and cleans up after those that are.
pub fn stop_instances_with_tag(config: &Config) -> (next: (Controller, Action))
    ensures
        (next.0@, next.1.deep_view()) == start_spec(TransitionKind::Stop, config.deep_view()),
{
    Controller::start(TransitionKind::Stop, config)
}

/// Begins a run that terminates the instances bearing the marker tag, waits
/// for them to be terminated and cleans up after those that are.
pub fn terminate_instances_with_tag(config: &Config) -> (next: (Controller, Action))
    ensures
        (next.0@, next.1.deep_view()) == start_spec(TransitionKind::Terminate, config.deep_view()),
{
    Controller::start(TransitionKind::Terminate, config)
}

/// Begins a run that deletes the volumes attached to the given instances.
pub fn delete_attached_volumes(instance_ids: &[String]) -> (next: (Controller, Action))
    ensures
        (next.0@, next.1.deep_view()) == delete_attached_volumes_spec(instance_ids.deep_view()),
{
    Controller::for_volumes(instance_ids)
}

/// Begins a run that deletes the security groups of the given instances,
/// each group once.
pub fn delete_security_groups(instance_ids: &[String]) -> (next: (Controller, Action))
    ensures
        (next.0@, next.1.deep_view()) == delete_security_groups_spec(instance_ids.deep_view()),
{
    Controller::for_groups(instance_ids)
}

} // verus!

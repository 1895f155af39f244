use ec2_lifecycle::controller::{Config, Controller};
use ec2_lifecycle::ec2_manager::{
    default_config, delete_attached_volumes, delete_security_groups, stop_instances_with_tag,
    terminate_instances_with_tag,
};
use ec2_lifecycle::model::{
    Filter, InstanceRecord, PowerState, Reservation, TransitionKind, VolumeRecord,
};
use ec2_lifecycle::outcome::{CleanupFailure, CleanupOp, RunError, RunOutcome};
use ec2_lifecycle::protocol::{Action, Event};

/// One instance of the in-memory provider.
#[derive(Clone, Debug)]
struct Machine {
    id: String,
    tagged: bool,
    state: PowerState,
    groups: Vec<String>,
    volumes: Vec<String>,
    /// Polls after which the requested transition shows as complete; `None`
    /// when it never does.
    settles_after: Option<usize>,
}

/// An in-memory provider that answers the controller's actions.
#[derive(Debug, Default)]
struct Cloud {
    machines: Vec<Machine>,
    per_reservation: usize,
    tag_query_error: Option<String>,
    transition_error: Option<String>,
    poll_error_at: Option<usize>,
    volume_query_errors: Vec<String>,
    undeletable_volumes: Vec<String>,
    undeletable_groups: Vec<String>,
    deleted_volumes: Vec<String>,
    deleted_groups: Vec<String>,
    requested: Option<TransitionKind>,
    polls: usize,
    slept: u64,
    log: Vec<Action>,
}

fn strings(items: &[&str]) -> Vec<String> {
    items.iter().map(|item| item.to_string()).collect()
}

fn machine(id: &str, groups: &[&str], volumes: &[&str], settles_after: Option<usize>) -> Machine {
    Machine {
        id: id.to_string(),
        tagged: true,
        state: PowerState::Running,
        groups: strings(groups),
        volumes: strings(volumes),
        settles_after,
    }
}

impl Cloud {
    fn with(machines: Vec<Machine>) -> Cloud {
        Cloud { machines, per_reservation: 1, ..Cloud::default() }
    }

    fn shown_state(&self, machine: &Machine) -> PowerState {
        match (self.requested, machine.settles_after) {
            (Some(kind), Some(after)) if self.polls >= after => match kind {
                TransitionKind::Stop => PowerState::Stopped,
                TransitionKind::Terminate => PowerState::Terminated,
            },
            (Some(TransitionKind::Stop), _) => PowerState::Stopping,
            (Some(TransitionKind::Terminate), _) => PowerState::ShuttingDown,
            (None, _) => machine.state,
        }
    }

    fn answer(&self, chosen: Vec<&Machine>) -> Vec<Reservation> {
        let records: Vec<InstanceRecord> = chosen
            .iter()
            .map(|machine| InstanceRecord {
                instance_id: Some(machine.id.clone()),
                state: Some(self.shown_state(machine)),
                security_groups: machine.groups.iter().map(|group| Some(group.clone())).collect(),
            })
            .collect();
        records
            .chunks(self.per_reservation.max(1))
            .map(|chunk| Reservation { instances: chunk.to_vec() })
            .collect()
    }

    fn perform(&mut self, action: &Action) -> Event {
        self.log.push(action.clone());
        match action {
            Action::QueryInstances(filter) if filter.name.starts_with("tag:") => {
                if let Some(reason) = &self.tag_query_error {
                    return Event::Failed(reason.clone());
                }
                Event::Instances(self.answer(self.machines.iter().filter(|m| m.tagged).collect()))
            }
            Action::QueryInstances(filter) => {
                assert_eq!(filter.name, "instance-id");
                self.polls += 1;
                if self.poll_error_at == Some(self.polls) {
                    return Event::Failed("throttled".to_string());
                }
                Event::Instances(
                    self.answer(
                        self.machines.iter().filter(|m| filter.values.contains(&m.id)).collect(),
                    ),
                )
            }
            Action::RequestTransition { kind, instance_ids } => {
                assert!(!instance_ids.is_empty());
                if let Some(reason) = &self.transition_error {
                    return Event::Failed(reason.clone());
                }
                self.requested = Some(*kind);
                Event::Done
            }
            Action::Sleep { seconds } => {
                self.slept += seconds;
                Event::Done
            }
            Action::QueryVolumes(filter) => {
                assert_eq!(filter.name, "attachment.instance-id");
                assert_eq!(filter.values.len(), 1);
                let instance = &filter.values[0];
                if self.volume_query_errors.contains(instance) {
                    return Event::Failed("volume query denied".to_string());
                }
                let volumes = self
                    .machines
                    .iter()
                    .filter(|m| &m.id == instance)
                    .flat_map(|m| m.volumes.iter())
                    .filter(|volume| !self.deleted_volumes.contains(volume))
                    .map(|volume| VolumeRecord { volume_id: Some(volume.clone()) })
                    .collect();
                Event::Volumes(volumes)
            }
            Action::DeleteVolume(id) => {
                if self.undeletable_volumes.contains(id) {
                    Event::Failed("volume in use".to_string())
                } else if self.deleted_volumes.contains(id) {
                    Event::Failed("volume not found".to_string())
                } else {
                    self.deleted_volumes.push(id.clone());
                    Event::Done
                }
            }
            Action::DeleteSecurityGroup(id) => {
                if self.undeletable_groups.contains(id) {
                    Event::Failed("group in use".to_string())
                } else if self.deleted_groups.contains(id) {
                    Event::Failed("group not found".to_string())
                } else {
                    self.deleted_groups.push(id.clone());
                    Event::Done
                }
            }
            Action::Finish(_) | Action::Abort(_) => unreachable!(),
        }
    }

    /// Runs the controller against this provider until it ends.
    fn drive(&mut self, start: (Controller, Action)) -> Result<RunOutcome, RunError> {
        let (mut controller, mut action) = start;
        for _ in 0..10_000 {
            match action {
                Action::Finish(outcome) => return Ok(outcome),
                Action::Abort(error) => return Err(error),
                other => {
                    let event = self.perform(&other);
                    let next = controller.step(event);
                    controller = next.0;
                    action = next.1;
                }
            }
        }
        panic!("the run did not end");
    }

    fn count(&self, wanted: fn(&Action) -> bool) -> usize {
        self.log.iter().filter(|action| wanted(action)).count()
    }

    fn group_deletions(&self) -> Vec<String> {
        self.log
            .iter()
            .filter_map(|action| match action {
                Action::DeleteSecurityGroup(id) => Some(id.clone()),
                _ => None,
            })
            .collect()
    }

    fn volume_deletions(&self) -> Vec<String> {
        self.log
            .iter()
            .filter_map(|action| match action {
                Action::DeleteVolume(id) => Some(id.clone()),
                _ => None,
            })
            .collect()
    }

    fn volume_queries(&self) -> Vec<String> {
        self.log
            .iter()
            .filter_map(|action| match action {
                Action::QueryVolumes(filter) => Some(filter.values[0].clone()),
                _ => None,
            })
            .collect()
    }
}

fn config(max_polls: u32) -> Config {
    Config {
        tag_name: "AutoTerminate".to_string(),
        tag_value: "true".to_string(),
        poll_interval_secs: 10,
        max_polls,
    }
}

fn is_transition(action: &Action) -> bool {
    matches!(action, Action::RequestTransition { .. })
}

fn is_sleep(action: &Action) -> bool {
    matches!(action, Action::Sleep { .. })
}

fn is_cleanup(action: &Action) -> bool {
    matches!(
        action,
        Action::QueryVolumes(_) | Action::DeleteVolume(_) | Action::DeleteSecurityGroup(_)
    )
}

#[test]
fn test_stop_instances_with_tag() {
    let mut cloud = Cloud::with(vec![machine("i-1234567890abcdef0", &[], &[], Some(1))]);
    let result = cloud.drive(stop_instances_with_tag(&default_config()));
    assert!(result.is_ok());
    assert_eq!(cloud.requested, Some(TransitionKind::Stop));
}

#[test]
fn test_delete_attached_volumes() {
    let mut cloud = Cloud::with(vec![machine("i-1234567890abcdef0", &[], &["vol-1"], None)]);
    let instance_ids = vec!["i-1234567890abcdef0".to_string()];
    let result = cloud.drive(delete_attached_volumes(&instance_ids));
    assert!(result.is_ok());
    assert_eq!(cloud.deleted_volumes, strings(&["vol-1"]));
}

#[test]
fn test_delete_security_groups() {
    let mut cloud = Cloud::with(vec![machine("i-1234567890abcdef0", &["sg-1"], &[], None)]);
    let instance_ids = vec!["i-1234567890abcdef0".to_string()];
    let result = cloud.drive(delete_security_groups(&instance_ids));
    assert!(result.is_ok());
    assert_eq!(cloud.deleted_groups, strings(&["sg-1"]));
}

#[test]
fn first_action_is_the_tag_query() {
    let (_, action) = terminate_instances_with_tag(&config(3));
    assert_eq!(
        action,
        Action::QueryInstances(Filter {
            name: "tag:AutoTerminate".to_string(),
            values: strings(&["true"]),
        })
    );
    let (_, action) = stop_instances_with_tag(&Config {
        tag_name: "Reap".to_string(),
        tag_value: "yes".to_string(),
        poll_interval_secs: 5,
        max_polls: 1,
    });
    assert_eq!(
        action,
        Action::QueryInstances(Filter { name: "tag:Reap".to_string(), values: strings(&["yes"]) })
    );
}

#[test]
fn shared_group_is_deleted_once() {
    let mut cloud = Cloud::with(vec![
        machine("i-A", &["sg-X"], &["v-1"], Some(1)),
        machine("i-B", &["sg-X"], &["v-2"], Some(1)),
    ]);
    let outcome = cloud.drive(terminate_instances_with_tag(&config(5))).unwrap();
    assert_eq!(outcome.processed, strings(&["i-A", "i-B"]));
    assert!(outcome.outstanding.is_empty());
    assert!(outcome.failures.is_empty());
    assert_eq!(cloud.volume_deletions(), strings(&["v-1", "v-2"]));
    assert_eq!(cloud.group_deletions(), strings(&["sg-X"]));
    assert_eq!(cloud.count(is_transition), 1);
    assert_eq!(
        cloud.log,
        vec![
            Action::QueryInstances(Filter {
                name: "tag:AutoTerminate".to_string(),
                values: strings(&["true"]),
            }),
            Action::RequestTransition {
                kind: TransitionKind::Terminate,
                instance_ids: strings(&["i-A", "i-B"]),
            },
            Action::QueryInstances(Filter {
                name: "instance-id".to_string(),
                values: strings(&["i-A", "i-B"]),
            }),
            Action::QueryVolumes(Filter {
                name: "attachment.instance-id".to_string(),
                values: strings(&["i-A"]),
            }),
            Action::DeleteVolume("v-1".to_string()),
            Action::QueryVolumes(Filter {
                name: "attachment.instance-id".to_string(),
                values: strings(&["i-B"]),
            }),
            Action::DeleteVolume("v-2".to_string()),
            Action::DeleteSecurityGroup("sg-X".to_string()),
        ]
    );
}

#[test]
fn budget_expires_with_one_instance_outstanding() {
    let mut cloud = Cloud::with(vec![
        machine("i-A", &["sg-X"], &["v-1"], Some(2)),
        machine("i-B", &["sg-Y"], &["v-2"], None),
    ]);
    let outcome = cloud.drive(stop_instances_with_tag(&config(3))).unwrap();
    assert_eq!(outcome.processed, strings(&["i-A"]));
    assert_eq!(outcome.outstanding, strings(&["i-B"]));
    assert!(outcome.failures.is_empty());
    assert_eq!(cloud.polls, 3);
    assert_eq!(cloud.count(is_sleep), 2);
    assert_eq!(cloud.slept, 20);
    assert_eq!(cloud.volume_queries(), strings(&["i-A"]));
    assert_eq!(cloud.volume_deletions(), strings(&["v-1"]));
    assert_eq!(cloud.group_deletions(), strings(&["sg-X"]));
    assert!(!cloud.deleted_volumes.contains(&"v-2".to_string()));
    assert!(!cloud.deleted_groups.contains(&"sg-Y".to_string()));
}

#[test]
fn group_shared_with_an_outstanding_instance_is_tried_and_noted() {
    let mut cloud = Cloud::with(vec![
        machine("i-A", &["sg-X"], &[], Some(1)),
        machine("i-B", &["sg-X"], &["v-2"], None),
    ]);
    cloud.undeletable_groups = strings(&["sg-X"]);
    let outcome = cloud.drive(terminate_instances_with_tag(&config(1))).unwrap();
    assert_eq!(outcome.processed, strings(&["i-A"]));
    assert_eq!(outcome.outstanding, strings(&["i-B"]));
    assert_eq!(cloud.group_deletions(), strings(&["sg-X"]));
    assert!(cloud.volume_deletions().is_empty());
    assert_eq!(
        outcome.failures,
        vec![CleanupFailure {
            op: CleanupOp::DeleteSecurityGroup,
            target: "sg-X".to_string(),
            reason: "group in use".to_string(),
        }]
    );
}

#[test]
fn second_run_yields_no_error() {
    let mut cloud = Cloud::with(vec![
        machine("i-A", &["sg-X", "sg-Y"], &["v-1"], Some(1)),
        machine("i-B", &["sg-X"], &["v-2", "v-3"], Some(1)),
    ]);
    let first = cloud.drive(terminate_instances_with_tag(&config(4))).unwrap();
    assert_eq!(first.processed, strings(&["i-A", "i-B"]));
    assert!(first.failures.is_empty());
    cloud.log.clear();
    let second = cloud.drive(terminate_instances_with_tag(&config(4)));
    let second = second.expect("the second run succeeds");
    assert_eq!(second.processed, strings(&["i-A", "i-B"]));
    assert!(second.outstanding.is_empty());
    assert_eq!(cloud.count(is_sleep), 0);
    assert!(cloud.volume_deletions().is_empty());
    assert_eq!(cloud.group_deletions(), strings(&["sg-X", "sg-Y"]));
    assert_eq!(
        second.failures,
        vec![
            CleanupFailure {
                op: CleanupOp::DeleteSecurityGroup,
                target: "sg-X".to_string(),
                reason: "group not found".to_string(),
            },
            CleanupFailure {
                op: CleanupOp::DeleteSecurityGroup,
                target: "sg-Y".to_string(),
                reason: "group not found".to_string(),
            },
        ]
    );
}

#[test]
fn five_instances_sharing_two_groups_give_two_deletions() {
    let mut cloud = Cloud::with(vec![
        machine("i-1", &["sg-a"], &[], Some(1)),
        machine("i-2", &["sg-b", "sg-a"], &[], Some(1)),
        machine("i-3", &["sg-a"], &[], Some(1)),
        machine("i-4", &["sg-b"], &[], Some(1)),
        machine("i-5", &["sg-a", "sg-b", "sg-a"], &[], Some(1)),
    ]);
    cloud.per_reservation = 2;
    let outcome = cloud.drive(terminate_instances_with_tag(&config(2))).unwrap();
    assert_eq!(outcome.processed, strings(&["i-1", "i-2", "i-3", "i-4", "i-5"]));
    assert_eq!(cloud.group_deletions(), strings(&["sg-a", "sg-b"]));
    assert_eq!(cloud.deleted_groups, strings(&["sg-a", "sg-b"]));
}

#[test]
fn strict_subset_is_cleaned_and_the_rest_reported() {
    let mut cloud = Cloud::with(vec![
        machine("i-1", &["sg-1"], &["v-1"], None),
        machine("i-2", &["sg-2"], &["v-2"], Some(1)),
        machine("i-3", &["sg-3"], &["v-3"], Some(4)),
        machine("i-4", &["sg-2", "sg-4"], &["v-4"], Some(2)),
    ]);
    let outcome = cloud.drive(terminate_instances_with_tag(&config(2))).unwrap();
    assert_eq!(outcome.processed, strings(&["i-2", "i-4"]));
    assert_eq!(outcome.outstanding, strings(&["i-1", "i-3"]));
    assert_eq!(cloud.volume_queries(), strings(&["i-2", "i-4"]));
    assert_eq!(cloud.volume_deletions(), strings(&["v-2", "v-4"]));
    assert_eq!(cloud.group_deletions(), strings(&["sg-2", "sg-4"]));
    for id in &outcome.outstanding {
        assert!(!outcome.processed.contains(id));
    }
}

#[test]
fn one_failed_volume_of_three_leaves_the_others_deleted() {
    let mut cloud =
        Cloud::with(vec![machine("i-A", &["sg-X"], &["v-1", "v-2", "v-3"], Some(1))]);
    cloud.undeletable_volumes = strings(&["v-2"]);
    let outcome = cloud.drive(terminate_instances_with_tag(&config(2))).unwrap();
    assert_eq!(cloud.volume_deletions(), strings(&["v-1", "v-2", "v-3"]));
    assert_eq!(cloud.deleted_volumes, strings(&["v-1", "v-3"]));
    assert_eq!(cloud.deleted_groups, strings(&["sg-X"]));
    assert_eq!(outcome.processed, strings(&["i-A"]));
    assert_eq!(
        outcome.failures,
        vec![CleanupFailure {
            op: CleanupOp::DeleteVolume,
            target: "v-2".to_string(),
            reason: "volume in use".to_string(),
        }]
    );
}

#[test]
fn failed_volume_query_is_noted_and_cleanup_goes_on() {
    let mut cloud = Cloud::with(vec![
        machine("i-A", &["sg-X"], &["v-1"], Some(1)),
        machine("i-B", &["sg-Y"], &["v-2"], Some(1)),
    ]);
    cloud.volume_query_errors = strings(&["i-A"]);
    cloud.undeletable_groups = strings(&["sg-X"]);
    let outcome = cloud.drive(terminate_instances_with_tag(&config(2))).unwrap();
    assert_eq!(cloud.volume_queries(), strings(&["i-A", "i-B"]));
    assert_eq!(cloud.volume_deletions(), strings(&["v-2"]));
    assert_eq!(cloud.group_deletions(), strings(&["sg-X", "sg-Y"]));
    assert_eq!(
        outcome.failures,
        vec![
            CleanupFailure {
                op: CleanupOp::ListVolumes,
                target: "i-A".to_string(),
                reason: "volume query denied".to_string(),
            },
            CleanupFailure {
                op: CleanupOp::DeleteSecurityGroup,
                target: "sg-X".to_string(),
                reason: "group in use".to_string(),
            },
        ]
    );
}

#[test]
fn empty_candidate_set_is_a_no_op() {
    let mut cloud = Cloud::with(vec![]);
    let outcome = cloud.drive(terminate_instances_with_tag(&config(5))).unwrap();
    assert_eq!(
        outcome,
        RunOutcome { processed: vec![], outstanding: vec![], failures: vec![] }
    );
    assert_eq!(cloud.log.len(), 1);
    assert_eq!(cloud.count(is_transition), 0);
    assert_eq!(cloud.count(is_cleanup), 0);
    assert_eq!(cloud.polls, 0);
}

#[test]
fn untagged_instances_are_left_alone() {
    let mut other = machine("i-other", &["sg-O"], &["v-O"], Some(1));
    other.tagged = false;
    let mut cloud = Cloud::with(vec![other, machine("i-A", &["sg-X"], &["v-1"], Some(1))]);
    let outcome = cloud.drive(terminate_instances_with_tag(&config(2))).unwrap();
    assert_eq!(outcome.processed, strings(&["i-A"]));
    assert_eq!(cloud.deleted_volumes, strings(&["v-1"]));
    assert_eq!(cloud.deleted_groups, strings(&["sg-X"]));
}

#[test]
fn discovery_failure_aborts_before_any_change() {
    let mut cloud = Cloud::with(vec![machine("i-A", &["sg-X"], &["v-1"], Some(1))]);
    cloud.tag_query_error = Some("access denied".to_string());
    let result = cloud.drive(terminate_instances_with_tag(&config(2)));
    assert_eq!(result, Err(RunError::Discovery("access denied".to_string())));
    assert_eq!(cloud.log.len(), 1);
    assert_eq!(cloud.requested, None);
}

#[test]
fn rejected_transition_aborts_before_cleanup() {
    let mut cloud = Cloud::with(vec![machine("i-A", &["sg-X"], &["v-1"], Some(1))]);
    cloud.transition_error = Some("not permitted".to_string());
    let result = cloud.drive(terminate_instances_with_tag(&config(2)));
    assert_eq!(result, Err(RunError::Transition("not permitted".to_string())));
    assert_eq!(cloud.count(is_transition), 1);
    assert_eq!(cloud.count(is_cleanup), 0);
    assert_eq!(cloud.polls, 0);
}

#[test]
fn failed_poll_aborts_the_run() {
    let mut cloud = Cloud::with(vec![machine("i-A", &["sg-X"], &["v-1"], Some(3))]);
    cloud.poll_error_at = Some(2);
    let result = cloud.drive(terminate_instances_with_tag(&config(5)));
    assert_eq!(result, Err(RunError::Polling("throttled".to_string())));
    assert_eq!(cloud.polls, 2);
    assert_eq!(cloud.count(is_cleanup), 0);
}

#[test]
fn wait_stops_as_soon_as_all_are_terminal() {
    let mut cloud = Cloud::with(vec![
        machine("i-A", &[], &[], Some(2)),
        machine("i-B", &[], &[], Some(3)),
    ]);
    let outcome = cloud.drive(terminate_instances_with_tag(&config(50))).unwrap();
    assert_eq!(outcome.processed, strings(&["i-A", "i-B"]));
    assert!(outcome.outstanding.is_empty());
    assert_eq!(cloud.polls, 3);
    assert_eq!(cloud.slept, 20);
}

#[test]
fn wait_never_exceeds_its_budget() {
    for max_polls in 0..6u32 {
        let mut cloud = Cloud::with(vec![machine("i-A", &["sg-X"], &["v-1"], None)]);
        let outcome = cloud.drive(terminate_instances_with_tag(&config(max_polls))).unwrap();
        assert_eq!(cloud.polls, max_polls as usize);
        assert_eq!(cloud.count(is_sleep), max_polls.saturating_sub(1) as usize);
        assert!(outcome.processed.is_empty());
        assert_eq!(outcome.outstanding, strings(&["i-A"]));
        assert_eq!(cloud.count(is_cleanup), 0);
    }
}

#[test]
fn no_budget_means_request_and_report() {
    let mut cloud = Cloud::with(vec![machine("i-A", &["sg-X"], &["v-1"], Some(0))]);
    let outcome = cloud.drive(stop_instances_with_tag(&config(0))).unwrap();
    assert_eq!(cloud.count(is_transition), 1);
    assert_eq!(cloud.log.len(), 2);
    assert!(outcome.processed.is_empty());
    assert_eq!(outcome.outstanding, strings(&["i-A"]));
}

#[test]
fn stop_waits_for_stopped_not_terminated() {
    let (controller, _) = stop_instances_with_tag(&config(1));
    let record = |state| InstanceRecord {
        instance_id: Some("i-A".to_string()),
        state: Some(state),
        security_groups: vec![],
    };
    let found = vec![Reservation { instances: vec![record(PowerState::Running)] }];
    let (controller, _) = controller.step(Event::Instances(found));
    let (controller, _) = controller.step(Event::Done);
    let terminated = vec![Reservation { instances: vec![record(PowerState::Terminated)] }];
    let (_, action) = controller.step(Event::Instances(terminated));
    assert_eq!(
        action,
        Action::Finish(RunOutcome {
            processed: vec![],
            outstanding: strings(&["i-A"]),
            failures: vec![],
        })
    );
}

#[test]
fn instance_missing_from_the_poll_answer_stays_outstanding() {
    let (controller, _) = terminate_instances_with_tag(&config(1));
    let record = |id: &str, state| InstanceRecord {
        instance_id: Some(id.to_string()),
        state: Some(state),
        security_groups: vec![Some("sg-1".to_string())],
    };
    let found = vec![Reservation {
        instances: vec![record("i-A", PowerState::Running), record("i-B", PowerState::Pending)],
    }];
    let (controller, action) = controller.step(Event::Instances(found));
    assert_eq!(
        action,
        Action::RequestTransition {
            kind: TransitionKind::Terminate,
            instance_ids: strings(&["i-A", "i-B"]),
        }
    );
    let (controller, _) = controller.step(Event::Done);
    let polled = vec![
        Reservation { instances: vec![] },
        Reservation { instances: vec![record("i-B", PowerState::Terminated)] },
    ];
    let (controller, action) = controller.step(Event::Instances(polled));
    assert_eq!(
        action,
        Action::QueryVolumes(Filter {
            name: "attachment.instance-id".to_string(),
            values: strings(&["i-B"]),
        })
    );
    let (controller, action) = controller.step(Event::Volumes(vec![
        VolumeRecord { volume_id: None },
        VolumeRecord { volume_id: Some("v-9".to_string()) },
    ]));
    assert_eq!(action, Action::DeleteVolume("v-9".to_string()));
    let (controller, action) = controller.step(Event::Done);
    assert_eq!(action, Action::DeleteSecurityGroup("sg-1".to_string()));
    let (_, action) = controller.step(Event::Done);
    assert_eq!(
        action,
        Action::Finish(RunOutcome {
            processed: strings(&["i-B"]),
            outstanding: strings(&["i-A"]),
            failures: vec![],
        })
    );
}

#[test]
fn unexpected_event_is_a_protocol_error() {
    let (controller, _) = terminate_instances_with_tag(&config(1));
    let (controller, action) = controller.step(Event::Done);
    assert_eq!(action, Action::Abort(RunError::Protocol));
    let (_, action) = controller.step(Event::Instances(vec![]));
    assert_eq!(action, Action::Abort(RunError::Protocol));

    let (controller, _) = terminate_instances_with_tag(&config(1));
    let (controller, action) = controller.step(Event::Instances(vec![]));
    assert!(matches!(action, Action::Finish(_)));
    let (_, action) = controller.step(Event::Done);
    assert_eq!(action, Action::Abort(RunError::Protocol));

    let (controller, _) = delete_attached_volumes(&strings(&["i-A"]));
    let (_, action) = controller.step(Event::Instances(vec![]));
    assert_eq!(action, Action::Abort(RunError::Protocol));
}

#[test]
fn sleep_carries_the_configured_interval() {
    let mut cloud = Cloud::with(vec![machine("i-A", &[], &[], Some(2))]);
    let settings = Config {
        tag_name: "AutoTerminate".to_string(),
        tag_value: "true".to_string(),
        poll_interval_secs: 7,
        max_polls: 3,
    };
    cloud.drive(terminate_instances_with_tag(&settings)).unwrap();
    assert!(cloud.log.contains(&Action::Sleep { seconds: 7 }));
    assert_eq!(cloud.slept, 7);
}

#[test]
fn delete_attached_volumes_goes_through_every_instance() {
    let mut cloud = Cloud::with(vec![
        machine("i-A", &["sg-X"], &["v-1", "v-2"], None),
        machine("i-B", &["sg-X"], &[], None),
        machine("i-C", &["sg-Y"], &["v-3"], None),
    ]);
    cloud.undeletable_volumes = strings(&["v-1"]);
    let outcome = cloud.drive(delete_attached_volumes(&strings(&["i-A", "i-B", "i-C"]))).unwrap();
    assert_eq!(outcome.processed, strings(&["i-A", "i-B", "i-C"]));
    assert_eq!(cloud.volume_queries(), strings(&["i-A", "i-B", "i-C"]));
    assert_eq!(cloud.deleted_volumes, strings(&["v-2", "v-3"]));
    assert!(cloud.group_deletions().is_empty());
    assert_eq!(outcome.failures.len(), 1);
    assert_eq!(outcome.failures[0].target, "v-1");
}

#[test]
fn delete_attached_volumes_of_nothing_ends_at_once() {
    let (_, action) = delete_attached_volumes(&[]);
    assert_eq!(
        action,
        Action::Finish(RunOutcome { processed: vec![], outstanding: vec![], failures: vec![] })
    );
}

#[test]
fn delete_security_groups_asks_for_the_instances_first() {
    let ids = strings(&["i-A", "i-B"]);
    let (_, action) = delete_security_groups(&ids);
    assert_eq!(
        action,
        Action::QueryInstances(Filter { name: "instance-id".to_string(), values: ids.clone() })
    );
    let mut cloud = Cloud::with(vec![
        machine("i-A", &["sg-X", "sg-Y"], &["v-1"], None),
        machine("i-B", &["sg-Y", "sg-Z"], &["v-2"], None),
        machine("i-C", &["sg-W"], &[], None),
    ]);
    cloud.undeletable_groups = strings(&["sg-Y"]);
    let outcome = cloud.drive(delete_security_groups(&ids)).unwrap();
    assert_eq!(outcome.processed, ids);
    assert_eq!(cloud.group_deletions(), strings(&["sg-X", "sg-Y", "sg-Z"]));
    assert_eq!(cloud.deleted_groups, strings(&["sg-X", "sg-Z"]));
    assert!(cloud.volume_queries().is_empty());
    assert_eq!(
        outcome.failures,
        vec![CleanupFailure {
            op: CleanupOp::DeleteSecurityGroup,
            target: "sg-Y".to_string(),
            reason: "group in use".to_string(),
        }]
    );
}

#[test]
fn delete_security_groups_of_nothing_ends_at_once() {
    let (_, action) = delete_security_groups(&[]);
    assert_eq!(
        action,
        Action::Finish(RunOutcome { processed: vec![], outstanding: vec![], failures: vec![] })
    );
}

#[test]
fn failed_group_lookup_aborts_the_run() {
    let (controller, _) = delete_security_groups(&strings(&["i-A"]));
    let (_, action) = controller.step(Event::Failed("unreachable".to_string()));
    assert_eq!(action, Action::Abort(RunError::Discovery("unreachable".to_string())));
}

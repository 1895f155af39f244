use ec2_lifecycle::cleanup::{security_group_targets, volume_ids};
use ec2_lifecycle::discovery::{all_records, candidate_ids, candidates_from, discover};
use ec2_lifecycle::ec2_manager::{
    default_config, MAX_POLLS, POLL_INTERVAL_SECS, TAG_NAME, TAG_VALUE,
};
use ec2_lifecycle::ident::{
    clone_ids, contains_id, distinct_ids, present_ids, push_distinct, take_front, to_queue,
};
use ec2_lifecycle::model::{
    Filter, InstanceRecord, InstanceRef, PowerState, Reservation, TransitionKind, VolumeRecord,
};
use ec2_lifecycle::outcome::{RunError, RunOutcome};
use ec2_lifecycle::polling::{has_reached, instance_ids, split_by_state};
use ec2_lifecycle::protocol::{id_filter, tag_filter, volume_filter};
use ec2_lifecycle::report::{describe, summary, summary_line};
use std::collections::VecDeque;

fn strings(items: &[&str]) -> Vec<String> {
    items.iter().map(|item| item.to_string()).collect()
}

fn record(id: Option<&str>, state: Option<PowerState>, groups: &[Option<&str>]) -> InstanceRecord {
    InstanceRecord {
        instance_id: id.map(|id| id.to_string()),
        state,
        security_groups: groups.iter().map(|group| group.map(|g| g.to_string())).collect(),
    }
}

fn instance(id: &str, groups: &[&str]) -> InstanceRef {
    InstanceRef { id: id.to_string(), state: None, security_groups: strings(groups) }
}

#[test]
fn terminal_state_of_each_transition() {
    assert_eq!(TransitionKind::Stop.terminal(), PowerState::Stopped);
    assert_eq!(TransitionKind::Terminate.terminal(), PowerState::Terminated);
}

#[test]
fn contains_id_finds_exact_matches_only() {
    let list = strings(&["sg-1", "sg-2"]);
    assert!(contains_id(&list, &"sg-2".to_string()));
    assert!(!contains_id(&list, &"sg".to_string()));
    assert!(!contains_id(&list, &"sg-3".to_string()));
    assert!(!contains_id(&vec![], &"sg-1".to_string()));
}

#[test]
fn push_distinct_appends_new_identifiers_only() {
    let mut list = strings(&["a"]);
    push_distinct(&mut list, "b".to_string());
    push_distinct(&mut list, "a".to_string());
    push_distinct(&mut list, "c".to_string());
    push_distinct(&mut list, "b".to_string());
    assert_eq!(list, strings(&["a", "b", "c"]));
}

#[test]
fn present_ids_skips_missing_identifiers() {
    let items = vec![None, Some("a".to_string()), None, Some("b".to_string()), Some("a".to_string())];
    assert_eq!(present_ids(&items), strings(&["a", "b", "a"]));
    assert_eq!(present_ids(&vec![None, None]), Vec::<String>::new());
}

#[test]
fn distinct_ids_keeps_first_occurrences() {
    assert_eq!(distinct_ids(&strings(&["b", "a", "b", "c", "a", "b"])), strings(&["b", "a", "c"]));
    assert_eq!(distinct_ids(&vec![]), Vec::<String>::new());
}

#[test]
fn clone_ids_copies_in_order() {
    let ids = strings(&["x", "y", "x"]);
    assert_eq!(clone_ids(&ids), ids);
}

#[test]
fn queue_hands_out_in_order() {
    let mut queue = to_queue(strings(&["1", "2", "3"]));
    assert_eq!(queue, VecDeque::from(strings(&["1", "2", "3"])));
    assert_eq!(take_front(&mut queue), Some("1".to_string()));
    assert_eq!(take_front(&mut queue), Some("2".to_string()));
    assert_eq!(take_front(&mut queue), Some("3".to_string()));
    assert_eq!(take_front(&mut queue), None);
    assert!(queue.is_empty());
}

#[test]
fn all_records_keeps_provider_order() {
    let answer = vec![
        Reservation { instances: vec![record(Some("i-1"), None, &[]), record(None, None, &[])] },
        Reservation { instances: vec![] },
        Reservation { instances: vec![record(Some("i-2"), Some(PowerState::Running), &[])] },
    ];
    let listed = all_records(&answer);
    let ids: Vec<Option<String>> = listed.iter().map(|r| r.instance_id.clone()).collect();
    assert_eq!(ids, vec![Some("i-1".to_string()), None, Some("i-2".to_string())]);
}

#[test]
fn discover_builds_the_candidate_set() {
    let answer = vec![
        Reservation {
            instances: vec![
                record(
                    Some("i-1"),
                    Some(PowerState::Running),
                    &[Some("sg-a"), None, Some("sg-b"), Some("sg-a")],
                ),
                record(None, Some(PowerState::Running), &[Some("sg-c")]),
            ],
        },
        Reservation { instances: vec![record(Some("i-2"), None, &[])] },
        Reservation { instances: vec![record(Some("i-3"), Some(PowerState::Terminated), &[None])] },
    ];
    let found = discover(&answer);
    assert_eq!(
        found,
        vec![
            InstanceRef {
                id: "i-1".to_string(),
                state: Some(PowerState::Running),
                security_groups: strings(&["sg-a", "sg-b"]),
            },
            InstanceRef { id: "i-2".to_string(), state: None, security_groups: vec![] },
            InstanceRef {
                id: "i-3".to_string(),
                state: Some(PowerState::Terminated),
                security_groups: vec![],
            },
        ]
    );
    assert_eq!(candidate_ids(&found), strings(&["i-1", "i-2", "i-3"]));
    assert_eq!(candidates_from(&all_records(&answer)), found);
    assert!(discover(&vec![]).is_empty());
    assert!(discover(&vec![Reservation { instances: vec![] }]).is_empty());
}

#[test]
fn has_reached_needs_identifier_and_state() {
    let a = record(Some("i-A"), Some(PowerState::Stopping), &[]);
    let b = record(Some("i-B"), Some(PowerState::Stopped), &[]);
    let c = record(None, Some(PowerState::Stopped), &[]);
    let d = record(Some("i-D"), None, &[]);
    let recs = vec![&a, &b, &c, &d];
    assert!(has_reached(&recs, &"i-B".to_string(), PowerState::Stopped));
    assert!(!has_reached(&recs, &"i-A".to_string(), PowerState::Stopped));
    assert!(has_reached(&recs, &"i-A".to_string(), PowerState::Stopping));
    assert!(!has_reached(&recs, &"i-D".to_string(), PowerState::Stopped));
    assert!(!has_reached(&recs, &"i-E".to_string(), PowerState::Stopped));
    assert!(!has_reached(&vec![], &"i-B".to_string(), PowerState::Stopped));
}

#[test]
fn split_by_state_keeps_candidate_order() {
    let cands = vec![instance("i-1", &[]), instance("i-2", &[]), instance("i-3", &[]), instance("i-4", &[])];
    let r4 = record(Some("i-4"), Some(PowerState::Terminated), &[]);
    let r2 = record(Some("i-2"), Some(PowerState::Terminated), &[]);
    let r3 = record(Some("i-3"), Some(PowerState::ShuttingDown), &[]);
    let recs = vec![&r4, &r2, &r3];
    let (done, open) = split_by_state(&cands, &recs, PowerState::Terminated);
    assert_eq!(instance_ids(&done), strings(&["i-2", "i-4"]));
    assert_eq!(instance_ids(&open), strings(&["i-1", "i-3"]));
    let (done, open) = split_by_state(&cands, &vec![], PowerState::Terminated);
    assert!(done.is_empty());
    assert_eq!(open.len(), 4);
}

#[test]
fn security_group_targets_is_the_union_without_repeats() {
    let a = instance("i-A", &["sg-2", "sg-1"]);
    let b = instance("i-B", &[]);
    let c = instance("i-C", &["sg-1", "sg-3", "sg-2"]);
    assert_eq!(security_group_targets(&vec![&a, &b, &c]), strings(&["sg-2", "sg-1", "sg-3"]));
    assert_eq!(security_group_targets(&vec![&c, &a]), strings(&["sg-1", "sg-3", "sg-2"]));
    assert!(security_group_targets(&vec![]).is_empty());
}

#[test]
fn volume_ids_takes_what_the_answer_names() {
    let answer = vec![
        VolumeRecord { volume_id: Some("v-1".to_string()) },
        VolumeRecord { volume_id: None },
        VolumeRecord { volume_id: Some("v-2".to_string()) },
    ];
    assert_eq!(volume_ids(&answer), strings(&["v-1", "v-2"]));
    assert!(volume_ids(&vec![]).is_empty());
}

#[test]
fn filters_carry_the_provider_names() {
    assert_eq!(
        tag_filter(&"AutoTerminate".to_string(), &"true".to_string()),
        Filter { name: "tag:AutoTerminate".to_string(), values: strings(&["true"]) }
    );
    assert_eq!(
        id_filter(strings(&["i-1", "i-2"])),
        Filter { name: "instance-id".to_string(), values: strings(&["i-1", "i-2"]) }
    );
    assert_eq!(
        volume_filter("i-1".to_string()),
        Filter { name: "attachment.instance-id".to_string(), values: strings(&["i-1"]) }
    );
}

#[test]
fn default_config_has_the_standard_tag() {
    let config = default_config();
    assert_eq!(config.tag_name, "AutoTerminate");
    assert_eq!(config.tag_value, "true");
    assert_eq!(config.poll_interval_secs, 10);
    assert_eq!(config.max_polls, 60);
    assert_eq!(TAG_NAME, "AutoTerminate");
    assert_eq!(TAG_VALUE, "true");
    assert_eq!(POLL_INTERVAL_SECS, 10);
    assert_eq!(MAX_POLLS, 60);
}

#[test]
fn summary_lists_the_processed_instances() {
    let outcome = RunOutcome {
        processed: strings(&["i-A", "i-B"]),
        outstanding: strings(&["i-C"]),
        failures: vec![],
    };
    assert_eq!(
        summary(TransitionKind::Terminate, &outcome, Some("1.5s")),
        "Terminated instances: [\"i-A\", \"i-B\"] in 1.5s"
    );
    assert_eq!(
        summary(TransitionKind::Stop, &outcome, None),
        "Stopped instances: [\"i-A\", \"i-B\"]"
    );
    let nothing = RunOutcome { processed: vec![], outstanding: vec![], failures: vec![] };
    assert_eq!(summary(TransitionKind::Terminate, &nothing, Some("2ms")), "Terminated instances: [] in 2ms");
    let quoted = RunOutcome { processed: strings(&["i-\"x\""]), outstanding: vec![], failures: vec![] };
    assert_eq!(summary(TransitionKind::Stop, &quoted, None), "Stopped instances: [\"i-\\\"x\\\"\"]");
}

#[test]
fn summary_line_joins_its_parts() {
    assert_eq!(summary_line(TransitionKind::Stop, "[]", Some("3s")), "Stopped instances: [] in 3s");
    assert_eq!(summary_line(TransitionKind::Terminate, "none", None), "Terminated instances: none");
}

#[test]
fn describe_names_the_failed_stage() {
    assert_eq!(
        describe(&RunError::Discovery("denied".to_string())),
        "inventory query failed: denied"
    );
    assert_eq!(
        describe(&RunError::Transition("denied".to_string())),
        "transition request failed: denied"
    );
    assert_eq!(
        describe(&RunError::Polling("throttled".to_string())),
        "inventory query failed while waiting: throttled"
    );
    assert_eq!(
        describe(&RunError::Protocol),
        "event does not answer the action that was asked for"
    );
}

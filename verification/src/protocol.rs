use crate::model::{
    Filter, FilterView, InstanceRecordView, Reservation, TransitionKind, VolumeRecord,
};
use crate::outcome::{RunError, RunErrorView, RunOutcome, RunOutcomeView};
use vstd::prelude::*;
use vstd::string::StringExecFns;

verus! {

/// What the controller asks its driver to do next.
#[derive(Clone, Debug, PartialEq, Eq)]
pub enum Action {
    /// Query the inventory for the instances that match the filter.
    QueryInstances(Filter),
    /// Send one batched transition request for the listed instances.
    RequestTransition { kind: TransitionKind, instance_ids: Vec<String> },
    /// Wait for the given number of seconds.
    Sleep { seconds: u64 },
    /// Query the volumes that match the filter.
    QueryVolumes(Filter),
    /// Delete the volume with this identifier.
    DeleteVolume(String),
    /// Delete the security group with this identifier.
    DeleteSecurityGroup(String),
    /// The run is over and succeeded; nothing more is to be done.
    Finish(RunOutcome),
    /// The run is over and failed; nothing more is to be done.
    Abort(RunError),
}

pub enum ActionView {
    QueryInstances(FilterView),
    RequestTransition { kind: TransitionKind, instance_ids: Seq<Seq<char>> },
    Sleep { seconds: u64 },
    QueryVolumes(FilterView),
    DeleteVolume(Seq<char>),
    DeleteSecurityGroup(Seq<char>),
    Finish(RunOutcomeView),
    Abort(RunErrorView),
}

impl DeepView for Action {
    type V = ActionView;

    open spec fn deep_view(&self) -> ActionView {
        match self {
            Action::QueryInstances(filter) => ActionView::QueryInstances(filter.deep_view()),
            Action::RequestTransition { kind, instance_ids } => ActionView::RequestTransition {
                kind: *kind,
                instance_ids: instance_ids.deep_view(),
            },
            Action::Sleep { seconds } => ActionView::Sleep { seconds: *seconds },
            Action::QueryVolumes(filter) => ActionView::QueryVolumes(filter.deep_view()),
            Action::DeleteVolume(id) => ActionView::DeleteVolume(id@),
            Action::DeleteSecurityGroup(id) => ActionView::DeleteSecurityGroup(id@),
            Action::Finish(outcome) => ActionView::Finish(outcome.deep_view()),
            Action::Abort(error) => ActionView::Abort(error.deep_view()),
        }
    }
}

/// What the driver reports back after it has performed an action.
#[derive(Clone, Debug, PartialEq, Eq)]
pub enum Event {
    /// The answer to an inventory query.
    Instances(Vec<Reservation>),
    /// The answer to a volume query.
    Volumes(Vec<VolumeRecord>),
    /// A request, a deletion or a sleep completed.
    Done,
    /// The provider rejected the action or could not be reached.
    Failed(String),
}

pub enum EventView {
    Instances(Seq<Seq<InstanceRecordView>>),
    Volumes(Seq<Option<Seq<char>>>),
    Done,
    Failed(Seq<char>),
}

impl DeepView for Event {
    type V = EventView;

    open spec fn deep_view(&self) -> EventView {
        match self {
            Event::Instances(answer) => EventView::Instances(answer.deep_view()),
            Event::Volumes(answer) => EventView::Volumes(answer.deep_view()),
            Event::Done => EventView::Done,
            Event::Failed(reason) => EventView::Failed(reason@),
        }
    }
}

/// The inventory filter that selects the instances bearing the marker tag.
pub open spec fn tag_filter_view(name: Seq<char>, value: Seq<char>) -> FilterView {
    FilterView { name: "tag:"@ + name, values: seq![value] }
}

/// The inventory filter that selects exactly the listed instances.
pub open spec fn id_filter_view(ids: Seq<Seq<char>>) -> FilterView {
    FilterView { name: "instance-id"@, values: ids }
}

/// The volume filter that selects the volumes attached to one instance.
pub open spec fn volume_filter_view(instance_id: Seq<char>) -> FilterView {
    FilterView { name: "attachment.instance-id"@, values: seq![instance_id] }
}

pub fn tag_filter(name: &String, value: &String) -> (filter: Filter)
    ensures
        filter.deep_view() == tag_filter_view(name@, value@),
{
    let mut filter_name = "tag:".to_owned();
    filter_name.append(name.as_str());
    let mut values: Vec<String> = Vec::new();
    values.push(value.clone());
    assert(values.deep_view() =~= seq![value@]);
    Filter { name: filter_name, values }
}

pub fn id_filter(ids: Vec<String>) -> (filter: Filter)
    ensures
        filter.deep_view() == id_filter_view(ids.deep_view()),
{
    Filter { name: "instance-id".to_owned(), values: ids }
}

pub fn volume_filter(instance_id: String) -> (filter: Filter)
    ensures
        filter.deep_view() == volume_filter_view(instance_id@),
{
    let mut values: Vec<String> = Vec::new();
    values.push(instance_id);
    assert(values.deep_view() =~= seq![instance_id@]);
    Filter { name: "attachment.instance-id".to_owned(), values }
}

} // verus!

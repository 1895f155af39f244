use vstd::prelude::*;

verus! {

/// Power state of a virtual machine, as the provider reports it.
#[derive(Clone, Copy, Debug, PartialEq, Eq, Structural)]
pub enum PowerState {
    Pending,
    Running,
    Stopping,
    Stopped,
    ShuttingDown,
    Terminated,
}

/// The power-state transition a deployment asks for.
#[derive(Clone, Copy, Debug, PartialEq, Eq, Structural)]
pub enum TransitionKind {
    Stop,
    Terminate,
}

impl TransitionKind {
    /// The state in which an instance rests once the transition has completed.
    pub open spec fn terminal_state(self) -> PowerState {
        match self {
            TransitionKind::Stop => PowerState::Stopped,
            TransitionKind::Terminate => PowerState::Terminated,
        }
    }

    pub fn terminal(self) -> (state: PowerState)
        ensures
            state == self.terminal_state(),
    {
        match self {
            TransitionKind::Stop => PowerState::Stopped,
            TransitionKind::Terminate => PowerState::Terminated,
        }
    }
}

/// One instance as an inventory query returns it. The provider may leave any
/// field out.
#[derive(Clone, Debug, PartialEq, Eq)]
pub struct InstanceRecord {
    pub instance_id: Option<String>,
    pub state: Option<PowerState>,
    pub security_groups: Vec<Option<String>>,
}

pub struct InstanceRecordView {
    pub instance_id: Option<Seq<char>>,
    pub state: Option<PowerState>,
    pub security_groups: Seq<Option<Seq<char>>>,
}

impl DeepView for InstanceRecord {
    type V = InstanceRecordView;

    open spec fn deep_view(&self) -> InstanceRecordView {
        InstanceRecordView {
            instance_id: self.instance_id.deep_view(),
            state: self.state,
            security_groups: self.security_groups.deep_view(),
        }
    }
}

/// A group of instance records; an inventory answer is a list of these.
#[derive(Clone, Debug, PartialEq, Eq)]
pub struct Reservation {
    pub instances: Vec<InstanceRecord>,
}

impl DeepView for Reservation {
    type V = Seq<InstanceRecordView>;

    open spec fn deep_view(&self) -> Seq<InstanceRecordView> {
        self.instances.deep_view()
    }
}

/// One volume as a volume query returns it.
#[derive(Clone, Debug, PartialEq, Eq)]
pub struct VolumeRecord {
    pub volume_id: Option<String>,
}

impl DeepView for VolumeRecord {
    type V = Option<Seq<char>>;

    open spec fn deep_view(&self) -> Option<Seq<char>> {
        self.volume_id.deep_view()
    }
}

/// Snapshot of one candidate instance, taken at discovery: its identifier,
/// the power state it had then, and the security groups associated with it,
/// each listed once.
#[derive(Clone, Debug, PartialEq, Eq)]
pub struct InstanceRef {
    pub id: String,
    pub state: Option<PowerState>,
    pub security_groups: Vec<String>,
}

pub struct InstanceRefView {
    pub id: Seq<char>,
    pub state: Option<PowerState>,
    pub security_groups: Seq<Seq<char>>,
}

impl DeepView for InstanceRef {
    type V = InstanceRefView;

    open spec fn deep_view(&self) -> InstanceRefView {
        InstanceRefView {
            id: self.id@,
            state: self.state,
            security_groups: self.security_groups.deep_view(),
        }
    }
}

/// A name/values filter of an inventory or volume query.
#[derive(Clone, Debug, PartialEq, Eq)]
pub struct Filter {
    pub name: String,
    pub values: Vec<String>,
}

pub struct FilterView {
    pub name: Seq<char>,
    pub values: Seq<Seq<char>>,
}

impl DeepView for Filter {
    type V = FilterView;

    open spec fn deep_view(&self) -> FilterView {
        FilterView { name: self.name@, values: self.values.deep_view() }
    }
}

} // verus!

use vstd::prelude::*;
use crate::instance::Instance;
use crate::launcher::InstancesMap;

verus! {

/// An edit typed into the advanced settings of an instance.
pub enum AdvancedMessage {
    NameTextInputChanged(String),
    ArgsTextInputChanged(String),
}

/// The advanced settings of one instance: the instance as it is being edited, the
/// name it had when the settings were opened (so the edited instance can replace
/// it), and the launch arguments typed so far.
pub struct AdvancedFrame {
    pub old_name: String,
    pub instance: Option<Instance>,
    pub args: String,
}

/// `i` with its name replaced by `name`.
pub open spec fn renamed(i: Instance, name: String) -> Instance {
    Instance { name: name, ..i }
}

impl Default for AdvancedFrame {
    /// No instance opened, no name, no arguments.
    fn default() -> (r: Self)
        ensures
            r.old_name@ == Seq::<char>::empty(),
            r.instance is None,
            r.args@ == Seq::<char>::empty(),
    {
        AdvancedFrame { old_name: String::new(), instance: None, args: String::new() }
    }
}

impl AdvancedFrame {
    /// Opens the advanced settings of `instance`.
    pub fn new(instance: Instance) -> (r: Self)
        ensures
            r.old_name@ == instance.name@,
            r.instance == Some(instance),
            r.args@ == Seq::<char>::empty(),
    {
        let old_name = instance.name.clone();
        AdvancedFrame { old_name, instance: Some(instance), args: String::new() }
    }

    /// Applies an edit: a new name renames the instance being edited, new arguments
    /// replace the arguments typed so far. The name the settings were opened with
    /// stays as it was.
    pub fn update(&mut self, message: AdvancedMessage)
        requires
            old(self).instance is Some,
        ensures
            final(self).old_name == old(self).old_name,
            match message {
                AdvancedMessage::NameTextInputChanged(s) => {
                    &&& final(self).instance == Some(renamed(old(self).instance.unwrap(), s))
                    &&& final(self).args == old(self).args
                },
                AdvancedMessage::ArgsTextInputChanged(s) => {
                    &&& final(self).instance == old(self).instance
                    &&& final(self).args == s
                },
            },
    {
        match message {
            AdvancedMessage::NameTextInputChanged(s) => {
                let mut i = self.instance.take().unwrap();
                i.name = s;
                self.instance = Some(i);
            },
            AdvancedMessage::ArgsTextInputChanged(s) => {
                self.args = s;
            },
        }
    }
}

/// The list of instances shown on the instances tab.
pub struct InstancesFrame {
    pub instances: InstancesMap,
}

/// Whether the advanced settings of an instance are open over the instance list.
pub enum AdvancedFrameOpen {
    Open(AdvancedFrame),
    Closed,
}

/// The instances tab: the list of instances and, when open, the advanced settings
/// of one of them, which are then shown in place of the list.
pub struct InstanceFrameHolder {
    pub instances_frame: InstancesFrame,
    pub advanced_frame_open: AdvancedFrameOpen,
}

impl Default for InstanceFrameHolder {
    /// No instances, and the advanced settings closed.
    fn default() -> (r: Self)
        ensures
            r.instances_frame.instances@ == Seq::<Instance>::empty(),
            r.advanced_frame_open is Closed,
    {
        InstanceFrameHolder {
            instances_frame: InstancesFrame { instances: InstancesMap::new() },
            advanced_frame_open: AdvancedFrameOpen::Closed,
        }
    }
}

impl InstanceFrameHolder {
    /// The advanced settings shown in place of the list, if they are open.
    pub fn shown_advanced(&self) -> (r: Option<&AdvancedFrame>)
        ensures
            match self.advanced_frame_open {
                AdvancedFrameOpen::Open(f) => r == Some(&f),
                AdvancedFrameOpen::Closed => r is None,
            },
    {
        match &self.advanced_frame_open {
            AdvancedFrameOpen::Open(f) => Some(f),
            AdvancedFrameOpen::Closed => None,
        }
    }
}

} // verus!

//! The life of one device, from the first step of its creation to the
//! release of its handle: which step comes next, given how the last one
//! went.

use vstd::prelude::*;

verus! {

/// The steps of a device's life, in the order in which they are taken when
/// nothing fails.
#[derive(Clone, Copy, Debug, PartialEq, Eq, Structural)]
pub enum Step {
    /// Have the target's initialization build the device descriptor.
    BuildDescriptor,
    /// Create the kernel-facing device handle.
    CreateDevice,
    /// Start one reactor for each queue, each with its tasks.
    SpawnQueues,
    /// Wait until the device reports that it is live.
    AwaitLive,
    /// Hand the device's id to the process that launched this one.
    PublishId,
    /// Wait until a stop or a deletion is observed.
    AwaitStop,
    /// Have every reactor's tasks observe the stop and drain.
    PropagateAbort,
    /// Release the device handle.
    ReleaseDevice,
}

/// A device's life as a mathematical value.
pub struct LifecycleModel {
    /// The step to take now; `None` when the life is over.
    pub next: Option<Step>,
    /// Whether the id is to be published once the device is live.
    pub publish: bool,
    /// Whether any step has failed.
    pub failed: bool,
    /// Whether the device reported that it is live.
    pub live: bool,
    /// Whether a kernel device is registered.
    pub registered: bool,
    /// Whether reactors were started.
    pub queues_spawned: bool,
    /// Whether the stop was propagated to the reactors.
    pub abort_propagated: bool,
    /// Whether the release of the handle was attempted.
    pub release_attempted: bool,
}

impl LifecycleModel {
    /// A life at its start.
    pub open spec fn init(publish: bool) -> LifecycleModel {
        LifecycleModel {
            next: Some(Step::BuildDescriptor),
            publish,
            failed: false,
            live: false,
            registered: false,
            queues_spawned: false,
            abort_propagated: false,
            release_attempted: false,
        }
    }

    /// The life after the step that was due went well (`ok`) or failed.
    ///
    /// Before a device is registered a failure ends the life at once. From
    /// then on a failure leads to teardown: the stop is propagated if
    /// reactors may be running, then the handle is released. Teardown is
    /// carried through whatever fails in it.
    pub open spec fn advance(self, ok: bool) -> LifecycleModel {
        let failed = self.failed || !ok;
        match self.next {
            None => self,
            Some(Step::BuildDescriptor) => LifecycleModel {
                next: if ok {
                    Some(Step::CreateDevice)
                } else {
                    None
                },
                failed,
                ..self
            },
            Some(Step::CreateDevice) => LifecycleModel {
                next: if ok {
                    Some(Step::SpawnQueues)
                } else {
                    None
                },
                registered: ok,
                failed,
                ..self
            },
            Some(Step::SpawnQueues) => LifecycleModel {
                next: if ok {
                    Some(Step::AwaitLive)
                } else {
                    Some(Step::PropagateAbort)
                },
                queues_spawned: true,
                failed,
                ..self
            },
            Some(Step::AwaitLive) => LifecycleModel {
                next: if !ok {
                    Some(Step::PropagateAbort)
                } else if self.publish {
                    Some(Step::PublishId)
                } else {
                    Some(Step::AwaitStop)
                },
                live: ok,
                failed,
                ..self
            },
            Some(Step::PublishId) => LifecycleModel {
                next: if ok {
                    Some(Step::AwaitStop)
                } else {
                    Some(Step::PropagateAbort)
                },
                failed,
                ..self
            },
            Some(Step::AwaitStop) => LifecycleModel {
                next: Some(Step::PropagateAbort),
                failed,
                ..self
            },
            Some(Step::PropagateAbort) => LifecycleModel {
                next: Some(Step::ReleaseDevice),
                abort_propagated: true,
                failed,
                ..self
            },
            Some(Step::ReleaseDevice) => LifecycleModel {
                next: None,
                release_attempted: true,
                registered: !ok,
                failed,
                ..self
            },
        }
    }

    /// The life after a sequence of steps went as `outcomes` say, from first
    /// to last.
    pub open spec fn run(self, outcomes: Seq<bool>) -> LifecycleModel
        decreases outcomes.len(),
    {
        if outcomes.len() == 0 {
            self
        } else {
            self.run(outcomes.drop_last()).advance(outcomes.last())
        }
    }

    /// What holds at every point of every life.
    pub open spec fn inv(self) -> bool {
        &&& self.next is None ==> self.failed || self.release_attempted
        &&& self.release_attempted ==> self.next is None && self.abort_propagated
        &&& self.registered && self.release_attempted ==> self.failed
        &&& self.registered && self.next is None ==> self.release_attempted
        &&& self.queues_spawned ==> self.registered || self.release_attempted
        &&& self.live ==> self.queues_spawned
        &&& self.next == Some(Step::ReleaseDevice) ==> self.abort_propagated && self.registered
        &&& self.next == Some(Step::PropagateAbort) ==> self.registered && self.queues_spawned
        &&& !self.failed && (self.next == Some(Step::PropagateAbort) || self.next == Some(
            Step::ReleaseDevice,
        ) || self.release_attempted) ==> self.live
        &&& self.next == Some(Step::PublishId) ==> self.live && self.publish && !self.failed
        &&& self.next == Some(Step::AwaitStop) ==> self.live && !self.failed
        &&& self.next == Some(Step::BuildDescriptor) || self.next == Some(Step::CreateDevice)
            ==> !self.registered && !self.queues_spawned && !self.failed
        &&& self.next == Some(Step::SpawnQueues) || self.next == Some(Step::AwaitLive)
            ==> self.registered && !self.failed && !self.live
    }
}

proof fn lemma_run_inv(publish: bool, outcomes: Seq<bool>)
    ensures
        LifecycleModel::init(publish).run(outcomes).inv(),
        LifecycleModel::init(publish).run(outcomes).publish == publish,
    decreases outcomes.len(),
{
    if outcomes.len() > 0 {
        lemma_run_inv(publish, outcomes.drop_last());
    }
}

/// However the steps of a life go, when it is over no kernel device is left
/// registered unless the release of its handle was attempted and failed; in
/// particular a failure before the device is live leaves none behind once
/// teardown has gone through. Reactors that were started have been told to
/// stop before the handle is released, and the id is published and the stop
/// awaited only for a device that is live.
pub proof fn lemma_no_partial_device(publish: bool, outcomes: Seq<bool>)
    ensures
        ({
            let end = LifecycleModel::init(publish).run(outcomes);
            &&& end.next is None && end.registered ==> end.release_attempted && end.failed
            &&& end.next is None && !end.failed ==> !end.registered && end.live
                && end.abort_propagated
            &&& end.release_attempted && end.queues_spawned ==> end.abort_propagated
            &&& end.next == Some(Step::PublishId) ==> end.live && publish
            &&& end.next == Some(Step::AwaitStop) ==> end.live
        }),
{
    lemma_run_inv(publish, outcomes);
}

/// A life in which every step goes well takes the steps in their order,
/// publishing the id only where that was asked for, and ends without a
/// kernel device and without failure.
pub proof fn lemma_clean_life(publish: bool)
    ensures
        ({
            let start = LifecycleModel::init(publish);
            let live = start.advance(true).advance(true).advance(true).advance(true);
            let waiting = if publish {
                live.advance(true)
            } else {
                live
            };
            let end = waiting.advance(true).advance(true).advance(true);
            &&& start.next == Some(Step::BuildDescriptor)
            &&& start.advance(true).next == Some(Step::CreateDevice)
            &&& start.advance(true).advance(true).next == Some(Step::SpawnQueues)
            &&& start.advance(true).advance(true).advance(true).next == Some(Step::AwaitLive)
            &&& live.next == if publish {
                Some(Step::PublishId)
            } else {
                Some(Step::AwaitStop)
            }
            &&& waiting.next == Some(Step::AwaitStop)
            &&& waiting.advance(true).next == Some(Step::PropagateAbort)
            &&& waiting.advance(true).advance(true).next == Some(Step::ReleaseDevice)
            &&& end.next is None
            &&& !end.failed
            &&& !end.registered
        }),
{
}

/// The coordinator of one device's life.
#[derive(Clone, Copy, Debug, PartialEq, Eq)]
pub struct Coordinator {
    next: Option<Step>,
    publish: bool,
    failed: bool,
    live: bool,
    registered: bool,
    queues_spawned: bool,
    abort_propagated: bool,
    release_attempted: bool,
}

impl View for Coordinator {
    type V = LifecycleModel;

    closed spec fn view(&self) -> LifecycleModel {
        LifecycleModel {
            next: self.next,
            publish: self.publish,
            failed: self.failed,
            live: self.live,
            registered: self.registered,
            queues_spawned: self.queues_spawned,
            abort_propagated: self.abort_propagated,
            release_attempted: self.release_attempted,
        }
    }
}

impl Coordinator {
    /// A coordinator at the start of a device's life. `publish` says whether
    /// the device's id is to be handed to the launching process.
    pub fn new(publish: bool) -> (c: Coordinator)
        ensures
            c@ == LifecycleModel::init(publish),
    {
        Coordinator {
            next: Some(Step::BuildDescriptor),
            publish,
            failed: false,
            live: false,
            registered: false,
            queues_spawned: false,
            abort_propagated: false,
            release_attempted: false,
        }
    }

    /// The step to take now, or `None` when the life is over.
    pub fn next_step(&self) -> (r: Option<Step>)
        ensures
            r == self@.next,
    {
        self.next
    }

    /// Whether any step has failed.
    pub fn failed(&self) -> (r: bool)
        ensures
            r == self@.failed,
    {
        self.failed
    }

    /// Whether a kernel device is registered.
    pub fn registered(&self) -> (r: bool)
        ensures
            r == self@.registered,
    {
        self.registered
    }

    /// Whether the device reported that it is live.
    pub fn live(&self) -> (r: bool)
        ensures
            r == self@.live,
    {
        self.live
    }

    /// Takes the outcome of the step that was due and returns the step to
    /// take next, or `None` when the life is over.
    pub fn advance(&mut self, ok: bool) -> (r: Option<Step>)
        ensures
            final(self)@ == old(self)@.advance(ok),
            r == final(self)@.next,
    {
        if !ok && self.next.is_some() {
            self.failed = true;
        }
        match self.next {
            None => {},
            Some(Step::BuildDescriptor) => {
                self.next = if ok {
                    Some(Step::CreateDevice)
                } else {
                    None
                };
            },
            Some(Step::CreateDevice) => {
                self.registered = ok;
                self.next = if ok {
                    Some(Step::SpawnQueues)
                } else {
                    None
                };
            },
            Some(Step::SpawnQueues) => {
                self.queues_spawned = true;
                self.next = if ok {
                    Some(Step::AwaitLive)
                } else {
                    Some(Step::PropagateAbort)
                };
            },
            Some(Step::AwaitLive) => {
                self.live = ok;
                self.next = if !ok {
                    Some(Step::PropagateAbort)
                } else if self.publish {
                    Some(Step::PublishId)
                } else {
                    Some(Step::AwaitStop)
                };
            },
            Some(Step::PublishId) => {
                self.next = if ok {
                    Some(Step::AwaitStop)
                } else {
                    Some(Step::PropagateAbort)
                };
            },
            Some(Step::AwaitStop) => {
                self.next = Some(Step::PropagateAbort);
            },
            Some(Step::PropagateAbort) => {
                self.abort_propagated = true;
                self.next = Some(Step::ReleaseDevice);
            },
            Some(Step::ReleaseDevice) => {
                self.release_attempted = true;
                self.registered = !ok;
                self.next = None;
            },
        }
        self.next
    }
}

} // verus!

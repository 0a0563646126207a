//! The reactor of one queue: it owns the queue's tasks, one for each tag,
//! routes every completion to the task that owns its tag, and ends when all
//! of them have ended.

use crate::descriptor::ConfigError;
use crate::protocol::{Command, Completion, Opcode, ProtocolError, UBLK_MAX_QUEUE_DEPTH};
use crate::task::{
    is_protocol_trace, lemma_opcode_sequence, lemma_run_concat, IoTask, TaskAction, TaskEvent,
    TaskModel, TaskState,
};
use vstd::prelude::*;

verus! {

/// What waking one task led to.
#[derive(Clone, Copy, Debug, PartialEq, Eq, Structural)]
pub struct Wake {
    /// The tag of the task that was woken: the tag of the completion.
    pub tag: u16,
    /// `Dispatch` where a request is to be handled, `Retire` where the task
    /// has ended.
    pub action: TaskAction,
}

/// What can happen to a queue.
#[derive(Clone, Copy, Debug, PartialEq, Eq, Structural)]
pub enum QueueEvent {
    /// The task of `tag` submits its armed command.
    Submit { tag: u16 },
    /// A completion arrives.
    Completion(Completion),
    /// The handler of `tag` delivers the result of its request.
    Commit { tag: u16, result: i32 },
    /// The device stops.
    Stop,
}

/// What one pass over a batch of completions comes to.
pub struct PollModel {
    pub reactor: ReactorModel,
    pub wakes: Seq<Wake>,
    pub error: Option<ProtocolError>,
}

/// A reactor as a mathematical value: its tasks in tag order, and whether the
/// device was told to stop.
pub struct ReactorModel {
    pub tasks: Seq<TaskModel>,
    pub stopping: bool,
}

impl ReactorModel {
    /// A reactor at the start of its life: tag `i` owns buffer `i`, every
    /// task is armed with `FetchReq`.
    pub open spec fn init(buffers: Seq<u64>) -> ReactorModel {
        ReactorModel {
            tasks: Seq::new(buffers.len(), |i: int| TaskModel::init(i as u16, buffers[i])),
            stopping: false,
        }
    }

    /// Every tag has its task, and the task at place `i` is the one for tag
    /// `i`.
    pub open spec fn wf(self) -> bool {
        &&& 0 < self.tasks.len() <= UBLK_MAX_QUEUE_DEPTH
        &&& forall|i: int| 0 <= i < self.tasks.len() ==> (#[trigger] self.tasks[i]).tag == i
    }

    /// Why the task of `tag` cannot take `event`, if it cannot.
    pub open spec fn error(self, tag: u16, event: TaskEvent) -> Option<ProtocolError> {
        if tag >= self.tasks.len() {
            Some(ProtocolError::TagOutOfRange)
        } else if !self.tasks[tag as int].enabled(event) {
            Some(self.tasks[tag as int].violation(event))
        } else {
            None
        }
    }

    /// The reactor after the task of `tag` took `event`. No other task
    /// changes, and where the event is a violation none does.
    pub open spec fn step(self, tag: u16, event: TaskEvent) -> ReactorModel {
        if self.error(tag, event) is Some {
            self
        } else {
            ReactorModel {
                tasks: self.tasks.update(tag as int, self.tasks[tag as int].next(event)),
                ..self
            }
        }
    }

    /// The event that a completion is for its task.
    pub open spec fn completion_event(completion: Completion) -> TaskEvent {
        TaskEvent::Complete { result_code: completion.result_code }
    }

    /// The reactor after one completion woke its task.
    pub open spec fn completed(self, completion: Completion) -> ReactorModel {
        self.step(completion.tag, Self::completion_event(completion))
    }

    /// What waking the task of a completion leads to.
    pub open spec fn wake(self, completion: Completion) -> Wake {
        Wake {
            tag: completion.tag,
            action: self.tasks[completion.tag as int].action(Self::completion_event(completion)),
        }
    }

    /// One pass over a batch of completions, in the order of the batch. The
    /// pass ends at the first completion that violates the protocol; those
    /// before it have woken their tasks.
    pub open spec fn poll(self, completions: Seq<Completion>) -> PollModel
        decreases completions.len(),
    {
        if completions.len() == 0 {
            PollModel { reactor: self, wakes: Seq::empty(), error: None }
        } else {
            let earlier = self.poll(completions.drop_last());
            let completion = completions.last();
            if earlier.error is Some {
                earlier
            } else {
                match earlier.reactor.error(completion.tag, Self::completion_event(completion)) {
                    Some(e) => PollModel { error: Some(e), ..earlier },
                    None => PollModel {
                        reactor: earlier.reactor.completed(completion),
                        wakes: earlier.wakes.push(earlier.reactor.wake(completion)),
                        error: None,
                    },
                }
            }
        }
    }

    /// The reactor after the handler of `tag` produced `result`: the task
    /// commits it and submits at once, or, where the device is stopping, ends
    /// without submitting.
    pub open spec fn committed(self, tag: u16, result: i32) -> ReactorModel {
        let armed = self.step(tag, TaskEvent::Commit { result });
        if self.error(tag, TaskEvent::Commit { result }) is Some {
            self
        } else if self.stopping {
            armed.step(tag, TaskEvent::Stop)
        } else {
            armed.step(tag, TaskEvent::Submit)
        }
    }

    /// The command that committing `result` for `tag` puts on the ring.
    pub open spec fn commit_command(self, tag: u16, result: i32) -> Command {
        Command {
            opcode: Opcode::CommitAndFetchReq,
            tag,
            buffer_address: self.tasks[tag as int].buffer_address,
            result_value: result,
        }
    }

    /// The reactor after every armed task among the first `n` submitted its
    /// command.
    pub open spec fn started(self, n: int) -> ReactorModel
        decreases n,
    {
        if n <= 0 {
            self
        } else {
            self.started(n - 1).step((n - 1) as u16, TaskEvent::Submit)
        }
    }

    /// The commands of the armed tasks among the first `n`, in tag order.
    pub open spec fn armed_commands(self, n: int) -> Seq<Command>
        decreases n,
    {
        if n <= 0 {
            Seq::empty()
        } else if self.tasks[n - 1].state is Armed {
            self.armed_commands(n - 1).push(self.tasks[n - 1].armed_command())
        } else {
            self.armed_commands(n - 1)
        }
    }

    /// The reactor after the device was told to stop: every task took the
    /// stop, so all have ended but those whose handler is at work.
    pub open spec fn stopped(self) -> ReactorModel {
        ReactorModel {
            tasks: Seq::new(self.tasks.len(), |i: int| self.tasks[i].next(TaskEvent::Stop)),
            stopping: true,
        }
    }

    /// Whether every task has ended, so that the reactor may return.
    pub open spec fn done(self) -> bool {
        forall|i: int| 0 <= i < self.tasks.len() ==> (#[trigger] self.tasks[i]).state is Aborted
    }

    /// Whether no task has a request in handling.
    pub open spec fn idle(self) -> bool {
        forall|i: int|
            0 <= i < self.tasks.len() ==> !((#[trigger] self.tasks[i]).state is Dispatching)
    }

    /// The reactor after one event. An event that violates the protocol
    /// changes nothing.
    pub open spec fn apply(self, event: QueueEvent) -> ReactorModel {
        match event {
            QueueEvent::Submit { tag } => self.step(tag, TaskEvent::Submit),
            QueueEvent::Completion(completion) => self.completed(completion),
            QueueEvent::Commit { tag, result } => self.committed(tag, result),
            QueueEvent::Stop => self.stopped(),
        }
    }

    /// The reactor after a sequence of events, taken from first to last.
    pub open spec fn run(self, events: Seq<QueueEvent>) -> ReactorModel
        decreases events.len(),
    {
        if events.len() == 0 {
            self
        } else {
            self.run(events.drop_last()).apply(events.last())
        }
    }

    /// What one event of the queue is to the task of `tag`: nothing, unless
    /// the event names that tag or is the stop of the device. A result that
    /// is delivered is committed and followed at once by the next submission
    /// or, where the device is stopping, by the end of the task.
    pub open spec fn events_of(self, event: QueueEvent, tag: u16) -> Seq<TaskEvent> {
        match event {
            QueueEvent::Submit { tag: t } => if t == tag {
                seq![TaskEvent::Submit]
            } else {
                Seq::empty()
            },
            QueueEvent::Completion(completion) => if completion.tag == tag {
                seq![Self::completion_event(completion)]
            } else {
                Seq::empty()
            },
            QueueEvent::Commit { tag: t, result } => if t != tag || self.error(
                t,
                TaskEvent::Commit { result },
            ) is Some {
                Seq::empty()
            } else {
                seq![
                    TaskEvent::Commit { result },
                    if self.stopping {
                        TaskEvent::Stop
                    } else {
                        TaskEvent::Submit
                    },
                ]
            },
            QueueEvent::Stop => seq![TaskEvent::Stop],
        }
    }

    /// What a sequence of events of the queue is to the task of `tag`: its
    /// own events, in their order.
    pub open spec fn task_events(self, events: Seq<QueueEvent>, tag: u16) -> Seq<TaskEvent>
        decreases events.len(),
    {
        if events.len() == 0 {
            Seq::empty()
        } else {
            self.task_events(events.drop_last(), tag) + self.run(events.drop_last()).events_of(
                events.last(),
                tag,
            )
        }
    }

    /// The events that a batch of completions brings to the task of `tag`, in
    /// the order of the batch.
    pub open spec fn events_for(completions: Seq<Completion>, tag: u16) -> Seq<TaskEvent>
        decreases completions.len(),
    {
        if completions.len() == 0 {
            Seq::empty()
        } else if completions.last().tag == tag {
            Self::events_for(completions.drop_last(), tag).push(
                Self::completion_event(completions.last()),
            )
        } else {
            Self::events_for(completions.drop_last(), tag)
        }
    }
}

/// A step keeps the reactor well formed and touches no task but the one it
/// names: every other tag's task is as it was.
pub proof fn lemma_step_frame(reactor: ReactorModel, tag: u16, event: TaskEvent)
    requires
        reactor.wf(),
    ensures
        reactor.step(tag, event).wf(),
        reactor.step(tag, event).tasks.len() == reactor.tasks.len(),
        reactor.step(tag, event).stopping == reactor.stopping,
        forall|other: int|
            0 <= other < reactor.tasks.len() && other != tag ==> reactor.step(
                tag,
                event,
            ).tasks[other] == reactor.tasks[other],
        reactor.error(tag, event) is None ==> reactor.step(tag, event).tasks[tag as int]
            == reactor.tasks[tag as int].next(event),
{
}

/// Steps of two different tags do not see each other: whether each is
/// allowed, what it does and where the two lead is the same in either order.
pub proof fn lemma_steps_commute(
    reactor: ReactorModel,
    tag1: u16,
    event1: TaskEvent,
    tag2: u16,
    event2: TaskEvent,
)
    requires
        reactor.wf(),
        tag1 != tag2,
    ensures
        reactor.step(tag1, event1).error(tag2, event2) == reactor.error(tag2, event2),
        reactor.step(tag2, event2).error(tag1, event1) == reactor.error(tag1, event1),
        tag2 < reactor.tasks.len() ==> reactor.step(tag1, event1).tasks[tag2 as int].action(event2)
            == reactor.tasks[tag2 as int].action(event2),
        reactor.step(tag1, event1).step(tag2, event2) == reactor.step(tag2, event2).step(
            tag1,
            event1,
        ),
{
    let a = reactor.step(tag1, event1).step(tag2, event2);
    let b = reactor.step(tag2, event2).step(tag1, event1);
    assert(a.tasks =~= b.tasks);
}

/// One event of the queue does to the task of a tag what that task's own
/// part of the event does to it, and keeps the reactor well formed.
pub proof fn lemma_apply_per_tag(reactor: ReactorModel, event: QueueEvent, tag: u16)
    requires
        reactor.wf(),
        tag < reactor.tasks.len(),
    ensures
        reactor.apply(event).wf(),
        reactor.apply(event).tasks.len() == reactor.tasks.len(),
        reactor.apply(event).tasks[tag as int] == reactor.tasks[tag as int].run(
            reactor.events_of(event, tag),
        ),
{
    let task = reactor.tasks[tag as int];
    let own = reactor.events_of(event, tag);
    match event {
        QueueEvent::Submit { tag: t } => {
            lemma_step_frame(reactor, t, TaskEvent::Submit);
            if t == tag {
                lemma_run_one(task, TaskEvent::Submit);
            }
        },
        QueueEvent::Completion(completion) => {
            let e = ReactorModel::completion_event(completion);
            lemma_step_frame(reactor, completion.tag, e);
            if completion.tag == tag {
                lemma_run_one(task, e);
            }
        },
        QueueEvent::Commit { tag: t, result } => {
            let commit = TaskEvent::Commit { result };
            let then = if reactor.stopping {
                TaskEvent::Stop
            } else {
                TaskEvent::Submit
            };
            lemma_step_frame(reactor, t, commit);
            lemma_step_frame(reactor.step(t, commit), t, then);
            if t == tag && reactor.error(t, commit) is None {
                assert(own.drop_last() == seq![commit]);
                assert(own.last() == then);
                lemma_run_one(task, commit);
            }
        },
        QueueEvent::Stop => {
            lemma_stop_drains(reactor);
            lemma_run_one(task, TaskEvent::Stop);
        },
    }
}

/// A run of one event is one step.
proof fn lemma_run_one(task: TaskModel, event: TaskEvent)
    ensures
        task.run(seq![event]) == task.next(event),
        task.run(Seq::empty()) == task,
        task.sent(Seq::empty()) == Seq::<Command>::empty(),
        task.sent(seq![event]) == match task.action(event) {
            TaskAction::Send(c) => seq![c],
            _ => Seq::<Command>::empty(),
        },
{
    assert(seq![event].drop_last() == Seq::<TaskEvent>::empty());
    assert(seq![event].last() == event);
    match task.action(event) {
        TaskAction::Send(c) => {
            assert(Seq::<Command>::empty().push(c) == seq![c]);
        },
        _ => {},
    }
}

/// What the task of a tag puts on the ring during one event of the queue is
/// what the reactor hands out for that event: the armed command for a
/// submission, the command that commits the result for a result delivered to
/// a reactor that is not stopping, and nothing for anything else.
pub proof fn lemma_commands_per_event(reactor: ReactorModel, event: QueueEvent, tag: u16)
    requires
        reactor.wf(),
        tag < reactor.tasks.len(),
    ensures
        reactor.tasks[tag as int].sent(reactor.events_of(event, tag)) == match event {
            QueueEvent::Submit { tag: t } => if t == tag && reactor.error(
                t,
                TaskEvent::Submit,
            ) is None {
                seq![reactor.tasks[tag as int].armed_command()]
            } else {
                Seq::<Command>::empty()
            },
            QueueEvent::Commit { tag: t, result } => if t == tag && reactor.error(
                t,
                TaskEvent::Commit { result },
            ) is None && !reactor.stopping {
                seq![reactor.commit_command(tag, result)]
            } else {
                Seq::<Command>::empty()
            },
            _ => Seq::<Command>::empty(),
        },
{
    let task = reactor.tasks[tag as int];
    let own = reactor.events_of(event, tag);
    match event {
        QueueEvent::Submit { tag: t } => {
            lemma_run_one(task, TaskEvent::Submit);
        },
        QueueEvent::Completion(completion) => {
            lemma_run_one(task, ReactorModel::completion_event(completion));
        },
        QueueEvent::Commit { tag: t, result } => {
            let commit = TaskEvent::Commit { result };
            let then = if reactor.stopping {
                TaskEvent::Stop
            } else {
                TaskEvent::Submit
            };
            lemma_run_one(task, commit);
            if t == tag && reactor.error(t, commit) is None {
                assert(own == seq![commit] + seq![then]);
                lemma_run_concat(task, seq![commit], seq![then]);
                lemma_run_one(task.next(commit), then);
                assert(Seq::<Command>::empty() + task.next(commit).sent(seq![then])
                    == task.next(commit).sent(seq![then]));
            }
        },
        QueueEvent::Stop => {
            lemma_run_one(task, TaskEvent::Stop);
        },
    }
}

/// Whatever happens to a queue, in whatever order, each tag's task goes
/// through its own events in their order and through no others: what becomes
/// of it, and what it puts on the ring, is what a task alone would come to
/// on those events. So for every tag the ring sees `FetchReq` once, then only
/// `CommitAndFetchReq`, each with that tag's buffer, and never a second
/// command for a tag whose command is unanswered.
pub proof fn lemma_queue_run_per_tag(buffers: Seq<u64>, events: Seq<QueueEvent>, tag: u16)
    requires
        0 < buffers.len() <= UBLK_MAX_QUEUE_DEPTH,
        tag < buffers.len(),
    ensures
        ReactorModel::init(buffers).run(events).wf(),
        ReactorModel::init(buffers).run(events).tasks.len() == buffers.len(),
        ReactorModel::init(buffers).run(events).tasks[tag as int] == TaskModel::init(
            tag,
            buffers[tag as int],
        ).run(ReactorModel::init(buffers).task_events(events, tag)),
        is_protocol_trace(
            TaskModel::init(tag, buffers[tag as int]).sent(
                ReactorModel::init(buffers).task_events(events, tag),
            ),
            tag,
            buffers[tag as int],
        ),
        0 <= TaskModel::init(tag, buffers[tag as int]).outstanding(
            ReactorModel::init(buffers).task_events(events, tag),
        ) <= 1,
    decreases events.len(),
{
    let init = ReactorModel::init(buffers);
    let task = TaskModel::init(tag, buffers[tag as int]);
    assert(init.tasks[tag as int] == task);
    if events.len() > 0 {
        let shorter = events.drop_last();
        lemma_queue_run_per_tag(buffers, shorter, tag);
        let before = init.run(shorter);
        lemma_apply_per_tag(before, events.last(), tag);
        lemma_run_concat(task, init.task_events(shorter, tag), before.events_of(events.last(), tag));
    }
    lemma_opcode_sequence(tag, buffers[tag as int], init.task_events(events, tag));
}

/// In a pass that meets no violation every completion wakes one task, the
/// one that owns its tag, in the order of the batch; and what becomes of the
/// task of a tag is what its own completions make of it, taken in their
/// order, whatever was delivered to other tags in between.
pub proof fn lemma_poll_per_tag(reactor: ReactorModel, completions: Seq<Completion>, tag: u16)
    requires
        reactor.wf(),
        tag < reactor.tasks.len(),
        reactor.poll(completions).error is None,
    ensures
        reactor.poll(completions).reactor.wf(),
        reactor.poll(completions).reactor.tasks.len() == reactor.tasks.len(),
        reactor.poll(completions).reactor.stopping == reactor.stopping,
        reactor.poll(completions).wakes.len() == completions.len(),
        forall|i: int|
            0 <= i < completions.len() ==> (#[trigger] reactor.poll(completions).wakes[i]).tag
                == completions[i].tag,
        reactor.tasks[tag as int].valid_run(ReactorModel::events_for(completions, tag)),
        reactor.poll(completions).reactor.tasks[tag as int] == reactor.tasks[tag as int].run(
            ReactorModel::events_for(completions, tag),
        ),
    decreases completions.len(),
{
    if completions.len() > 0 {
        let shorter = completions.drop_last();
        let completion = completions.last();
        let earlier = reactor.poll(shorter);
        lemma_poll_per_tag(reactor, shorter, tag);
        let event = ReactorModel::completion_event(completion);
        lemma_step_frame(earlier.reactor, completion.tag, event);
        let wakes = reactor.poll(completions).wakes;
        assert(wakes == earlier.wakes.push(earlier.reactor.wake(completion)));
        assert forall|i: int| 0 <= i < completions.len() implies (#[trigger] wakes[i]).tag
            == completions[i].tag by {
            if i < shorter.len() {
                assert(wakes[i] == earlier.wakes[i]);
                assert(completions[i] == shorter[i]);
            }
        }
        if completion.tag == tag {
            let events = ReactorModel::events_for(completions, tag);
            assert(events.drop_last() == ReactorModel::events_for(shorter, tag));
            assert(events.last() == event);
        }
    }
}

/// A pass stops at the first violation and leaves the reactor well formed.
pub proof fn lemma_poll_wf(reactor: ReactorModel, completions: Seq<Completion>)
    requires
        reactor.wf(),
    ensures
        reactor.poll(completions).reactor.wf(),
        reactor.poll(completions).reactor.tasks.len() == reactor.tasks.len(),
        reactor.poll(completions).reactor.stopping == reactor.stopping,
        reactor.poll(completions).wakes.len() <= completions.len(),
        reactor.poll(completions).error is None ==> reactor.poll(completions).wakes.len()
            == completions.len(),
    decreases completions.len(),
{
    if completions.len() > 0 {
        let earlier = reactor.poll(completions.drop_last());
        lemma_poll_wf(reactor, completions.drop_last());
        lemma_step_frame(
            earlier.reactor,
            completions.last().tag,
            ReactorModel::completion_event(completions.last()),
        );
    }
}

/// Teardown: a stop ends every task whose handler is not at work, so a stop
/// that finds no request in handling ends them all, whether or not any
/// command was outstanding, and the reactor is done.
pub proof fn lemma_stop_drains(reactor: ReactorModel)
    requires
        reactor.wf(),
    ensures
        reactor.stopped().wf(),
        reactor.stopped().stopping,
        reactor.stopped().tasks.len() == reactor.tasks.len(),
        forall|i: int|
            0 <= i < reactor.tasks.len() ==> {
                &&& (#[trigger] reactor.stopped().tasks[i]).tag == reactor.tasks[i].tag
                &&& reactor.stopped().tasks[i].buffer_address == reactor.tasks[i].buffer_address
                &&& reactor.stopped().tasks[i].state == if reactor.tasks[i].state is Dispatching {
                    TaskState::Dispatching
                } else {
                    TaskState::Aborted
                }
            },
        reactor.idle() ==> reactor.stopped().done(),
        reactor.stopped().done() ==> reactor.idle(),
{
    let after = reactor.stopped();
    if reactor.idle() {
        assert forall|i: int| 0 <= i < after.tasks.len() implies (#[trigger] after.tasks[i]).state
            is Aborted by {
            assert(!(reactor.tasks[i].state is Dispatching));
        }
    }
    if after.done() {
        assert forall|i: int| 0 <= i < reactor.tasks.len() implies !((
        #[trigger] reactor.tasks[i]).state is Dispatching) by {
            assert(after.tasks[i].state is Aborted);
        }
    }
}

/// Teardown is idempotent: a second stop changes nothing, and a stop of a
/// reactor that is done leaves it done.
pub proof fn lemma_stop_idempotent(reactor: ReactorModel)
    ensures
        reactor.stopped().stopped() == reactor.stopped(),
        reactor.done() ==> reactor.stopped().done(),
        reactor.done() ==> reactor.stopped().tasks == reactor.tasks,
{
    let once = reactor.stopped();
    let twice = once.stopped();
    assert(twice.tasks =~= once.tasks);
    if reactor.done() {
        assert forall|i: int| 0 <= i < once.tasks.len() implies (#[trigger] once.tasks[i]).state
            is Aborted by {
            assert(reactor.tasks[i].state is Aborted);
        }
        assert(once.tasks =~= reactor.tasks) by {
            assert forall|i: int| 0 <= i < once.tasks.len() implies once.tasks[i]
                == reactor.tasks[i] by {
                assert(reactor.tasks[i].state is Aborted);
            }
        }
    }
}

/// A handler that was at work when the device stopped ends its task when it
/// delivers: nothing is submitted, and once the last such handler has
/// delivered the reactor is done.
pub proof fn lemma_commit_while_stopping(reactor: ReactorModel, tag: u16, result: i32)
    requires
        reactor.wf(),
        reactor.stopping,
        reactor.error(tag, TaskEvent::Commit { result }) is None,
    ensures
        reactor.committed(tag, result).wf(),
        reactor.committed(tag, result).tasks[tag as int].state is Aborted,
        forall|other: int|
            0 <= other < reactor.tasks.len() && other != tag ==> reactor.committed(
                tag,
                result,
            ).tasks[other] == reactor.tasks[other],
{
}

/// Started from its initial state, a reactor puts one `FetchReq` on the ring
/// for each tag, in tag order, each with the tag's buffer and result zero,
/// and every task then awaits its completion.
pub proof fn lemma_start_fresh(buffers: Seq<u64>)
    requires
        0 < buffers.len() <= UBLK_MAX_QUEUE_DEPTH,
    ensures
        ReactorModel::init(buffers).wf(),
        ReactorModel::init(buffers).armed_commands(buffers.len() as int) == Seq::new(
            buffers.len(),
            |i: int|
                Command {
                    opcode: Opcode::FetchReq,
                    tag: i as u16,
                    buffer_address: buffers[i],
                    result_value: 0,
                },
        ),
        ReactorModel::init(buffers).started(buffers.len() as int).tasks == Seq::new(
            buffers.len(),
            |i: int|
                TaskModel {
                    tag: i as u16,
                    buffer_address: buffers[i],
                    state: TaskState::AwaitingCompletion,
                },
        ),
{
    let reactor = ReactorModel::init(buffers);
    lemma_start_prefix(reactor, buffers.len() as int);
    let commands = reactor.armed_commands(buffers.len() as int);
    let expected = Seq::new(
        buffers.len(),
        |i: int|
            Command {
                opcode: Opcode::FetchReq,
                tag: i as u16,
                buffer_address: buffers[i],
                result_value: 0,
            },
    );
    lemma_armed_commands_all(reactor, buffers.len() as int);
    assert(commands =~= expected);
    let after = reactor.started(buffers.len() as int).tasks;
    let awaiting = Seq::new(
        buffers.len(),
        |i: int|
            TaskModel {
                tag: i as u16,
                buffer_address: buffers[i],
                state: TaskState::AwaitingCompletion,
            },
    );
    assert(after =~= awaiting);
}

/// After the armed tasks among the first `n` have submitted, each of them
/// awaits its completion and every other task is as it was.
pub proof fn lemma_start_prefix(reactor: ReactorModel, n: int)
    requires
        reactor.wf(),
        0 <= n <= reactor.tasks.len(),
    ensures
        reactor.started(n).wf(),
        reactor.started(n).tasks.len() == reactor.tasks.len(),
        reactor.started(n).stopping == reactor.stopping,
        forall|i: int|
            0 <= i < reactor.tasks.len() ==> (#[trigger] reactor.started(n).tasks[i]) == if i < n
                && reactor.tasks[i].state is Armed {
                reactor.tasks[i].next(TaskEvent::Submit)
            } else {
                reactor.tasks[i]
            },
    decreases n,
{
    if n > 0 {
        lemma_start_prefix(reactor, n - 1);
        lemma_step_frame(reactor.started(n - 1), (n - 1) as u16, TaskEvent::Submit);
    }
}

/// Where each of the first `n` tasks is armed, each contributes its command.
proof fn lemma_armed_commands_all(reactor: ReactorModel, n: int)
    requires
        0 <= n <= reactor.tasks.len(),
        forall|i: int| 0 <= i < n ==> (#[trigger] reactor.tasks[i]).state is Armed,
    ensures
        reactor.armed_commands(n).len() == n,
        forall|i: int|
            0 <= i < n ==> (#[trigger] reactor.armed_commands(n)[i])
                == reactor.tasks[i].armed_command(),
    decreases n,
{
    if n > 0 {
        lemma_armed_commands_all(reactor, n - 1);
        assert(reactor.tasks[n - 1].state is Armed);
    }
}

/// The reactor of one queue: the state of each tag's task and the address of
/// each tag's buffer, both indexed by tag.
#[derive(Debug)]
pub struct QueueReactor {
    states: Vec<TaskState>,
    buffers: Vec<u64>,
    stopping: bool,
}

impl View for QueueReactor {
    type V = ReactorModel;

    closed spec fn view(&self) -> ReactorModel {
        ReactorModel {
            tasks: Seq::new(
                self.states@.len(),
                |i: int|
                    TaskModel {
                        tag: i as u16,
                        buffer_address: self.buffers@[i],
                        state: self.states@[i],
                    },
            ),
            stopping: self.stopping,
        }
    }
}

impl QueueReactor {
    #[verifier::type_invariant]
    spec fn well_formed(self) -> bool {
        &&& self.states@.len() == self.buffers@.len()
        &&& 0 < self.states@.len() <= UBLK_MAX_QUEUE_DEPTH
    }

    /// A reactor for a queue with one tag for each buffer address: tag `i`
    /// owns `buffers[i]` for as long as the queue lives. A queue has at least
    /// one tag and at most `UBLK_MAX_QUEUE_DEPTH`.
    pub fn new(buffers: Vec<u64>) -> (r: Result<QueueReactor, ConfigError>)
        ensures
            0 < buffers.len() <= UBLK_MAX_QUEUE_DEPTH ==> r is Ok && r->Ok_0@ == ReactorModel::init(
                buffers@,
            ),
            !(0 < buffers.len() <= UBLK_MAX_QUEUE_DEPTH) ==> r == Err::<QueueReactor, ConfigError>(
                ConfigError::InvalidQueueDepth,
            ),
    {
        let depth: usize = buffers.len();
        if depth == 0 || depth > UBLK_MAX_QUEUE_DEPTH as usize {
            return Err(ConfigError::InvalidQueueDepth);
        }
        let mut states: Vec<TaskState> = Vec::new();
        let mut i: usize = 0;
        while i < depth
            invariant
                i <= depth,
                states.len() == i,
                forall|j: int|
                    0 <= j < i ==> (#[trigger] states[j]) == (TaskState::Armed {
                        opcode: Opcode::FetchReq,
                        result: 0,
                    }),
            decreases depth - i,
        {
            states.push(TaskState::Armed { opcode: Opcode::FetchReq, result: 0 });
            i += 1;
        }
        let ghost addresses = buffers@;
        let reactor = QueueReactor { states, buffers, stopping: false };
        assert(reactor@.tasks =~= ReactorModel::init(addresses).tasks);
        Ok(reactor)
    }

    /// The number of tags of the queue.
    pub fn depth(&self) -> (r: u16)
        ensures
            r == self@.tasks.len(),
            0 < r <= UBLK_MAX_QUEUE_DEPTH,
            self@.wf(),
    {
        proof {
            use_type_invariant(self);
        }
        self.states.len() as u16
    }

    /// Whether the device was told to stop.
    pub fn is_stopping(&self) -> (r: bool)
        ensures
            r == self@.stopping,
    {
        self.stopping
    }

    /// The task that owns `tag`, if the queue has that tag.
    pub fn task(&self, tag: u16) -> (r: Option<IoTask>)
        ensures
            tag < self@.tasks.len() ==> r is Some && r->Some_0@ == self@.tasks[tag as int]
                && r->Some_0@.tag == tag,
            tag >= self@.tasks.len() ==> r is None,
    {
        proof {
            use_type_invariant(self);
        }
        if (tag as usize) < self.states.len() {
            Some(
                IoTask::with_state(tag, self.buffers[tag as usize], self.states[tag as usize]),
            )
        } else {
            None
        }
    }

    /// Lets the task of `tag` take `event`, if the protocol allows it.
    fn step(&mut self, tag: u16, event: TaskEvent) -> (r: Result<TaskAction, ProtocolError>)
        ensures
            match old(self)@.error(tag, event) {
                Some(e) => r == Err::<TaskAction, ProtocolError>(e) && final(self)@ == old(self)@,
                None => r == Ok::<TaskAction, ProtocolError>(
                    old(self)@.tasks[tag as int].action(event),
                ) && final(self)@ == old(self)@.step(tag, event),
            },
            final(self)@.wf(),
    {
        proof {
            use_type_invariant(&*self);
        }
        if (tag as usize) >= self.states.len() {
            return Err(ProtocolError::TagOutOfRange);
        }
        let mut task: IoTask = IoTask::with_state(
            tag,
            self.buffers[tag as usize],
            self.states[tag as usize],
        );
        let r = task.step(event);
        if r.is_ok() {
            let ghost before = self@;
            self.states[tag as usize] = task.state();
            proof {
                assert(self@.tasks =~= before.step(tag, event).tasks);
            }
        }
        r
    }

    /// Submits the armed command of `tag`. It is a violation to submit for a
    /// tag whose command is outstanding, whose request is in handling or
    /// whose task has ended.
    pub fn submit(&mut self, tag: u16) -> (r: Result<Command, ProtocolError>)
        ensures
            match old(self)@.error(tag, TaskEvent::Submit) {
                Some(e) => r == Err::<Command, ProtocolError>(e) && final(self)@ == old(self)@,
                None => r == Ok::<Command, ProtocolError>(
                    old(self)@.tasks[tag as int].armed_command(),
                ) && final(self)@ == old(self)@.step(tag, TaskEvent::Submit),
            },
    {
        match self.step(tag, TaskEvent::Submit) {
            Ok(TaskAction::Send(command)) => Ok(command),
            Ok(_) => unreached(),
            Err(e) => Err(e),
        }
    }

    /// Starts the queue: every armed task submits its command. Returns the
    /// commands in tag order.
    pub fn start(&mut self) -> (commands: Vec<Command>)
        ensures
            commands@ == old(self)@.armed_commands(old(self)@.tasks.len() as int),
            final(self)@ == old(self)@.started(old(self)@.tasks.len() as int),
    {
        proof {
            use_type_invariant(&*self);
        }
        let ghost before = self@;
        let depth: usize = self.states.len();
        let mut commands: Vec<Command> = Vec::new();
        let mut i: usize = 0;
        while i < depth
            invariant
                before.wf(),
                depth == before.tasks.len(),
                i <= depth,
                self@ == before.started(i as int),
                self@.wf(),
                commands@ == before.armed_commands(i as int),
            decreases depth - i,
        {
            proof {
                lemma_start_prefix(before, i as int);
            }
            let r = self.submit(i as u16);
            if let Ok(command) = r {
                commands.push(command);
            }
            i += 1;
        }
        commands
    }

    /// Takes one completion and wakes the task that owns its tag, and no
    /// other. It is a violation for a completion to name a tag with no
    /// command outstanding.
    pub fn on_completion(&mut self, completion: Completion) -> (r: Result<Wake, ProtocolError>)
        ensures
            old(self)@.wf(),
            final(self)@.wf(),
            match old(self)@.error(completion.tag, ReactorModel::completion_event(completion)) {
                Some(e) => r == Err::<Wake, ProtocolError>(e) && final(self)@ == old(self)@,
                None => r == Ok::<Wake, ProtocolError>(old(self)@.wake(completion)) && final(self)@ == old(self)@.completed(completion),
            },
    {
        proof {
            use_type_invariant(&*self);
        }
        match self.step(completion.tag, TaskEvent::Complete { result_code: completion.result_code }) {
            Ok(action) => Ok(Wake { tag: completion.tag, action }),
            Err(e) => Err(e),
        }
    }

    /// One pass of the reactor: takes all the completions that are ready, in
    /// the order in which they were reported, and wakes for each the task
    /// that owns its tag. None is skipped; the pass ends early only at a
    /// violation, which it returns.
    pub fn poll_and_wake(&mut self, completions: &Vec<Completion>) -> (r: Result<
        Vec<Wake>,
        ProtocolError,
    >)
        ensures
            final(self)@ == old(self)@.poll(completions@).reactor,
            match old(self)@.poll(completions@).error {
                Some(e) => r == Err::<Vec<Wake>, ProtocolError>(e),
                None => r is Ok && r->Ok_0@ == old(self)@.poll(completions@).wakes,
            },
    {
        let ghost before = self@;
        let mut wakes: Vec<Wake> = Vec::new();
        let mut i: usize = 0;
        while i < completions.len()
            invariant
                i <= completions.len(),
                before == old(self)@,
                before.poll(completions@.take(i as int)).error is None,
                self@ == before.poll(completions@.take(i as int)).reactor,
                wakes@ == before.poll(completions@.take(i as int)).wakes,
            decreases completions.len() - i,
        {
            let ghost shorter = completions@.take(i as int);
            let ghost longer = completions@.take(i + 1);
            proof {
                assert(longer.drop_last() == shorter);
                assert(longer.last() == completions@[i as int]);
            }
            match self.on_completion(completions[i]) {
                Ok(wake) => {
                    wakes.push(wake);
                },
                Err(e) => {
                    proof {
                        assert(before.poll(longer).error == Some(e));
                        assert(before.poll(longer).reactor == self@);
                        lemma_poll_error_is_final(before, completions@, i + 1);
                    }
                    return Err(e);
                },
            }
            i += 1;
        }
        proof {
            assert(completions@.take(i as int) == completions@);
        }
        Ok(wakes)
    }

    /// Takes the result that the handler produced for the request of `tag`.
    /// The task commits it and submits again at once: the command to put on
    /// the ring is returned. Where the device is stopping nothing is
    /// submitted and the task ends. It is a violation to commit for a tag
    /// with no request in handling.
    pub fn commit(&mut self, tag: u16, result: i32) -> (r: Result<Option<Command>, ProtocolError>)
        ensures
            old(self)@.wf(),
            final(self)@.wf(),
            final(self)@ == old(self)@.committed(tag, result),
            match old(self)@.error(tag, TaskEvent::Commit { result }) {
                Some(e) => r == Err::<Option<Command>, ProtocolError>(e),
                None => r == Ok::<Option<Command>, ProtocolError>(
                    if old(self)@.stopping {
                        None
                    } else {
                        Some(old(self)@.commit_command(tag, result))
                    },
                ),
            },
    {
        proof {
            use_type_invariant(&*self);
        }
        let ghost before = self@;
        match self.step(tag, TaskEvent::Commit { result }) {
            Err(e) => Err(e),
            Ok(_) => {
                proof {
                    lemma_step_frame(before, tag, TaskEvent::Commit { result });
                }
                if self.stopping {
                    let _retired = self.step(tag, TaskEvent::Stop);
                    Ok(None)
                } else {
                    match self.step(tag, TaskEvent::Submit) {
                        Ok(TaskAction::Send(command)) => Ok(Some(command)),
                        _ => unreached(),
                    }
                }
            },
        }
    }

    /// Tells every task that the device stops. Each ends at once, whether it
    /// had a command outstanding or not, except those whose handler is at
    /// work: they end when the handler delivers.
    pub fn stop(&mut self)
        ensures
            final(self)@ == old(self)@.stopped(),
    {
        proof {
            use_type_invariant(&*self);
        }
        let ghost before = self@;
        let depth: usize = self.states.len();
        let mut i: usize = 0;
        while i < depth
            invariant
                before.wf(),
                depth == before.tasks.len(),
                i <= depth,
                self@.wf(),
                self@.tasks.len() == depth,
                self@.stopping == before.stopping,
                forall|j: int|
                    0 <= j < depth ==> (#[trigger] self@.tasks[j]) == if j < i {
                        before.tasks[j].next(TaskEvent::Stop)
                    } else {
                        before.tasks[j]
                    },
            decreases depth - i,
        {
            let ghost current = self@;
            proof {
                lemma_step_frame(current, i as u16, TaskEvent::Stop);
            }
            let _retired = self.step(i as u16, TaskEvent::Stop);
            i += 1;
        }
        proof {
            use_type_invariant(&*self);
        }
        self.stopping = true;
        proof {
            assert(self@.tasks =~= before.stopped().tasks);
        }
    }

    /// Whether every task has ended: the reactor may return.
    pub fn is_done(&self) -> (r: bool)
        ensures
            r == self@.done(),
    {
        proof {
            use_type_invariant(self);
        }
        let mut i: usize = 0;
        while i < self.states.len()
            invariant
                i <= self.states.len(),
                self@.tasks.len() == self.states.len(),
                forall|j: int| 0 <= j < i ==> (#[trigger] self@.tasks[j]).state is Aborted,
            decreases self.states.len() - i,
        {
            if !matches!(self.states[i], TaskState::Aborted) {
                assert(!(self@.tasks[i as int].state is Aborted));
                return false;
            }
            i += 1;
        }
        true
    }
}

/// Once a pass has met a violation, the rest of the batch changes nothing.
proof fn lemma_poll_error_is_final(reactor: ReactorModel, completions: Seq<Completion>, n: int)
    requires
        0 <= n <= completions.len(),
        reactor.poll(completions.take(n)).error is Some,
    ensures
        reactor.poll(completions) == reactor.poll(completions.take(n)),
    decreases completions.len() - n,
{
    if n < completions.len() {
        let longer = completions.take(n + 1);
        assert(longer.drop_last() == completions.take(n));
        lemma_poll_error_is_final(reactor, completions, n + 1);
    } else {
        assert(completions.take(n) == completions);
    }
}

} // verus!

//! The task bound to one tag: a state machine that arms its slot, waits for
//! the completion, has the request handled and commits the result, until it
//! observes the stop sentinel.

use crate::protocol::{Command, Opcode, ProtocolError, UBLK_IO_RES_ABORT};
use vstd::prelude::*;

verus! {

/// Where a task stands in its cycle.
#[derive(Clone, Copy, Debug, PartialEq, Eq, Structural)]
pub enum TaskState {
    /// A command is ready and not yet submitted. `result` is what it will
    /// report: zero for `FetchReq`, the handler's result otherwise.
    Armed { opcode: Opcode, result: i32 },
    /// A command is outstanding.
    AwaitingCompletion,
    /// A request has arrived and is being handled; the tag's descriptor is
    /// valid in this state and in no other.
    Dispatching,
    /// The stop sentinel was observed. Terminal.
    Aborted,
}

/// What can happen to a task.
#[derive(Clone, Copy, Debug, PartialEq, Eq, Structural)]
pub enum TaskEvent {
    /// The armed command goes to the ring.
    Submit,
    /// The outstanding command is answered.
    Complete { result_code: i32 },
    /// The handler has produced the result of the request.
    Commit { result: i32 },
    /// The device stops.
    Stop,
}

/// What the driver of a task has to do after an event.
#[derive(Clone, Copy, Debug, PartialEq, Eq, Structural)]
pub enum TaskAction {
    /// Put this command on the ring.
    Send(Command),
    /// Read the tag's descriptor and call the target.
    Dispatch,
    /// The task has ended; nothing is submitted for its tag any more.
    Retire,
    /// Nothing: the task goes on by itself or waits for its handler.
    Continue,
}

/// A task as a mathematical value.
pub struct TaskModel {
    pub tag: u16,
    pub buffer_address: u64,
    pub state: TaskState,
}

impl TaskModel {
    /// A task at the start of its life: armed with `FetchReq` and result zero.
    pub open spec fn init(tag: u16, buffer_address: u64) -> TaskModel {
        TaskModel {
            tag,
            buffer_address,
            state: TaskState::Armed { opcode: Opcode::FetchReq, result: 0 },
        }
    }

    /// Whether the protocol allows `event` in this state. The device may stop
    /// at any time.
    pub open spec fn enabled(self, event: TaskEvent) -> bool {
        match event {
            TaskEvent::Submit => self.state is Armed,
            TaskEvent::Complete { .. } => self.state is AwaitingCompletion,
            TaskEvent::Commit { .. } => self.state is Dispatching,
            TaskEvent::Stop => true,
        }
    }

    /// The violation that `event` is where it is not enabled.
    pub open spec fn violation(self, event: TaskEvent) -> ProtocolError {
        match event {
            TaskEvent::Submit => match self.state {
                TaskState::Dispatching => ProtocolError::HandlerPending,
                TaskState::Aborted => ProtocolError::Retired,
                _ => ProtocolError::CommandOutstanding,
            },
            TaskEvent::Complete { .. } => ProtocolError::UnexpectedCompletion,
            _ => ProtocolError::NotDispatching,
        }
    }

    /// The state that `event` leads to. A stop ends every task but one whose
    /// handler is at work: that one ends when it would submit next. An event
    /// that is not enabled changes nothing.
    pub open spec fn next_state(self, event: TaskEvent) -> TaskState {
        if !self.enabled(event) {
            self.state
        } else {
            match event {
                TaskEvent::Submit => TaskState::AwaitingCompletion,
                TaskEvent::Complete { result_code } => if result_code == UBLK_IO_RES_ABORT {
                    TaskState::Aborted
                } else {
                    TaskState::Dispatching
                },
                TaskEvent::Commit { result } => TaskState::Armed {
                    opcode: Opcode::CommitAndFetchReq,
                    result,
                },
                TaskEvent::Stop => if self.state is Dispatching {
                    TaskState::Dispatching
                } else {
                    TaskState::Aborted
                },
            }
        }
    }

    /// The task after `event`: tag and buffer never change.
    pub open spec fn next(self, event: TaskEvent) -> TaskModel {
        TaskModel { state: self.next_state(event), ..self }
    }

    /// The command an armed task submits.
    pub open spec fn armed_command(self) -> Command
        recommends
            self.state is Armed,
    {
        Command {
            opcode: self.state->opcode,
            tag: self.tag,
            buffer_address: self.buffer_address,
            result_value: self.state->result,
        }
    }

    /// What the driver has to do after `event`.
    pub open spec fn action(self, event: TaskEvent) -> TaskAction {
        if !self.enabled(event) {
            TaskAction::Continue
        } else {
            match event {
                TaskEvent::Submit => TaskAction::Send(self.armed_command()),
                TaskEvent::Complete { result_code } => if result_code == UBLK_IO_RES_ABORT {
                    TaskAction::Retire
                } else {
                    TaskAction::Dispatch
                },
                TaskEvent::Commit { .. } => TaskAction::Continue,
                TaskEvent::Stop => if self.state is Dispatching {
                    TaskAction::Continue
                } else {
                    TaskAction::Retire
                },
            }
        }
    }

    /// The task after a sequence of events, taken from first to last.
    pub open spec fn run(self, events: Seq<TaskEvent>) -> TaskModel
        decreases events.len(),
    {
        if events.len() == 0 {
            self
        } else {
            self.run(events.drop_last()).next(events.last())
        }
    }

    /// Whether each event of the sequence is enabled when its turn comes.
    pub open spec fn valid_run(self, events: Seq<TaskEvent>) -> bool
        decreases events.len(),
    {
        events.len() == 0 || (self.valid_run(events.drop_last()) && self.run(
            events.drop_last(),
        ).enabled(events.last()))
    }

    /// The commands that the ring sees during a run, in order.
    pub open spec fn sent(self, events: Seq<TaskEvent>) -> Seq<Command>
        decreases events.len(),
    {
        if events.len() == 0 {
            Seq::empty()
        } else {
            let before = self.run(events.drop_last());
            let earlier = self.sent(events.drop_last());
            match before.action(events.last()) {
                TaskAction::Send(c) => earlier.push(c),
                _ => earlier,
            }
        }
    }

    /// The number of commands submitted during a run and not answered by its
    /// end. A stop answers the outstanding command, if there is one.
    pub open spec fn outstanding(self, events: Seq<TaskEvent>) -> int
        decreases events.len(),
    {
        if events.len() == 0 {
            0
        } else {
            let before = self.run(events.drop_last());
            let earlier = self.outstanding(events.drop_last());
            if !before.enabled(events.last()) {
                earlier
            } else {
                match events.last() {
                    TaskEvent::Submit => earlier + 1,
                    TaskEvent::Complete { .. } => earlier - 1,
                    TaskEvent::Commit { .. } => earlier,
                    TaskEvent::Stop => if before.state is AwaitingCompletion {
                        earlier - 1
                    } else {
                        earlier
                    },
                }
            }
        }
    }
}

/// The opcode sequence that the protocol prescribes for one tag: `FetchReq`
/// first, `CommitAndFetchReq` ever after, each command for that tag and with
/// that tag's buffer, and the first one reporting zero.
pub open spec fn is_protocol_trace(sent: Seq<Command>, tag: u16, buffer_address: u64) -> bool {
    &&& forall|i: int|
        0 <= i < sent.len() ==> {
            &&& (#[trigger] sent[i]).tag == tag
            &&& sent[i].buffer_address == buffer_address
            &&& sent[i].opcode == if i == 0 {
                Opcode::FetchReq
            } else {
                Opcode::CommitAndFetchReq
            }
        }
    &&& sent.len() > 0 ==> sent[0].result_value == 0
}

/// What holds of a task after any run from its initial state.
spec fn run_invariant(tag: u16, buffer_address: u64, events: Seq<TaskEvent>) -> bool {
    let start = TaskModel::init(tag, buffer_address);
    let end = start.run(events);
    let sent = start.sent(events);
    &&& end.tag == tag
    &&& end.buffer_address == buffer_address
    &&& is_protocol_trace(sent, tag, buffer_address)
    &&& start.outstanding(events) == if end.state is AwaitingCompletion {
        1int
    } else {
        0int
    }
    &&& match end.state {
        TaskState::Armed { opcode, result } => {
            &&& opcode == Opcode::FetchReq <==> sent.len() == 0
            &&& opcode == Opcode::FetchReq ==> result == 0
        },
        TaskState::AwaitingCompletion => sent.len() > 0,
        TaskState::Dispatching => sent.len() > 0,
        TaskState::Aborted => true,
    }
}

proof fn lemma_run_invariant(tag: u16, buffer_address: u64, events: Seq<TaskEvent>)
    ensures
        run_invariant(tag, buffer_address, events),
    decreases events.len(),
{
    let start = TaskModel::init(tag, buffer_address);
    if events.len() > 0 {
        lemma_run_invariant(tag, buffer_address, events.drop_last());
        let before = start.run(events.drop_last());
        let earlier = start.sent(events.drop_last());
        let sent = start.sent(events);
        assert(run_invariant(tag, buffer_address, events.drop_last()));
        match before.action(events.last()) {
            TaskAction::Send(c) => {
                assert(sent == earlier.push(c));
                assert forall|i: int| 0 <= i < sent.len() implies {
                    &&& (#[trigger] sent[i]).tag == tag
                    &&& sent[i].buffer_address == buffer_address
                    &&& sent[i].opcode == if i == 0 {
                        Opcode::FetchReq
                    } else {
                        Opcode::CommitAndFetchReq
                    }
                } by {
                    if i < earlier.len() {
                        assert(sent[i] == earlier[i]);
                    }
                }
            },
            _ => {
                assert(sent == earlier);
            },
        }
    }
}

/// Whatever happens to a task, the ring sees for its tag `FetchReq` once and
/// then only `CommitAndFetchReq`, always with the tag's own buffer, and never
/// a second command while one is unanswered: the number of outstanding
/// commands is one while the task awaits a completion and zero otherwise.
pub proof fn lemma_opcode_sequence(tag: u16, buffer_address: u64, events: Seq<TaskEvent>)
    ensures
        is_protocol_trace(
            TaskModel::init(tag, buffer_address).sent(events),
            tag,
            buffer_address,
        ),
        0 <= TaskModel::init(tag, buffer_address).outstanding(events) <= 1,
        TaskModel::init(tag, buffer_address).outstanding(events) == 1 <==> TaskModel::init(
            tag,
            buffer_address,
        ).run(events).state is AwaitingCompletion,
        TaskModel::init(tag, buffer_address).run(events).tag == tag,
        TaskModel::init(tag, buffer_address).run(events).buffer_address == buffer_address,
{
    lemma_run_invariant(tag, buffer_address, events);
}

/// Running a task through one sequence of events and then through another
/// is running it through the two in a row.
pub proof fn lemma_run_concat(task: TaskModel, first: Seq<TaskEvent>, second: Seq<TaskEvent>)
    ensures
        task.run(first + second) == task.run(first).run(second),
        task.sent(first + second) == task.sent(first) + task.run(first).sent(second),
    decreases second.len(),
{
    if second.len() == 0 {
        assert(first + second == first);
        assert(task.sent(first) + Seq::<Command>::empty() == task.sent(first));
    } else {
        lemma_run_concat(task, first, second.drop_last());
        assert((first + second).drop_last() == first + second.drop_last());
        assert((first + second).last() == second.last());
        let before = task.run(first + second.drop_last());
        match before.action(second.last()) {
            TaskAction::Send(c) => {
                assert((task.sent(first) + task.run(first).sent(second.drop_last())).push(c)
                    == task.sent(first) + task.run(first).sent(second.drop_last()).push(c));
            },
            _ => {},
        }
    }
}

/// A task that has observed the stop sentinel stays as it is and sends
/// nothing, whatever comes after.
pub proof fn lemma_aborted_is_terminal(task: TaskModel, events: Seq<TaskEvent>)
    requires
        task.state is Aborted,
    ensures
        task.run(events) == task,
        task.sent(events) == Seq::<Command>::empty(),
        task.outstanding(events) == 0,
    decreases events.len(),
{
    if events.len() > 0 {
        lemma_aborted_is_terminal(task, events.drop_last());
    }
}

/// Only a completion can end a task. A result that the handler delivers is
/// payload, whatever its value: it is committed as it is, even where it
/// equals the stop sentinel, and the task goes on to await its next request.
pub proof fn lemma_result_is_payload(task: TaskModel, result: i32)
    requires
        task.state is Dispatching,
    ensures
        task.next(TaskEvent::Commit { result }).action(TaskEvent::Submit) == TaskAction::Send(
            Command {
                opcode: Opcode::CommitAndFetchReq,
                tag: task.tag,
                buffer_address: task.buffer_address,
                result_value: result,
            },
        ),
        task.next(TaskEvent::Commit { result }).next(TaskEvent::Submit).state
            is AwaitingCompletion,
{
}

/// A command is submitted only from the armed state, and the armed state is
/// reached only at the start or by committing a result: between two
/// submissions of a valid run the first command has been answered.
pub proof fn lemma_submit_needs_no_outstanding(
    tag: u16,
    buffer_address: u64,
    events: Seq<TaskEvent>,
)
    requires
        TaskModel::init(tag, buffer_address).run(events).enabled(TaskEvent::Submit),
    ensures
        TaskModel::init(tag, buffer_address).outstanding(events) == 0,
        TaskModel::init(tag, buffer_address).outstanding(events.push(TaskEvent::Submit)) == 1,
{
    lemma_run_invariant(tag, buffer_address, events);
    let longer = events.push(TaskEvent::Submit);
    assert(longer.drop_last() == events);
}

/// The task that owns one tag of a queue.
#[derive(Clone, Copy, Debug, PartialEq, Eq)]
pub struct IoTask {
    tag: u16,
    buffer_address: u64,
    state: TaskState,
}

impl View for IoTask {
    type V = TaskModel;

    closed spec fn view(&self) -> TaskModel {
        TaskModel { tag: self.tag, buffer_address: self.buffer_address, state: self.state }
    }
}

impl IoTask {
    /// A task for `tag` whose buffer is at `buffer_address`, armed with
    /// `FetchReq`.
    pub fn new(tag: u16, buffer_address: u64) -> (task: IoTask)
        ensures
            task@ == TaskModel::init(tag, buffer_address),
    {
        IoTask {
            tag,
            buffer_address,
            state: TaskState::Armed { opcode: Opcode::FetchReq, result: 0 },
        }
    }

    /// The task of `tag` as it stands in `state`.
    pub fn with_state(tag: u16, buffer_address: u64, state: TaskState) -> (task: IoTask)
        ensures
            task@ == (TaskModel { tag, buffer_address, state }),
    {
        IoTask { tag, buffer_address, state }
    }

    pub fn tag(&self) -> (r: u16)
        ensures
            r == self@.tag,
    {
        self.tag
    }

    pub fn buffer_address(&self) -> (r: u64)
        ensures
            r == self@.buffer_address,
    {
        self.buffer_address
    }

    pub fn state(&self) -> (r: TaskState)
        ensures
            r == self@.state,
    {
        self.state
    }

    /// Whether the tag's descriptor may be read now.
    pub fn descriptor_is_valid(&self) -> (r: bool)
        ensures
            r == (self@.state is Dispatching),
    {
        matches!(self.state, TaskState::Dispatching)
    }

    /// Whether the task has ended.
    pub fn is_aborted(&self) -> (r: bool)
        ensures
            r == (self@.state is Aborted),
    {
        matches!(self.state, TaskState::Aborted)
    }

    /// Takes one event. Where the protocol allows it, the task moves on and
    /// the driver is told what to do; where it does not, the task stays as it
    /// is and the violation is returned.
    pub fn step(&mut self, event: TaskEvent) -> (r: Result<TaskAction, ProtocolError>)
        ensures
            old(self)@.enabled(event) ==> r == Ok::<TaskAction, ProtocolError>(
                old(self)@.action(event),
            ) && final(self)@ == old(self)@.next(event),
            !old(self)@.enabled(event) ==> r == Err::<TaskAction, ProtocolError>(
                old(self)@.violation(event),
            ) && final(self)@ == old(self)@,
    {
        match event {
            TaskEvent::Submit => match self.state {
                TaskState::Armed { opcode, result } => {
                    let command = Command {
                        opcode,
                        tag: self.tag,
                        buffer_address: self.buffer_address,
                        result_value: result,
                    };
                    self.state = TaskState::AwaitingCompletion;
                    Ok(TaskAction::Send(command))
                },
                TaskState::AwaitingCompletion => Err(ProtocolError::CommandOutstanding),
                TaskState::Dispatching => Err(ProtocolError::HandlerPending),
                TaskState::Aborted => Err(ProtocolError::Retired),
            },
            TaskEvent::Complete { result_code } => match self.state {
                TaskState::AwaitingCompletion => {
                    if result_code == UBLK_IO_RES_ABORT {
                        self.state = TaskState::Aborted;
                        Ok(TaskAction::Retire)
                    } else {
                        self.state = TaskState::Dispatching;
                        Ok(TaskAction::Dispatch)
                    }
                },
                _ => Err(ProtocolError::UnexpectedCompletion),
            },
            TaskEvent::Commit { result } => match self.state {
                TaskState::Dispatching => {
                    self.state = TaskState::Armed { opcode: Opcode::CommitAndFetchReq, result };
                    Ok(TaskAction::Continue)
                },
                _ => Err(ProtocolError::NotDispatching),
            },
            TaskEvent::Stop => match self.state {
                TaskState::Dispatching => Ok(TaskAction::Continue),
                _ => {
                    self.state = TaskState::Aborted;
                    Ok(TaskAction::Retire)
                },
            },
        }
    }
}

} // verus!

use rublk::descriptor::ConfigError;
use rublk::null::handle_completion;
use rublk::protocol::{
    Command, Completion, IoDescriptor, Opcode, ProtocolError, UBLK_IO_RES_ABORT,
};
use rublk::reactor::{QueueReactor, Wake};
use rublk::task::{TaskAction, TaskState};

fn queue(depth: u16) -> QueueReactor {
    QueueReactor::new((0..depth as u64).map(|t| 0x1000 * (t + 1)).collect()).unwrap()
}

fn states(reactor: &QueueReactor) -> Vec<TaskState> {
    (0..reactor.depth()).map(|t| reactor.task(t).unwrap().state()).collect()
}

fn request(tag: u16) -> Completion {
    Completion { tag, result_code: 0 }
}

fn abort(tag: u16) -> Completion {
    Completion { tag, result_code: UBLK_IO_RES_ABORT }
}

fn commit_command(tag: u16, result_value: i32) -> Command {
    Command {
        opcode: Opcode::CommitAndFetchReq,
        tag,
        buffer_address: 0x1000 * (tag as u64 + 1),
        result_value,
    }
}

#[test]
fn queue_depth_limits() {
    assert_eq!(QueueReactor::new(vec![]).err(), Some(ConfigError::InvalidQueueDepth));
    assert_eq!(QueueReactor::new(vec![0; 4097]).err(), Some(ConfigError::InvalidQueueDepth));
    assert_eq!(QueueReactor::new(vec![0; 4096]).unwrap().depth(), 4096);
    assert_eq!(QueueReactor::new(vec![0; 1]).unwrap().depth(), 1);
}

#[test]
fn fresh_queue() {
    let reactor = queue(3);
    assert_eq!(reactor.depth(), 3);
    assert!(!reactor.is_stopping());
    assert!(!reactor.is_done());
    for tag in 0..3u16 {
        let task = reactor.task(tag).unwrap();
        assert_eq!(task.tag(), tag);
        assert_eq!(task.buffer_address(), 0x1000 * (tag as u64 + 1));
        assert_eq!(task.state(), TaskState::Armed { opcode: Opcode::FetchReq, result: 0 });
    }
    assert_eq!(reactor.task(3), None);
}

#[test]
fn start_arms_every_tag_in_order() {
    let mut reactor = queue(4);
    let commands = reactor.start();
    let expected: Vec<Command> = (0..4u16)
        .map(|tag| Command {
            opcode: Opcode::FetchReq,
            tag,
            buffer_address: 0x1000 * (tag as u64 + 1),
            result_value: 0,
        })
        .collect();
    assert_eq!(commands, expected);
    assert_eq!(states(&reactor), vec![TaskState::AwaitingCompletion; 4]);
    assert_eq!(reactor.start(), vec![]);
}

#[test]
fn start_skips_tags_that_are_not_armed() {
    let mut reactor = queue(3);
    reactor.submit(1).unwrap();
    let commands = reactor.start();
    assert_eq!(commands.len(), 2);
    assert_eq!(commands[0].tag, 0);
    assert_eq!(commands[1].tag, 2);
}

#[test]
fn submit_violations() {
    let mut reactor = queue(2);
    assert_eq!(reactor.submit(2), Err(ProtocolError::TagOutOfRange));
    assert!(reactor.submit(0).is_ok());
    assert_eq!(reactor.submit(0), Err(ProtocolError::CommandOutstanding));
    reactor.on_completion(request(0)).unwrap();
    assert_eq!(reactor.submit(0), Err(ProtocolError::HandlerPending));
    reactor.commit(0, 0).unwrap();
    reactor.on_completion(abort(0)).unwrap();
    assert_eq!(reactor.submit(0), Err(ProtocolError::Retired));
}

#[test]
fn completion_violations() {
    let mut reactor = queue(2);
    assert_eq!(reactor.on_completion(request(0)), Err(ProtocolError::UnexpectedCompletion));
    assert_eq!(reactor.on_completion(request(2)), Err(ProtocolError::TagOutOfRange));
    assert_eq!(reactor.on_completion(abort(9)), Err(ProtocolError::TagOutOfRange));
    reactor.start();
    reactor.on_completion(request(0)).unwrap();
    assert_eq!(reactor.on_completion(request(0)), Err(ProtocolError::UnexpectedCompletion));
    assert_eq!(
        states(&reactor),
        vec![TaskState::Dispatching, TaskState::AwaitingCompletion]
    );
}

#[test]
fn commit_violations() {
    let mut reactor = queue(2);
    assert_eq!(reactor.commit(0, 1), Err(ProtocolError::NotDispatching));
    assert_eq!(reactor.commit(2, 1), Err(ProtocolError::TagOutOfRange));
    reactor.start();
    assert_eq!(reactor.commit(1, 1), Err(ProtocolError::NotDispatching));
    assert_eq!(states(&reactor), vec![TaskState::AwaitingCompletion; 2]);
}

#[test]
fn completion_wakes_only_its_own_tag() {
    let mut reactor = queue(4);
    reactor.start();
    let wake = reactor.on_completion(request(2)).unwrap();
    assert_eq!(wake, Wake { tag: 2, action: TaskAction::Dispatch });
    assert_eq!(
        states(&reactor),
        vec![
            TaskState::AwaitingCompletion,
            TaskState::AwaitingCompletion,
            TaskState::Dispatching,
            TaskState::AwaitingCompletion
        ]
    );
    let command = reactor.commit(2, 512).unwrap();
    assert_eq!(command, Some(commit_command(2, 512)));
    assert_eq!(states(&reactor), vec![TaskState::AwaitingCompletion; 4]);
}

#[test]
fn poll_takes_completions_in_order() {
    let mut reactor = queue(4);
    reactor.start();
    let wakes = reactor.poll_and_wake(&vec![request(3), abort(1), request(0)]).unwrap();
    assert_eq!(
        wakes,
        vec![
            Wake { tag: 3, action: TaskAction::Dispatch },
            Wake { tag: 1, action: TaskAction::Retire },
            Wake { tag: 0, action: TaskAction::Dispatch },
        ]
    );
    assert_eq!(
        states(&reactor),
        vec![
            TaskState::Dispatching,
            TaskState::Aborted,
            TaskState::AwaitingCompletion,
            TaskState::Dispatching
        ]
    );
    assert_eq!(reactor.poll_and_wake(&vec![]), Ok(vec![]));
}

#[test]
fn poll_stops_at_the_first_violation() {
    let mut reactor = queue(3);
    reactor.start();
    let r = reactor.poll_and_wake(&vec![request(0), request(0), request(1)]);
    assert_eq!(r, Err(ProtocolError::UnexpectedCompletion));
    assert_eq!(
        states(&reactor),
        vec![
            TaskState::Dispatching,
            TaskState::AwaitingCompletion,
            TaskState::AwaitingCompletion
        ]
    );
    let r = reactor.poll_and_wake(&vec![request(1), request(7), request(2)]);
    assert_eq!(r, Err(ProtocolError::TagOutOfRange));
    assert_eq!(
        states(&reactor),
        vec![TaskState::Dispatching, TaskState::Dispatching, TaskState::AwaitingCompletion]
    );
}

#[test]
fn completions_of_different_tags_commute() {
    let orders: [[Completion; 3]; 2] =
        [[request(0), abort(1), request(2)], [request(2), request(0), abort(1)]];
    let mut ends = Vec::new();
    for order in orders {
        let mut reactor = queue(3);
        reactor.start();
        let mut wakes = reactor.poll_and_wake(&order.to_vec()).unwrap();
        wakes.sort_by_key(|w| w.tag);
        ends.push((states(&reactor), wakes));
    }
    assert_eq!(ends[0], ends[1]);
}

#[test]
fn each_tag_sees_its_own_requests_in_order() {
    let depth = 8u16;
    let mut reactor = queue(depth);
    reactor.start();
    let mut committed: Vec<Vec<i32>> = vec![Vec::new(); depth as usize];
    let mut expected: Vec<Vec<i32>> = vec![Vec::new(); depth as usize];
    for round in 0..20u32 {
        let batch: Vec<Completion> =
            (0..depth).rev().filter(|t| (*t as u32 + round) % 3 != 0).map(request).collect();
        let wakes = reactor.poll_and_wake(&batch).unwrap();
        assert_eq!(wakes.len(), batch.len());
        for (wake, completion) in wakes.iter().zip(batch.iter()) {
            assert_eq!(wake.tag, completion.tag);
            let n = (round + 1) * (wake.tag as u32 + 1);
            let iod =
                IoDescriptor { op_flags: 0, nr_sectors: n, start_sector: 0, addr: 0 };
            expected[wake.tag as usize].push((n * 512) as i32);
            let res = rublk::null::handle_io(&iod);
            let command = reactor.commit(wake.tag, res).unwrap().unwrap();
            assert_eq!(command.tag, wake.tag);
            assert_eq!(command.buffer_address, 0x1000 * (wake.tag as u64 + 1));
            assert_eq!(command.opcode, Opcode::CommitAndFetchReq);
            committed[command.tag as usize].push(command.result_value);
        }
    }
    assert_eq!(committed, expected);
}

#[test]
fn null_turn_handles_and_commits() {
    let mut reactor = queue(2);
    reactor.start();
    let iod = IoDescriptor { op_flags: 1, nr_sectors: 16, start_sector: 0, addr: 0 };
    assert_eq!(
        handle_completion(&mut reactor, request(1), &iod),
        Ok(Some(commit_command(1, 8192)))
    );
    assert_eq!(states(&reactor), vec![TaskState::AwaitingCompletion; 2]);
    assert_eq!(handle_completion(&mut reactor, abort(1), &iod), Ok(None));
    assert_eq!(
        states(&reactor),
        vec![TaskState::AwaitingCompletion, TaskState::Aborted]
    );
    assert_eq!(
        handle_completion(&mut reactor, request(1), &iod),
        Err(ProtocolError::UnexpectedCompletion)
    );
    assert_eq!(
        handle_completion(&mut reactor, request(2), &iod),
        Err(ProtocolError::TagOutOfRange)
    );
}

#[test]
fn abort_of_every_tag_ends_the_reactor() {
    let mut reactor = queue(5);
    reactor.start();
    let aborts: Vec<Completion> = (0..5).map(abort).collect();
    let wakes = reactor.poll_and_wake(&aborts).unwrap();
    assert!(wakes.iter().all(|w| w.action == TaskAction::Retire));
    assert!(reactor.is_done());
    assert_eq!(states(&reactor), vec![TaskState::Aborted; 5]);
}

#[test]
fn stop_with_nothing_outstanding_ends_every_task() {
    let mut reactor = queue(4);
    assert!(!reactor.is_done());
    reactor.stop();
    assert!(reactor.is_stopping());
    assert!(reactor.is_done());
    assert_eq!(states(&reactor), vec![TaskState::Aborted; 4]);
}

#[test]
fn stop_with_commands_outstanding_ends_every_task() {
    let mut reactor = queue(4);
    reactor.start();
    reactor.stop();
    assert!(reactor.is_done());
}

#[test]
fn stop_is_idempotent() {
    let mut reactor = queue(4);
    reactor.start();
    reactor.on_completion(request(2)).unwrap();
    reactor.on_completion(abort(3)).unwrap();
    reactor.stop();
    let once = states(&reactor);
    assert_eq!(
        once,
        vec![
            TaskState::Aborted,
            TaskState::Aborted,
            TaskState::Dispatching,
            TaskState::Aborted
        ]
    );
    reactor.stop();
    assert_eq!(states(&reactor), once);
    assert!(reactor.is_stopping());

    let mut done = queue(2);
    done.stop();
    done.stop();
    assert!(done.is_done());
}

#[test]
fn handler_at_work_ends_its_task_when_it_delivers() {
    let mut reactor = queue(2);
    reactor.start();
    reactor.on_completion(request(0)).unwrap();
    reactor.stop();
    assert!(!reactor.is_done());
    assert_eq!(reactor.commit(0, 4096), Ok(None));
    assert!(reactor.is_done());
    assert_eq!(reactor.commit(0, 4096), Err(ProtocolError::NotDispatching));
    assert_eq!(reactor.submit(0), Err(ProtocolError::Retired));
}

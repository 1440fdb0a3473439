use substrate_client::net::NodeRef;
use substrate_client::playback::{Action, Event, Failure, Playback};
use substrate_client::scenario::{
    connectivity, consensus, sync, Condition, Quantity, Step, TestDir,
};
use substrate_client::topology::{self, authority_star, star, Link};
use substrate_client::wait::{
    Wait, WaitEvent, WaitPhase, MAX_WAIT_TIME_SECS, ROUND_INTERVAL_MILLIS,
};

fn link(node: NodeRef, peer: NodeRef) -> Link {
    Link { node, peer }
}

fn links_of(steps: &[Step]) -> Vec<Link> {
    let mut links = Vec::new();
    for step in steps {
        if let Step::AddReservedPeer(link) = step {
            links.push(*link);
        }
    }
    links
}

#[test]
fn times_of_a_wait() {
    assert_eq!(MAX_WAIT_TIME_SECS, 180);
    assert_eq!(ROUND_INTERVAL_MILLIS, 100);
}

#[test]
fn wait_asks_full_nodes_first() {
    let mut wait = Wait::new(2, 1);
    assert_eq!(wait.phase, WaitPhase::Sleeping);
    wait.advance(WaitEvent::Tick);
    assert_eq!(wait.phase, WaitPhase::AskingFull(0));
    wait.advance(WaitEvent::Answer(true));
    assert_eq!(wait.phase, WaitPhase::AskingFull(1));
    wait.advance(WaitEvent::Answer(true));
    assert_eq!(wait.phase, WaitPhase::AskingLight(0));
    wait.advance(WaitEvent::Answer(true));
    assert_eq!(wait.phase, WaitPhase::Ready);
    wait.advance(WaitEvent::Elapsed);
    assert_eq!(wait.phase, WaitPhase::Ready);
}

#[test]
fn unready_node_ends_the_round() {
    let mut wait = Wait::new(2, 2);
    wait.advance(WaitEvent::Tick);
    wait.advance(WaitEvent::Answer(true));
    wait.advance(WaitEvent::Answer(false));
    assert_eq!(wait.phase, WaitPhase::Sleeping);
    wait.advance(WaitEvent::Answer(true));
    assert_eq!(wait.phase, WaitPhase::Sleeping);
    wait.advance(WaitEvent::Tick);
    assert_eq!(wait.phase, WaitPhase::AskingFull(0));
    wait.advance(WaitEvent::Answer(true));
    wait.advance(WaitEvent::Answer(true));
    wait.advance(WaitEvent::Answer(false));
    assert_eq!(wait.phase, WaitPhase::Sleeping);
}

#[test]
fn wait_without_nodes_ends_at_once() {
    let mut wait = Wait::new(0, 0);
    wait.advance(WaitEvent::Tick);
    assert_eq!(wait.phase, WaitPhase::Ready);
    let mut wait = Wait::new(0, 1);
    wait.advance(WaitEvent::Tick);
    assert_eq!(wait.phase, WaitPhase::AskingLight(0));
    let mut wait = Wait::new(1, 0);
    wait.advance(WaitEvent::Tick);
    wait.advance(WaitEvent::Answer(true));
    assert_eq!(wait.phase, WaitPhase::Ready);
}

#[test]
fn wait_times_out_between_rounds() {
    let mut wait = Wait::new(1, 1);
    wait.advance(WaitEvent::Tick);
    wait.advance(WaitEvent::Elapsed);
    assert_eq!(wait.phase, WaitPhase::AskingFull(0));
    wait.advance(WaitEvent::Answer(false));
    wait.advance(WaitEvent::Elapsed);
    assert_eq!(wait.phase, WaitPhase::TimedOut);
    wait.advance(WaitEvent::Tick);
    assert_eq!(wait.phase, WaitPhase::TimedOut);
}

#[test]
fn failed_clock_ends_a_wait() {
    let mut wait = Wait::new(3, 3);
    wait.advance(WaitEvent::TickFailed);
    assert_eq!(wait.phase, WaitPhase::Ready);
}

#[test]
fn star_of_three_and_two() {
    assert_eq!(
        star(3, 2),
        vec![
            link(NodeRef::Full(1), NodeRef::Full(0)),
            link(NodeRef::Full(2), NodeRef::Full(0)),
            link(NodeRef::Light(0), NodeRef::Full(0)),
            link(NodeRef::Light(1), NodeRef::Full(0)),
        ]
    );
    assert_eq!(star(1, 0), vec![]);
}

#[test]
fn star_round_an_authority() {
    let hub = NodeRef::Authority(0);
    assert_eq!(
        authority_star(3, 1, 1),
        vec![
            link(NodeRef::Full(0), hub),
            link(NodeRef::Light(0), hub),
            link(NodeRef::Authority(1), hub),
            link(NodeRef::Authority(2), hub),
        ]
    );
    assert_eq!(authority_star(1, 0, 0), vec![]);
    assert_eq!(authority_star(0, 1, 0), vec![link(NodeRef::Full(0), hub)]);
}

#[test]
fn line_goes_by_turns() {
    assert_eq!(
        topology::line(2, 2),
        vec![
            link(NodeRef::Light(0), NodeRef::Full(0)),
            link(NodeRef::Full(1), NodeRef::Light(0)),
            link(NodeRef::Light(1), NodeRef::Full(1)),
        ]
    );
    assert_eq!(
        topology::line(1, 3),
        vec![
            link(NodeRef::Light(0), NodeRef::Full(0)),
            link(NodeRef::Light(1), NodeRef::Light(0)),
            link(NodeRef::Light(2), NodeRef::Light(1)),
        ]
    );
    assert_eq!(
        topology::line(3, 1),
        vec![
            link(NodeRef::Light(0), NodeRef::Full(0)),
            link(NodeRef::Full(1), NodeRef::Light(0)),
            link(NodeRef::Full(2), NodeRef::Full(1)),
        ]
    );
}

fn reaches(links: &[Link], from: NodeRef, to: NodeRef) -> bool {
    let mut at = from;
    for _ in 0..=links.len() {
        if at == to {
            return true;
        }
        match links.iter().find(|link| link.node == at) {
            Some(link) => at = link.peer,
            None => return false,
        }
    }
    false
}

#[test]
fn links_connect_all_nodes() {
    for links in [star(5, 5), topology::line(5, 5)] {
        for i in 0..5 {
            assert!(reaches(&links, NodeRef::Full(i), NodeRef::Full(0)));
            assert!(reaches(&links, NodeRef::Light(i), NodeRef::Full(0)));
        }
    }
}

#[test]
fn directories_of_tests() {
    assert_eq!(TestDir::Connectivity.prefix(), "substrate-connectivity-test");
    assert_eq!(TestDir::Sync.prefix(), "substrate-sync-test");
    assert_eq!(TestDir::Consensus.prefix(), "substrate-conensus-test");
}

#[test]
fn conditions_hold() {
    let exact = Condition::Equals(Quantity::Connections, 9);
    assert_eq!(exact.quantity(), Some(Quantity::Connections));
    assert!(exact.holds(9));
    assert!(!exact.holds(8) && !exact.holds(10));
    let least = Condition::AtLeast(Quantity::FinalizedNumber, 5);
    assert_eq!(least.quantity(), Some(Quantity::FinalizedNumber));
    assert!(least.holds(5) && least.holds(u128::MAX));
    assert!(!least.holds(4));
    assert_eq!(Condition::Any.quantity(), None);
    assert!(Condition::Any.holds(0));
}

#[test]
fn connectivity_scenario() {
    let scenario = connectivity(false);
    assert!(scenario.authorities.is_empty());
    let steps = scenario.steps;
    assert_eq!(steps.len(), 28);
    let start = Step::NewNet { base_port: 30400, authorities: 0, full: 5, light: 5 };
    let wait = Step::RunUntilAllFull {
        full_ready: Condition::Equals(Quantity::Connections, 9),
        light_ready: Condition::Equals(Quantity::Connections, 5),
    };
    assert_eq!(steps[..2], [Step::OpenDir(TestDir::Connectivity), start]);
    assert_eq!(links_of(&steps[..14]), star(5, 5));
    assert_eq!(steps[11..14], [wait, Step::ShutdownRuntime, Step::CloseDir]);
    assert_eq!(steps[14..16], [Step::OpenDir(TestDir::Connectivity), start]);
    assert_eq!(links_of(&steps[14..]), topology::line(5, 5));
    assert_eq!(steps[25..], [wait, Step::DropNet, Step::CloseDir]);
}

#[test]
fn interconnected_light_nodes_have_more_peers() {
    let wait = Step::RunUntilAllFull {
        full_ready: Condition::Equals(Quantity::Connections, 9),
        light_ready: Condition::Equals(Quantity::Connections, 9),
    };
    let steps = connectivity(true).steps;
    assert_eq!(steps[11], wait);
    assert_eq!(steps[25], wait);
}

#[test]
fn sync_scenario() {
    let scenario = sync();
    assert!(scenario.authorities.is_empty());
    let steps = scenario.steps;
    let synced = Condition::Equals(Quantity::BestNumber, 512);
    assert_eq!(
        steps[..3],
        [
            Step::OpenDir(TestDir::Sync),
            Step::NewNet { base_port: 30500, authorities: 0, full: 10, light: 10 },
            Step::MakeBlocks { node: NodeRef::Full(0), count: 512 },
        ]
    );
    assert_eq!(links_of(&steps), star(10, 10));
    assert_eq!(
        steps[22..],
        [
            Step::RunUntilAllFull { full_ready: synced, light_ready: synced },
            Step::SubmitExtrinsic(NodeRef::Full(0)),
            Step::RunUntilAllFull {
                full_ready: Condition::Equals(Quantity::ReadyTransactions, 1),
                light_ready: Condition::Any,
            },
        ]
    );
}

#[test]
fn consensus_scenario() {
    let keys = vec![String::from("//Alice"), String::from("//Bob"), String::from("//Carol")];
    let scenario = consensus(keys.clone());
    assert_eq!(scenario.authorities, keys);
    let batch = scenario.batch(2, 5, 4);
    assert_eq!(batch.authorities, keys[..2]);
    assert_eq!((batch.full, batch.light), (5, 4));
    let steps = scenario.steps;
    assert_eq!(
        steps[..2],
        [
            Step::OpenDir(TestDir::Consensus),
            Step::NewNet { base_port: 30600, authorities: 3, full: 5, light: 5 },
        ]
    );
    assert_eq!(links_of(&steps[..14]), authority_star(3, 5, 5));
    assert_eq!(
        steps[14],
        Step::RunUntilAllFull {
            full_ready: Condition::AtLeast(Quantity::FinalizedNumber, 5),
            light_ready: Condition::AtLeast(Quantity::BestNumber, 5),
        }
    );
    assert_eq!(steps[15], Step::InsertNodes { full: 5, light: 5 });
    assert_eq!(links_of(&steps[16..]), authority_star(1, 10, 10));
    assert_eq!(steps.len(), 37);
    assert_eq!(
        steps[36],
        Step::RunUntilAllFull {
            full_ready: Condition::AtLeast(Quantity::FinalizedNumber, 10),
            light_ready: Condition::AtLeast(Quantity::BestNumber, 10),
        }
    );
}

#[test]
fn consensus_without_authorities_links_to_one() {
    let steps = consensus(vec![]).steps;
    let start = Step::NewNet { base_port: 30600, authorities: 0, full: 5, light: 5 };
    assert_eq!(steps[1], start);
    assert_eq!(
        steps[2],
        Step::AddReservedPeer(link(NodeRef::Full(0), NodeRef::Authority(0)))
    );
}

/// Plays a scenario whose every action is done and whose nodes are ready in the first round, and
/// returns what was done.
fn play(steps: Vec<Step>, full: usize, light: usize) -> Vec<Action> {
    let mut playback = Playback::new(steps);
    let mut wanted = 0;
    let mut done = Vec::new();
    loop {
        let action = playback.action();
        let event = match action {
            Action::Finish | Action::Fail(_) => {
                done.push(action);
                return done;
            }
            Action::BeginWait => {
                done.push(action);
                Event::WaitBegun(full, light)
            }
            Action::AwaitTick => Event::Tick,
            Action::Count(_, quantity) => {
                wanted += 1;
                match quantity {
                    Some(Quantity::Connections) => Event::Counted(9),
                    Some(Quantity::BestNumber) => Event::Counted(512),
                    Some(Quantity::FinalizedNumber) => Event::Counted(77),
                    Some(Quantity::ReadyTransactions) => Event::Counted(1),
                    None => Event::Counted(0),
                }
            }
            _ => {
                done.push(action);
                Event::Done
            }
        };
        playback.handle(event);
        assert!(wanted < 1000);
    }
}

#[test]
fn connectivity_plays_to_its_end() {
    let done = play(connectivity(true).steps, 5, 5);
    assert_eq!(done[0], Action::OpenDir(TestDir::Connectivity));
    assert_eq!(done[1], Action::StartRuntime(30400));
    for k in 0..10 {
        assert_eq!(done[2 + k], Action::BuildNode(k));
    }
    assert_eq!(
        done[12],
        Action::AddReservedPeer(link(NodeRef::Full(1), NodeRef::Full(0)))
    );
    assert_eq!(done[21..24], [Action::BeginWait, Action::ShutdownRuntime, Action::CloseDir]);
    assert_eq!(done[45..], [Action::BeginWait, Action::DropNet, Action::CloseDir, Action::Finish]);
}

#[test]
fn sync_plays_to_its_end() {
    let done = play(sync().steps, 10, 10);
    let blocks = done.iter().filter(|a| **a == Action::MakeBlock(NodeRef::Full(0))).count();
    assert_eq!(blocks, 512);
    assert_eq!(
        done[done.len() - 4..],
        [
            Action::BeginWait,
            Action::SubmitExtrinsic(NodeRef::Full(0), 512),
            Action::BeginWait,
            Action::Finish,
        ]
    );
}

#[test]
fn consensus_plays_to_its_end() {
    let done = play(consensus(vec![String::from("//Alice")]).steps, 5, 5);
    let built = done.iter().filter(|a| matches!(a, Action::BuildNode(_))).count();
    assert_eq!(built, 21);
    assert_eq!(done.last(), Some(&Action::Finish));
}

#[test]
fn joining_nodes_are_those_of_the_step() {
    let mut playback = Playback::new(vec![
        Step::NewNet { base_port: 30600, authorities: 1, full: 2, light: 3 },
        Step::InsertNodes { full: 4, light: 5 },
        Step::DropNet,
    ]);
    let mut seen = Vec::new();
    while playback.action() != Action::Finish {
        let joining = playback.joining();
        seen.push((joining.authorities, joining.full, joining.light));
        playback.handle(Event::Done);
    }
    seen.dedup();
    assert_eq!(seen, vec![(1, 2, 3), (0, 4, 5), (0, 0, 0)]);
    let joining = playback.joining();
    assert_eq!((joining.authorities, joining.full, joining.light), (0, 0, 0));
}

#[test]
fn each_action_fails_in_its_own_way() {
    let cases = vec![
        (Step::OpenDir(TestDir::Sync), Failure::TestDir, "Error creating test dir"),
        (
            Step::NewNet { base_port: 1, authorities: 0, full: 1, light: 0 },
            Failure::Runtime,
            "Error creating tokio runtime",
        ),
        (
            Step::InsertNodes { full: 0, light: 1 },
            Failure::NodeService,
            "Error creating test node service",
        ),
        (
            Step::AddReservedPeer(link(NodeRef::Full(1), NodeRef::Full(0))),
            Failure::ReservedPeer,
            "Error adding reserved peer",
        ),
        (Step::ShutdownRuntime, Failure::Shutdown, "Error shutting down runtime"),
        (Step::CloseDir, Failure::RemoveDir, "Error removing temp dir"),
    ];
    for (step, failure, message) in cases {
        let mut playback = Playback::new(vec![step, Step::DropNet]);
        playback.handle(Event::Failed);
        assert_eq!(playback.action(), Action::Fail(failure));
        assert_eq!(failure.message(), message);
        playback.handle(Event::Done);
        assert_eq!(playback.action(), Action::Fail(failure));
    }
}

#[test]
fn transaction_goes_to_the_best_block() {
    let submit = Step::SubmitExtrinsic(NodeRef::Full(3));
    let mut playback = Playback::new(vec![submit, Step::CloseDir]);
    let count = Action::Count(NodeRef::Full(3), Some(Quantity::BestNumber));
    assert_eq!(playback.action(), count);
    playback.handle(Event::Done);
    playback.handle(Event::Failed);
    assert_eq!(playback.action(), count);
    playback.handle(Event::Counted(77));
    assert_eq!(playback.action(), Action::SubmitExtrinsic(NodeRef::Full(3), 77));
    playback.handle(Event::Counted(78));
    assert_eq!(playback.action(), Action::SubmitExtrinsic(NodeRef::Full(3), 77));
    playback.handle(Event::Done);
    assert_eq!(playback.action(), Action::CloseDir);

    let mut playback = Playback::new(vec![submit]);
    playback.handle(Event::Counted(5));
    playback.handle(Event::Failed);
    assert_eq!(playback.action(), Action::Fail(Failure::Extrinsic));
    assert_eq!(Failure::Extrinsic.message(), "called `Result::unwrap()` on an `Err` value");
}

#[test]
fn wait_that_takes_too_long_fails() {
    let wait = Step::RunUntilAllFull {
        full_ready: Condition::Equals(Quantity::Connections, 9),
        light_ready: Condition::Any,
    };
    let mut playback = Playback::new(vec![wait]);
    playback.handle(Event::Done);
    assert_eq!(playback.action(), Action::BeginWait);
    playback.handle(Event::WaitBegun(1, 1));
    assert_eq!(playback.action(), Action::AwaitTick);
    playback.handle(Event::Tick);
    assert_eq!(
        playback.action(),
        Action::Count(NodeRef::Full(0), Some(Quantity::Connections))
    );
    playback.handle(Event::Counted(8));
    assert_eq!(playback.action(), Action::AwaitTick);
    playback.handle(Event::Tick);
    playback.handle(Event::Counted(9));
    assert_eq!(playback.action(), Action::Count(NodeRef::Light(0), None));
    playback.handle(Event::Elapsed);
    assert_eq!(playback.action(), Action::Count(NodeRef::Light(0), None));
    playback.handle(Event::Counted(0));
    assert_eq!(playback.action(), Action::Finish);

    let mut playback = Playback::new(vec![wait]);
    playback.handle(Event::WaitBegun(1, 1));
    playback.handle(Event::Elapsed);
    assert_eq!(playback.action(), Action::Fail(Failure::WaitedTooLong));
    assert_eq!(Failure::WaitedTooLong.message(), "Waited for too long");
}

#[test]
fn wait_is_passed_after_a_ready_round_only() {
    let wait = Step::RunUntilAllFull {
        full_ready: Condition::AtLeast(Quantity::FinalizedNumber, 5),
        light_ready: Condition::AtLeast(Quantity::BestNumber, 5),
    };
    let mut playback = Playback::new(vec![wait, Step::CloseDir]);
    playback.handle(Event::WaitBegun(2, 1));
    for counts in [[5, 4, 5], [4, 5, 5], [5, 5, 4], [5, 7, 6]] {
        playback.handle(Event::Tick);
        let mut asked = Vec::new();
        for counted in counts {
            match playback.action() {
                Action::Count(node, Some(_)) => {
                    asked.push(node);
                    playback.handle(Event::Counted(counted));
                }
                _ => continue,
            }
        }
        let all = [NodeRef::Full(0), NodeRef::Full(1), NodeRef::Light(0)];
        assert_eq!(asked, all[..asked.len()]);
        if counts == [5, 7, 6] {
            assert_eq!(asked.len(), 3);
            assert_eq!(playback.action(), Action::CloseDir);
        } else {
            assert_eq!(playback.action(), Action::AwaitTick);
        }
    }
}

#[test]
fn failed_clock_goes_on_to_the_next_step() {
    let wait = Step::RunUntilAllFull {
        full_ready: Condition::Any,
        light_ready: Condition::Any,
    };
    let mut playback = Playback::new(vec![wait, Step::CloseDir]);
    playback.handle(Event::WaitBegun(4, 4));
    playback.handle(Event::TickFailed);
    assert_eq!(playback.action(), Action::CloseDir);
}

#[test]
fn empty_batches_are_passed_over() {
    let mut playback = Playback::new(vec![
        Step::InsertNodes { full: 0, light: 0 },
        Step::MakeBlocks { node: NodeRef::Full(0), count: 0 },
    ]);
    assert_eq!(playback.action(), Action::Pass);
    playback.handle(Event::Failed);
    assert_eq!(playback.action(), Action::Pass);
    playback.handle(Event::Done);
    assert_eq!(playback.action(), Action::Pass);
    playback.handle(Event::Done);
    assert_eq!(playback.action(), Action::Finish);
    assert_eq!(Playback::new(vec![]).action(), Action::Finish);
}

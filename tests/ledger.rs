use aether_arena::{AetherArena, ArenaError, ArenaStatus, Message, Operation, Owner, Query, QueryResponse};

fn owner(n: u128) -> Owner {
    Owner { high: 0, low: n }
}

fn labels(xs: &[&str]) -> Vec<String> {
    xs.iter().map(|s| s.to_string()).collect()
}

fn ledger_with_arena(outcomes: &[&str]) -> AetherArena {
    let mut l = AetherArena::default();
    let id = l.create_arena("Who wins?".to_string(), labels(outcomes), owner(9), 1000);
    assert_eq!(id, 0);
    l
}

#[test]
fn end_to_end_scenario() {
    let mut l = ledger_with_arena(&["Yes", "No"]);
    assert_eq!(l.arenas[0].status, ArenaStatus::Open);
    assert_eq!(l.arenas[0].total_stakes, vec![0, 0]);
    assert_eq!(l.place_prediction(0, 0, 100, owner(1), 1001), Ok(()));
    assert_eq!(l.arenas[0].total_stakes, vec![100, 0]);
    assert_eq!(l.place_prediction(0, 1, 50, owner(2), 1002), Ok(()));
    assert_eq!(l.arenas[0].total_stakes, vec![100, 50]);
    assert_eq!(l.resolve_arena(0, 0), Ok(()));
    assert_eq!(l.arenas[0].status, ArenaStatus::Closed);
    assert_eq!(l.arenas[0].resolution_outcome, Some(0));
    assert_eq!(l.place_prediction(0, 1, 10, owner(3), 1003), Err(ArenaError::InvalidState));
    assert_eq!(l.arenas[0].total_stakes, vec![100, 50]);
    assert_eq!(l.predictions.len(), 2);
}

#[test]
fn status_filter_after_scenario() {
    let mut l = ledger_with_arena(&["Yes", "No"]);
    l.place_prediction(0, 0, 100, owner(1), 1001).unwrap();
    l.place_prediction(0, 1, 50, owner(2), 1002).unwrap();
    l.resolve_arena(0, 0).unwrap();
    let closed = l.get_arenas(Some(ArenaStatus::Closed));
    assert_eq!(closed.len(), 1);
    assert_eq!(closed[0].id, 0);
    assert_eq!(closed[0].question, "Who wins?");
    assert!(l.get_arenas(Some(ArenaStatus::Open)).is_empty());
    assert_eq!(l.get_arenas(None).len(), 1);
}

#[test]
fn stakes_are_sums_over_distinct_owners() {
    let mut l = ledger_with_arena(&["A", "B", "C"]);
    let bets: [(usize, u64, u128); 5] = [(0, 10, 1), (2, 7, 2), (0, 5, 3), (1, 1, 4), (2, 3, 5)];
    for (k, amount, who) in bets {
        l.place_prediction(0, k, amount, owner(who), 2000).unwrap();
    }
    for k in 0..3usize {
        let sum: u64 = l.predictions.iter().filter(|p| p.outcome_index == k).map(|p| p.amount).sum();
        assert_eq!(l.arenas[0].total_stakes[k], sum);
    }
    assert_eq!(l.arenas[0].total_stakes, vec![15, 1, 10]);
}

#[test]
fn create_arena_starts_open_with_zero_stakes() {
    let mut l = AetherArena::default();
    let a = l.create_arena("Q1".to_string(), labels(&["x", "y", "z", "w"]), owner(4), 77);
    let b = l.create_arena("Q2".to_string(), labels(&["only"]), owner(5), 78);
    assert_eq!((a, b), (0, 1));
    assert_eq!(l.next_arena_id, 2);
    let arena = l.get_arena(0).unwrap();
    assert_eq!(arena.total_stakes, vec![0, 0, 0, 0]);
    assert_eq!(arena.status, ArenaStatus::Open);
    assert_eq!(arena.resolution_outcome, None);
    assert_eq!(arena.creator, owner(4));
    assert_eq!(arena.created_at, 77);
    assert_eq!(arena.outcomes, labels(&["x", "y", "z", "w"]));
    assert_eq!(l.get_arena(1).unwrap().total_stakes, vec![0]);
    assert!(l.get_arena(2).is_none());
}

#[test]
fn prediction_rejected_unless_open() {
    for status in [ArenaStatus::Live, ArenaStatus::Resolving, ArenaStatus::Closed] {
        let mut l = ledger_with_arena(&["Yes", "No"]);
        l.place_prediction(0, 1, 5, owner(1), 10).unwrap();
        let path = [ArenaStatus::Live, ArenaStatus::Resolving, ArenaStatus::Closed];
        for s in path {
            l.update_arena_status(0, s).unwrap();
            if s == status {
                break;
            }
        }
        assert_eq!(l.place_prediction(0, 0, 9, owner(2), 11), Err(ArenaError::InvalidState));
        assert_eq!(l.arenas[0].total_stakes, vec![0, 5]);
        assert_eq!(l.predictions.len(), 1);
    }
}

#[test]
fn prediction_errors() {
    let mut l = ledger_with_arena(&["Yes", "No"]);
    assert_eq!(l.place_prediction(1, 0, 5, owner(1), 10), Err(ArenaError::NotFound));
    assert_eq!(l.place_prediction(0, 2, 5, owner(1), 10), Err(ArenaError::InvalidArgument));
    l.place_prediction(0, 0, u64::MAX, owner(1), 10).unwrap();
    assert_eq!(l.place_prediction(0, 0, 1, owner(2), 11), Err(ArenaError::Overflow));
    assert_eq!(l.arenas[0].total_stakes, vec![u64::MAX, 0]);
    assert_eq!(l.predictions.len(), 1);
}

#[test]
fn replacing_a_prediction_moves_its_stake() {
    let mut l = ledger_with_arena(&["Yes", "No"]);
    l.place_prediction(0, 0, 100, owner(1), 10).unwrap();
    l.place_prediction(0, 0, 30, owner(1), 11).unwrap();
    assert_eq!(l.arenas[0].total_stakes, vec![30, 0]);
    l.place_prediction(0, 1, 40, owner(1), 12).unwrap();
    assert_eq!(l.arenas[0].total_stakes, vec![0, 40]);
    assert_eq!(l.predictions.len(), 1);
    assert_eq!(l.predictions[0].outcome_index, 1);
    assert_eq!(l.predictions[0].amount, 40);
    assert_eq!(l.predictions[0].placed_at, 12);
}

#[test]
fn status_transitions_follow_the_chain() {
    let all = [ArenaStatus::Open, ArenaStatus::Live, ArenaStatus::Resolving, ArenaStatus::Closed];
    for (i, from) in all.iter().enumerate() {
        for to in all {
            let mut l = ledger_with_arena(&["Yes"]);
            for s in &all[1..=i] {
                l.update_arena_status(0, *s).unwrap();
            }
            assert_eq!(l.arenas[0].status, *from);
            let legal = matches!(
                (*from, to),
                (ArenaStatus::Open, ArenaStatus::Live)
                    | (ArenaStatus::Live, ArenaStatus::Resolving)
                    | (ArenaStatus::Resolving, ArenaStatus::Closed)
            );
            let r = l.update_arena_status(0, to);
            if legal {
                assert_eq!(r, Ok(()));
                assert_eq!(l.arenas[0].status, to);
            } else {
                assert_eq!(r, Err(ArenaError::InvalidState));
                assert_eq!(l.arenas[0].status, *from);
            }
        }
    }
    let mut l = AetherArena::default();
    assert_eq!(l.update_arena_status(0, ArenaStatus::Live), Err(ArenaError::NotFound));
}

#[test]
fn resolution_checks_the_outcome_only() {
    let mut l = ledger_with_arena(&["Yes", "No"]);
    assert_eq!(l.resolve_arena(0, 2), Err(ArenaError::InvalidArgument));
    assert_eq!(l.arenas[0].status, ArenaStatus::Open);
    assert_eq!(l.arenas[0].resolution_outcome, None);
    assert_eq!(l.resolve_arena(3, 0), Err(ArenaError::NotFound));
    l.update_arena_status(0, ArenaStatus::Live).unwrap();
    assert_eq!(l.resolve_arena(0, 1), Ok(()));
    assert_eq!(l.arenas[0].status, ArenaStatus::Closed);
    assert_eq!(l.arenas[0].resolution_outcome, Some(1));
    assert_eq!(l.resolve_arena(0, 0), Ok(()));
    assert_eq!(l.arenas[0].resolution_outcome, Some(0));
}

#[test]
fn operations_report_results() {
    let mut l = AetherArena::default();
    let create = Operation::CreateArena { question: "Q".to_string(), outcomes: labels(&["a", "b"]) };
    assert_eq!(l.execute_operation(create, owner(1), 5), Ok(Some(0)));
    let bet = Operation::PlacePrediction { arena_id: 0, outcome_index: 1, amount: 8 };
    assert_eq!(l.execute_operation(bet, owner(2), 6), Ok(None));
    assert_eq!(l.predictions[0].owner, owner(2));
    let bad = Operation::PlacePrediction { arena_id: 4, outcome_index: 0, amount: 1 };
    assert_eq!(l.execute_operation(bad, owner(2), 7), Err(ArenaError::NotFound));
    let up = Operation::UpdateArenaStatus { arena_id: 0, new_status: ArenaStatus::Closed };
    assert_eq!(l.execute_operation(up, owner(1), 8), Err(ArenaError::InvalidState));
    let res = Operation::ResolveArena { arena_id: 0, winning_outcome: 1 };
    assert_eq!(l.execute_operation(res, owner(1), 9), Ok(None));
    assert_eq!(l.arenas[0].status, ArenaStatus::Closed);
}

#[test]
fn messages_drop_errors() {
    let mut l = ledger_with_arena(&["Yes", "No"]);
    l.execute_message(Message::PlacePrediction { arena_id: 0, outcome_index: 1, amount: 3 }, owner(1), 5);
    assert_eq!(l.arenas[0].total_stakes, vec![0, 3]);
    l.execute_message(Message::PlacePrediction { arena_id: 0, outcome_index: 7, amount: 3 }, owner(2), 6);
    assert_eq!(l.arenas[0].total_stakes, vec![0, 3]);
    assert_eq!(l.predictions.len(), 1);
    l.execute_message(Message::ResolveArena { arena_id: 0, winning_outcome: 9 }, owner(1), 7);
    assert_eq!(l.arenas[0].status, ArenaStatus::Open);
    l.execute_message(Message::ResolveArena { arena_id: 0, winning_outcome: 1 }, owner(1), 8);
    assert_eq!(l.arenas[0].status, ArenaStatus::Closed);
    assert_eq!(l.arenas[0].resolution_outcome, Some(1));
}

#[test]
fn queries_answer_from_the_ledger() {
    let mut l = ledger_with_arena(&["Yes", "No"]);
    l.create_arena("Second".to_string(), labels(&["p", "q"]), owner(9), 1001);
    l.place_prediction(0, 0, 1, owner(1), 2).unwrap();
    l.place_prediction(1, 1, 2, owner(1), 3).unwrap();
    l.place_prediction(1, 0, 3, owner(2), 4).unwrap();
    match l.handle_query(Query::GetUserPredictions { user: owner(1) }) {
        QueryResponse::Predictions(ps) => {
            assert_eq!(ps.iter().map(|p| p.arena_id).collect::<Vec<_>>(), vec![0, 1]);
        }
        other => panic!("unexpected {:?}", other),
    }
    match l.handle_query(Query::GetArenaPredictions { arena_id: 1 }) {
        QueryResponse::Predictions(ps) => {
            assert_eq!(ps.iter().map(|p| p.amount).collect::<Vec<_>>(), vec![2, 3]);
        }
        other => panic!("unexpected {:?}", other),
    }
    match l.handle_query(Query::GetArena { arena_id: 1 }) {
        QueryResponse::Arena(Some(a)) => assert_eq!(a.question, "Second"),
        other => panic!("unexpected {:?}", other),
    }
    match l.handle_query(Query::GetArena { arena_id: 2 }) {
        QueryResponse::Arena(None) => {}
        other => panic!("unexpected {:?}", other),
    }
    l.update_arena_status(1, ArenaStatus::Live).unwrap();
    match l.handle_query(Query::GetArenas { status_filter: Some(ArenaStatus::Live) }) {
        QueryResponse::Arenas(v) => assert_eq!(v.iter().map(|a| a.id).collect::<Vec<_>>(), vec![1]),
        other => panic!("unexpected {:?}", other),
    }
}

#[test]
fn error_messages_are_distinct() {
    let all = [ArenaError::NotFound, ArenaError::InvalidArgument, ArenaError::InvalidState, ArenaError::Overflow];
    let texts: Vec<String> = all.iter().map(|e| e.message()).collect();
    assert_eq!(texts[0], "Arena not found");
    for i in 0..texts.len() {
        for j in i + 1..texts.len() {
            assert_ne!(texts[i], texts[j]);
        }
    }
}

#[test]
fn predictions_are_kept_in_key_order() {
    let mut l = ledger_with_arena(&["Yes", "No"]);
    l.create_arena("Later".to_string(), labels(&["a"]), owner(9), 1001);
    l.place_prediction(1, 0, 4, owner(3), 1).unwrap();
    l.place_prediction(0, 1, 5, owner(7), 2).unwrap();
    l.place_prediction(0, 0, 6, Owner { high: 1, low: 0 }, 3).unwrap();
    l.place_prediction(0, 0, 7, owner(2), 4).unwrap();
    let keys: Vec<(u64, u128, u128)> =
        l.predictions.iter().map(|p| (p.arena_id, p.owner.high, p.owner.low)).collect();
    assert_eq!(keys, vec![(0, 0, 2), (0, 0, 7), (0, 1, 0), (1, 0, 3)]);
    assert_eq!(l.arenas[0].total_stakes, vec![13, 5]);
    assert_eq!(l.arenas[1].total_stakes, vec![4]);
}

use sworker::hashes::{srd_decrease, srd_decrease_targets, SrdHashes};
use sworker::status::SGX_SUCCESS;
use sworker::task::{srd_change, srd_change_task, SrdTasks, SRD_MAX_PER_TURN};

fn holding(names: &[&str]) -> SrdHashes {
    let mut h = SrdHashes::new();
    for n in names {
        h.add_srd_hash(n.to_string());
    }
    h
}

#[test]
fn queued_tasks_add_up() {
    let mut t = SrdTasks::new();
    assert_eq!(srd_change_task(&mut t, 100), SGX_SUCCESS);
    assert_eq!(srd_change_task(&mut t, -30), SGX_SUCCESS);
    assert_eq!(t.task_num, 70);
}

#[test]
fn turns_hand_out_at_most_sixty_four() {
    let mut t = SrdTasks::new();
    srd_change_task(&mut t, 150);
    assert_eq!(srd_change(&mut t), 64);
    assert_eq!(srd_change(&mut t), 64);
    assert_eq!(srd_change(&mut t), 22);
    assert_eq!(srd_change(&mut t), 0);
    assert_eq!(t.task_num, 0);
    assert_eq!(SRD_MAX_PER_TURN, 64);
}

#[test]
fn a_release_goes_out_whole() {
    let mut t = SrdTasks::new();
    srd_change_task(&mut t, -200);
    assert_eq!(srd_change(&mut t), -200);
    assert_eq!(t.task_num, 0);
}

#[test]
fn exactly_sixty_four_drains_in_one_turn() {
    let mut t = SrdTasks::new();
    srd_change_task(&mut t, 64);
    assert_eq!(srd_change(&mut t), 64);
    assert_eq!(t.task_num, 0);
}

#[test]
fn targets_are_the_newest_first() {
    let h = holding(&["a", "b", "c", "d"]);
    assert_eq!(srd_decrease_targets(&h, 2), vec!["d".to_string(), "c".to_string()]);
    assert_eq!(srd_decrease_targets(&h, 0), Vec::<String>::new());
    assert_eq!(srd_decrease_targets(&h, 9).len(), 4);
}

#[test]
fn deleted_entries_leave_failed_ones_stay() {
    let mut h = holding(&["a", "b", "c", "d", "e"]);
    // targets: e, d, c
    assert_eq!(srd_decrease(&mut h, 3, &vec![true, false, true]), SGX_SUCCESS);
    assert_eq!(h.hashes, vec!["a".to_string(), "b".to_string(), "d".to_string()]);
}

#[test]
fn decrease_beyond_the_list_empties_it() {
    let mut h = holding(&["a", "b"]);
    assert_eq!(srd_decrease(&mut h, 10, &vec![true, true]), SGX_SUCCESS);
    assert!(h.hashes.is_empty());
    assert_eq!(h.len(), 0);
}

#[test]
fn failed_deletions_change_nothing() {
    let mut h = holding(&["a", "b", "c"]);
    assert_eq!(srd_decrease(&mut h, 2, &vec![false, false]), SGX_SUCCESS);
    assert_eq!(h.hashes, vec!["a".to_string(), "b".to_string(), "c".to_string()]);
}

#[test]
fn removing_the_newest_after_adding_it_restores_the_list() {
    let mut h = holding(&["a", "b"]);
    h.add_srd_hash("c".to_string());
    let targets = srd_decrease_targets(&h, 1);
    assert_eq!(targets, vec!["c".to_string()]);
    srd_decrease(&mut h, 1, &vec![true]);
    assert_eq!(h.hashes, vec!["a".to_string(), "b".to_string()]);
}

#[test]
fn handed_out_plus_backlog_is_what_was_queued() {
    let mut t = SrdTasks::new();
    srd_change_task(&mut t, 1000);
    let mut handed = 0;
    for _ in 0..5 {
        handed += srd_change(&mut t);
        assert!(t.task_num >= 0);
        assert_eq!(handed + t.task_num, 1000);
    }
    assert_eq!(handed, 320);
}

use peppertodo::cli::{Cli, Commands};
use peppertodo::error::TaskError;
use peppertodo::manager::task::{Task, TaskStatus};
use peppertodo::manager::TaskManager;

fn titles(manager: &TaskManager, tasks: &[Task]) -> Vec<String> {
    tasks.iter().map(|t| t.get_title(manager).unwrap()).collect()
}

fn run_command(manager: &mut TaskManager, command: Commands) -> Result<Vec<Task>, TaskError> {
    peppertodo::run(&Cli { command }, manager)
}

#[test]
fn second_create_of_a_title_is_duplicate() {
    let mut manager = TaskManager::new();
    assert_eq!(Ok(()), manager.add_new_task("T", "first"));
    assert_eq!(Err(TaskError::DuplicateTitle), manager.add_new_task("T", "second"));
    assert_eq!(1, manager.get_all_tasks(None).len());
    assert_eq!("first", manager.get_task("T").unwrap().get_description(&manager).unwrap());
}

#[test]
fn titles_are_case_sensitive() {
    let mut manager = TaskManager::new();
    assert_eq!(Ok(()), manager.add_new_task("Task", ""));
    assert_eq!(Ok(()), manager.add_new_task("task", ""));
    assert_eq!(2, manager.get_all_tasks(None).len());
}

#[test]
fn create_then_get_round_trips() {
    let mut manager = TaskManager::new();
    manager.add_new_task("buy milk", "two litres").unwrap();
    let task = manager.get_task("buy milk").unwrap();
    assert_eq!("buy milk", task.get_title(&manager).unwrap());
    assert_eq!("two litres", task.get_description(&manager).unwrap());
    assert_eq!(TaskStatus::Undone, task.get_status(&manager).unwrap());
    assert_eq!(1, task.get_id());
}

#[test]
fn ids_increase_and_are_not_reused_after_delete() {
    let mut manager = TaskManager::new();
    manager.add_new_task("A", "").unwrap();
    manager.add_new_task("B", "").unwrap();
    manager.delete_task("B").unwrap();
    manager.add_new_task("C", "").unwrap();
    assert_eq!(1, manager.get_task("A").unwrap().get_id());
    assert_eq!(3, manager.get_task("C").unwrap().get_id());
    assert_eq!(3, manager.last_issued_id());
}

#[test]
fn marking_twice_keeps_the_status() {
    let mut manager = TaskManager::new();
    manager.add_new_task("T", "").unwrap();
    let task = manager.get_task("T").unwrap();
    assert_eq!(Ok(()), task.set_status(&mut manager, &TaskStatus::Done));
    assert_eq!(Ok(()), task.set_status(&mut manager, &TaskStatus::Done));
    assert_eq!(TaskStatus::Done, manager.get_task("T").unwrap().get_status(&manager).unwrap());
    assert_eq!(1, manager.get_all_tasks(None).len());
}

#[test]
fn filtered_listing_matches_full_listing() {
    let mut manager = TaskManager::new();
    for title in ["a", "b", "c", "d", "e"] {
        manager.add_new_task(title, "").unwrap();
    }
    manager.get_task("b").unwrap().set_status(&mut manager, &TaskStatus::Done).unwrap();
    manager.get_task("d").unwrap().set_status(&mut manager, &TaskStatus::Underway).unwrap();
    manager.get_task("e").unwrap().set_status(&mut manager, &TaskStatus::Done).unwrap();
    let all = manager.get_all_tasks(None);
    for status in [TaskStatus::Undone, TaskStatus::Underway, TaskStatus::Done] {
        let filtered = manager.get_all_tasks(Some(&status));
        assert!(filtered.iter().all(|t| t.get_status(&manager).unwrap() == status));
        let expected: Vec<&Task> = all.iter().filter(|t| t.get_status(&manager).unwrap() == status).collect();
        let got: Vec<&Task> = filtered.iter().collect();
        assert_eq!(
            expected.iter().map(|t| t.get_id()).collect::<Vec<_>>(),
            got.iter().map(|t| t.get_id()).collect::<Vec<_>>()
        );
    }
}

#[test]
fn full_listing_groups_underway_undone_done() {
    let mut manager = TaskManager::new();
    for title in ["a", "b", "c", "d", "e"] {
        manager.add_new_task(title, "").unwrap();
    }
    manager.get_task("a").unwrap().set_status(&mut manager, &TaskStatus::Done).unwrap();
    manager.get_task("c").unwrap().set_status(&mut manager, &TaskStatus::Underway).unwrap();
    manager.get_task("e").unwrap().set_status(&mut manager, &TaskStatus::Underway).unwrap();
    assert_eq!(vec!["c", "e", "b", "d", "a"], titles(&manager, &manager.get_all_tasks(None)));
}

#[test]
fn listing_an_empty_table_is_empty() {
    let manager = TaskManager::new();
    assert!(manager.get_all_tasks(None).is_empty());
    assert!(manager.get_all_tasks(Some(&TaskStatus::Done)).is_empty());
}

#[test]
fn delete_removes_exactly_one() {
    let mut manager = TaskManager::new();
    manager.add_new_task("A", "").unwrap();
    manager.add_new_task("B", "").unwrap();
    assert_eq!(Ok(()), manager.delete_task("A"));
    assert_eq!(vec!["B"], titles(&manager, &manager.get_all_tasks(None)));
    assert_eq!(TaskError::NotFound, manager.get_task("A").unwrap_err());
}

#[test]
fn deleting_twice_reports_not_found() {
    let mut manager = TaskManager::new();
    manager.add_new_task("A", "").unwrap();
    assert_eq!(Ok(()), manager.delete_task("A"));
    assert_eq!(Err(TaskError::NotFound), manager.delete_task("A"));
}

#[test]
fn clear_removes_only_done() {
    let mut manager = TaskManager::new();
    manager.add_new_task("X", "").unwrap();
    manager.add_new_task("Y", "").unwrap();
    manager.get_task("X").unwrap().set_status(&mut manager, &TaskStatus::Done).unwrap();
    manager.clear_done_tasks();
    assert_eq!(vec!["Y"], titles(&manager, &manager.get_all_tasks(None)));
}

#[test]
fn clear_with_nothing_done_changes_nothing() {
    let mut manager = TaskManager::new();
    manager.add_new_task("X", "").unwrap();
    assert!(run_command(&mut manager, Commands::Clear).unwrap().is_empty());
    assert_eq!(vec!["X"], titles(&manager, &manager.get_all_tasks(None)));
}

#[test]
fn edit_updates_only_the_description() {
    let mut manager = TaskManager::new();
    manager.add_new_task("T", "D").unwrap();
    let shown = run_command(
        &mut manager,
        Commands::Edit { target: "T".to_string(), title: None, description: Some("D2".to_string()) },
    )
    .unwrap();
    assert!(shown.is_empty());
    let task = manager.get_task("T").unwrap();
    assert_eq!("T", task.get_title(&manager).unwrap());
    assert_eq!("D2", task.get_description(&manager).unwrap());
}

#[test]
fn edit_with_nothing_to_change_succeeds() {
    let mut manager = TaskManager::new();
    manager.add_new_task("T", "D").unwrap();
    let r = run_command(
        &mut manager,
        Commands::Edit { target: "T".to_string(), title: None, description: None },
    );
    assert!(r.is_ok());
    assert_eq!("D", manager.get_task("T").unwrap().get_description(&manager).unwrap());
}

#[test]
fn edit_to_a_taken_title_fails_before_the_description() {
    let mut manager = TaskManager::new();
    manager.add_new_task("A", "a").unwrap();
    manager.add_new_task("B", "b").unwrap();
    let r = run_command(
        &mut manager,
        Commands::Edit {
            target: "A".to_string(),
            title: Some("B".to_string()),
            description: Some("changed".to_string()),
        },
    );
    assert_eq!(TaskError::DuplicateTitle, r.unwrap_err());
    assert_eq!("a", manager.get_task("A").unwrap().get_description(&manager).unwrap());
    assert_eq!("b", manager.get_task("B").unwrap().get_description(&manager).unwrap());
}

#[test]
fn renaming_a_task_to_its_own_title_is_allowed() {
    let mut manager = TaskManager::new();
    manager.add_new_task("A", "").unwrap();
    let task = manager.get_task("A").unwrap();
    assert_eq!(Ok(()), task.set_title(&mut manager, "A"));
}

#[test]
fn missing_targets_are_not_found_and_change_nothing() {
    let mut manager = TaskManager::new();
    manager.add_new_task("present", "p").unwrap();
    let before = titles(&manager, &manager.get_all_tasks(None));
    let commands = vec![
        Commands::Mark { target: "nonexistent".to_string(), status: TaskStatus::Done },
        Commands::Edit {
            target: "nonexistent".to_string(),
            title: Some("x".to_string()),
            description: Some("y".to_string()),
        },
        Commands::Delete { target: "nonexistent".to_string() },
    ];
    for command in commands {
        assert_eq!(TaskError::NotFound, run_command(&mut manager, command).unwrap_err());
        assert_eq!(before, titles(&manager, &manager.get_all_tasks(None)));
        let task = manager.get_task("present").unwrap();
        assert_eq!("p", task.get_description(&manager).unwrap());
        assert_eq!(TaskStatus::Undone, task.get_status(&manager).unwrap());
    }
}

#[test]
fn handle_of_a_deleted_task_is_not_found() {
    let mut manager = TaskManager::new();
    manager.add_new_task("A", "").unwrap();
    let task = manager.get_task("A").unwrap();
    manager.delete_task("A").unwrap();
    assert_eq!(Err(TaskError::NotFound), task.set_status(&mut manager, &TaskStatus::Done));
    assert_eq!(Err(TaskError::NotFound), task.set_description(&mut manager, "d"));
    assert_eq!(Err(TaskError::NotFound), task.set_title(&mut manager, "B"));
    assert_eq!(TaskError::NotFound, Task::from(&manager, 1).unwrap_err());
}

#[test]
fn run_list_returns_the_listing() {
    let mut manager = TaskManager::new();
    manager.add_new_task("one", "").unwrap();
    manager.add_new_task("two", "").unwrap();
    run_command(
        &mut manager,
        Commands::Mark { target: "two".to_string(), status: TaskStatus::Underway },
    )
    .unwrap();
    let shown = run_command(&mut manager, Commands::List { filter: None }).unwrap();
    assert_eq!(vec!["two", "one"], titles(&manager, &shown));
    let shown =
        run_command(&mut manager, Commands::List { filter: Some(TaskStatus::Undone) }).unwrap();
    assert_eq!(vec!["one"], titles(&manager, &shown));
}

#[test]
fn status_text_round_trips() {
    for status in [TaskStatus::Undone, TaskStatus::Underway, TaskStatus::Done] {
        assert_eq!(Ok(status), TaskStatus::parse(status.as_str()));
    }
    assert_eq!("undone", TaskStatus::Undone.as_str());
    assert_eq!("underway", TaskStatus::Underway.as_str());
    assert_eq!("done", TaskStatus::Done.as_str());
}

#[test]
fn unknown_status_text_is_invalid() {
    assert_eq!(Err(TaskError::InvalidStatus), TaskStatus::parse("Done"));
    assert_eq!(Err(TaskError::InvalidStatus), TaskStatus::parse(""));
    assert_eq!(Err(TaskError::InvalidStatus), TaskStatus::parse("finished"));
}

#[test]
fn task_line_with_and_without_description() {
    let mut manager = TaskManager::new();
    manager.add_new_task("write report", "by friday").unwrap();
    manager.add_new_task("call bob", "").unwrap();
    manager
        .get_task("call bob")
        .unwrap()
        .set_status(&mut manager, &TaskStatus::Underway)
        .unwrap();
    assert_eq!(
        "[undone] write report: by friday",
        manager.get_task("write report").unwrap().to_line(&manager).unwrap()
    );
    assert_eq!("[underway] call bob", manager.get_task("call bob").unwrap().to_line(&manager).unwrap());
}

#[test]
fn restoring_rows_rebuilds_the_table() {
    let mut manager = TaskManager::starting_after(7).unwrap();
    assert_eq!(Ok(()), manager.restore_task(2, "old", "kept", "done"));
    assert_eq!(Ok(()), manager.restore_task(5, "newer", "", "underway"));
    assert_eq!(7, manager.last_issued_id());
    manager.add_new_task("fresh", "").unwrap();
    assert_eq!(8, manager.get_task("fresh").unwrap().get_id());
    assert_eq!(vec!["newer", "fresh", "old"], titles(&manager, &manager.get_all_tasks(None)));
    assert_eq!(TaskStatus::Done, manager.get_task("old").unwrap().get_status(&manager).unwrap());
}

#[test]
fn restoring_past_the_sequence_moves_next_id() {
    let mut manager = TaskManager::new();
    assert_eq!(Ok(()), manager.restore_task(4, "a", "", "undone"));
    assert_eq!(4, manager.last_issued_id());
}

#[test]
fn restoring_bad_rows_is_refused() {
    let mut manager = TaskManager::new();
    assert_eq!(Err(TaskError::InvalidStatus), manager.restore_task(1, "a", "", "later"));
    assert_eq!(Ok(()), manager.restore_task(3, "a", "", "undone"));
    assert_eq!(Err(TaskError::StorageUnavailable), manager.restore_task(3, "b", "", "undone"));
    assert_eq!(Err(TaskError::StorageUnavailable), manager.restore_task(4, "a", "", "undone"));
    assert_eq!(Err(TaskError::StorageUnavailable), manager.restore_task(0, "c", "", "undone"));
    assert_eq!(
        Err(TaskError::StorageUnavailable),
        manager.restore_task(u64::MAX, "c", "", "undone")
    );
    assert_eq!(vec!["a"], titles(&manager, &manager.get_all_tasks(None)));
}

#[test]
fn exhausted_ids_are_storage_errors() {
    assert_eq!(TaskError::StorageUnavailable, TaskManager::starting_after(u64::MAX).unwrap_err());
    let mut manager = TaskManager::starting_after(u64::MAX - 1).unwrap();
    assert_eq!(Err(TaskError::StorageUnavailable), manager.add_new_task("a", ""));
    assert!(manager.get_all_tasks(None).is_empty());
}

#[test]
fn status_parses_through_from_str() {
    assert_eq!(Ok(TaskStatus::Underway), "underway".parse::<TaskStatus>());
    assert_eq!(Err(TaskError::InvalidStatus), "UNDERWAY".parse::<TaskStatus>());
}

#[test]
fn handle_reads_the_current_row() {
    let mut manager = TaskManager::new();
    manager.add_new_task("A", "first").unwrap();
    let first = manager.get_task("A").unwrap();
    let second = manager.get_task("A").unwrap();
    second.set_title(&mut manager, "B").unwrap();
    second.set_description(&mut manager, "second").unwrap();
    assert_eq!("B", first.get_title(&manager).unwrap());
    assert_eq!("second", first.get_description(&manager).unwrap());
    assert_eq!("[undone] B: second", first.to_line(&manager).unwrap());
    manager.delete_task("B").unwrap();
    assert_eq!(Err(TaskError::NotFound), first.get_title(&manager));
    assert_eq!(Err(TaskError::NotFound), first.get_description(&manager));
    assert_eq!(Err(TaskError::NotFound), first.get_status(&manager));
    assert_eq!(Err(TaskError::NotFound), first.to_line(&manager));
}

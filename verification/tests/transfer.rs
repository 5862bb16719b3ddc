use noita_saves::transfer::{
    copy_dir_with_progress, delete_dirs_with_progress, plan_item, CopyAction, CopyStep, DeleteStep,
    REDRAW_INTERVAL_MILLIS,
};
use noita_saves::ui::{Coalescer, TermOp};
use noita_saves::utils::{SaveStat, WalkItem};
use std::path::PathBuf;

const SIDECAR: &str = ".noita_saves_cache.json";

fn file(name: &str, len: u64) -> WalkItem {
    WalkItem::File { name: name.to_string(), len: Some(len) }
}

fn tree() -> Vec<WalkItem> {
    vec![
        WalkItem::Dir,
        file("world.bin", 1000),
        WalkItem::Dir,
        file("player.xml", 234),
        file(SIDECAR, 27),
        file("stats.xml", 5),
    ]
}

fn paths(n: usize) -> Vec<PathBuf> {
    (0..n).map(|i| PathBuf::from(format!("saves/s{}", i + 1))).collect()
}

#[test]
fn the_redraw_interval_is_sixty_milliseconds() {
    assert_eq!(REDRAW_INTERVAL_MILLIS, 60);
}

#[test]
fn plan_item_decides_by_kind_and_name() {
    assert_eq!(plan_item(&WalkItem::Dir, SIDECAR), CopyAction::CreateDir);
    assert_eq!(plan_item(&file("a", 1), SIDECAR), CopyAction::CopyFile);
    assert_eq!(plan_item(&file(SIDECAR, 1), SIDECAR), CopyAction::Skip);
    assert_eq!(plan_item(&WalkItem::File { name: "a".to_string(), len: None }, SIDECAR), CopyAction::CopyFile);
    assert_eq!(plan_item(&WalkItem::Other { name: "link".to_string() }, SIDECAR), CopyAction::CopyFile);
    assert_eq!(plan_item(&WalkItem::Other { name: SIDECAR.to_string() }, SIDECAR), CopyAction::Skip);
    assert_eq!(plan_item(&WalkItem::Unreadable, SIDECAR), CopyAction::Abort);
}

#[test]
fn a_copy_replays_the_walk_in_order() {
    let mut term = Coalescer::new();
    let items = tree();
    let mut job = copy_dir_with_progress(&mut term, &items, None, SIDECAR, false, true, Some("Saving"), 0);
    let mut steps = Vec::new();
    loop {
        let step = job.next_step();
        steps.push(step);
        match step {
            CopyStep::Finished | CopyStep::Failed(_) => break,
            _ => job.record(&mut term, true, 0),
        }
    }
    assert_eq!(
        steps,
        vec![
            CopyStep::CreateDir(0),
            CopyStep::CopyFile(1),
            CopyStep::CreateDir(2),
            CopyStep::CopyFile(3),
            CopyStep::Skip(4),
            CopyStep::CopyFile(5),
            CopyStep::WriteCache(SaveStat { size: 1239, count: 3 }),
            CopyStep::Finished,
        ]
    );
    assert_eq!(job.progress(), 6);
    assert_eq!(job.stat(), SaveStat { size: 1239, count: 3 });
}

#[test]
fn what_a_copy_copies_has_the_statistics_of_the_source() {
    let mut term = Coalescer::new();
    let items = vec![
        WalkItem::Dir,
        file("a.bin", 700),
        WalkItem::Dir,
        file("nested.xml", 55),
        file(SIDECAR, 30),
    ];
    let mut job = copy_dir_with_progress(&mut term, &items, None, SIDECAR, false, false, None, 0);
    let mut copied = Vec::new();
    loop {
        match job.next_step() {
            CopyStep::CreateDir(i) | CopyStep::CopyFile(i) => copied.push(items[i].clone()),
            CopyStep::Skip(_) | CopyStep::WriteCache(_) => {}
            CopyStep::Finished => break,
            CopyStep::Failed(i) => panic!("failed at {}", i),
        }
        job.record(&mut term, true, 0);
    }
    assert_eq!(copied.len(), 4);
    assert_eq!(SaveStat::scan(&copied, SIDECAR), SaveStat::scan(&items, SIDECAR));
    assert_eq!(SaveStat::scan(&copied, SIDECAR), SaveStat { size: 755, count: 2 });
}

#[test]
fn a_copy_without_sidecar_for_the_destination_ends_after_the_last_item() {
    let mut term = Coalescer::new();
    let items = vec![WalkItem::Dir, file("a", 1)];
    let mut job = copy_dir_with_progress(&mut term, &items, None, SIDECAR, true, false, None, 0);
    job.record(&mut term, true, 0);
    job.record(&mut term, true, 0);
    assert_eq!(job.next_step(), CopyStep::Finished);
    job.record(&mut term, true, 0);
    assert_eq!(job.next_step(), CopyStep::Finished);
    assert_eq!(job.progress(), 2);
}

#[test]
fn a_failed_step_ends_the_copy_at_once() {
    let mut term = Coalescer::new();
    let items = tree();
    let mut job = copy_dir_with_progress(&mut term, &items, None, SIDECAR, false, true, None, 0);
    job.record(&mut term, true, 0);
    job.record(&mut term, true, 0);
    assert_eq!(job.next_step(), CopyStep::CreateDir(2));
    job.record(&mut term, false, 0);
    assert_eq!(job.next_step(), CopyStep::Failed(2));
    assert_eq!(job.progress(), 2);
    job.record(&mut term, true, 0);
    assert_eq!(job.next_step(), CopyStep::Failed(2));
    assert_eq!(job.progress(), 2);
}

#[test]
fn an_unreadable_entry_ends_the_copy() {
    let mut term = Coalescer::new();
    let items = vec![WalkItem::Dir, WalkItem::Unreadable, file("a", 1)];
    let mut job = copy_dir_with_progress(&mut term, &items, None, SIDECAR, false, true, None, 0);
    assert_eq!(job.next_step(), CopyStep::CreateDir(0));
    job.record(&mut term, true, 0);
    assert_eq!(job.next_step(), CopyStep::Failed(1));
    job.record(&mut term, true, 0);
    assert_eq!(job.next_step(), CopyStep::Failed(1));
    assert_eq!(job.progress(), 1);
}

#[test]
fn the_sidecar_of_the_destination_may_fail_to_be_written() {
    let mut term = Coalescer::new();
    let items = vec![WalkItem::Dir];
    let mut job = copy_dir_with_progress(&mut term, &items, None, SIDECAR, false, true, None, 0);
    job.record(&mut term, true, 0);
    assert_eq!(job.next_step(), CopyStep::WriteCache(SaveStat { size: 0, count: 0 }));
    job.record(&mut term, false, 0);
    assert_eq!(job.next_step(), CopyStep::Finished);
}

#[test]
fn a_copy_trusts_the_sidecar_of_the_source_where_it_may() {
    let mut term = Coalescer::new();
    let cached = SaveStat { size: 5, count: 9 };
    let job = copy_dir_with_progress(&mut term, &tree(), Some(cached), SIDECAR, true, false, None, 0);
    assert_eq!(job.stat(), cached);
    let fresh = copy_dir_with_progress(&mut term, &tree(), Some(cached), SIDECAR, false, false, None, 0);
    assert_eq!(fresh.stat(), SaveStat { size: 1239, count: 3 });
}

#[test]
fn the_bar_of_a_copy_counts_files_and_directories() {
    let mut term = Coalescer::new();
    let items = vec![WalkItem::Dir, file("a", 1), WalkItem::Dir, file("b", 1)];
    let mut job = copy_dir_with_progress(&mut term, &items, None, SIDECAR, false, false, Some("Saving"), 0);
    let mut now = 0;
    for _ in 0..3 {
        now += 100;
        job.record(&mut term, true, now);
    }
    let ops = term.take_ops();
    let last = ops.last().unwrap();
    let mut expected = String::from("Saving: ");
    expected.push_str(&"\u{2588}".repeat(15));
    expected.push_str(&"\u{2591}".repeat(5));
    assert_eq!(*last, TermOp::WriteLine(expected));
    job.record(&mut term, true, 1000);
    let ops = term.take_ops();
    assert_eq!(ops[ops.len() - 2], TermOp::WriteLine("Saving: Done!".to_string()));
}

#[test]
fn a_copy_of_nothing_draws_no_bar() {
    let mut term = Coalescer::new();
    let job = copy_dir_with_progress(&mut term, &Vec::new(), None, SIDECAR, false, false, Some("Saving"), 0);
    assert_eq!(job.next_step(), CopyStep::Finished);
    assert_eq!(term.take_ops(), Vec::<TermOp>::new());
}

#[test]
fn deleting_removes_the_listed_directories_in_order() {
    let mut term = Coalescer::new();
    let list = paths(3);
    let mut job = delete_dirs_with_progress(&mut term, list.clone(), Some("Deleting save"), 0);
    let mut removed = Vec::new();
    loop {
        match job.next_step() {
            DeleteStep::Remove(i) => {
                removed.push(job.path(i).unwrap().clone());
                job.record(&mut term, true, 0);
            }
            DeleteStep::Finished => break,
            DeleteStep::Failed(i) => panic!("failed at {}", i),
        }
    }
    assert_eq!(removed, list);
    assert_eq!(job.progress(), 3);
}

#[test]
fn a_failure_on_the_third_of_five_leaves_two_removed_and_two_untouched() {
    let mut term = Coalescer::new();
    let list = paths(5);
    let mut job = delete_dirs_with_progress(&mut term, list.clone(), None, 0);
    let outcomes = [true, true, false, true, true];
    let mut attempted = Vec::new();
    for ok in outcomes {
        if let DeleteStep::Remove(i) = job.next_step() {
            attempted.push(i);
        }
        job.record(&mut term, ok, 0);
    }
    assert_eq!(attempted, vec![0, 1, 2]);
    assert_eq!(job.progress(), 2);
    assert_eq!(job.next_step(), DeleteStep::Failed(2));
    assert_eq!(job.path(2), Some(&list[2]));
    assert_eq!(job.path(5), None);
}

#[test]
fn deleting_nothing_is_finished_at_once_and_draws_no_bar() {
    let mut term = Coalescer::new();
    let mut job = delete_dirs_with_progress(&mut term, Vec::new(), Some("Deleting save"), 0);
    assert_eq!(job.next_step(), DeleteStep::Finished);
    job.record(&mut term, true, 0);
    assert_eq!(job.next_step(), DeleteStep::Finished);
    assert_eq!(term.take_ops(), Vec::<TermOp>::new());
}

#[test]
fn the_bar_of_a_delete_counts_directories() {
    let mut term = Coalescer::new();
    let mut job = delete_dirs_with_progress(&mut term, paths(2), Some("Deleting save"), 0);
    job.record(&mut term, true, 60);
    let ops = term.take_ops();
    let mut half = String::from("Deleting save: ");
    half.push_str(&"\u{2588}".repeat(10));
    half.push_str(&"\u{2591}".repeat(10));
    assert_eq!(ops.last(), Some(&TermOp::WriteLine(half)));
    job.record(&mut term, true, 120);
    let ops = term.take_ops();
    assert_eq!(ops[1], TermOp::WriteLine("Deleting save: Done!".to_string()));
}

#[test]
fn a_quick_delete_does_not_redraw_within_the_interval() {
    let mut term = Coalescer::new();
    let mut job = delete_dirs_with_progress(&mut term, paths(2), None, 1000);
    let _ = term.take_ops();
    job.record(&mut term, true, 1001);
    assert_eq!(term.take_ops(), Vec::<TermOp>::new());
    assert_eq!(job.progress(), 1);
}

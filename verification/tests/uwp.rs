use r_uwp::uwp::{clip_target, is_clipped, is_roblox_active, rbx_processes_from_tasklist, select_duplicates};
use r_uwp::uwp::{shift_lock_toggle, ClipToggle, Rect, TaskListEntry};

fn rect(left: i32, top: i32, right: i32, bottom: i32) -> Rect {
    Rect { left, top, right, bottom }
}

fn entry(pid: usize, package: &str) -> TaskListEntry {
    TaskListEntry { name: "RuntimeBroker.exe".to_string(), pid, package_name: package.to_string() }
}

#[test]
fn roblox_active_only_for_exact_title() {
    assert!(is_roblox_active("Roblox"));
    assert!(!is_roblox_active("roblox"));
    assert!(!is_roblox_active("Roblox "));
    assert!(!is_roblox_active(""));
    assert!(!is_roblox_active("Roblox Studio"));
}

#[test]
fn clipped_when_clip_is_window() {
    let w = rect(0, 0, 800, 600);
    assert!(is_clipped(Some((w, w))));
    assert!(!is_clipped(Some((w, rect(0, 0, 1920, 1080)))));
    assert!(!is_clipped(None));
}

#[test]
fn clip_target_is_window_unless_already_clipped() {
    let w = rect(10, 20, 810, 620);
    assert_eq!(clip_target(Some((w, rect(0, 0, 1920, 1080)))), Some(w));
    assert_eq!(clip_target(Some((w, w))), None);
    assert_eq!(clip_target(None), None);
}

const TASKLIST: &str = "Image Name      Session   PID   Mem Usage  Package Name\r\n\
========== ======= ===== ===== =====\r\n\
RuntimeBroker.exe Console 1234 10,000 K ROBLOXCORPORATION.ROBLOX_2.5_x64__55nm5eh3cm0pr\r\n\
RuntimeBroker.exe Console 99 2,000 K Microsoft.Windows.Photos_8wekyb3d8bbwe\r\n\
Windows.exe Console 77 2,000 K ROBLOXCORPORATION.ROBLOX_2.5_x64__55nm5eh3cm0pr\r\n\
RuntimeBroker.exe Console x12 2,000 K ROBLOXCORPORATION.ROBLOX_2.5_x64__55nm5eh3cm0pr\r\n\
RuntimeBroker.exe Console 5678 10,000 K\r\n\
   RuntimeBroker.exe\tConsole  +5678   10,000 K   ROBLOXCORPORATION.ROBLOX_2.6   extra\r\n";

#[test]
fn tasklist_keeps_roblox_brokers() {
    let entries = rbx_processes_from_tasklist(TASKLIST);
    assert_eq!(entries.len(), 2);
    assert_eq!(entries[0].name, "RuntimeBroker.exe");
    assert_eq!(entries[0].pid, 1234);
    assert_eq!(entries[0].package_name, "ROBLOXCORPORATION.ROBLOX_2.5_x64__55nm5eh3cm0pr");
    assert_eq!(entries[1].pid, 5678);
    assert_eq!(entries[1].package_name, "ROBLOXCORPORATION.ROBLOX_2.6");
}

#[test]
fn tasklist_empty_output() {
    assert!(rbx_processes_from_tasklist("").is_empty());
    assert!(rbx_processes_from_tasklist("\n\n   \n").is_empty());
}

#[test]
fn duplicates_of_new_processes() {
    let old = vec![entry(1, "A")];
    let current = vec![entry(1, "A"), entry(2, "A"), entry(3, "A"), entry(4, "B")];
    let picked = select_duplicates(&current, &old);
    let pids: Vec<usize> = picked.iter().map(|e| e.pid).collect();
    assert_eq!(pids, vec![2, 3]);
}

#[test]
fn single_new_process_is_kept() {
    let old = vec![entry(1, "A")];
    let current = vec![entry(1, "A"), entry(2, "A")];
    assert!(select_duplicates(&current, &old).is_empty());
}

#[test]
fn empty_look_reuses_old_list() {
    let old = vec![entry(1, "A"), entry(2, "A"), entry(3, "B")];
    let picked = select_duplicates(&Vec::new(), &old);
    let pids: Vec<usize> = picked.iter().map(|e| e.pid).collect();
    assert_eq!(pids, vec![1, 2]);
}

#[test]
fn task_list_entries_equal_by_pid() {
    assert!(entry(5, "A") == entry(5, "B"));
    assert!(entry(5, "A") != entry(6, "A"));
    let e = entry(8, "C");
    let c = e.clone();
    assert_eq!(c.pid, 8);
    assert_eq!(c.package_name, "C");
}

#[test]
fn picked_duplicates_come_in_pairs_and_are_new() {
    let old = vec![entry(1, "A"), entry(5, "C")];
    let current = vec![entry(1, "A"), entry(2, "A"), entry(3, "B"), entry(4, "B"), entry(5, "C"), entry(6, "C"), entry(7, "D")];
    let picked = select_duplicates(&current, &old);
    let pids: Vec<usize> = picked.iter().map(|e| e.pid).collect();
    assert_eq!(pids, vec![3, 4]);
    for e in &picked {
        assert!(picked.iter().filter(|x| x.package_name == e.package_name).count() > 1);
        assert!(old.iter().all(|o| o.pid != e.pid));
    }
}

#[test]
fn shift_lock_toggles_clip() {
    let w = rect(0, 0, 800, 600);
    assert_eq!(shift_lock_toggle(Some((w, w))), ClipToggle::Unclip);
    assert_eq!(shift_lock_toggle(Some((w, rect(0, 0, 1, 1)))), ClipToggle::Clip);
    assert_eq!(shift_lock_toggle(None), ClipToggle::Clip);
}

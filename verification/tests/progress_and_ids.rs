use rustit::oid::{commit_summary, tip_line};
use rustit::progress::{new_progress_state, on_checkout_progress, on_transfer_progress, received_summary, render_progress, ProgressState, TransferStats};

fn stats(total: usize, indexed: usize, received: usize, local: usize, deltas: usize, indexed_deltas: usize, bytes: usize) -> TransferStats {
    TransferStats {
        total_objects: total,
        indexed_objects: indexed,
        received_objects: received,
        local_objects: local,
        total_deltas: deltas,
        indexed_deltas,
        received_bytes: bytes,
    }
}

#[test]
fn progress_line_while_receiving() {
    let mut st = ProgressState { progress: Some(stats(200, 50, 100, 0, 0, 0, 10240)), total: 8, current: 2, path: Some("src/lib.rs".to_string()), newline: false };
    let out = render_progress(&mut st);
    assert_eq!(out, "net  50% (  10 kb,   100/  200)  /  idx  25% (   50/  200)  /  chk  25% (   2/   8) src/lib.rs\r");
    assert!(!st.newline);
}

#[test]
fn progress_line_without_checkout() {
    let mut st = ProgressState { progress: Some(stats(3, 0, 1, 0, 0, 0, 1023)), total: 0, current: 0, path: None, newline: false };
    let out = render_progress(&mut st);
    assert_eq!(out, "net  33% (   0 kb,     1/    3)  /  idx   0% (    0/    3)  /  chk   0% (   0/   0) \r");
}

#[test]
fn resolving_deltas_moves_to_fresh_line_once() {
    let mut st = new_progress_state();
    let first = on_transfer_progress(&mut st, stats(10, 10, 10, 0, 7, 3, 4096));
    assert_eq!(first, "\nResolving deltas 3/7\r");
    assert!(st.newline);
    let second = on_transfer_progress(&mut st, stats(10, 10, 10, 0, 7, 7, 4096));
    assert_eq!(second, "Resolving deltas 7/7\r");
}

#[test]
fn checkout_callback_records_position() {
    let mut st = new_progress_state();
    on_checkout_progress(&mut st, Some("a/b".to_string()), 3, 9);
    assert_eq!(st.current, 3);
    assert_eq!(st.total, 9);
    assert_eq!(st.path.as_deref(), Some("a/b"));
    assert!(st.progress.is_none());
}

#[test]
fn download_summary() {
    assert_eq!(received_summary(&stats(12, 11, 12, 0, 0, 0, 999)), "\rReceived 11/12 objects in 999 bytes");
    assert_eq!(received_summary(&stats(12, 12, 10, 2, 0, 0, 5)), "\rReceived 12/12 objects in 5 bytes (used 2 local objects)");
}

#[test]
fn tip_lines() {
    let zero = [0u8; 20];
    let mut new_id = [0u8; 20];
    for (i, b) in new_id.iter_mut().enumerate() {
        *b = (i as u8) * 13;
    }
    let hex_new: String = new_id.iter().map(|b| format!("{:02x}", b)).collect();
    assert_eq!(tip_line("refs/remotes/origin/master", &zero, &new_id), format!("[new]     {} refs/remotes/origin/master", hex_new));
    let old_id = [0xabu8; 20];
    let hex_old = "ab".repeat(20);
    assert_eq!(tip_line("refs/tags/v1", &old_id, &new_id), format!("[updated] {}..{} refs/tags/v1", hex_old, hex_new));
    let mut one = [0u8; 20];
    one[19] = 1;
    assert!(tip_line("r", &one, &zero).starts_with("[updated] 0000000000000000000000000000000000000001.."));
}

#[test]
fn commit_description() {
    let id = [0xffu8; 20];
    let lines = commit_summary(&id, "Ann <ann@example.org>", Some("fix things"));
    assert_eq!(lines[0], "display parent commit");
    assert_eq!(lines[1], format!("commit {}\nAuthor: Ann <ann@example.org>\nDate:   \n    fix things", "f".repeat(40)));
    let lines = commit_summary(&[0u8; 20], "B <b@c>", None);
    assert!(lines[1].ends_with("\n    no commit message"));
}

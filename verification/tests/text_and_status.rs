use rustit::status::{
    long_status, DiffPaths, StatusEntry, STATUS_IGNORED, STATUS_INDEX_MODIFIED, STATUS_INDEX_NEW,
    STATUS_INDEX_RENAMED, STATUS_WT_DELETED, STATUS_WT_MODIFIED, STATUS_WT_NEW,
};
use rustit::text::{decimal_len, push_decimal, push_padded, push_spaces};

fn paths(old: Option<&str>, new: Option<&str>) -> DiffPaths {
    DiffPaths { old_path: old.map(|s| s.to_string()), new_path: new.map(|s| s.to_string()) }
}

#[test]
fn decimal_rendering() {
    let mut s = String::from("x=");
    push_decimal(&mut s, 0);
    assert_eq!(s, "x=0");
    let mut s = String::new();
    push_decimal(&mut s, 1234567890);
    assert_eq!(s, "1234567890");
    let mut s = String::new();
    push_decimal(&mut s, usize::MAX);
    assert_eq!(s, usize::MAX.to_string());
    assert_eq!(decimal_len(0), 1);
    assert_eq!(decimal_len(9), 1);
    assert_eq!(decimal_len(10), 2);
    assert_eq!(decimal_len(99999), 5);
}

#[test]
fn padded_rendering_matches_width() {
    let mut s = String::new();
    push_padded(&mut s, 7, 3);
    assert_eq!(s, "  7");
    let mut s = String::new();
    push_padded(&mut s, 12345, 3);
    assert_eq!(s, "12345");
    let mut s = String::new();
    push_padded(&mut s, 42, 0);
    assert_eq!(s, "42");
    for n in [0usize, 5, 99, 100, 4321, 65536] {
        for w in 0..8usize {
            let mut s = String::new();
            push_padded(&mut s, n, w);
            assert_eq!(s, format!("{:w$}", n, w = w));
        }
    }
    let mut s = String::new();
    push_spaces(&mut s, 4);
    assert_eq!(s, "    ");
}

#[test]
fn empty_status_reports_nothing() {
    assert!(long_status(&vec![]).is_empty());
    let clean = vec![StatusEntry { status: 0, head_to_index: None, index_to_workdir: None }];
    assert!(long_status(&clean).is_empty());
}

#[test]
fn staged_changes_section() {
    let entries = vec![
        StatusEntry { status: STATUS_INDEX_NEW, head_to_index: Some(paths(Some("a.txt"), Some("a.txt"))), index_to_workdir: None },
        StatusEntry {
            status: STATUS_INDEX_RENAMED,
            head_to_index: Some(paths(Some("old.rs"), Some("new.rs"))),
            index_to_workdir: None,
        },
        StatusEntry { status: STATUS_INDEX_MODIFIED, head_to_index: Some(paths(None, Some("b.txt"))), index_to_workdir: None },
    ];
    let out = long_status(&entries);
    assert_eq!(
        out,
        vec![
            "# Changes to be committed:\n#   (use \"git reset HEAD <file>...\" to unstage)\n#".to_string(),
            "#\tnew file:   a.txt".to_string(),
            "#\trenamed:   old.rs -> new.rs".to_string(),
            "#\tmodified:   b.txt".to_string(),
            "#".to_string(),
        ]
    );
}

#[test]
fn unstaged_changes_and_hint() {
    let entries = vec![
        StatusEntry { status: STATUS_WT_MODIFIED, head_to_index: None, index_to_workdir: Some(paths(Some("m.c"), Some("m.c"))) },
        StatusEntry { status: STATUS_WT_DELETED, head_to_index: None, index_to_workdir: Some(paths(Some("d.c"), Some("d.c"))) },
    ];
    let out = long_status(&entries);
    assert_eq!(out.len(), 5);
    assert_eq!(
        out[0],
        "# Changes not staged for commit:\n#   (use \"git add/rm <file>...\" to update what will be committed)\n#   (use \"git checkout -- <file>...\" to discard changes in working directory)\n#"
    );
    assert_eq!(out[1], "#\tmodified:   m.c");
    assert_eq!(out[2], "#\tdeleted:   d.c");
    assert_eq!(out[3], "#");
    assert_eq!(out[4], "no changes added to commit (use \"git add\" and/or \"git commit -a\")");
}

#[test]
fn unstaged_without_removal_has_plain_add_hint() {
    let entries = vec![StatusEntry {
        status: STATUS_WT_MODIFIED,
        head_to_index: None,
        index_to_workdir: Some(paths(Some("m.c"), Some("m.c"))),
    }];
    let out = long_status(&entries);
    assert!(out[0].contains("(use \"git add <file>...\" to update"));
}

#[test]
fn staged_and_unstaged_have_no_hint() {
    let entries = vec![StatusEntry {
        status: STATUS_INDEX_MODIFIED | STATUS_WT_MODIFIED,
        head_to_index: Some(paths(Some("x"), Some("x"))),
        index_to_workdir: Some(paths(Some("x"), Some("x"))),
    }];
    let out = long_status(&entries);
    assert_eq!(out.len(), 6);
    assert_eq!(out[1], "#\tmodified:   x");
    assert_eq!(out[4], "#\tmodified:   x");
    assert_eq!(out[5], "#");
}

#[test]
fn untracked_and_ignored_sections() {
    let entries = vec![
        StatusEntry { status: STATUS_WT_NEW, head_to_index: None, index_to_workdir: Some(paths(Some("new.txt"), Some("new.txt"))) },
        StatusEntry { status: STATUS_IGNORED, head_to_index: None, index_to_workdir: Some(paths(Some("target"), None)) },
        StatusEntry { status: STATUS_WT_NEW | STATUS_WT_MODIFIED, head_to_index: None, index_to_workdir: Some(paths(Some("odd"), None)) },
    ];
    let out = long_status(&entries);
    assert_eq!(
        out,
        vec![
            "# Changes not staged for commit:\n#   (use \"git add <file>...\" to update what will be committed)\n#   (use \"git checkout -- <file>...\" to discard changes in working directory)\n#".to_string(),
            "#\tmodified:   odd".to_string(),
            "#".to_string(),
            "# Untracked files\n#   (use \"git add <file>...\" to include in what will be committed)\n#".to_string(),
            "#\tnew.txt".to_string(),
            "# Ignored files\n#   (use \"git add -f <file>...\" to include in what will be committed)\n#".to_string(),
            "#\ttarget".to_string(),
            "no changes added to commit (use \"git add\" and/or \"git commit -a\")".to_string(),
        ]
    );
}

#[test]
fn current_entries_change_nothing() {
    let base = vec![StatusEntry { status: STATUS_WT_NEW, head_to_index: None, index_to_workdir: Some(paths(Some("n"), None)) }];
    let mut with_clean = vec![StatusEntry { status: STATUS_WT_NEW, head_to_index: None, index_to_workdir: Some(paths(Some("n"), None)) }];
    with_clean.push(StatusEntry { status: 0, head_to_index: Some(paths(Some("z"), None)), index_to_workdir: Some(paths(Some("z"), None)) });
    assert_eq!(long_status(&base), long_status(&with_clean));
}

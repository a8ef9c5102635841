//! The long-form report of a repository's status: staged changes, unstaged
//! changes, untracked files and ignored files, in the layout of `git status`.

use vstd::prelude::*;

verus! {

/// Status bit: the file is new in the index.
pub const STATUS_INDEX_NEW: u32 = 1;
/// Status bit: the file is modified in the index.
pub const STATUS_INDEX_MODIFIED: u32 = 2;
/// Status bit: the file is deleted in the index.
pub const STATUS_INDEX_DELETED: u32 = 4;
/// Status bit: the file is renamed in the index.
pub const STATUS_INDEX_RENAMED: u32 = 8;
/// Status bit: the file changed type in the index.
pub const STATUS_INDEX_TYPECHANGE: u32 = 16;
/// Status bit: the file is new in the working directory.
pub const STATUS_WT_NEW: u32 = 128;
/// Status bit: the file is modified in the working directory.
pub const STATUS_WT_MODIFIED: u32 = 256;
/// Status bit: the file is deleted in the working directory.
pub const STATUS_WT_DELETED: u32 = 512;
/// Status bit: the file changed type in the working directory.
pub const STATUS_WT_TYPECHANGE: u32 = 1024;
/// Status bit: the file is renamed in the working directory.
pub const STATUS_WT_RENAMED: u32 = 2048;
/// Status bit: the file is ignored.
pub const STATUS_IGNORED: u32 = 16384;

/// The two sides of one file's difference: its path before and after.
pub struct DiffPaths {
    pub old_path: Option<String>,
    pub new_path: Option<String>,
}

/// One entry of a repository's status list: its status bits and, where
/// present, the difference between HEAD and the index and between the index
/// and the working directory.
pub struct StatusEntry {
    pub status: u32,
    pub head_to_index: Option<DiffPaths>,
    pub index_to_workdir: Option<DiffPaths>,
}

/// Whether all bits of `flag` are set in `bits`.
pub open spec fn has_flag(bits: u32, flag: u32) -> bool {
    bits & flag == flag
}

pub open spec fn opt_view(o: Option<String>) -> Option<Seq<char>> {
    match o {
        Some(s) => Some(s@),
        None => None,
    }
}

/// The label of a staged change, by the first index flag that is set.
pub open spec fn index_label(bits: u32) -> Option<Seq<char>> {
    if has_flag(bits, STATUS_INDEX_NEW) {
        Some("new file: "@)
    } else if has_flag(bits, STATUS_INDEX_MODIFIED) {
        Some("modified: "@)
    } else if has_flag(bits, STATUS_INDEX_DELETED) {
        Some("deleted: "@)
    } else if has_flag(bits, STATUS_INDEX_RENAMED) {
        Some("renamed: "@)
    } else if has_flag(bits, STATUS_INDEX_TYPECHANGE) {
        Some("typechange:"@)
    } else {
        None
    }
}

/// The label of an unstaged change, by the first working-directory flag that is set.
pub open spec fn workdir_label(bits: u32) -> Option<Seq<char>> {
    if has_flag(bits, STATUS_WT_MODIFIED) {
        Some("modified: "@)
    } else if has_flag(bits, STATUS_WT_DELETED) {
        Some("deleted: "@)
    } else if has_flag(bits, STATUS_WT_RENAMED) {
        Some("renamed: "@)
    } else if has_flag(bits, STATUS_WT_TYPECHANGE) {
        Some("typechange:"@)
    } else {
        None
    }
}

/// The line of one change: both paths when they differ, else the one path
/// that is known (the old one first).
pub open spec fn change_line(label: Seq<char>, paths: DiffPaths) -> Seq<char> {
    let prefix = "#\t"@ + label + "  "@;
    match (opt_view(paths.old_path), opt_view(paths.new_path)) {
        (Some(o), Some(n)) => if o != n {
            prefix + o + " -> "@ + n
        } else {
            prefix + o
        },
        (Some(o), None) => prefix + o,
        (None, Some(n)) => prefix + n,
        (None, None) => prefix,
    }
}

/// The line of an entry in the staged section, if it has one.
pub open spec fn staged_line(e: StatusEntry) -> Option<Seq<char>> {
    if e.status != 0 && index_label(e.status) is Some && e.head_to_index is Some {
        Some(change_line(index_label(e.status).unwrap(), e.head_to_index.unwrap()))
    } else {
        None
    }
}

/// The line of an entry in the unstaged section, if it has one.
pub open spec fn unstaged_line(e: StatusEntry) -> Option<Seq<char>> {
    if e.status != 0 && e.index_to_workdir is Some && workdir_label(e.status) is Some {
        Some(change_line(workdir_label(e.status).unwrap(), e.index_to_workdir.unwrap()))
    } else {
        None
    }
}

/// The line of a file listed by its working-directory old path, for entries
/// whose status is exactly `kind`.
pub open spec fn listed_line(e: StatusEntry, kind: u32) -> Option<Seq<char>> {
    if e.status == kind && e.index_to_workdir is Some && e.index_to_workdir.unwrap().old_path is Some {
        Some("#\t"@ + e.index_to_workdir.unwrap().old_path.unwrap()@)
    } else {
        None
    }
}

/// The lines that `f` gives the entries of `s`, in order.
pub open spec fn gather(s: Seq<StatusEntry>, f: spec_fn(StatusEntry) -> Option<Seq<char>>) -> Seq<Seq<char>>
    decreases s.len(),
{
    if s.len() == 0 {
        Seq::empty()
    } else {
        let prev = gather(s.drop_last(), f);
        match f(s.last()) {
            Some(l) => prev.push(l),
            None => prev,
        }
    }
}

pub open spec fn staged_lines(s: Seq<StatusEntry>) -> Seq<Seq<char>> {
    gather(s, |e: StatusEntry| staged_line(e))
}

pub open spec fn unstaged_lines(s: Seq<StatusEntry>) -> Seq<Seq<char>> {
    gather(s, |e: StatusEntry| unstaged_line(e))
}

pub open spec fn untracked_lines(s: Seq<StatusEntry>) -> Seq<Seq<char>> {
    gather(s, |e: StatusEntry| listed_line(e, STATUS_WT_NEW))
}

pub open spec fn ignored_lines(s: Seq<StatusEntry>) -> Seq<Seq<char>> {
    gather(s, |e: StatusEntry| listed_line(e, STATUS_IGNORED))
}

/// Some entry is deleted in the working directory.
pub open spec fn removed_in_workdir(s: Seq<StatusEntry>) -> bool {
    exists|i: int| 0 <= i < s.len() && has_flag(#[trigger] s[i].status, STATUS_WT_DELETED)
}

pub open spec fn staged_header() -> Seq<char> {
    "# Changes to be committed:\n#   (use \"git reset HEAD <file>...\" to unstage)\n#"@
}

pub open spec fn unstaged_header(removed: bool) -> Seq<char> {
    "# Changes not staged for commit:\n#   (use \"git add"@
        + (if removed { "/rm"@ } else { ""@ })
        + " <file>...\" to update what will be committed)\n#   (use \"git checkout -- <file>...\" to discard changes in working directory)\n#"@
}

pub open spec fn untracked_header() -> Seq<char> {
    "# Untracked files\n#   (use \"git add <file>...\" to include in what will be committed)\n#"@
}

pub open spec fn ignored_header() -> Seq<char> {
    "# Ignored files\n#   (use \"git add -f <file>...\" to include in what will be committed)\n#"@
}

pub open spec fn nothing_added_line() -> Seq<char> {
    "no changes added to commit (use \"git add\" and/or \"git commit -a\")"@
}

/// A section: its header, its lines and its closing lines, or nothing when it
/// has no lines.
pub open spec fn section(header: Seq<char>, lines: Seq<Seq<char>>, closing: Seq<Seq<char>>) -> Seq<Seq<char>> {
    if lines.len() > 0 {
        seq![header] + lines + closing
    } else {
        Seq::empty()
    }
}

/// The whole report, one element per printed line group.
pub open spec fn long_status_spec(s: Seq<StatusEntry>) -> Seq<Seq<char>> {
    section(staged_header(), staged_lines(s), seq!["#"@])
        + section(unstaged_header(removed_in_workdir(s)), unstaged_lines(s), seq!["#"@])
        + section(untracked_header(), untracked_lines(s), Seq::empty())
        + section(ignored_header(), ignored_lines(s), Seq::empty())
        + (if staged_lines(s).len() == 0 && unstaged_lines(s).len() > 0 {
            seq![nothing_added_line()]
        } else {
            Seq::empty()
        })
}

/// An entry that the report can describe: each change it lists has a path.
pub open spec fn describable(e: StatusEntry) -> bool {
    &&& (e.status != 0 && index_label(e.status) is Some) ==> {
        &&& e.head_to_index is Some
        &&& (e.head_to_index.unwrap().old_path is Some || e.head_to_index.unwrap().new_path is Some)
    }
    &&& (e.status != 0 && e.index_to_workdir is Some && workdir_label(e.status) is Some) ==> (
        e.index_to_workdir.unwrap().old_path is Some || e.index_to_workdir.unwrap().new_path is Some)
    &&& (e.status == STATUS_WT_NEW || e.status == STATUS_IGNORED) ==> {
        &&& e.index_to_workdir is Some
        &&& e.index_to_workdir.unwrap().old_path is Some
    }
}

fn flag_set(bits: u32, flag: u32) -> (r: bool)
    ensures
        r == has_flag(bits, flag),
{
    bits & flag == flag
}

fn index_label_of(bits: u32) -> (r: Option<String>)
    ensures
        opt_view(r) == index_label(bits),
{
    if flag_set(bits, STATUS_INDEX_NEW) {
        Some(String::from_str("new file: "))
    } else if flag_set(bits, STATUS_INDEX_MODIFIED) {
        Some(String::from_str("modified: "))
    } else if flag_set(bits, STATUS_INDEX_DELETED) {
        Some(String::from_str("deleted: "))
    } else if flag_set(bits, STATUS_INDEX_RENAMED) {
        Some(String::from_str("renamed: "))
    } else if flag_set(bits, STATUS_INDEX_TYPECHANGE) {
        Some(String::from_str("typechange:"))
    } else {
        None
    }
}

fn workdir_label_of(bits: u32) -> (r: Option<String>)
    ensures
        opt_view(r) == workdir_label(bits),
{
    if flag_set(bits, STATUS_WT_MODIFIED) {
        Some(String::from_str("modified: "))
    } else if flag_set(bits, STATUS_WT_DELETED) {
        Some(String::from_str("deleted: "))
    } else if flag_set(bits, STATUS_WT_RENAMED) {
        Some(String::from_str("renamed: "))
    } else if flag_set(bits, STATUS_WT_TYPECHANGE) {
        Some(String::from_str("typechange:"))
    } else {
        None
    }
}

fn clone_opt(o: &Option<String>) -> (r: Option<String>)
    ensures
        opt_view(r) == opt_view(*o),
{
    match o {
        Some(s) => Some(s.clone()),
        None => None,
    }
}

fn change_line_of(label: &String, paths: &DiffPaths) -> (line: String)
    ensures
        line@ == change_line(label@, *paths),
{
    let mut line = String::from_str("#\t");
    line.append(label.as_str());
    line.append("  ");
    let ghost prefix = line@;
    match (&paths.old_path, &paths.new_path) {
        (Some(o), Some(n)) => {
            let same = o.eq(n);
            if !same {
                line.append(o.as_str());
                line.append(" -> ");
                line.append(n.as_str());
                assert(line@ =~= prefix + o@ + " -> "@ + n@);
            } else {
                line.append(o.as_str());
            }
        },
        (Some(o), None) => {
            line.append(o.as_str());
        },
        (None, Some(n)) => {
            line.append(n.as_str());
        },
        (None, None) => {},
    }
    assert(prefix =~= "#\t"@ + label@ + "  "@);
    line
}


fn staged_section(entries: &Vec<StatusEntry>) -> (lines: Vec<String>)
    ensures
        lines.deep_view() == staged_lines(entries@),
{
    let mut lines: Vec<String> = Vec::new();
    let mut i: usize = 0;
    while i < entries.len()
        invariant
            i <= entries@.len(),
            lines.deep_view() == staged_lines(entries@.take(i as int)),
        decreases entries@.len() - i,
    {
        let e = &entries[i];
        let ghost before = lines.deep_view();
        if e.status != 0 {
            match index_label_of(e.status) {
                Some(label) => {
                    match &e.head_to_index {
                        Some(paths) => {
                            let line = change_line_of(&label, paths);
                            lines.push(line);
                        },
                        None => {},
                    }
                },
                None => {},
            }
        }
        proof {
            let s1 = entries@.take(i + 1);
            assert(s1.drop_last() =~= entries@.take(i as int));
            assert(s1.last() == entries@[i as int]);
            match staged_line(entries@[i as int]) {
                Some(l) => assert(lines.deep_view() =~= before.push(l)),
                None => assert(lines.deep_view() =~= before),
            }
        }
        i = i + 1;
    }
    assert(entries@.take(i as int) =~= entries@);
    lines
}

fn unstaged_section(entries: &Vec<StatusEntry>) -> (lines: Vec<String>)
    ensures
        lines.deep_view() == unstaged_lines(entries@),
{
    let mut lines: Vec<String> = Vec::new();
    let mut i: usize = 0;
    while i < entries.len()
        invariant
            i <= entries@.len(),
            lines.deep_view() == unstaged_lines(entries@.take(i as int)),
        decreases entries@.len() - i,
    {
        let e = &entries[i];
        let ghost before = lines.deep_view();
        if e.status != 0 {
            match &e.index_to_workdir {
                Some(paths) => {
                    match workdir_label_of(e.status) {
                        Some(label) => {
                            let line = change_line_of(&label, paths);
                            lines.push(line);
                        },
                        None => {},
                    }
                },
                None => {},
            }
        }
        proof {
            let s1 = entries@.take(i + 1);
            assert(s1.drop_last() =~= entries@.take(i as int));
            assert(s1.last() == entries@[i as int]);
            match unstaged_line(entries@[i as int]) {
                Some(l) => assert(lines.deep_view() =~= before.push(l)),
                None => assert(lines.deep_view() =~= before),
            }
        }
        i = i + 1;
    }
    assert(entries@.take(i as int) =~= entries@);
    lines
}

fn listed_section(entries: &Vec<StatusEntry>, kind: u32) -> (lines: Vec<String>)
    ensures
        lines.deep_view() == gather(entries@, |e: StatusEntry| listed_line(e, kind)),
{
    let ghost f = |e: StatusEntry| listed_line(e, kind);
    let mut lines: Vec<String> = Vec::new();
    let mut i: usize = 0;
    while i < entries.len()
        invariant
            i <= entries@.len(),
            lines.deep_view() == gather(entries@.take(i as int), f),
            f == (|e: StatusEntry| listed_line(e, kind)),
        decreases entries@.len() - i,
    {
        let e = &entries[i];
        let ghost before = lines.deep_view();
        if e.status == kind {
            match &e.index_to_workdir {
                Some(paths) => {
                    match &paths.old_path {
                        Some(p) => {
                            let mut line = String::from_str("#\t");
                            line.append(p.as_str());
                            lines.push(line);
                        },
                        None => {},
                    }
                },
                None => {},
            }
        }
        proof {
            let s1 = entries@.take(i + 1);
            assert(s1.drop_last() =~= entries@.take(i as int));
            assert(s1.last() == entries@[i as int]);
            match f(entries@[i as int]) {
                Some(l) => assert(lines.deep_view() =~= before.push(l)),
                None => assert(lines.deep_view() =~= before),
            }
        }
        i = i + 1;
    }
    assert(entries@.take(i as int) =~= entries@);
    lines
}

fn any_removed_in_workdir(entries: &Vec<StatusEntry>) -> (r: bool)
    ensures
        r == removed_in_workdir(entries@),
{
    let mut i: usize = 0;
    while i < entries.len()
        invariant
            i <= entries@.len(),
            forall|j: int| 0 <= j < i ==> !has_flag(#[trigger] entries@[j].status, STATUS_WT_DELETED),
        decreases entries@.len() - i,
    {
        if flag_set(entries[i].status, STATUS_WT_DELETED) {
            return true;
        }
        i = i + 1;
    }
    false
}

fn push_section(out: &mut Vec<String>, header: String, lines: Vec<String>, close: bool)
    ensures
        final(out).deep_view() == old(out).deep_view() + section(
            header@,
            lines.deep_view(),
            if close { seq!["#"@] } else { Seq::empty() },
        ),
{
    if lines.len() > 0 {
        let ghost start = out.deep_view();
        out.push(header);
        let mut i: usize = 0;
        while i < lines.len()
            invariant
                i <= lines@.len(),
                out.deep_view() == start + seq![header@] + lines.deep_view().take(i as int),
            decreases lines@.len() - i,
        {
            let ghost before = out.deep_view();
            out.push(lines[i].clone());
            assert(out.deep_view() =~= before.push(lines.deep_view()[i as int]));
            assert(lines.deep_view().take(i + 1) =~= lines.deep_view().take(i as int).push(lines.deep_view()[i as int]));
            i = i + 1;
        }
        assert(lines.deep_view().take(i as int) =~= lines.deep_view());
        if close {
            let ghost before = out.deep_view();
            out.push(String::from_str("#"));
            assert(out.deep_view() =~= before.push("#"@));
        }
        assert(final(out).deep_view() =~= old(out).deep_view() + section(
            header@,
            lines.deep_view(),
            if close { seq!["#"@] } else { Seq::empty() },
        ));
    } else {
        assert(old(out).deep_view() + section(
            header@,
            lines.deep_view(),
            if close { seq!["#"@] } else { Seq::empty() },
        ) =~= old(out).deep_view());
    }
}

/// The lines of the long status report of a repository, each to be printed
/// on a line of its own.
pub fn long_status(entries: &Vec<StatusEntry>) -> (out: Vec<String>)
    requires
        forall|i: int| 0 <= i < entries@.len() ==> describable(#[trigger] entries@[i]),
    ensures
        out.deep_view() == long_status_spec(entries@),
{
    let staged = staged_section(entries);
    let unstaged = unstaged_section(entries);
    let untracked = listed_section(entries, STATUS_WT_NEW);
    let ignored = listed_section(entries, STATUS_IGNORED);
    let removed = any_removed_in_workdir(entries);
    let any_staged = staged.len() > 0;
    let any_unstaged = unstaged.len() > 0;
    let mut out: Vec<String> = Vec::new();
    push_section(&mut out, String::from_str("# Changes to be committed:\n#   (use \"git reset HEAD <file>...\" to unstage)\n#"), staged, true);
    proof {
        reveal_strlit("");
    }
    let mut header = String::from_str("# Changes not staged for commit:\n#   (use \"git add");
    if removed {
        header.append("/rm");
    }
    header.append(" <file>...\" to update what will be committed)\n#   (use \"git checkout -- <file>...\" to discard changes in working directory)\n#");
    push_section(&mut out, header, unstaged, true);
    push_section(&mut out, String::from_str("# Untracked files\n#   (use \"git add <file>...\" to include in what will be committed)\n#"), untracked, false);
    push_section(&mut out, String::from_str("# Ignored files\n#   (use \"git add -f <file>...\" to include in what will be committed)\n#"), ignored, false);
    if !any_staged && any_unstaged {
        let ghost before = out.deep_view();
        out.push(String::from_str("no changes added to commit (use \"git add\" and/or \"git commit -a\")"));
        assert(out.deep_view() =~= before.push(nothing_added_line()));
    }
    assert(out.deep_view() =~= long_status_spec(entries@));
    out
}


/// An entry whose status is current (no flag set) adds nothing to the
/// report, wherever it stands.
pub proof fn lemma_current_entry_not_reported(s: Seq<StatusEntry>, e: StatusEntry)
    requires
        e.status == 0,
    ensures
        long_status_spec(s.push(e)) == long_status_spec(s),
{
    assert(s.push(e).drop_last() =~= s);
    assert(s.push(e).last() == e);
    assert(0u32 & STATUS_WT_DELETED == 0u32) by (bit_vector);
    assert(removed_in_workdir(s.push(e)) == removed_in_workdir(s)) by {
        if removed_in_workdir(s.push(e)) {
            let i = choose|i: int| 0 <= i < s.push(e).len() && has_flag(#[trigger] s.push(e)[i].status, STATUS_WT_DELETED);
            if i < s.len() {
                assert(s[i] == s.push(e)[i]);
            }
        }
        if removed_in_workdir(s) {
            let i = choose|i: int| 0 <= i < s.len() && has_flag(#[trigger] s[i].status, STATUS_WT_DELETED);
            assert(s.push(e)[i] == s[i]);
        }
    }
}


/// Whether the report can describe an entry (see `describable`).
pub fn is_describable(e: &StatusEntry) -> (r: bool)
    ensures
        r == describable(*e),
{
    let staged_ok = if e.status != 0 && index_label_of(e.status).is_some() {
        match &e.head_to_index {
            Some(p) => p.old_path.is_some() || p.new_path.is_some(),
            None => false,
        }
    } else {
        true
    };
    let unstaged_ok = if e.status != 0 && workdir_label_of(e.status).is_some() {
        match &e.index_to_workdir {
            Some(p) => p.old_path.is_some() || p.new_path.is_some(),
            None => true,
        }
    } else {
        true
    };
    let listed_ok = if e.status == STATUS_WT_NEW || e.status == STATUS_IGNORED {
        match &e.index_to_workdir {
            Some(p) => p.old_path.is_some(),
            None => false,
        }
    } else {
        true
    };
    staged_ok && unstaged_ok && listed_ok
}


/// The status holds at least one index flag.
pub open spec fn index_flagged(bits: u32) -> bool {
    has_flag(bits, STATUS_INDEX_NEW) || has_flag(bits, STATUS_INDEX_MODIFIED) || has_flag(bits, STATUS_INDEX_DELETED)
        || has_flag(bits, STATUS_INDEX_RENAMED) || has_flag(bits, STATUS_INDEX_TYPECHANGE)
}

/// The status holds at least one working-directory change flag.
pub open spec fn workdir_flagged(bits: u32) -> bool {
    has_flag(bits, STATUS_WT_MODIFIED) || has_flag(bits, STATUS_WT_DELETED) || has_flag(bits, STATUS_WT_RENAMED)
        || has_flag(bits, STATUS_WT_TYPECHANGE)
}

/// How many entries satisfy `p`.
pub open spec fn count_entries(s: Seq<StatusEntry>, p: spec_fn(StatusEntry) -> bool) -> nat
    decreases s.len(),
{
    if s.len() == 0 {
        0
    } else {
        count_entries(s.drop_last(), p) + if p(s.last()) { 1nat } else { 0nat }
    }
}

/// Each section lists one line per entry it concerns: a staged line for
/// every entry with an index flag and a HEAD-to-index difference; an
/// unstaged line for every entry with a working-directory change flag and an
/// index-to-working-directory difference; an untracked (ignored) line for
/// every entry whose status is exactly "new in the working directory"
/// ("ignored") and whose old path is known.
pub proof fn lemma_section_counts(s: Seq<StatusEntry>)
    ensures
        staged_lines(s).len() == count_entries(
            s,
            |e: StatusEntry| e.status != 0 && index_flagged(e.status) && e.head_to_index is Some,
        ),
        unstaged_lines(s).len() == count_entries(
            s,
            |e: StatusEntry| e.status != 0 && workdir_flagged(e.status) && e.index_to_workdir is Some,
        ),
        untracked_lines(s).len() == count_entries(
            s,
            |e: StatusEntry| e.status == STATUS_WT_NEW && e.index_to_workdir is Some && e.index_to_workdir.unwrap().old_path is Some,
        ),
        ignored_lines(s).len() == count_entries(
            s,
            |e: StatusEntry| e.status == STATUS_IGNORED && e.index_to_workdir is Some && e.index_to_workdir.unwrap().old_path is Some,
        ),
    decreases s.len(),
{
    if s.len() > 0 {
        lemma_section_counts(s.drop_last());
    }
}

proof fn lemma_flag_facts()
    by (bit_vector)
    ensures
        0u32 & 512u32 != 512u32,
        1u32 & 1u32 == 1u32,
        1u32 & 512u32 != 512u32,
        2u32 & 1u32 != 1u32,
        2u32 & 2u32 == 2u32,
        2u32 & 512u32 != 512u32,
        4u32 & 1u32 != 1u32,
        4u32 & 2u32 != 2u32,
        4u32 & 4u32 == 4u32,
        4u32 & 512u32 != 512u32,
        8u32 & 1u32 != 1u32,
        8u32 & 2u32 != 2u32,
        8u32 & 4u32 != 4u32,
        8u32 & 8u32 == 8u32,
        8u32 & 512u32 != 512u32,
        16u32 & 1u32 != 1u32,
        16u32 & 2u32 != 2u32,
        16u32 & 4u32 != 4u32,
        16u32 & 8u32 != 8u32,
        16u32 & 16u32 == 16u32,
        16u32 & 512u32 != 512u32,
        256u32 & 256u32 == 256u32,
        256u32 & 512u32 != 512u32,
        512u32 & 256u32 != 256u32,
        512u32 & 512u32 == 512u32,
        2048u32 & 256u32 != 256u32,
        2048u32 & 512u32 != 512u32,
        2048u32 & 2048u32 == 2048u32,
        1024u32 & 256u32 != 256u32,
        1024u32 & 512u32 != 512u32,
        1024u32 & 2048u32 != 2048u32,
        1024u32 & 1024u32 == 1024u32,
{
}

/// Reporting one more entry adds at most one line to the staged section, at
/// its end: for an entry with an index flag and a HEAD-to-index difference,
/// `#\t`, the label of its first index flag in the order new, modified,
/// deleted, renamed, type change, two spaces, then `old -> new` when both
/// paths are known and differ, else the one path known (the old one first).
pub proof fn lemma_staged_line_appended(s: Seq<StatusEntry>, e: StatusEntry)
    ensures
        ({
            let label = if has_flag(e.status, STATUS_INDEX_NEW) {
                "new file: "@
            } else if has_flag(e.status, STATUS_INDEX_MODIFIED) {
                "modified: "@
            } else if has_flag(e.status, STATUS_INDEX_DELETED) {
                "deleted: "@
            } else if has_flag(e.status, STATUS_INDEX_RENAMED) {
                "renamed: "@
            } else {
                "typechange:"@
            };
            let d = e.head_to_index.unwrap();
            let shown = match (opt_view(d.old_path), opt_view(d.new_path)) {
                (Some(o), Some(n)) => if o != n { o + " -> "@ + n } else { o },
                (Some(o), None) => o,
                (None, Some(n)) => n,
                (None, None) => Seq::empty(),
            };
            staged_lines(s.push(e)) == if e.status != 0 && index_flagged(e.status) && e.head_to_index is Some {
                staged_lines(s).push("#\t"@ + label + "  "@ + shown)
            } else {
                staged_lines(s)
            }
        }),
{
    assert(s.push(e).drop_last() =~= s);
    assert(s.push(e).last() == e);
    reveal_strlit("new file: ");
    reveal_strlit("modified: ");
    reveal_strlit("deleted: ");
    reveal_strlit("renamed: ");
    reveal_strlit("typechange:");
    if e.status != 0 && index_flagged(e.status) && e.head_to_index is Some {
        let d = e.head_to_index.unwrap();
        let prefix = "#\t"@ + index_label(e.status).unwrap() + "  "@;
        match (opt_view(d.old_path), opt_view(d.new_path)) {
            (Some(o), Some(n)) => {
                if o != n {
                    assert(prefix + o + " -> "@ + n =~= prefix + (o + " -> "@ + n));
                }
            },
            (None, None) => {
                assert(prefix + Seq::<char>::empty() =~= prefix);
            },
            _ => {},
        }
    }
}

/// Reporting one more entry adds at most one line to the unstaged section,
/// at its end: for an entry with a working-directory change flag and an
/// index-to-working-directory difference, `#\t`, the label of its first such
/// flag in the order modified, deleted, renamed, type change, two spaces,
/// then `old -> new` when both paths are known and differ, else the one path
/// known (the old one first).
pub proof fn lemma_unstaged_line_appended(s: Seq<StatusEntry>, e: StatusEntry)
    ensures
        ({
            let label = if has_flag(e.status, STATUS_WT_MODIFIED) {
                "modified: "@
            } else if has_flag(e.status, STATUS_WT_DELETED) {
                "deleted: "@
            } else if has_flag(e.status, STATUS_WT_RENAMED) {
                "renamed: "@
            } else {
                "typechange:"@
            };
            let d = e.index_to_workdir.unwrap();
            let shown = match (opt_view(d.old_path), opt_view(d.new_path)) {
                (Some(o), Some(n)) => if o != n { o + " -> "@ + n } else { o },
                (Some(o), None) => o,
                (None, Some(n)) => n,
                (None, None) => Seq::empty(),
            };
            unstaged_lines(s.push(e)) == if e.status != 0 && workdir_flagged(e.status) && e.index_to_workdir is Some {
                unstaged_lines(s).push("#\t"@ + label + "  "@ + shown)
            } else {
                unstaged_lines(s)
            }
        }),
{
    assert(s.push(e).drop_last() =~= s);
    assert(s.push(e).last() == e);
    reveal_strlit("modified: ");
    reveal_strlit("deleted: ");
    reveal_strlit("renamed: ");
    reveal_strlit("typechange:");
    if e.status != 0 && workdir_flagged(e.status) && e.index_to_workdir is Some {
        let d = e.index_to_workdir.unwrap();
        let prefix = "#\t"@ + workdir_label(e.status).unwrap() + "  "@;
        match (opt_view(d.old_path), opt_view(d.new_path)) {
            (Some(o), Some(n)) => {
                if o != n {
                    assert(prefix + o + " -> "@ + n =~= prefix + (o + " -> "@ + n));
                }
            },
            (None, None) => {
                assert(prefix + Seq::<char>::empty() =~= prefix);
            },
            _ => {},
        }
    }
}

/// A repository whose only entry is a staged change of one kind reports the
/// staged section alone: its heading, one line with the kind's label and the
/// path, and a closing `#`.
pub proof fn lemma_single_staged_change(e: StatusEntry, p: Seq<char>)
    requires
        e.status == STATUS_INDEX_NEW || e.status == STATUS_INDEX_MODIFIED || e.status == STATUS_INDEX_DELETED
            || e.status == STATUS_INDEX_RENAMED || e.status == STATUS_INDEX_TYPECHANGE,
        e.head_to_index matches Some(d) && opt_view(d.old_path) == Some(p) && opt_view(d.new_path) == Some(p),
        e.index_to_workdir is None,
    ensures
        long_status_spec(seq![e]) == seq![
            "# Changes to be committed:\n#   (use \"git reset HEAD <file>...\" to unstage)\n#"@,
            (if e.status == STATUS_INDEX_NEW {
                "#\tnew file:   "@
            } else if e.status == STATUS_INDEX_MODIFIED {
                "#\tmodified:   "@
            } else if e.status == STATUS_INDEX_DELETED {
                "#\tdeleted:   "@
            } else if e.status == STATUS_INDEX_RENAMED {
                "#\trenamed:   "@
            } else {
                "#\ttypechange:  "@
            }) + p,
            "#"@,
        ],
{
    lemma_flag_facts();
    reveal_strlit("#\t");
    reveal_strlit("  ");
    reveal_strlit("new file: ");
    reveal_strlit("modified: ");
    reveal_strlit("deleted: ");
    reveal_strlit("renamed: ");
    reveal_strlit("typechange:");
    reveal_strlit("#\tnew file:   ");
    reveal_strlit("#\tmodified:   ");
    reveal_strlit("#\tdeleted:   ");
    reveal_strlit("#\trenamed:   ");
    reveal_strlit("#\ttypechange:  ");
    let s = seq![e];
    reveal_with_fuel(gather, 2);
    assert(s.drop_last() =~= Seq::<StatusEntry>::empty());
    assert(s.last() == e);
    let line = change_line(index_label(e.status).unwrap(), e.head_to_index.unwrap());
    assert(index_label(e.status) is Some);
    assert(staged_line(e) == Some(line));
    assert(unstaged_line(e) is None);
    assert(staged_lines(s) =~= seq![line]);
    assert(unstaged_lines(s) =~= Seq::<Seq<char>>::empty());
    assert(untracked_lines(s) == Seq::<Seq<char>>::empty());
    assert(ignored_lines(s) == Seq::<Seq<char>>::empty());
    assert(line =~= (if e.status == STATUS_INDEX_NEW {
        "#\tnew file:   "@
    } else if e.status == STATUS_INDEX_MODIFIED {
        "#\tmodified:   "@
    } else if e.status == STATUS_INDEX_DELETED {
        "#\tdeleted:   "@
    } else if e.status == STATUS_INDEX_RENAMED {
        "#\trenamed:   "@
    } else {
        "#\ttypechange:  "@
    }) + p);
    assert(long_status_spec(s) =~= seq![staged_header(), line, "#"@]);
}

/// A repository whose only entry is an unstaged change of one kind reports
/// the unstaged section alone, its heading naming `git add/rm` exactly when
/// the change is a deletion, then the hint that nothing is staged.
pub proof fn lemma_single_unstaged_change(e: StatusEntry, p: Seq<char>)
    requires
        e.status == STATUS_WT_MODIFIED || e.status == STATUS_WT_DELETED || e.status == STATUS_WT_RENAMED
            || e.status == STATUS_WT_TYPECHANGE,
        e.index_to_workdir matches Some(d) && opt_view(d.old_path) == Some(p) && opt_view(d.new_path) == Some(p),
        e.head_to_index is None,
    ensures
        long_status_spec(seq![e]) == seq![
            (if e.status == STATUS_WT_DELETED {
                "# Changes not staged for commit:\n#   (use \"git add/rm <file>...\" to update what will be committed)\n#   (use \"git checkout -- <file>...\" to discard changes in working directory)\n#"@
            } else {
                "# Changes not staged for commit:\n#   (use \"git add <file>...\" to update what will be committed)\n#   (use \"git checkout -- <file>...\" to discard changes in working directory)\n#"@
            }),
            (if e.status == STATUS_WT_MODIFIED {
                "#\tmodified:   "@
            } else if e.status == STATUS_WT_DELETED {
                "#\tdeleted:   "@
            } else if e.status == STATUS_WT_RENAMED {
                "#\trenamed:   "@
            } else {
                "#\ttypechange:  "@
            }) + p,
            "#"@,
            "no changes added to commit (use \"git add\" and/or \"git commit -a\")"@,
        ],
{
    lemma_flag_facts();
    reveal_strlit("#\t");
    reveal_strlit("  ");
    reveal_strlit("");
    reveal_strlit("/rm");
    reveal_strlit("modified: ");
    reveal_strlit("deleted: ");
    reveal_strlit("renamed: ");
    reveal_strlit("typechange:");
    reveal_strlit("#\tmodified:   ");
    reveal_strlit("#\tdeleted:   ");
    reveal_strlit("#\trenamed:   ");
    reveal_strlit("#\ttypechange:  ");
    reveal_strlit("# Changes not staged for commit:\n#   (use \"git add");
    reveal_strlit(" <file>...\" to update what will be committed)\n#   (use \"git checkout -- <file>...\" to discard changes in working directory)\n#");
    reveal_strlit("# Changes not staged for commit:\n#   (use \"git add/rm <file>...\" to update what will be committed)\n#   (use \"git checkout -- <file>...\" to discard changes in working directory)\n#");
    reveal_strlit("# Changes not staged for commit:\n#   (use \"git add <file>...\" to update what will be committed)\n#   (use \"git checkout -- <file>...\" to discard changes in working directory)\n#");
    let s = seq![e];
    reveal_with_fuel(gather, 2);
    assert(s.drop_last() =~= Seq::<StatusEntry>::empty());
    assert(s.last() == e);
    let line = change_line(workdir_label(e.status).unwrap(), e.index_to_workdir.unwrap());
    assert(workdir_label(e.status) is Some);
    assert(unstaged_line(e) == Some(line));
    assert(staged_line(e) is None);
    assert(staged_lines(s) =~= Seq::<Seq<char>>::empty());
    assert(unstaged_lines(s) =~= seq![line]);
    assert(untracked_lines(s) == Seq::<Seq<char>>::empty());
    assert(ignored_lines(s) == Seq::<Seq<char>>::empty());
    assert(removed_in_workdir(s) == (e.status == STATUS_WT_DELETED)) by {
        if removed_in_workdir(s) {
            let i = choose|i: int| 0 <= i < s.len() && has_flag(#[trigger] s[i].status, STATUS_WT_DELETED);
            assert(s[i] == e);
        }
        if e.status == STATUS_WT_DELETED {
            assert(has_flag(s[0].status, STATUS_WT_DELETED));
        }
    }
    assert(line =~= (if e.status == STATUS_WT_MODIFIED {
        "#\tmodified:   "@
    } else if e.status == STATUS_WT_DELETED {
        "#\tdeleted:   "@
    } else if e.status == STATUS_WT_RENAMED {
        "#\trenamed:   "@
    } else {
        "#\ttypechange:  "@
    }) + p);
    assert(unstaged_header(removed_in_workdir(s)) =~= (if e.status == STATUS_WT_DELETED {
        "# Changes not staged for commit:\n#   (use \"git add/rm <file>...\" to update what will be committed)\n#   (use \"git checkout -- <file>...\" to discard changes in working directory)\n#"@
    } else {
        "# Changes not staged for commit:\n#   (use \"git add <file>...\" to update what will be committed)\n#   (use \"git checkout -- <file>...\" to discard changes in working directory)\n#"@
    }));
    assert(long_status_spec(s) =~= seq![unstaged_header(removed_in_workdir(s)), line, "#"@, nothing_added_line()]);
}

} // verus!

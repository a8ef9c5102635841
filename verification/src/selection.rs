//! Selecting repositories by name: list names expand to their members,
//! repeated names are dropped, and `all` stands for every repository.

use vstd::prelude::*;
use itertools::Itertools;
use crate::config::{RepoConfig, ConfigView, has_key, value_of};

verus! {

/// The names in order of first occurrence, each once.
pub open spec fn first_occurrences(s: Seq<Seq<char>>) -> Seq<Seq<char>>
    decreases s.len(),
{
    if s.len() == 0 {
        s
    } else {
        let r = first_occurrences(s.drop_last());
        if r.contains(s.last()) {
            r
        } else {
            r.push(s.last())
        }
    }
}

/// `Itertools::unique` collected into a vector: the names in the order of
/// their first occurrence, each once, compared by their text.
#[verifier::external_body]
fn unique_names(names: Vec<String>) -> (r: Vec<String>)
    ensures
        r.deep_view() == first_occurrences(names.deep_view()),
{
    names.into_iter().unique().collect()
}

/// What `Debug` writes for a text.
pub uninterp spec fn debug_text(s: Seq<char>) -> Seq<char>;

/// `format!("{:?}", s)` on a `str`: the text in double quotes, with special
/// characters escaped. The escaping is not stated; the result depends on the
/// text alone.
#[verifier::external_body]
fn debug_quoted(s: &str) -> (r: String)
    ensures
        r@ == debug_text(s@),
{
    format!("{:?}", s)
}

/// The position of the first occurrence of `x` in `s`, or the length of `s`
/// when it does not occur.
pub open spec fn first_index(s: Seq<Seq<char>>, x: Seq<char>) -> int
    decreases s.len(),
{
    if s.len() == 0 {
        0
    } else if s[0] == x {
        0
    } else {
        1 + first_index(s.drop_first(), x)
    }
}

/// One step of list expansion: when `x` names a list, its first occurrence
/// leaves the selection and the list's members come last.
pub open spec fn expand_step(cur: Seq<Seq<char>>, lists: Seq<(Seq<char>, Seq<Seq<char>>)>, x: Seq<char>) -> Seq<Seq<char>> {
    if has_key(lists, x) {
        cur.remove(first_index(cur, x)) + value_of(lists, x)
    } else {
        cur
    }
}

/// The selection after the first `k` requested names were considered.
pub open spec fn expanded(requested: Seq<Seq<char>>, lists: Seq<(Seq<char>, Seq<Seq<char>>)>, k: int) -> Seq<Seq<char>>
    decreases k,
{
    if k <= 0 {
        requested
    } else {
        expand_step(expanded(requested, lists, k - 1), lists, requested[k - 1])
    }
}

/// The selection after every requested name was considered. Members of a
/// list are not themselves expanded.
pub open spec fn expansion(requested: Seq<Seq<char>>, lists: Seq<(Seq<char>, Seq<Seq<char>>)>) -> Seq<Seq<char>> {
    expanded(requested, lists, requested.len() as int)
}

/// The report lines of one expansion step.
pub open spec fn step_notes(
    lists: Seq<(Seq<char>, Seq<Seq<char>>)>,
    x: Seq<char>,
    show_members: bool,
) -> Seq<Seq<char>> {
    if has_key(lists, x) {
        seq!["deleting "@ + x, "found a list : "@ + x] + (if show_members {
            Seq::new(value_of(lists, x).len(), |i: int| "these are the contents"@ + debug_text(x))
        } else {
            Seq::empty()
        })
    } else {
        Seq::empty()
    }
}

/// The report lines of the first `k` expansion steps.
pub open spec fn expansion_notes(
    requested: Seq<Seq<char>>,
    lists: Seq<(Seq<char>, Seq<Seq<char>>)>,
    k: int,
    show_members: bool,
) -> Seq<Seq<char>>
    decreases k,
{
    if k <= 0 {
        Seq::empty()
    } else {
        expansion_notes(requested, lists, k - 1, show_members) + step_notes(lists, requested[k - 1], show_members)
    }
}

/// What expanding a selection reports and gives.
pub struct Expansion {
    pub notes: Vec<String>,
    pub names: Vec<String>,
}

proof fn lemma_first_index(s: Seq<Seq<char>>, x: Seq<char>, i: int)
    requires
        0 <= i <= s.len(),
        forall|j: int| 0 <= j < i ==> s[j] != x,
        i < s.len() ==> s[i] == x,
    ensures
        first_index(s, x) == i,
    decreases i,
{
    if i > 0 {
        lemma_first_index(s.drop_first(), x, i - 1);
    }
}

fn find_first(cur: &Vec<String>, x: &String) -> (i: usize)
    ensures
        i as int == first_index(cur.deep_view(), x@),
        i <= cur@.len(),
        i < cur@.len() ==> cur.deep_view()[i as int] == x@,
        forall|j: int| 0 <= j < i ==> cur.deep_view()[j] != x@,
{
    let mut i: usize = 0;
    while i < cur.len()
        invariant
            i <= cur@.len(),
            forall|j: int| 0 <= j < i ==> cur.deep_view()[j] != x@,
        decreases cur@.len() - i,
    {
        if cur[i].eq(x) {
            proof { lemma_first_index(cur.deep_view(), x@, i as int); }
            return i;
        }
        i = i + 1;
    }
    proof { lemma_first_index(cur.deep_view(), x@, i as int); }
    i
}

/// The value of `x` in a table whose keys are distinct, if it has one.
pub fn find_entry<'a, V: DeepView>(lists: &'a Vec<(String, V)>, x: &String) -> (r: Option<&'a V>)
    requires
        crate::config::keys_distinct(lists.deep_view()),
    ensures
        r is Some <==> has_key(lists.deep_view(), x@),
        r matches Some(m) ==> m.deep_view() == value_of(lists.deep_view(), x@),
{
    let mut i: usize = 0;
    while i < lists.len()
        invariant
            i <= lists@.len(),
            crate::config::keys_distinct(lists.deep_view()),
            forall|j: int| 0 <= j < i ==> #[trigger] lists.deep_view()[j].0 != x@,
        decreases lists@.len() - i,
    {
        if lists[i].0.eq(x) {
            proof {
                let t = lists.deep_view();
                assert(t[i as int].0 == x@);
                let c = choose|j: int| 0 <= j < t.len() && #[trigger] t[j].0 == x@;
                assert(c == i) by {
                    if c < i {
                        assert(t[c].0 != t[i as int].0);
                    } else if c > i {
                        assert(t[i as int].0 != t[c].0);
                    }
                }
            }
            return Some(&lists[i].1);
        }
        i = i + 1;
    }
    None
}

fn copy_names(v: &Vec<String>) -> (r: Vec<String>)
    ensures
        r.deep_view() == v.deep_view(),
{
    let mut r: Vec<String> = Vec::new();
    let mut i: usize = 0;
    while i < v.len()
        invariant
            i <= v@.len(),
            r.deep_view() == v.deep_view().take(i as int),
        decreases v@.len() - i,
    {
        let ghost before = r.deep_view();
        r.push(v[i].clone());
        assert(r.deep_view() =~= before.push(v.deep_view()[i as int]));
        assert(v.deep_view().take(i + 1) =~= v.deep_view().take(i as int).push(v.deep_view()[i as int]));
        i = i + 1;
    }
    assert(v.deep_view().take(i as int) =~= v.deep_view());
    r
}

/// Expands the list names among the requested names, in the order they were
/// requested, and reports each expansion; with `show_members`, one more line
/// for every member of an expanded list.
pub fn expand_lists(requested: &Vec<String>, config: &RepoConfig, show_members: bool) -> (e: Expansion)
    requires
        config@.wf(),
    ensures
        e.names.deep_view() == expansion(requested.deep_view(), config@.lists),
        e.notes.deep_view() == expansion_notes(requested.deep_view(), config@.lists, requested@.len() as int, show_members),
{
    let ghost req = requested.deep_view();
    let ghost lists = config@.lists;
    let mut cur = copy_names(requested);
    let mut notes: Vec<String> = Vec::new();
    let mut k: usize = 0;
    proof {
        assert(req.skip(0) =~= req);
        assert(notes.deep_view() =~= Seq::<Seq<char>>::empty());
    }
    while k < requested.len()
        invariant
            k <= requested@.len(),
            req == requested.deep_view(),
            lists == config@.lists,
            config@.wf(),
            cur.deep_view() == expanded(req, lists, k as int),
            notes.deep_view() == expansion_notes(req, lists, k as int, show_members),
            req.skip(k as int).to_multiset().subset_of(cur.deep_view().to_multiset()),
        decreases requested@.len() - k,
    {
        let x = &requested[k];
        let ghost c0 = cur.deep_view();
        let ghost n0 = notes.deep_view();
        proof {
            broadcast use vstd::seq_lib::group_to_multiset_ensures;
            let rest = req.skip(k as int);
            assert(rest.remove(0) =~= req.skip(k + 1));
            assert(rest[0] == x@);
            assert(rest.contains(x@));
            assert(rest.to_multiset().count(x@) > 0);
            assert(c0.to_multiset().count(x@) > 0);
            assert(c0.contains(x@));
        }
        match find_entry(&config.lists, x) {
            Some(members) => {
                let idx = find_first(&cur, x);
                proof {
                    if idx == cur@.len() {
                        let w = choose|j: int| 0 <= j < c0.len() && c0[j] == x@;
                        assert(c0[w] == x@);
                    }
                }
                let ghost v0 = cur@;
                let removed = cur.remove(idx);
                proof {
                    assert forall|j: int| 0 <= j < cur@.len() implies #[trigger] cur.deep_view()[j] == c0.remove(idx as int)[j] by {
                        if j < idx {
                            assert(cur@[j] == v0[j]);
                        } else {
                            assert(cur@[j] == v0[j + 1]);
                        }
                    }
                }
                let mut note = String::from_str("deleting ");
                note.append(removed.as_str());
                notes.push(note);
                let mut found = String::from_str("found a list : ");
                found.append(x.as_str());
                notes.push(found);
                let ghost c1 = cur.deep_view();
                let ghost n1 = notes.deep_view();
                proof {
                    assert(c1 =~= c0.remove(idx as int));
                    assert(n1 =~= n0 + seq!["deleting "@ + x@, "found a list : "@ + x@]);
                }
                let mut j: usize = 0;
                while j < members.len()
                    invariant
                        j <= members@.len(),
                        cur.deep_view() == c1 + members.deep_view().take(j as int),
                        notes.deep_view() == n1 + (if show_members {
                            Seq::new(j as nat, |i: int| "these are the contents"@ + debug_text(x@))
                        } else {
                            Seq::empty()
                        }),
                    decreases members@.len() - j,
                {
                    if show_members {
                        let ghost nb = notes.deep_view();
                        let d = debug_quoted(x.as_str());
                        let mut line = String::from_str("these are the contents");
                        line.append(d.as_str());
                        let ghost lv = line@;
                        assert(lv == "these are the contents"@ + debug_text(x@));
                        notes.push(line);
                        assert(notes.deep_view() =~= nb.push(lv));
                        assert(notes.deep_view() =~= n1 + Seq::new((j + 1) as nat, |i: int| "these are the contents"@ + debug_text(x@)));
                    }
                    let ghost cb = cur.deep_view();
                    cur.push(members[j].clone());
                    assert(cur.deep_view() =~= cb.push(members.deep_view()[j as int]));
                    assert(members.deep_view().take(j + 1) =~= members.deep_view().take(j as int).push(members.deep_view()[j as int]));
                    j = j + 1;
                }
                proof {
                    assert(members.deep_view().take(j as int) =~= members.deep_view());
                    assert(req.take(k + 1).drop_last() =~= req.take(k as int));
                    assert(notes.deep_view() =~= n0 + step_notes(lists, x@, show_members));
                    assert(cur.deep_view() == expand_step(c0, lists, x@));
                    broadcast use vstd::seq_lib::group_to_multiset_ensures;
                    let rest = req.skip(k as int);
                    assert(rest.remove(0) =~= req.skip(k + 1));
                    let m1 = c1.to_multiset();
                    assert(m1 =~= c0.to_multiset().remove(x@));
                    assert(req.skip(k + 1).to_multiset() =~= rest.to_multiset().remove(x@));
                    assert(req.skip(k + 1).to_multiset().subset_of(m1));
                    lemma_append_grows_multiset(c1, members.deep_view());
                }
            },
            None => {
                proof {
                    broadcast use vstd::seq_lib::group_to_multiset_ensures;
                    let rest = req.skip(k as int);
                    assert(rest.remove(0) =~= req.skip(k + 1));
                    assert(req.skip(k + 1).to_multiset() =~= rest.to_multiset().remove(x@));
                    assert(notes.deep_view() =~= n0 + step_notes(lists, x@, show_members));
                }
            },
        }
        k = k + 1;
    }
    Expansion { notes, names: cur }
}

proof fn lemma_append_grows_multiset(a: Seq<Seq<char>>, b: Seq<Seq<char>>)
    ensures
        a.to_multiset().subset_of((a + b).to_multiset()),
    decreases b.len(),
{
    broadcast use vstd::seq_lib::group_to_multiset_ensures;
    if b.len() > 0 {
        lemma_append_grows_multiset(a, b.drop_last());
        assert(a + b =~= (a + b.drop_last()).push(b.last()));
    }
}


/// The names that a listing shows: the expanded selection, each name once,
/// then, when the selection holds `all`, every configured repository in
/// configuration order.
pub open spec fn listed_names(requested: Seq<Seq<char>>, cfg: ConfigView) -> Seq<Seq<char>> {
    let e = expansion(requested, cfg.lists);
    first_occurrences(e) + (if e.contains("all"@) {
        cfg.repos.map_values(|p: (Seq<char>, Seq<char>)| p.0)
    } else {
        Seq::empty()
    })
}

/// The line that a listing shows for one name: its path, or that no
/// repository has that name.
pub open spec fn path_line(cfg: ConfigView, name: Seq<char>) -> Seq<char> {
    if has_key(cfg.repos, name) {
        "Path for "@ + name + " is :  \n"@ + value_of(cfg.repos, name) + "\n-----------------------------------"@
    } else {
        "\nNo repository found with name "@ + name + "\n-----------------------------------"@
    }
}

/// What listing a selection reports and shows.
pub struct Listing {
    pub notes: Vec<String>,
    pub names: Vec<String>,
    pub lines: Vec<String>,
}

fn contains_name(v: &Vec<String>, x: &String) -> (r: bool)
    ensures
        r == v.deep_view().contains(x@),
{
    let mut i: usize = 0;
    while i < v.len()
        invariant
            i <= v@.len(),
            forall|j: int| 0 <= j < i ==> v.deep_view()[j] != x@,
        decreases v@.len() - i,
    {
        if v[i].eq(x) {
            assert(v.deep_view()[i as int] == x@);
            return true;
        }
        i = i + 1;
    }
    false
}

fn path_line_of(config: &RepoConfig, name: &String) -> (line: String)
    requires
        config@.wf(),
    ensures
        line@ == path_line(config@, name@),
{
    match find_entry(&config.repos, name) {
        Some(path) => {
            let mut line = String::from_str("Path for ");
            line.append(name.as_str());
            line.append(" is :  \n");
            line.append(path.as_str());
            line.append("\n-----------------------------------");
            assert(line@ =~= path_line(config@, name@));
            line
        },
        None => {
            let mut line = String::from_str("\nNo repository found with name ");
            line.append(name.as_str());
            line.append("\n-----------------------------------");
            assert(line@ =~= path_line(config@, name@));
            line
        },
    }
}

/// Lists a selection: the expansion report, the names shown and one line per
/// name with its path.
pub fn list_selection(requested: &Vec<String>, config: &RepoConfig) -> (l: Listing)
    requires
        config@.wf(),
    ensures
        l.notes.deep_view() == expansion_notes(requested.deep_view(), config@.lists, requested@.len() as int, false),
        l.names.deep_view() == listed_names(requested.deep_view(), config@),
        l.lines.deep_view() == listed_names(requested.deep_view(), config@).map_values(|n: Seq<char>| path_line(config@, n)),
        l.lines@.len() == l.names@.len(),
        expansion(requested.deep_view(), config@.lists).contains("all"@) ==> forall|i: int|
            0 <= i < config@.repos.len() ==> l.names.deep_view().contains(#[trigger] config@.repos[i].0),
{
    proof {
        if expansion(requested.deep_view(), config@.lists).contains("all"@) {
            lemma_listing_all(requested.deep_view(), config@);
        }
    }
    let e = expand_lists(requested, config, false);
    let all = String::from_str("all");
    let has_all = contains_name(&e.names, &all);
    let ghost ex = e.names.deep_view();
    let mut names = unique_names(copy_names(&e.names));
    let ghost u = names.deep_view();
    if has_all {
        let mut i: usize = 0;
        while i < config.repos.len()
            invariant
                i <= config.repos@.len(),
                names.deep_view() == u + config@.repos.take(i as int).map_values(|p: (Seq<char>, Seq<char>)| p.0),
            decreases config.repos@.len() - i,
        {
            let ghost before = names.deep_view();
            let key = config.repos[i].0.clone();
            assert(key@ == config@.repos[i as int].0);
            names.push(key);
            assert(names.deep_view() =~= before.push(config@.repos[i as int].0));
            assert(config@.repos.take(i + 1) =~= config@.repos.take(i as int).push(config@.repos[i as int]));
            assert(names.deep_view() =~= u + config@.repos.take(i + 1).map_values(|p: (Seq<char>, Seq<char>)| p.0));
            i = i + 1;
        }
        assert(config@.repos.take(i as int) =~= config@.repos);
    } else {
        assert(names.deep_view() =~= u + Seq::<Seq<char>>::empty());
    }
    let mut lines: Vec<String> = Vec::new();
    let mut i: usize = 0;
    while i < names.len()
        invariant
            i <= names@.len(),
            config@.wf(),
            lines.deep_view() == names.deep_view().take(i as int).map_values(|n: Seq<char>| path_line(config@, n)),
        decreases names@.len() - i,
    {
        let line = path_line_of(config, &names[i]);
        let ghost before = lines.deep_view();
        let ghost lv = line@;
        lines.push(line);
        assert(lines.deep_view() =~= before.push(lv));
        assert(names.deep_view().take(i + 1) =~= names.deep_view().take(i as int).push(names.deep_view()[i as int]));
        assert(lines.deep_view() =~= names.deep_view().take(i + 1).map_values(|n: Seq<char>| path_line(config@, n)));
        i = i + 1;
    }
    assert(names.deep_view().take(i as int) =~= names.deep_view());
    Listing { notes: e.notes, names, lines }
}

/// A repository to run a command in: its name and, when it is configured,
/// its path.
pub struct ExecTarget {
    pub name: String,
    pub path: Option<String>,
}

/// Running a command over a selection: the expansion report, the program,
/// its arguments and the repositories, each once, in order of selection.
pub struct ExecPlan {
    pub notes: Vec<String>,
    pub program: String,
    pub arguments: Vec<String>,
    pub targets: Vec<ExecTarget>,
}

pub open spec fn lookup(t: Seq<(Seq<char>, Seq<char>)>, name: Seq<char>) -> Option<Seq<char>> {
    if has_key(t, name) {
        Some(value_of(t, name))
    } else {
        None
    }
}

pub open spec fn target_view(t: ExecTarget) -> (Seq<char>, Option<Seq<char>>) {
    (t.name@, match t.path {
        Some(p) => Some(p@),
        None => None,
    })
}

/// Plans running a command over a selection: the first word of the command
/// is the program, the rest its arguments; list names are expanded (with a
/// line per list member) and repeated names dropped.
pub fn exec_selection(requested: &Vec<String>, command: &Vec<String>, config: &RepoConfig) -> (p: ExecPlan)
    requires
        config@.wf(),
        command@.len() > 0,
    ensures
        p.notes.deep_view() == expansion_notes(requested.deep_view(), config@.lists, requested@.len() as int, true),
        p.program@ == command.deep_view()[0],
        p.arguments.deep_view() == command.deep_view().drop_first(),
        p.targets@.map_values(|t: ExecTarget| target_view(t)) == first_occurrences(
            expansion(requested.deep_view(), config@.lists),
        ).map_values(|n: Seq<char>| (n, lookup(config@.repos, n))),
{
    let e = expand_lists(requested, config, true);
    let names = unique_names(copy_names(&e.names));
    let mut arguments = copy_names(command);
    assert(arguments.deep_view().len() == arguments@.len());
    let program = arguments.remove(0);
    proof {
        assert(arguments.deep_view() =~= command.deep_view().drop_first());
    }
    let ghost nv = names.deep_view();
    let mut targets: Vec<ExecTarget> = Vec::new();
    let mut i: usize = 0;
    while i < names.len()
        invariant
            i <= names@.len(),
            config@.wf(),
            nv == names.deep_view(),
            targets@.map_values(|t: ExecTarget| target_view(t)) == nv.take(i as int).map_values(
                |n: Seq<char>| (n, lookup(config@.repos, n)),
            ),
        decreases names@.len() - i,
    {
        let path = match find_entry(&config.repos, &names[i]) {
            Some(p) => Some(p.clone()),
            None => None,
        };
        let t = ExecTarget { name: names[i].clone(), path };
        let ghost tv = target_view(t);
        assert(tv == (nv[i as int], lookup(config@.repos, nv[i as int])));
        let ghost before = targets@;
        targets.push(t);
        assert(targets@.map_values(|t: ExecTarget| target_view(t)) =~= before.map_values(|t: ExecTarget| target_view(t)).push(tv));
        assert(nv.take(i + 1) =~= nv.take(i as int).push(nv[i as int]));
        assert(targets@.map_values(|t: ExecTarget| target_view(t)) =~= nv.take(i + 1).map_values(
            |n: Seq<char>| (n, lookup(config@.repos, n)),
        ));
        i = i + 1;
    }
    assert(nv.take(i as int) =~= nv);
    ExecPlan { notes: e.notes, program, arguments, targets }
}


/// Every name of a sequence is kept by dropping repeats, and no other.
pub proof fn lemma_first_occurrences_members(s: Seq<Seq<char>>)
    ensures
        forall|x: Seq<char>| #[trigger] first_occurrences(s).contains(x) <==> s.contains(x),
    decreases s.len(),
{
    if s.len() > 0 {
        lemma_first_occurrences_members(s.drop_last());
        let r = first_occurrences(s.drop_last());
        assert forall|x: Seq<char>| #[trigger] first_occurrences(s).contains(x) <==> s.contains(x) by {
            if s.contains(x) && x != s.last() {
                let i = choose|i: int| 0 <= i < s.len() && s[i] == x;
                assert(s.drop_last()[i] == x);
            }
            if s.drop_last().contains(x) {
                let i = choose|i: int| 0 <= i < s.drop_last().len() && s.drop_last()[i] == x;
                assert(s[i] == x);
            }
            if !r.contains(s.last()) && first_occurrences(s).contains(x) && x != s.last() {
                let i = choose|i: int| 0 <= i < r.push(s.last()).len() && r.push(s.last())[i] == x;
                assert(r[i] == x);
            }
            if !r.contains(s.last()) && r.contains(x) {
                let i = choose|i: int| 0 <= i < r.len() && r[i] == x;
                assert(r.push(s.last())[i] == x);
            }
            if !r.contains(s.last()) && x == s.last() {
                assert(r.push(s.last())[r.len() as int] == x);
            }
            assert(s[s.len() - 1] == s.last());
        }
    }
}

/// Dropping repeats leaves no name twice.
pub proof fn lemma_first_occurrences_distinct(s: Seq<Seq<char>>)
    ensures
        first_occurrences(s).no_duplicates(),
    decreases s.len(),
{
    if s.len() > 0 {
        lemma_first_occurrences_distinct(s.drop_last());
        let r = first_occurrences(s.drop_last());
        if !r.contains(s.last()) {
            let p = r.push(s.last());
            assert forall|i: int, j: int| 0 <= i < p.len() && 0 <= j < p.len() && i != j implies p[i] != p[j] by {
                if i == r.len() && j < r.len() {
                    assert(r[j] == p[j]);
                } else if j == r.len() && i < r.len() {
                    assert(r[i] == p[i]);
                }
            }
        }
    }
}

/// A sequence without repeats is left as it is.
pub proof fn lemma_first_occurrences_of_distinct(s: Seq<Seq<char>>)
    requires
        s.no_duplicates(),
    ensures
        first_occurrences(s) == s,
    decreases s.len(),
{
    if s.len() > 0 {
        let d = s.drop_last();
        assert(d.no_duplicates());
        lemma_first_occurrences_of_distinct(d);
        if d.contains(s.last()) {
            let i = choose|i: int| 0 <= i < d.len() && d[i] == s.last();
            assert(s[i] == s[s.len() - 1]);
        }
        assert(d.push(s.last()) =~= s);
    }
}

/// `x` occurs in `s` before position `q`.
pub open spec fn occurs_before(s: Seq<Seq<char>>, x: Seq<char>, q: int) -> bool {
    exists|p: int| 0 <= p < q && #[trigger] s[p] == x
}

/// Dropping repeats keeps the names in the order of their first
/// occurrence: a name kept before another occurs earlier than every
/// occurrence of that other.
pub proof fn lemma_first_occurrences_order(s: Seq<Seq<char>>)
    ensures
        forall|i: int, j: int, q: int|
            #![trigger first_occurrences(s)[i], first_occurrences(s)[j], s[q]]
            0 <= i < j < first_occurrences(s).len() && 0 <= q < s.len() && s[q] == first_occurrences(s)[j]
                ==> occurs_before(s, first_occurrences(s)[i], q),
    decreases s.len(),
{
    if s.len() > 0 {
        let d = s.drop_last();
        lemma_first_occurrences_order(d);
        lemma_first_occurrences_members(d);
        let r = first_occurrences(d);
        let x = s.last();
        let f = first_occurrences(s);
        assert forall|i: int, j: int, q: int|
            #![trigger f[i], f[j], s[q]]
            0 <= i < j < f.len() && 0 <= q < s.len() && s[q] == f[j] implies occurs_before(s, f[i], q) by {
            if r.contains(x) {
                assert(f == r);
                if q < d.len() {
                    assert(d[q] == s[q]);
                    assert(r[i] == f[i] && r[j] == f[j]);
                    let p = choose|p: int| 0 <= p < q && #[trigger] d[p] == r[i];
                    assert(s[p] == d[p]);
                } else {
                    assert(r[j] == x);
                    assert(r.contains(x));
                    assert(d.contains(x));
                    let q2 = choose|q2: int| 0 <= q2 < d.len() && d[q2] == x;
                    assert(d[q2] == r[j]);
                    let p = choose|p: int| 0 <= p < q2 && #[trigger] d[p] == r[i];
                    assert(s[p] == d[p]);
                }
            } else {
                assert(f == r.push(x));
                if j < r.len() {
                    assert(f[j] == r[j]);
                    assert(f[i] == r[i]);
                    if q < d.len() {
                        assert(d[q] == s[q]);
                        let p = choose|p: int| 0 <= p < q && #[trigger] d[p] == r[i];
                        assert(s[p] == d[p]);
                    } else {
                        assert(r[j] == x);
                        assert(r.contains(x));
                    }
                } else {
                    assert(f[j] == x);
                    assert(f[i] == r[i]);
                    assert(r.contains(r[i]));
                    assert(d.contains(r[i]));
                    let p = choose|p: int| 0 <= p < d.len() && d[p] == r[i];
                    if q < d.len() {
                        assert(d[q] == x);
                        assert(d.contains(x));
                    }
                    assert(s[p] == d[p]);
                }
            }
        }
    } else {
        assert(first_occurrences(s).len() == 0);
    }
}

/// Dropping repeats twice is dropping them once.
pub proof fn lemma_first_occurrences_idempotent(s: Seq<Seq<char>>)
    ensures
        first_occurrences(first_occurrences(s)) == first_occurrences(s),
{
    lemma_first_occurrences_distinct(s);
    lemma_first_occurrences_of_distinct(first_occurrences(s));
}

/// What each requested name brings into the selection: a list its members,
/// any other name itself.
pub open spec fn contributions(requested: Seq<Seq<char>>, lists: Seq<(Seq<char>, Seq<Seq<char>>)>) -> Seq<Seq<char>>
    decreases requested.len(),
{
    if requested.len() == 0 {
        Seq::empty()
    } else {
        contributions(requested.drop_last(), lists) + (if has_key(lists, requested.last()) {
            value_of(lists, requested.last())
        } else {
            seq![requested.last()]
        })
    }
}

proof fn lemma_first_index_found(s: Seq<Seq<char>>, x: Seq<char>)
    requires
        s.contains(x),
    ensures
        0 <= first_index(s, x) < s.len(),
        s[first_index(s, x)] == x,
    decreases s.len(),
{
    if s[0] != x {
        let i = choose|i: int| 0 <= i < s.len() && s[i] == x;
        assert(s.drop_first()[i - 1] == x);
        lemma_first_index_found(s.drop_first(), x);
    }
}

proof fn lemma_expanded_contents(requested: Seq<Seq<char>>, lists: Seq<(Seq<char>, Seq<Seq<char>>)>, k: int)
    requires
        0 <= k <= requested.len(),
    ensures
        expanded(requested, lists, k).to_multiset() =~= requested.skip(k).to_multiset().add(
            contributions(requested.take(k), lists).to_multiset(),
        ),
    decreases k,
{
    broadcast use vstd::seq_lib::group_to_multiset_ensures;
    broadcast use vstd::multiset::group_multiset_axioms;
    broadcast use vstd::seq_lib::lemma_multiset_commutative;
    if k == 0 {
        assert(requested.skip(0) =~= requested);
        assert(requested.take(0) =~= Seq::<Seq<char>>::empty());
        assert(Seq::<Seq<char>>::empty().to_multiset() =~= vstd::multiset::Multiset::empty());
    } else {
        lemma_expanded_contents(requested, lists, k - 1);
        let x = requested[k - 1];
        let cur = expanded(requested, lists, k - 1);
        let rest = requested.skip(k - 1);
        let c = contributions(requested.take(k - 1), lists);
        assert(requested.take(k).drop_last() =~= requested.take(k - 1));
        assert(requested.take(k).last() == x);
        assert(rest.remove(0) =~= requested.skip(k));
        assert(rest[0] == x);
        assert(rest.contains(x));
        assert(requested.skip(k).to_multiset() =~= rest.to_multiset().remove(x));
        assert(rest.to_multiset().count(x) > 0);
        assert(rest.to_multiset() =~= requested.skip(k).to_multiset().insert(x));
        if has_key(lists, x) {
            let m = value_of(lists, x);
            assert(cur.to_multiset().count(x) > 0);
            assert(cur.contains(x));
            lemma_first_index_found(cur, x);
            let idx = first_index(cur, x);
            assert(cur.remove(idx).to_multiset() =~= cur.to_multiset().remove(x));
            assert(contributions(requested.take(k), lists) == c + m);
            assert(expanded(requested, lists, k).to_multiset() =~= cur.remove(idx).to_multiset().add(m.to_multiset()));
        } else {
            assert(contributions(requested.take(k), lists) == c + seq![x]);
            assert(seq![x].to_multiset() =~= vstd::multiset::Multiset::empty().insert(x)) by {
                assert(Seq::<Seq<char>>::empty().push(x) =~= seq![x]);
                assert(Seq::<Seq<char>>::empty().to_multiset() =~= vstd::multiset::Multiset::empty());
            }
        }
    }
}

/// The expanded selection holds, counted with repeats, exactly what the
/// requested names bring: each name that is not a list, and the members of
/// each list, once per time the list is requested.
pub proof fn lemma_expansion_contents(requested: Seq<Seq<char>>, lists: Seq<(Seq<char>, Seq<Seq<char>>)>)
    ensures
        expansion(requested, lists).to_multiset() =~= contributions(requested, lists).to_multiset(),
{
    broadcast use vstd::seq_lib::group_to_multiset_ensures;
    broadcast use vstd::multiset::group_multiset_axioms;
    lemma_expanded_contents(requested, lists, requested.len() as int);
    assert(requested.skip(requested.len() as int) =~= Seq::<Seq<char>>::empty());
    assert(requested.take(requested.len() as int) =~= requested);
    assert(Seq::<Seq<char>>::empty().to_multiset() =~= vstd::multiset::Multiset::empty());
}


/// Unless the selection holds `all`, a listing shows each name once, it
/// shows exactly the names of the expanded selection, and it shows them in
/// the order in which they first occur there.
pub proof fn lemma_listing_distinct(requested: Seq<Seq<char>>, cfg: ConfigView)
    requires
        !expansion(requested, cfg.lists).contains("all"@),
    ensures
        listed_names(requested, cfg).no_duplicates(),
        forall|x: Seq<char>| #[trigger] listed_names(requested, cfg).contains(x) <==> expansion(requested, cfg.lists).contains(x),
        forall|i: int, j: int, q: int|
            #![trigger listed_names(requested, cfg)[i], listed_names(requested, cfg)[j], expansion(requested, cfg.lists)[q]]
            0 <= i < j < listed_names(requested, cfg).len() && 0 <= q < expansion(requested, cfg.lists).len()
                && expansion(requested, cfg.lists)[q] == listed_names(requested, cfg)[j] ==> occurs_before(
                expansion(requested, cfg.lists),
                listed_names(requested, cfg)[i],
                q,
            ),
{
    let e = expansion(requested, cfg.lists);
    assert(listed_names(requested, cfg) =~= first_occurrences(e));
    lemma_first_occurrences_distinct(e);
    lemma_first_occurrences_members(e);
    lemma_first_occurrences_order(e);
}


/// When the expanded selection holds `all`, the listing shows the expanded
/// names once each and then every configured repository, in configuration
/// order, none left out.
pub proof fn lemma_listing_all(requested: Seq<Seq<char>>, cfg: ConfigView)
    requires
        expansion(requested, cfg.lists).contains("all"@),
    ensures
        listed_names(requested, cfg).len() == first_occurrences(expansion(requested, cfg.lists)).len() + cfg.repos.len(),
        forall|i: int|
            0 <= i < cfg.repos.len() ==> listed_names(requested, cfg)[first_occurrences(
                expansion(requested, cfg.lists),
            ).len() + i] == #[trigger] cfg.repos[i].0,
        forall|i: int| 0 <= i < cfg.repos.len() ==> listed_names(requested, cfg).contains(#[trigger] cfg.repos[i].0),
        listed_names(requested, cfg).contains("all"@),
{
    let e = expansion(requested, cfg.lists);
    let f = first_occurrences(e);
    let l = listed_names(requested, cfg);
    lemma_first_occurrences_members(e);
    assert(f.contains("all"@));
    let k = choose|k: int| 0 <= k < f.len() && f[k] == "all"@;
    assert(l[k] == "all"@);
    assert forall|i: int| 0 <= i < cfg.repos.len() implies listed_names(requested, cfg).contains(#[trigger] cfg.repos[i].0) by {
        assert(l[f.len() + i] == cfg.repos[i].0);
    }
}

/// The listing line of a configured repository gives its configured path;
/// that of any other name says no repository has it.
pub proof fn lemma_path_lines(cfg: ConfigView, i: int, other: Seq<char>)
    requires
        cfg.wf(),
        0 <= i < cfg.repos.len(),
        forall|j: int| 0 <= j < cfg.repos.len() ==> #[trigger] cfg.repos[j].0 != other,
    ensures
        path_line(cfg, cfg.repos[i].0) == "Path for "@ + cfg.repos[i].0 + " is :  \n"@ + cfg.repos[i].1
            + "\n-----------------------------------"@,
        path_line(cfg, other) == "\nNo repository found with name "@ + other + "\n-----------------------------------"@,
{
    let t = cfg.repos;
    let k = t[i].0;
    assert(has_key(t, k));
    let c = choose|j: int| 0 <= j < t.len() && #[trigger] t[j].0 == k;
    assert(c == i) by {
        if c < i {
            assert(t[c].0 != t[i].0);
        } else if c > i {
            assert(t[i].0 != t[c].0);
        }
    }
}

} // verus!

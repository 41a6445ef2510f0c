//! Validation of a task list and the relations between its tasks: which
//! tasks a project contains and which tasks depend on a task.

use crate::task::{Task, TaskType};
use vstd::prelude::*;

verus! {

/// Some task of `ts` has the id `id`.
pub open spec fn has_id(ts: Seq<Task>, id: Seq<char>) -> bool {
    exists|j: int| 0 <= j < ts.len() && (#[trigger] ts[j]).id@ == id
}

/// Task `k` shares its id with another task.
pub open spec fn duplicate_id(ts: Seq<Task>, k: int) -> bool {
    exists|j: int| 0 <= j < ts.len() && j != k && (#[trigger] ts[j]).id@ == ts[k].id@
}

/// Task `k` lacks a start or an end, ends before it starts, has a progress
/// above 100, or shares its id.
pub open spec fn task_invalid(ts: Seq<Task>, k: int) -> bool {
    ||| ts[k].start is None
    ||| ts[k].end is None
    ||| ts[k].start.unwrap() > ts[k].end.unwrap()
    ||| ts[k].progress > 100
    ||| duplicate_id(ts, k)
}

/// `t` names `id` among its dependencies.
pub open spec fn depends_on(t: Task, id: Seq<char>) -> bool {
    exists|m: int| 0 <= m < t.dependencies@.len() && (#[trigger] t.dependencies@[m])@ == id
}

/// Task `k` names a project or a dependency that no task has as its id.
pub open spec fn task_dangling(ts: Seq<Task>, k: int) -> bool {
    ||| (ts[k].project is Some && !has_id(ts, ts[k].project.unwrap()@))
    ||| exists|m: int|
        0 <= m < ts[k].dependencies@.len() && !has_id(ts, (#[trigger] ts[k].dependencies@[m])@)
}

/// Ids, in list order, of the first `n` tasks that are invalid.
pub open spec fn invalid_ids(ts: Seq<Task>, n: int) -> Seq<Seq<char>>
    decreases n,
{
    if n <= 0 {
        Seq::empty()
    } else if task_invalid(ts, n - 1) {
        invalid_ids(ts, n - 1).push(ts[n - 1].id@)
    } else {
        invalid_ids(ts, n - 1)
    }
}

/// Ids, in list order, of the first `n` tasks that have a dangling reference.
pub open spec fn dangling_ids(ts: Seq<Task>, n: int) -> Seq<Seq<char>>
    decreases n,
{
    if n <= 0 {
        Seq::empty()
    } else if task_dangling(ts, n - 1) {
        dangling_ids(ts, n - 1).push(ts[n - 1].id@)
    } else {
        dangling_ids(ts, n - 1)
    }
}

/// Positions, in list order, among the first `n` tasks, of those that depend
/// on task `k`.
pub open spec fn dependents_upto(ts: Seq<Task>, k: int, n: int) -> Seq<usize>
    decreases n,
{
    if n <= 0 {
        Seq::empty()
    } else if depends_on(ts[n - 1], ts[k].id@) {
        dependents_upto(ts, k, n - 1).push((n - 1) as usize)
    } else {
        dependents_upto(ts, k, n - 1)
    }
}

/// Positions, in list order, of the tasks that depend on task `k`.
pub open spec fn dependents_of(ts: Seq<Task>, k: int) -> Seq<usize> {
    dependents_upto(ts, k, ts.len() as int)
}

/// Task `j` belongs to the project that task `k` is.
pub open spec fn contained_in(ts: Seq<Task>, j: int, k: int) -> bool {
    ts[k].type_ == TaskType::Project && ts[j].project is Some && ts[j].project.unwrap()@
        == ts[k].id@
}

/// Positions, in list order, among the first `n` tasks, of those contained in
/// task `k`.
pub open spec fn children_upto(ts: Seq<Task>, k: int, n: int) -> Seq<usize>
    decreases n,
{
    if n <= 0 {
        Seq::empty()
    } else if contained_in(ts, n - 1, k) {
        children_upto(ts, k, n - 1).push((n - 1) as usize)
    } else {
        children_upto(ts, k, n - 1)
    }
}

/// Positions, in list order, of the tasks that project `k` contains.
pub open spec fn children_of(ts: Seq<Task>, k: int) -> Seq<usize> {
    children_upto(ts, k, ts.len() as int)
}

/// The dependents among the first `n` tasks are exactly those that depend on
/// task `k`, in strictly increasing positions.
proof fn lemma_dependents_members(ts: Seq<Task>, k: int, n: int)
    requires
        0 <= k < ts.len(),
        0 <= n <= ts.len(),
        ts.len() <= usize::MAX,
    ensures
        forall|m: int|
            0 <= m < dependents_upto(ts, k, n).len() ==> (#[trigger] dependents_upto(ts, k, n)[m])
                < n && depends_on(ts[dependents_upto(ts, k, n)[m] as int], ts[k].id@),
        forall|m1: int, m2: int|
            0 <= m1 < m2 < dependents_upto(ts, k, n).len() ==> dependents_upto(ts, k, n)[m1]
                < dependents_upto(ts, k, n)[m2],
        forall|j: int|
            0 <= j < n && depends_on(#[trigger] ts[j], ts[k].id@) ==> exists|m: int|
                0 <= m < dependents_upto(ts, k, n).len() && dependents_upto(ts, k, n)[m] == j,
    decreases n,
{
    if n > 0 {
        lemma_dependents_members(ts, k, n - 1);
        let prev = dependents_upto(ts, k, n - 1);
        let cur = dependents_upto(ts, k, n);
        if depends_on(ts[n - 1], ts[k].id@) {
            assert(cur == prev.push((n - 1) as usize));
            assert forall|j: int|
                0 <= j < n && depends_on(#[trigger] ts[j], ts[k].id@) implies exists|m: int|
                0 <= m < cur.len() && cur[m] == j by {
                if j == n - 1 {
                    assert(cur[prev.len() as int] == j);
                } else {
                    let m = choose|m: int| 0 <= m < prev.len() && prev[m] == j;
                    assert(cur[m] == j);
                }
            }
        }
    }
}

/// Where two tasks depend on each other, resolving the relation ends and
/// each appears exactly once among the other's dependents.
pub proof fn lemma_cycle_dependents(ts: Seq<Task>, a: int, b: int)
    requires
        ts.len() <= usize::MAX,
        0 <= a < ts.len(),
        0 <= b < ts.len(),
        a != b,
        depends_on(ts[a], ts[b].id@),
        depends_on(ts[b], ts[a].id@),
    ensures
        exists|m: int| 0 <= m < dependents_of(ts, b).len() && dependents_of(ts, b)[m] == a,
        forall|m1: int, m2: int|
            0 <= m1 < dependents_of(ts, b).len() && 0 <= m2 < dependents_of(ts, b).len()
                && dependents_of(ts, b)[m1] == a && dependents_of(ts, b)[m2] == a ==> m1 == m2,
        exists|m: int| 0 <= m < dependents_of(ts, a).len() && dependents_of(ts, a)[m] == b,
        forall|m1: int, m2: int|
            0 <= m1 < dependents_of(ts, a).len() && 0 <= m2 < dependents_of(ts, a).len()
                && dependents_of(ts, a)[m1] == b && dependents_of(ts, a)[m2] == b ==> m1 == m2,
{
    lemma_dependents_members(ts, b, ts.len() as int);
    lemma_dependents_members(ts, a, ts.len() as int);
    assert(ts[a] == ts[a] && ts[b] == ts[b]);
    let db = dependents_of(ts, b);
    let da = dependents_of(ts, a);
    assert forall|m1: int, m2: int|
        0 <= m1 < db.len() && 0 <= m2 < db.len() && db[m1] == a && db[m2] == a implies m1 == m2 by {
        if m1 < m2 {
            assert(db[m1] < db[m2]);
        } else if m2 < m1 {
            assert(db[m2] < db[m1]);
        }
    }
    assert forall|m1: int, m2: int|
        0 <= m1 < da.len() && 0 <= m2 < da.len() && da[m1] == b && da[m2] == b implies m1 == m2 by {
        if m1 < m2 {
            assert(da[m1] < da[m2]);
        } else if m2 < m1 {
            assert(da[m2] < da[m1]);
        }
    }
}

fn id_present(tasks: &Vec<Task>, id: &String) -> (r: bool)
    ensures
        r == has_id(tasks@, id@),
{
    let mut j: usize = 0;
    while j < tasks.len()
        invariant
            j <= tasks@.len(),
            forall|i: int| 0 <= i < j ==> (#[trigger] tasks@[i]).id@ != id@,
        decreases tasks@.len() - j,
    {
        if tasks[j].id == *id {
            return true;
        }
        j = j + 1;
    }
    false
}

fn has_duplicate(tasks: &Vec<Task>, k: usize) -> (r: bool)
    requires
        k < tasks@.len(),
    ensures
        r == duplicate_id(tasks@, k as int),
{
    let mut j: usize = 0;
    while j < tasks.len()
        invariant
            k < tasks@.len(),
            j <= tasks@.len(),
            forall|i: int| 0 <= i < j && i != k ==> (#[trigger] tasks@[i]).id@ != tasks@[k as int].id@,
        decreases tasks@.len() - j,
    {
        if j != k && tasks[j].id == tasks[k].id {
            return true;
        }
        j = j + 1;
    }
    false
}

fn is_invalid(tasks: &Vec<Task>, k: usize) -> (r: bool)
    requires
        k < tasks@.len(),
    ensures
        r == task_invalid(tasks@, k as int),
{
    let t = &tasks[k];
    match (t.start, t.end) {
        (Some(s), Some(e)) => s > e || t.progress > 100 || has_duplicate(tasks, k),
        _ => true,
    }
}

/// Whether `task` names `id` among its dependencies.
pub fn lists_dependency(task: &Task, id: &String) -> (r: bool)
    ensures
        r == depends_on(*task, id@),
{
    let mut m: usize = 0;
    while m < task.dependencies.len()
        invariant
            m <= task.dependencies@.len(),
            forall|i: int| 0 <= i < m ==> (#[trigger] task.dependencies@[i])@ != id@,
        decreases task.dependencies@.len() - m,
    {
        if task.dependencies[m] == *id {
            return true;
        }
        m = m + 1;
    }
    false
}

fn is_dangling(tasks: &Vec<Task>, k: usize) -> (r: bool)
    requires
        k < tasks@.len(),
    ensures
        r == task_dangling(tasks@, k as int),
{
    let t = &tasks[k];
    match &t.project {
        Some(p) => {
            if !id_present(tasks, p) {
                return true;
            }
        },
        None => {},
    }
    let mut m: usize = 0;
    while m < t.dependencies.len()
        invariant
            k < tasks@.len(),
            *t == tasks@[k as int],
            m <= t.dependencies@.len(),
            !(t.project is Some && !has_id(tasks@, t.project.unwrap()@)),
            forall|i: int| 0 <= i < m ==> has_id(tasks@, (#[trigger] t.dependencies@[i])@),
        decreases t.dependencies@.len() - m,
    {
        if !id_present(tasks, &t.dependencies[m]) {
            return true;
        }
        m = m + 1;
    }
    false
}

/// Ids, in list order, of the invalid tasks.
pub fn collect_invalid(tasks: &Vec<Task>) -> (r: Vec<String>)
    ensures
        r@.map_values(|s: String| s@) == invalid_ids(tasks@, tasks@.len() as int),
{
    let mut out: Vec<String> = Vec::new();
    let mut k: usize = 0;
    while k < tasks.len()
        invariant
            k <= tasks@.len(),
            out@.map_values(|s: String| s@) == invalid_ids(tasks@, k as int),
        decreases tasks@.len() - k,
    {
        if is_invalid(tasks, k) {
            let id = tasks[k].id.clone();
            let ghost before = out@;
            out.push(id);
            assert(out@.map_values(|s: String| s@) =~= before.map_values(|s: String| s@).push(
                id@,
            ));
        }
        k = k + 1;
    }
    out
}

/// Ids, in list order, of the tasks with a dangling reference.
pub fn collect_dangling(tasks: &Vec<Task>) -> (r: Vec<String>)
    ensures
        r@.map_values(|s: String| s@) == dangling_ids(tasks@, tasks@.len() as int),
{
    let mut out: Vec<String> = Vec::new();
    let mut k: usize = 0;
    while k < tasks.len()
        invariant
            k <= tasks@.len(),
            out@.map_values(|s: String| s@) == dangling_ids(tasks@, k as int),
        decreases tasks@.len() - k,
    {
        if is_dangling(tasks, k) {
            let id = tasks[k].id.clone();
            let ghost before = out@;
            out.push(id);
            assert(out@.map_values(|s: String| s@) =~= before.map_values(|s: String| s@).push(
                id@,
            ));
        }
        k = k + 1;
    }
    out
}

/// Positions, in list order, of the tasks that depend on task `k`.
pub fn dependents(tasks: &Vec<Task>, k: usize) -> (r: Vec<usize>)
    requires
        k < tasks@.len(),
    ensures
        r@ == dependents_of(tasks@, k as int),
{
    let mut out: Vec<usize> = Vec::new();
    let mut j: usize = 0;
    while j < tasks.len()
        invariant
            k < tasks@.len(),
            j <= tasks@.len(),
            out@ == dependents_upto(tasks@, k as int, j as int),
        decreases tasks@.len() - j,
    {
        if lists_dependency(&tasks[j], &tasks[k].id) {
            out.push(j);
        }
        j = j + 1;
    }
    out
}

/// Positions, in list order, of the tasks that project `k` contains; empty
/// when task `k` is not a project.
pub fn children(tasks: &Vec<Task>, k: usize) -> (r: Vec<usize>)
    requires
        k < tasks@.len(),
    ensures
        r@ == children_of(tasks@, k as int),
{
    let mut out: Vec<usize> = Vec::new();
    let mut j: usize = 0;
    let is_project = match tasks[k].type_ {
        TaskType::Project => true,
        _ => false,
    };
    while j < tasks.len()
        invariant
            k < tasks@.len(),
            j <= tasks@.len(),
            is_project == (tasks@[k as int].type_ == TaskType::Project),
            out@ == children_upto(tasks@, k as int, j as int),
        decreases tasks@.len() - j,
    {
        if is_project {
            match &tasks[j].project {
                Some(p) => {
                    if *p == tasks[k].id {
                        out.push(j);
                    }
                },
                None => {},
            }
        }
        j = j + 1;
    }
    out
}

} // verus!

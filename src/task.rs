//! Task definitions, their field-wise extension and the merge of task maps.
use vstd::prelude::*;
use crate::env::{
    clone_env, env_view, find_key, has_key, key_index, keys_distinct, lemma_entries_view,
    lemma_key_index, EnvMap, EnvVal,
};
use vstd::string::*;

verus! {

/// Marker entry holding the absolute path of the file that declared a task.
pub const INITIAL_MAKEFILE: &'static str = "CARGO_MAKE_CURRENT_TASK_INITIAL_MAKEFILE";

/// Marker entry holding the directory of the file that declared a task.
pub const INITIAL_MAKEFILE_DIRECTORY: &'static str =
    "CARGO_MAKE_CURRENT_TASK_INITIAL_MAKEFILE_DIRECTORY";

/// A named unit of work; every field is optional.
#[derive(Debug, PartialEq)]
pub struct Task {
    pub description: Option<String>,
    pub category: Option<String>,
    pub command: Option<String>,
    pub args: Option<Vec<String>>,
    pub dependencies: Option<Vec<String>>,
    pub private: Option<bool>,
    pub disabled: Option<bool>,
    pub env: Option<EnvMap>,
}

/// Tasks by name, in insertion order.
pub type TaskMap = Vec<(String, Task)>;

/// The mathematical form of a [`Task`].
pub struct TaskView {
    pub description: Option<Seq<char>>,
    pub category: Option<Seq<char>>,
    pub command: Option<Seq<char>>,
    pub args: Option<Seq<Seq<char>>>,
    pub dependencies: Option<Seq<Seq<char>>>,
    pub private: Option<bool>,
    pub disabled: Option<bool>,
    pub env: Option<Seq<(Seq<char>, EnvVal)>>,
}

pub open spec fn opt_str_view(o: Option<String>) -> Option<Seq<char>> {
    match o {
        Some(s) => Some(s@),
        None => None,
    }
}

pub open spec fn strs_view(v: Vec<String>) -> Seq<Seq<char>> {
    v@.map_values(|s: String| s@)
}

pub open spec fn opt_strs_view(o: Option<Vec<String>>) -> Option<Seq<Seq<char>>> {
    match o {
        Some(v) => Some(strs_view(v)),
        None => None,
    }
}

pub open spec fn opt_env_view(o: Option<EnvMap>) -> Option<Seq<(Seq<char>, EnvVal)>> {
    match o {
        Some(m) => Some(env_view(m)),
        None => None,
    }
}

pub open spec fn task_view(t: Task) -> TaskView {
    TaskView {
        description: opt_str_view(t.description),
        category: opt_str_view(t.category),
        command: opt_str_view(t.command),
        args: opt_strs_view(t.args),
        dependencies: opt_strs_view(t.dependencies),
        private: t.private,
        disabled: t.disabled,
        env: opt_env_view(t.env),
    }
}

pub open spec fn tasks_view(m: TaskMap) -> Seq<(Seq<char>, TaskView)> {
    m@.map_values(|e: (String, Task)| (e.0@, task_view(e.1)))
}

/// `b`'s value where it has one, else `a`'s.
pub open spec fn pick<T>(a: Option<T>, b: Option<T>) -> Option<T> {
    match b {
        Some(_) => b,
        None => a,
    }
}

/// Field-wise extension: every field that `b` sets replaces `a`'s.
pub open spec fn extend_spec(a: TaskView, b: TaskView) -> TaskView {
    TaskView {
        description: pick(a.description, b.description),
        category: pick(a.category, b.category),
        command: pick(a.command, b.command),
        args: pick(a.args, b.args),
        dependencies: pick(a.dependencies, b.dependencies),
        private: pick(a.private, b.private),
        disabled: pick(a.disabled, b.disabled),
        env: pick(a.env, b.env),
    }
}

/// Whether an environment holds exactly the two location markers.
pub open spec fn markers_only(env: Seq<(Seq<char>, EnvVal)>) -> bool {
    env.len() == 2 && has_key(env, INITIAL_MAKEFILE@) && has_key(env, INITIAL_MAKEFILE_DIRECTORY@)
}

/// The task stored under a name that both maps hold: the base task
/// extended by the other, except that with `revert_env`, where the base
/// environment is not empty and the extended one holds only the two
/// location markers, the base environment is kept.
pub open spec fn merged_task(base: TaskView, extended: TaskView, revert_env: bool) -> TaskView {
    let t = extend_spec(base, extended);
    if revert_env && base.env.is_some() && base.env.unwrap().len() > 0 && extended.env.is_some()
        && markers_only(extended.env.unwrap()) {
        TaskView { env: base.env, ..t }
    } else {
        t
    }
}

/// `m` with `k` set to `v`: in place where `k` is present, else appended.
pub open spec fn put<V>(m: Seq<(Seq<char>, V)>, k: Seq<char>, v: V) -> Seq<(Seq<char>, V)> {
    let i = key_index(m, k);
    if i >= 0 {
        m.update(i, (k, v))
    } else {
        m.push((k, v))
    }
}

/// Merge of the extended tasks over the base tasks.
pub open spec fn merge_tasks_spec(
    base: Seq<(Seq<char>, TaskView)>,
    extended: Seq<(Seq<char>, TaskView)>,
    revert_env: bool,
) -> Seq<(Seq<char>, TaskView)>
    decreases extended.len(),
{
    if extended.len() == 0 {
        base
    } else {
        let m = merge_tasks_spec(base, extended.drop_last(), revert_env);
        let (k, t) = extended.last();
        let bi = key_index(base, k);
        put(m, k, if bi >= 0 { merged_task(base[bi].1, t, revert_env) } else { t })
    }
}

/// A copy of an optional text.
pub fn clone_opt_str(o: &Option<String>) -> (r: Option<String>)
    ensures
        opt_str_view(r) == opt_str_view(*o),
{
    match o {
        Some(s) => Some(s.clone()),
        None => None,
    }
}

/// A copy of a list of texts.
pub fn clone_strs(v: &Vec<String>) -> (r: Vec<String>)
    ensures
        r@ == v@,
{
    let mut r: Vec<String> = Vec::new();
    let mut i: usize = 0;
    while i < v.len()
        invariant
            i <= v.len(),
            r@ == v@.subrange(0, i as int),
        decreases v.len() - i,
    {
        r.push(v[i].clone());
        i = i + 1;
        assert(r@ =~= v@.subrange(0, i as int));
    }
    assert(v@.subrange(0, v.len() as int) =~= v@);
    r
}

pub fn clone_opt_strs(o: &Option<Vec<String>>) -> (r: Option<Vec<String>>)
    ensures
        opt_strs_view(r) == opt_strs_view(*o),
        r.is_some() == o.is_some(),
        r.is_some() ==> r.unwrap()@ == o.unwrap()@,
{
    match o {
        Some(v) => Some(clone_strs(v)),
        None => None,
    }
}

pub fn clone_opt_env(o: &Option<EnvMap>) -> (r: Option<EnvMap>)
    ensures
        opt_env_view(r) == opt_env_view(*o),
{
    match o {
        Some(m) => Some(clone_env(m)),
        None => None,
    }
}

impl Task {
    /// A task with no field set.
    pub fn new() -> (r: Task)
        ensures
            task_view(r) == empty_task(),
    {
        Task {
            description: None,
            category: None,
            command: None,
            args: None,
            dependencies: None,
            private: None,
            disabled: None,
            env: None,
        }
    }

    /// A deep copy.
    pub fn duplicate(&self) -> (r: Task)
        ensures
            task_view(r) == task_view(*self),
    {
        Task {
            description: clone_opt_str(&self.description),
            category: clone_opt_str(&self.category),
            command: clone_opt_str(&self.command),
            args: clone_opt_strs(&self.args),
            dependencies: clone_opt_strs(&self.dependencies),
            private: self.private,
            disabled: self.disabled,
            env: clone_opt_env(&self.env),
        }
    }

    /// Overrides every field that `task` sets.
    pub fn extend(&mut self, task: &Task)
        ensures
            task_view(*final(self)) == extend_spec(task_view(*old(self)), task_view(*task)),
    {
        if task.description.is_some() {
            self.description = clone_opt_str(&task.description);
        }
        if task.category.is_some() {
            self.category = clone_opt_str(&task.category);
        }
        if task.command.is_some() {
            self.command = clone_opt_str(&task.command);
        }
        if task.args.is_some() {
            self.args = clone_opt_strs(&task.args);
        }
        if task.dependencies.is_some() {
            self.dependencies = clone_opt_strs(&task.dependencies);
        }
        if task.private.is_some() {
            self.private = task.private;
        }
        if task.disabled.is_some() {
            self.disabled = task.disabled;
        }
        if task.env.is_some() {
            self.env = clone_opt_env(&task.env);
        }
    }
}

pub open spec fn empty_task() -> TaskView {
    TaskView {
        description: None,
        category: None,
        command: None,
        args: None,
        dependencies: None,
        private: None,
        disabled: None,
        env: None,
    }
}

/// Whether `m` holds an entry under `k`.
pub fn env_has_key(m: &EnvMap, k: &str) -> (r: bool)
    ensures
        r == has_key(env_view(*m), k@),
{
    let key = String::from_str(k);
    let found = find_key(m, &key);
    proof {
        lemma_key_index(env_view(*m), k@);
        if has_key(env_view(*m), k@) {
            let j = choose|j: int| 0 <= j < env_view(*m).len() && env_view(*m)[j].0 == k@;
            assert(key_index(env_view(*m), k@) >= 0);
        }
    }
    found.is_some()
}

/// Whether an environment holds exactly the two location markers.
pub fn is_markers_only(env: &EnvMap) -> (r: bool)
    ensures
        r == markers_only(env_view(*env)),
{
    proof {
        lemma_entries_view(env@);
    }
    env.len() == 2 && env_has_key(env, INITIAL_MAKEFILE) && env_has_key(
        env,
        INITIAL_MAKEFILE_DIRECTORY,
    )
}

/// Position of the first task under `k`.
pub fn find_task(m: &TaskMap, k: &String) -> (r: Option<usize>)
    ensures
        match r {
            Some(j) => j < m.len() && j as int == key_index(tasks_view(*m), k@),
            None => key_index(tasks_view(*m), k@) == -1,
        },
{
    proof {
        lemma_key_index(tasks_view(*m), k@);
    }
    let mut i: usize = 0;
    while i < m.len()
        invariant
            i <= m.len(),
            forall|j: int| 0 <= j < i ==> (#[trigger] m@[j]).0@ != k@,
            -1 <= key_index(tasks_view(*m), k@) < m.len(),
            key_index(tasks_view(*m), k@) >= 0 ==> tasks_view(*m)[key_index(tasks_view(*m), k@)].0 == k@,
            forall|j: int| 0 <= j < m.len() && (#[trigger] tasks_view(*m)[j]).0 == k@ ==> key_index(tasks_view(*m), k@) >= 0 && key_index(tasks_view(*m), k@) <= j,
        decreases m.len() - i,
    {
        if m[i].0 == *k {
            assert(tasks_view(*m)[i as int].0 == k@);
            return Some(i);
        }
        i = i + 1;
    }
    proof {
        if key_index(tasks_view(*m), k@) >= 0 {
            let j = key_index(tasks_view(*m), k@);
            assert(m@[j].0@ == k@);
        }
    }
    None
}

/// A deep copy of a task map.
pub fn clone_tasks(m: &TaskMap) -> (r: TaskMap)
    ensures
        tasks_view(r) == tasks_view(*m),
{
    let mut r: TaskMap = Vec::new();
    let mut i: usize = 0;
    while i < m.len()
        invariant
            i <= m.len(),
            r@.len() == i,
            tasks_view(r) == tasks_view(*m).subrange(0, i as int),
        decreases m.len() - i,
    {
        let ghost r0 = r;
        let k = m[i].0.clone();
        let t = m[i].1.duplicate();
        r.push((k, t));
        proof {
            assert(r@ == r0@.push((k, t)));
            assert forall|j: int| 0 <= j < i + 1 implies tasks_view(r)[j] == tasks_view(*m)[j] by {
                if j < i {
                    assert(tasks_view(r)[j] == tasks_view(r0)[j]);
                }
            }
        }
        i = i + 1;
        assert(tasks_view(r) =~= tasks_view(*m).subrange(0, i as int));
    }
    assert(tasks_view(*m).subrange(0, m.len() as int) =~= tasks_view(*m));
    r
}

/// Merges the extended tasks over the base tasks. A name held by both gets
/// the base task extended by the other; with `merge_task_env`, an extended
/// environment made of the two location markers alone gives way to the
/// base task's environment.
pub fn merge_tasks(base: &TaskMap, extended: &TaskMap, merge_task_env: bool) -> (r: TaskMap)
    ensures
        tasks_view(r) == merge_tasks_spec(tasks_view(*base), tasks_view(*extended), merge_task_env),
        keys_distinct(tasks_view(*base)) ==> keys_distinct(tasks_view(r)),
{
    let mut merged = clone_tasks(base);
    let mut i: usize = 0;
    while i < extended.len()
        invariant
            i <= extended.len(),
            tasks_view(merged) == merge_tasks_spec(
                tasks_view(*base),
                tasks_view(*extended).subrange(0, i as int),
                merge_task_env,
            ),
        decreases extended.len() - i,
    {
        let key = &extended[i].0;
        let ext_task = &extended[i].1;
        let task = match find_task(base, key) {
            Some(bi) => {
                let base_task = &base[bi].1;
                let mut mt = Task::new();
                mt.extend(base_task);
                mt.extend(ext_task);
                if merge_task_env {
                    match (&base_task.env, &ext_task.env) {
                        (Some(base_env), Some(ext_env)) => {
                            proof {
                                lemma_entries_view(base_env@);
                            }
                            if base_env.len() > 0 && is_markers_only(ext_env) {
                                mt.env = clone_opt_env(&base_task.env);
                            }
                        },
                        _ => {},
                    }
                }
                mt
            },
            None => ext_task.duplicate(),
        };
        let k2 = key.clone();
        proof {
            let e = tasks_view(*extended);
            assert(e.subrange(0, i + 1).drop_last() =~= e.subrange(0, i as int));
            assert(e.subrange(0, i + 1).last() == e[i as int]);
        }
        match find_task(&merged, key) {
            Some(j) => {
                merged.set(j, (k2, task));
            },
            None => {
                merged.push((k2, task));
            },
        }
        proof {
            let mv = merge_tasks_spec(
                tasks_view(*base),
                tasks_view(*extended).subrange(0, i as int),
                merge_task_env,
            );
            assert(tasks_view(merged) =~= put(mv, key@, task_view(task)));
        }
        i = i + 1;
    }
    assert(tasks_view(*extended).subrange(0, extended.len() as int) =~= tasks_view(*extended));
    proof {
        if keys_distinct(tasks_view(*base)) {
            lemma_merge_tasks_distinct(tasks_view(*base), tasks_view(*extended), merge_task_env);
        }
    }
    merged
}

/// Where an extended task's environment is made of the two location
/// markers alone and the base task's environment is not empty, the
/// reversion rule keeps the base task's environment, and without the rule
/// the markers replace it.
pub proof fn lemma_marker_reversion(base: TaskView, extended: TaskView)
    requires
        base.env is Some,
        base.env.unwrap().len() > 0,
        extended.env is Some,
        markers_only(extended.env.unwrap()),
    ensures
        merged_task(base, extended, true).env == base.env,
        merged_task(base, extended, false).env == extended.env,
{
}

/// A task-map merge keeps the base's names distinct.
pub proof fn lemma_merge_tasks_distinct(
    base: Seq<(Seq<char>, TaskView)>,
    extended: Seq<(Seq<char>, TaskView)>,
    revert_env: bool,
)
    requires
        keys_distinct(base),
    ensures
        keys_distinct(merge_tasks_spec(base, extended, revert_env)),
    decreases extended.len(),
{
    if extended.len() > 0 {
        let m = merge_tasks_spec(base, extended.drop_last(), revert_env);
        lemma_merge_tasks_distinct(base, extended.drop_last(), revert_env);
        lemma_key_index(m, extended.last().0);
    }
}

} // verus!

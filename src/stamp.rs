//! Location stamping: a freshly loaded descriptor learns the file it came from.
use vstd::prelude::*;
use vstd::string::*;
use crate::config::{
    env_file_view, external_view, files_view, or_empty, EnvFile, EnvFileInfo, EnvFileView,
    ExternalConfig, ExternalView,
};
use crate::env::{
    env_view, find_key, lemma_entries_view_push, lemma_entries_view_update, EnvMap, EnvVal,
    EnvValue,
};
use crate::task::{
    put, tasks_view, Task, TaskMap, TaskView, INITIAL_MAKEFILE, INITIAL_MAKEFILE_DIRECTORY,
};

verus! {

/// Index of the last `/` in `p`, or -1.
pub open spec fn last_slash(p: Seq<char>) -> int
    decreases p.len(),
{
    if p.len() == 0 {
        -1
    } else if p.last() == '/' {
        p.len() - 1
    } else {
        last_slash(p.drop_last())
    }
}

/// `p` without trailing separators and trailing `.` components; a lone
/// root stays.
pub open spec fn trim_end(p: Seq<char>) -> Seq<char>
    decreases p.len(),
{
    if p.len() > 1 && p.last() == '/' {
        trim_end(p.drop_last())
    } else if p.len() > 1 && p.last() == '.' && p[p.len() - 2] == '/' {
        trim_end(p.drop_last())
    } else {
        p
    }
}

/// The directory part of a path, as `Path::parent` reads it: trailing
/// separators and `.` components do not count, the last component goes, and
/// the separators before it go with it; the root has none, shown as empty.
pub open spec fn parent_spec(p: Seq<char>) -> Seq<char> {
    let t = trim_end(p);
    let i = last_slash(t);
    if i < 0 || t == seq!['/'] {
        Seq::empty()
    } else {
        trim_end(t.subrange(0, i + 1))
    }
}

proof fn lemma_trim_end_len(p: Seq<char>)
    ensures
        trim_end(p).len() <= p.len(),
        trim_end(p) == p.subrange(0, trim_end(p).len() as int),
        p.len() > 0 ==> trim_end(p).len() > 0,
    decreases p.len(),
{
    if p.len() > 1 && (p.last() == '/' || (p.last() == '.' && p[p.len() - 2] == '/')) {
        lemma_trim_end_len(p.drop_last());
        let t = trim_end(p.drop_last());
        assert(p.drop_last().subrange(0, t.len() as int) =~= p.subrange(0, t.len() as int));
    } else {
        assert(p.subrange(0, p.len() as int) =~= p);
    }
}

/// Length of `trim_end` of the first `n` characters of `p`.
pub fn trimmed_len(p: &str, n: usize) -> (r: usize)
    requires
        n <= p@.len(),
    ensures
        r <= n,
        n > 0 ==> r > 0,
        p@.subrange(0, r as int) == trim_end(p@.subrange(0, n as int)),
{
    let mut k: usize = n;
    proof {
        lemma_trim_end_len(p@.subrange(0, n as int));
    }
    while k > 1 && (p.get_char(k - 1) == '/' || (p.get_char(k - 1) == '.' && p.get_char(k - 2)
        == '/'))
        invariant
            k <= n,
            n <= p@.len(),
            n > 0 ==> k > 0,
            trim_end(p@.subrange(0, k as int)) == trim_end(p@.subrange(0, n as int)),
        decreases k,
    {
        let ghost q = p@.subrange(0, k as int);
        assert(q.drop_last() =~= p@.subrange(0, k - 1));
        k = k - 1;
    }
    proof {
        let q = p@.subrange(0, k as int);
        assert(trim_end(q) == q);
    }
    k
}

pub proof fn lemma_last_slash_from(p: Seq<char>, i: int)
    requires
        -1 <= i < p.len(),
        i >= 0 ==> p[i] == '/',
        forall|j: int| i < j < p.len() ==> p[j] != '/',
    ensures
        last_slash(p) == i,
    decreases p.len(),
{
    if p.len() > 0 && i < p.len() - 1 {
        lemma_last_slash_from(p.drop_last(), i);
    }
}

/// Index just past the last `/` among the first `n` characters of `p`,
/// or 0 where there is none.
pub fn after_last_slash(p: &str, n: usize) -> (r: usize)
    requires
        n <= p@.len(),
    ensures
        r <= n,
        r as int == last_slash(p@.subrange(0, n as int)) + 1,
{
    let mut i: usize = n;
    while i > 0 && p.get_char(i - 1) != '/'
        invariant
            i <= n,
            n <= p@.len(),
            forall|j: int| i <= j < n ==> p@[j] != '/',
        decreases i,
    {
        i = i - 1;
    }
    proof {
        lemma_last_slash_from(p@.subrange(0, n as int), i - 1);
    }
    i
}

/// The directory of a file path.
pub fn parent_directory(path: &str) -> (r: String)
    ensures
        r@ == parent_spec(path@),
{
    let n = path.unicode_len();
    assert(path@.subrange(0, n as int) =~= path@);
    let t = trimmed_len(path, n);
    let i = after_last_slash(path, t);
    proof {
        reveal_strlit("/");
        assert(path@.subrange(0, t as int).subrange(0, i as int) =~= path@.subrange(0, i as int));
    }
    if i == 0 || (t == 1 && path.get_char(0) == '/') {
        if t == 1 && path.get_char(0) == '/' {
            assert(path@.subrange(0, t as int) =~= seq!['/']);
        }
        return String::new();
    }
    if t == 1 {
        assert(path@.subrange(0, t as int) != seq!['/']);
    } else {
        assert(path@.subrange(0, t as int).len() != 1);
    }
    let k = trimmed_len(path, i);
    String::from_str(path.substring_char(0, k))
}

/// `f` with its base directory set to `dir` where it has none.
pub open spec fn stamp_file(f: EnvFileView, dir: Seq<char>) -> EnvFileView {
    match f {
        EnvFileView::Path(p) => EnvFileView::Info { path: p, base_path: Some(dir), profile: None },
        EnvFileView::Info { path, base_path, profile } => EnvFileView::Info {
            path,
            base_path: if base_path.is_some() {
                base_path
            } else {
                Some(dir)
            },
            profile,
        },
    }
}

/// A raw configuration stamped with the file at `file`.
pub open spec fn stamp_spec(c: ExternalView, file: Seq<char>) -> ExternalView {
    let dir = parent_spec(file);
    ExternalView {
        env_files: match c.env_files {
            Some(v) => Some(v.map_values(|f: EnvFileView| stamp_file(f, dir))),
            None => None,
        },
        tasks: match c.tasks {
            Some(m) => Some(stamp_tasks(m, file, dir)),
            None => None,
        },
        ..c
    }
}

/// A task whose environment carries the two location markers.
pub open spec fn stamp_task(t: TaskView, file: Seq<char>, dir: Seq<char>) -> TaskView {
    TaskView {
        env: Some(
            put(
                put(or_empty(t.env), INITIAL_MAKEFILE@, EnvVal::Value(file)),
                INITIAL_MAKEFILE_DIRECTORY@,
                EnvVal::Value(dir),
            ),
        ),
        ..t
    }
}

pub open spec fn stamp_tasks(m: Seq<(Seq<char>, TaskView)>, file: Seq<char>, dir: Seq<char>) -> Seq<
    (Seq<char>, TaskView),
> {
    m.map_values(|e: (Seq<char>, TaskView)| (e.0, stamp_task(e.1, file, dir)))
}

/// Sets `k` to the plain value `v`: in place where present, else appended.
pub fn put_value(m: &mut EnvMap, k: &str, v: &str)
    ensures
        env_view(*final(m)) == put(env_view(*old(m)), k@, EnvVal::Value(v@)),
{
    let key = String::from_str(k);
    let value = EnvValue::Value(String::from_str(v));
    match find_key(m, &key) {
        Some(j) => {
            proof {
                lemma_entries_view_update(m@, j as int, (key, value));
            }
            m.set(j, (key, value));
        },
        None => {
            proof {
                lemma_entries_view_push(m@, (key, value));
            }
            m.push((key, value));
        },
    }
}

pub fn stamp_env_file(f: EnvFile, dir: &String) -> (r: EnvFile)
    ensures
        env_file_view(r) == stamp_file(env_file_view(f), dir@),
{
    match f {
        EnvFile::Path(path) => EnvFile::Info(
            EnvFileInfo { path, base_path: Some(dir.clone()), profile: None },
        ),
        EnvFile::Info(info) => {
            if info.base_path.is_some() {
                EnvFile::Info(info)
            } else {
                EnvFile::Info(
                    EnvFileInfo {
                        path: info.path,
                        base_path: Some(dir.clone()),
                        profile: info.profile,
                    },
                )
            }
        },
    }
}

pub fn stamp_task_env(t: Task, file_path: &str, dir: &String) -> (r: Task)
    ensures
        crate::task::task_view(r) == stamp_task(crate::task::task_view(t), file_path@, dir@),
{
    let mut t = t;
    let mut env: EnvMap = match t.env {
        Some(e) => e,
        None => {
            let e: EnvMap = Vec::new();
            assert(env_view(e) =~= Seq::empty());
            e
        },
    };
    put_value(&mut env, INITIAL_MAKEFILE, file_path);
    put_value(&mut env, INITIAL_MAKEFILE_DIRECTORY, dir.as_str());
    t.env = Some(env);
    t
}

/// Records the file a descriptor came from: every env file reference gets
/// the file's directory as its base where it has none, and every task gets
/// the two location markers in its environment.
pub fn add_file_location_info(external_config: ExternalConfig, file_path_string: &str) -> (r:
    ExternalConfig)
    ensures
        r.extend == external_config.extend,
        external_view(r) == stamp_spec(external_view(external_config), file_path_string@),
{
    let base_directory = parent_directory(file_path_string);
    let ExternalConfig { extend, config, env_files, env, env_scripts, tasks } = external_config;
    let env_files = match env_files {
        Some(files) => {
            let mut out: Vec<EnvFile> = Vec::new();
            let mut files = files;
            let ghost orig_vec = files;
            let ghost orig = files@;
            let mut taken: Vec<EnvFile> = Vec::new();
            while files.len() > 0
                invariant
                    out@.len() + files@.len() == orig.len(),
                    files@ == orig.subrange(out@.len() as int, orig.len() as int),
                    forall|i: int|
                        0 <= i < out@.len() ==> env_file_view(#[trigger] out@[i]) == stamp_file(
                            env_file_view(orig[i]),
                            base_directory@,
                        ),
                decreases files.len(),
            {
                let f = files.remove(0);
                let ghost k = out@.len() as int;
                assert(f == orig[k]);
                out.push(stamp_env_file(f, &base_directory));
            }
            assert(files_view(out) =~= files_view(orig_vec).map_values(
                |f: EnvFileView| stamp_file(f, base_directory@),
            ));
            Some(out)
        },
        None => None,
    };
    let tasks = match tasks {
        Some(m) => {
            let mut out: TaskMap = Vec::new();
            let mut m = m;
            let ghost orig = tasks_view(m);
            let ghost target = stamp_tasks(orig, file_path_string@, base_directory@);
            while m.len() > 0
                invariant
                    out@.len() + m@.len() == orig.len(),
                    tasks_view(m) == orig.subrange(out@.len() as int, orig.len() as int),
                    tasks_view(out) == target.subrange(0, out@.len() as int),
                    target.len() == orig.len(),
                    target == stamp_tasks(orig, file_path_string@, base_directory@),
                decreases m.len(),
            {
                let ghost m0 = m;
                let (name, task) = m.remove(0);
                let ghost k = out@.len() as int;
                assert(tasks_view(m0)[0] == orig[k]);
                assert(m@ == m0@.remove(0));
                assert forall|j: int| 0 <= j < m@.len() implies tasks_view(m)[j] == tasks_view(m0)[j + 1] by {
                    assert(m@[j] == m0@[j + 1]);
                }
                assert(tasks_view(m) =~= orig.subrange(k + 1, orig.len() as int));
                let stamped = stamp_task_env(task, file_path_string, &base_directory);
                let ghost out0 = out;
                out.push((name, stamped));
                assert(tasks_view(out) =~= target.subrange(0, k + 1)) by {
                    assert(out@ == out0@.push((name, stamped)));
                    assert forall|j: int| 0 <= j < k implies tasks_view(out)[j] == tasks_view(out0)[j] by {}
                }
            }
            assert(tasks_view(out) =~= target);
            Some(out)
        },
        None => None,
    };
    ExternalConfig { extend, config, env_files, env, env_scripts, tasks }
}

} // verus!

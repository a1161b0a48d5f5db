//! The bundled baseline, the final merge with command-line overrides, and the
//! two-pass top-level load.
use vstd::prelude::*;
use vstd::string::*;
use crate::config::{
    clone_files, clone_opt_modify, combine_spec, config_view, empty_section, extend_section,
    external_view,
    merge_external_configs, opt_text, or_empty, section_or_empty, Config, ConfigSection,
    ConfigView, ExternalConfig, ExternalView, ModifyConfig,
};
use crate::env::{
    env_get, is_reserved, key_index, keys_distinct, lemma_key_index, lemma_merge_env_sets,
    env_view, find_key, lemma_entries_view_push, lemma_entries_view_update, merge_env,
    merge_env_spec, EnvMap, EnvVal, EnvValue,
};
use crate::resolve::{
    error_view, file_index, find_file, join_path, join_spec, load_external_descriptor,
    matches_outcome, resolve_file, texts, Outcome, DescriptorFile, LoadError, LoadErrorView,
};
use crate::stamp::{after_last_slash, last_slash, parent_directory, parent_spec, trim_end, trimmed_len};
use crate::task::{
    clone_strs, clone_tasks, merge_tasks, merge_tasks_spec, put, tasks_view, TaskMap, TaskView,
};

verus! {

/// Whether `e` holds exactly one `=`.
pub open spec fn single_eq(e: Seq<char>) -> bool {
    exists|i: int|
        0 <= i < e.len() && e[i] == '=' && forall|j: int| 0 <= j < e.len() && j != i ==> e[j] != '='
}

/// Position of the first `=` in `e`, or -1.
pub open spec fn eq_index(e: Seq<char>) -> int
    decreases e.len(),
{
    if e.len() == 0 {
        -1
    } else {
        let r = eq_index(e.drop_last());
        if r >= 0 {
            r
        } else if e.last() == '=' {
            e.len() - 1
        } else {
            -1
        }
    }
}

/// The mapping that `KEY=VALUE` entries give: each entry with exactly one
/// `=` sets its key, a later one replacing an earlier in place; the others
/// are dropped.
pub open spec fn cli_env_spec(entries: Seq<Seq<char>>) -> Seq<(Seq<char>, EnvVal)>
    decreases entries.len(),
{
    if entries.len() == 0 {
        Seq::empty()
    } else {
        let m = cli_env_spec(entries.drop_last());
        let e = entries.last();
        if single_eq(e) {
            let i = eq_index(e);
            put(m, e.subrange(0, i), EnvVal::Value(e.subrange(i + 1, e.len() as int)))
        } else {
            m
        }
    }
}

proof fn lemma_eq_index(e: Seq<char>)
    ensures
        -1 <= eq_index(e) < e.len(),
        eq_index(e) >= 0 ==> e[eq_index(e)] == '=',
        forall|j: int| 0 <= j < e.len() && e[j] == '=' ==> eq_index(e) >= 0 && eq_index(e) <= j,
    decreases e.len(),
{
    if e.len() > 0 {
        lemma_eq_index(e.drop_last());
        assert forall|j: int| 0 <= j < e.len() - 1 implies e.drop_last()[j] == e[j] by {}
    }
}

/// Splits an entry at its only `=`; `None` where it has none or several.
pub fn split_pair(e: &str) -> (r: Option<(String, String)>)
    ensures
        match r {
            Some((k, v)) => single_eq(e@) && k@ == e@.subrange(0, eq_index(e@)) && v@
                == e@.subrange(eq_index(e@) + 1, e@.len() as int),
            None => !single_eq(e@),
        },
{
    let n = e.unicode_len();
    let mut count: usize = 0;
    let mut first: usize = 0;
    let mut i: usize = 0;
    proof {
        lemma_eq_index(e@);
    }
    while i < n
        invariant
            i <= n,
            n == e@.len(),
            count <= i,
            count == 0 ==> forall|j: int| 0 <= j < i ==> e@[j] != '=',
            count >= 1 ==> first < i && e@[first as int] == '=' && forall|j: int|
                0 <= j < first ==> e@[j] != '=',
            count == 1 ==> forall|j: int| 0 <= j < i && j != first ==> e@[j] != '=',
            count >= 2 ==> exists|j: int| 0 <= j < i && j != first && e@[j] == '=',
        decreases n - i,
    {
        if e.get_char(i) == '=' {
            if count == 0 {
                first = i;
            }
            if count < 2 {
                count = count + 1;
            }
        }
        i = i + 1;
    }
    if count != 1 {
        return None;
    }
    proof {
        assert(eq_index(e@) == first);
    }
    let k = String::from_str(e.substring_char(0, first));
    let v = String::from_str(e.substring_char(first + 1, n));
    Some((k, v))
}

/// The mapping that command-line `KEY=VALUE` entries give.
pub fn parse_cli_env(values: &Vec<String>) -> (r: EnvMap)
    ensures
        env_view(r) == cli_env_spec(texts(values@)),
{
    let mut cli_env: EnvMap = Vec::new();
    let mut i: usize = 0;
    assert(env_view(cli_env) =~= Seq::empty());
    while i < values.len()
        invariant
            i <= values.len(),
            env_view(cli_env) == cli_env_spec(texts(values@.subrange(0, i as int))),
        decreases values.len() - i,
    {
        proof {
            assert(texts(values@.subrange(0, i + 1)).drop_last() =~= texts(
                values@.subrange(0, i as int),
            ));
            assert(texts(values@.subrange(0, i + 1)).last() == values@[i as int]@);
        }
        match split_pair(values[i].as_str()) {
            Some((k, v)) => {
                let value = EnvValue::Value(v);
                match find_key(&cli_env, &k) {
                    Some(j) => {
                        proof {
                            lemma_entries_view_update(cli_env@, j as int, (k, value));
                        }
                        cli_env.set(j, (k, value));
                    },
                    None => {
                        proof {
                            lemma_entries_view_push(cli_env@, (k, value));
                        }
                        cli_env.push((k, value));
                    },
                }
            },
            None => {},
        }
        i = i + 1;
    }
    assert(values@.subrange(0, values.len() as int) =~= values@);
    cli_env
}

/// The final merge of a resolved external configuration over a baseline:
/// environments merge with the external side winning and the command-line
/// entries winning over both, tasks merge with the given reversion rule,
/// config fields override, and the lists come from the external side alone.
pub open spec fn finalize_spec(
    base: ConfigView,
    external: ExternalView,
    cli: Option<Seq<Seq<char>>>,
    late_merge: bool,
) -> ConfigView {
    let env = merge_env_spec(base.env, or_empty(external.env));
    ConfigView {
        config: extend_section(base.config, section_or_empty(external.config)),
        env_files: or_empty(external.env_files),
        env: match cli {
            Some(c) => merge_env_spec(env, cli_env_spec(c)),
            None => env,
        },
        env_scripts: or_empty(external.env_scripts),
        tasks: merge_tasks_spec(base.tasks, or_empty(external.tasks), late_merge),
    }
}

pub open spec fn opt_texts(o: Option<Vec<String>>) -> Option<Seq<Seq<char>>> {
    match o {
        Some(v) => Some(texts(v@)),
        None => None,
    }
}

/// Composes a baseline and a resolved external configuration, with
/// command-line `KEY=VALUE` overrides on top.
pub fn merge_base_config_and_external_config(
    base_config: Config,
    external_config: ExternalConfig,
    env_map: &Option<Vec<String>>,
    late_merge: bool,
) -> (r: Config)
    ensures
        config_view(r) == finalize_spec(
            config_view(base_config),
            external_view(external_config),
            opt_texts(*env_map),
            late_merge,
        ),
{
    let external_tasks = crate::config::tasks_or_empty(external_config.tasks);
    let env_files = crate::config::files_or_empty(external_config.env_files);
    let env_scripts = crate::config::strings_or_empty(external_config.env_scripts);
    let external_env = crate::config::env_or_empty(external_config.env);
    let mut all_env = merge_env(&base_config.env, &external_env);
    match env_map {
        Some(values) => {
            let cli_env = parse_cli_env(values);
            all_env = merge_env(&all_env, &cli_env);
        },
        None => {},
    }
    let all_tasks = merge_tasks(&base_config.tasks, &external_tasks, late_merge);
    let mut config_section = base_config.config;
    match external_config.config {
        Some(section) => config_section.extend(&section),
        None => config_section.extend(&ConfigSection::new()),
    }
    Config { config: config_section, env_files, env: all_env, env_scripts, tasks: all_tasks }
}

/// A task name under a namespace: `namespace::name`, or the name itself
/// where the namespace is empty.
pub open spec fn namespaced_spec(namespace: Seq<char>, name: Seq<char>) -> Seq<char> {
    if namespace.len() > 0 {
        namespace + seq![':', ':'] + name
    } else {
        name
    }
}

pub fn namespaced_name(namespace: &str, name: &str) -> (r: String)
    ensures
        r@ == namespaced_spec(namespace@, name@),
{
    if namespace.unicode_len() > 0 {
        let sep = String::from_str(namespace).concat("::");
        proof {
            reveal_strlit("::");
        }
        assert(sep@ == namespace@ + seq![':', ':']);
        sep.concat(name)
    } else {
        String::from_str(name)
    }
}

/// Whether a modification directive changes anything.
pub open spec fn modifies_spec(m: ModifyConfig) -> bool {
    m.private == Some(true) || (m.namespace is Some && m.namespace.unwrap()@.len() > 0)
}

impl ModifyConfig {
    pub fn is_modifications_defined(&self) -> (r: bool)
        ensures
            r == modifies_spec(*self),
    {
        let private = match self.private {
            Some(p) => p,
            None => false,
        };
        if private {
            true
        } else {
            match &self.namespace {
                Some(ns) => ns.as_str().unicode_len() > 0,
                None => false,
            }
        }
    }

    /// The prefix that namespaced task names carry.
    pub fn get_namespace_prefix(&self) -> (r: String)
        ensures
            r@ == match self.namespace {
                Some(ns) => namespaced_spec(ns@, Seq::empty()),
                None => Seq::empty(),
            },
    {
        proof {
            reveal_strlit("");
        }
        match &self.namespace {
            Some(ns) => namespaced_name(ns.as_str(), ""),
            None => String::new(),
        }
    }
}

/// The tasks of a baseline under a modification directive: renamed into
/// its namespace, and made private where it asks for that.
pub open spec fn apply_spec(tasks: Seq<(Seq<char>, TaskView)>, m: ModifyConfig) -> Seq<
    (Seq<char>, TaskView),
> {
    let ns = match m.namespace {
        Some(n) => n@,
        None => Seq::empty(),
    };
    tasks.map_values(
        |e: (Seq<char>, TaskView)|
            (
                namespaced_spec(ns, e.0),
                if m.private == Some(true) {
                    TaskView { private: Some(true), ..e.1 }
                } else {
                    e.1
                },
            ),
    )
}

/// Applies a modification directive to a task map.
pub fn apply_modify(tasks: TaskMap, modify_config: &ModifyConfig) -> (r: TaskMap)
    ensures
        tasks_view(r) == apply_spec(tasks_view(tasks), *modify_config),
{
    let private = match modify_config.private {
        Some(p) => p,
        None => false,
    };
    let empty = String::new();
    let namespace = match &modify_config.namespace {
        Some(n) => n,
        None => &empty,
    };
    let ghost target = apply_spec(tasks_view(tasks), *modify_config);
    let mut out: TaskMap = Vec::new();
    let mut m = tasks;
    let ghost orig = tasks_view(m);
    while m.len() > 0
        invariant
            out@.len() + m@.len() == orig.len(),
            tasks_view(m) == orig.subrange(out@.len() as int, orig.len() as int),
            tasks_view(out) == target.subrange(0, out@.len() as int),
            target.len() == orig.len(),
            target == apply_spec(orig, *modify_config),
            namespace@ == match modify_config.namespace {
                Some(n) => n@,
                None => Seq::<char>::empty(),
            },
            private == (modify_config.private == Some(true)),
        decreases m.len(),
    {
        let ghost m0 = m;
        let (name, task) = m.remove(0);
        let ghost k = out@.len() as int;
        assert(tasks_view(m0)[0] == orig[k]);
        assert(m@ == m0@.remove(0));
        assert forall|j: int| 0 <= j < m@.len() implies tasks_view(m)[j] == tasks_view(m0)[j + 1] by {
            assert(m@[j] == m0@[j + 1]);
        }
        assert(tasks_view(m) =~= orig.subrange(k + 1, orig.len() as int));
        let mut task = task;
        if private {
            task.private = Some(true);
        }
        let new_name = namespaced_name(namespace.as_str(), name.as_str());
        let ghost out0 = out;
        out.push((new_name, task));
        assert(tasks_view(out) =~= target.subrange(0, k + 1)) by {
            assert(out@ == out0@.push((new_name, task)));
            assert forall|j: int| 0 <= j < k implies tasks_view(out)[j] == tasks_view(out0)[j] by {}
        }
    }
    assert(tasks_view(out) =~= target);
    out
}

/// The bundled baseline tiers, decoded.
#[derive(Debug, PartialEq)]
pub struct Baseline {
    pub base: Config,
    pub stable: Config,
    pub beta: Config,
}

/// A baseline as loaded, with the core-task namespace and its prefix that
/// it publishes.
#[derive(Debug, PartialEq)]
pub struct CoreTasks {
    pub config: Config,
    pub namespace: String,
    pub namespace_prefix: String,
}

pub open spec fn ns_of(m: Option<ModifyConfig>) -> (Seq<char>, Seq<char>) {
    match m {
        Some(x) => match x.namespace {
            Some(n) => (n@, namespaced_spec(n@, Seq::empty())),
            None => (Seq::empty(), Seq::empty()),
        },
        None => (Seq::empty(), Seq::empty()),
    }
}

/// The baseline: the stable tier or the base one, the experimental tasks
/// merged over it on request, then the modification directive applied.
pub open spec fn internal_spec(
    b: Baseline,
    stable: bool,
    experimental: bool,
    modify: Option<ModifyConfig>,
) -> (ConfigView, Seq<char>, Seq<char>) {
    let c = config_view(if stable { b.stable } else { b.base });
    let c1 = if experimental {
        ConfigView { tasks: merge_tasks_spec(c.tasks, config_view(b.beta).tasks, false), ..c }
    } else {
        c
    };
    let c2 = match modify {
        Some(m) => ConfigView { tasks: apply_spec(c1.tasks, m), ..c1 },
        None => c1,
    };
    (c2, ns_of(modify).0, ns_of(modify).1)
}

impl Config {
    /// A deep copy.
    pub fn duplicate(&self) -> (r: Config)
        ensures
            config_view(r) == config_view(*self),
    {
        Config {
            config: self.config.duplicate(),
            env_files: clone_files(&self.env_files),
            env: crate::env::clone_env(&self.env),
            env_scripts: clone_strs(&self.env_scripts),
            tasks: clone_tasks(&self.tasks),
        }
    }
}

/// Loads the baseline; see [`internal_spec`].
pub fn load_internal_descriptors(
    baseline: &Baseline,
    stable: bool,
    experimental: bool,
    modify_config: &Option<ModifyConfig>,
) -> (r: CoreTasks)
    ensures
        (config_view(r.config), r.namespace@, r.namespace_prefix@) == internal_spec(
            *baseline,
            stable,
            experimental,
            *modify_config,
        ),
{
    let mut base_config = if stable {
        baseline.stable.duplicate()
    } else {
        baseline.base.duplicate()
    };
    if experimental {
        let all_tasks = merge_tasks(&base_config.tasks, &baseline.beta.tasks, false);
        base_config.tasks = all_tasks;
    }
    let mut namespace = String::new();
    let mut namespace_prefix = String::new();
    match modify_config {
        Some(props) => {
            let tasks = base_config.tasks;
            base_config.tasks = apply_modify(tasks, props);
            match &props.namespace {
                Some(ns) => {
                    namespace = ns.clone();
                    namespace_prefix = props.get_namespace_prefix();
                },
                None => {},
            }
        },
        None => {},
    }
    CoreTasks { config: base_config, namespace, namespace_prefix }
}

/// The result of a load: the configuration and the namespace pair, or an
/// error; and the load scripts to run, in order.
pub struct LoadOutcome {
    pub result: Result<(ConfigView, Seq<char>, Seq<char>), LoadErrorView>,
    pub scripts: Seq<Seq<char>>,
}

/// What a workspace-root descriptor path names: its directory and its file
/// name, as `Path::file_name` reads it (trailing separators and `.`
/// components do not count; `..` and the root have none), where it has one.
pub open spec fn workspace_target(w: Option<Seq<char>>) -> Option<(Seq<char>, Seq<char>)> {
    match w {
        Some(p) => {
            let t = trim_end(p);
            let name = t.subrange(last_slash(t) + 1, t.len() as int);
            if name.len() > 0 && name != seq!['.'] && name != seq!['.', '.'] {
                Some((parent_spec(p), name))
            } else {
                None
            }
        },
        None => None,
    }
}

/// The external composite: the chain from the current directory, with the
/// workspace-root descriptor layered beneath it where one is named.
pub open spec fn composite_spec(
    set: Seq<DescriptorFile>,
    file_name: Seq<char>,
    force: bool,
    workspace: Option<Seq<char>>,
    running: Seq<char>,
) -> Outcome {
    let o = resolve_file(set, seq!['.'], file_name, force, running, set.len());
    match o.result {
        Err(_) => o,
        Ok(ext) => match workspace_target(workspace) {
            None => o,
            Some((d, n)) => {
                let o2 = resolve_file(set, d, n, false, running, set.len());
                Outcome {
                    result: match o2.result {
                        Err(e) => Err(e),
                        Ok(wv) => Ok(combine_spec(ext, wv)),
                    },
                    scripts: o.scripts + o2.scripts,
                }
            },
        },
    }
}

/// One load pass: the external composite merged over the baseline loaded
/// as asked.
pub open spec fn descriptors_spec(
    set: Seq<DescriptorFile>,
    baseline: Baseline,
    file_name: Seq<char>,
    force: bool,
    cli: Option<Seq<Seq<char>>>,
    stable: bool,
    experimental: bool,
    modify: Option<ModifyConfig>,
    workspace: Option<Seq<char>>,
    running: Seq<char>,
) -> LoadOutcome {
    let core = internal_spec(baseline, stable, experimental, modify);
    let o = composite_spec(set, file_name, force, workspace, running);
    LoadOutcome {
        result: match o.result {
            Err(e) => Err(e),
            Ok(x) => Ok((finalize_spec(core.0, x, cli, false), core.1, core.2)),
        },
        scripts: o.scripts,
    }
}

/// A configuration with nothing in it.
pub open spec fn empty_config_view() -> ConfigView {
    ConfigView {
        config: empty_section(),
        env_files: Seq::empty(),
        env: Seq::empty(),
        env_scripts: Seq::empty(),
        tasks: Seq::empty(),
    }
}

/// The two-pass load. The first pass resolves the external composite alone,
/// to read its config section. Where that skips the core tasks, the
/// composite merged over an empty baseline is final. Where it asks for a
/// modification that changes something, everything is loaded again over the
/// stable tier with that modification. Otherwise the stable tier is merged
/// beneath the composite with the env reversion rule.
pub open spec fn load_spec(
    set: Seq<DescriptorFile>,
    baseline: Baseline,
    file_name: Seq<char>,
    force: bool,
    cli: Option<Seq<Seq<char>>>,
    experimental: bool,
    workspace: Option<Seq<char>>,
    running: Seq<char>,
) -> LoadOutcome {
    let first_pass = composite_spec(set, file_name, force, workspace, running);
    match first_pass.result {
        Err(e) => LoadOutcome { result: Err(e), scripts: first_pass.scripts },
        Ok(x) => {
            let section = section_or_empty(x.config);
            if section.skip_core_tasks == Some(true) {
                LoadOutcome {
                    result: Ok(
                        (finalize_spec(empty_config_view(), x, cli, false), Seq::empty(), Seq::empty()),
                    ),
                    scripts: first_pass.scripts,
                }
            } else if section.modify_core_tasks is Some && modifies_spec(
                section.modify_core_tasks.unwrap(),
            ) {
                let second_pass = descriptors_spec(
                    set,
                    baseline,
                    file_name,
                    force,
                    cli,
                    true,
                    experimental,
                    section.modify_core_tasks,
                    workspace,
                    running,
                );
                LoadOutcome {
                    result: second_pass.result,
                    scripts: first_pass.scripts + second_pass.scripts,
                }
            } else {
                let core = internal_spec(baseline, true, experimental, None);
                LoadOutcome {
                    result: Ok((finalize_spec(core.0, x, cli, true), core.1, core.2)),
                    scripts: first_pass.scripts,
                }
            }
        },
    }
}

/// What a load hands back besides the configuration: the canonical path of
/// the descriptor found, the core-task namespace and its prefix, and the
/// load scripts to run, in order.
#[derive(Debug, PartialEq)]
pub struct Loaded {
    pub config: Config,
    pub makefile_path: Option<String>,
    pub namespace: String,
    pub namespace_prefix: String,
    pub load_scripts: Vec<String>,
}

/// The canonical path of the top-level descriptor, where it is present.
pub open spec fn makefile_path_spec(set: Seq<DescriptorFile>, file_name: Seq<char>) -> Option<
    Seq<char>,
> {
    let i = file_index(set, join_spec(seq!['.'], file_name));
    if i >= 0 {
        Some(set[i].absolute_path@)
    } else {
        None
    }
}

pub open spec fn loaded_matches(r: Result<Loaded, LoadError>, o: LoadOutcome) -> bool {
    match (r, o.result) {
        (Ok(l), Ok((c, ns, pre))) => config_view(l.config) == c && l.namespace@ == ns
            && l.namespace_prefix@ == pre && texts(l.load_scripts@) == o.scripts,
        (Err(e), Err(v)) => error_view(e) == v,
        _ => false,
    }
}

/// The directory and file name of a workspace-root descriptor path.
pub fn workspace_location(w: &str) -> (r: Option<(String, String)>)
    ensures
        match (r, workspace_target(Some(w@))) {
            (Some((d, n)), Some((d2, n2))) => d@ == d2 && n@ == n2,
            (None, None) => true,
            _ => false,
        },
{
    let n = w.unicode_len();
    assert(w@.subrange(0, n as int) =~= w@);
    let t = trimmed_len(w, n);
    let i = after_last_slash(w, t);
    let ghost ts = w@.subrange(0, t as int);
    assert(ts.subrange(i as int, t as int) =~= w@.subrange(i as int, t as int));
    if i == t {
        return None;
    }
    if t - i == 1 && w.get_char(i) == '.' {
        assert(w@.subrange(i as int, t as int) =~= seq!['.']);
        return None;
    }
    if t - i == 2 && w.get_char(i) == '.' && w.get_char(i + 1) == '.' {
        assert(w@.subrange(i as int, t as int) =~= seq!['.', '.']);
        return None;
    }
    proof {
        let nm = w@.subrange(i as int, t as int);
        if t - i == 1 {
            assert(nm[0] != '.');
            assert(nm != seq!['.']);
        }
        if t - i == 2 {
            assert(nm[0] != '.' || nm[1] != '.');
            assert(nm != seq!['.', '.']);
        }
    }
    let name = String::from_str(w.substring_char(i, t));
    Some((parent_directory(w), name))
}

/// The external composite; see [`composite_spec`].
pub fn load_external_composite(
    set: &Vec<DescriptorFile>,
    file_name: &str,
    force: bool,
    workspace_makefile: &Option<String>,
    running: &str,
    scripts: &mut Vec<String>,
) -> (r: Result<ExternalConfig, LoadError>)
    ensures
        matches_outcome(
            r,
            old(scripts)@,
            final(scripts)@,
            composite_spec(set@, file_name@, force, opt_text(*workspace_makefile), running@),
        ),
{
    let here = String::from_str(".");
    proof {
        reveal_strlit(".");
        assert(here@ =~= seq!['.']);
    }
    let external = load_external_descriptor(
        set,
        here.as_str(),
        file_name,
        force,
        running,
        set.len(),
        scripts,
    );
    let external_config = match external {
        Err(e) => {
            return Err(e);
        },
        Ok(c) => c,
    };
    let location = match workspace_makefile {
        Some(w) => workspace_location(w.as_str()),
        None => None,
    };
    match location {
        Some((directory, name)) => {
            let ghost mid = scripts@;
            let workspace = load_external_descriptor(
                set,
                directory.as_str(),
                name.as_str(),
                false,
                running,
                set.len(),
                scripts,
            );
            proof {
                let o = resolve_file(set@, seq!['.'], file_name@, force, running@, set@.len());
                let o2 = resolve_file(set@, directory@, name@, false, running@, set@.len());
                assert(texts(scripts@) =~= texts(old(scripts)@) + (o.scripts + o2.scripts));
            }
            match workspace {
                Err(e) => Err(e),
                Ok(ws) => Ok(merge_external_configs(external_config, ws)),
            }
        },
        None => Ok(external_config),
    }
}

/// One load pass; see [`descriptors_spec`].
pub fn load_descriptors(
    set: &Vec<DescriptorFile>,
    baseline: &Baseline,
    file_name: &str,
    force: bool,
    env_map: &Option<Vec<String>>,
    stable: bool,
    experimental: bool,
    modify_core_tasks: &Option<ModifyConfig>,
    workspace_makefile: &Option<String>,
    running: &str,
    scripts: &mut Vec<String>,
) -> (r: Result<CoreTasks, LoadError>)
    ensures
        ({
            let o = descriptors_spec(
                set@,
                *baseline,
                file_name@,
                force,
                opt_texts(*env_map),
                stable,
                experimental,
                *modify_core_tasks,
                opt_text(*workspace_makefile),
                running@,
            );
            &&& texts(final(scripts)@) == texts(old(scripts)@) + o.scripts
            &&& match (r, o.result) {
                (Ok(c), Ok((v, ns, pre))) => config_view(c.config) == v && c.namespace@ == ns
                    && c.namespace_prefix@ == pre,
                (Err(e), Err(v)) => error_view(e) == v,
                _ => false,
            }
        }),
{
    let default_config = load_internal_descriptors(baseline, stable, experimental, modify_core_tasks);
    let external_config = match load_external_composite(
        set,
        file_name,
        force,
        workspace_makefile,
        running,
        scripts,
    ) {
        Err(e) => {
            return Err(e);
        },
        Ok(c) => c,
    };
    let config = merge_base_config_and_external_config(
        default_config.config,
        external_config,
        env_map,
        false,
    );
    Ok(CoreTasks {
        config,
        namespace: default_config.namespace,
        namespace_prefix: default_config.namespace_prefix,
    })
}

impl Config {
    /// A configuration with nothing in it.
    pub fn new() -> (r: Config)
        ensures
            config_view(r) == empty_config_view(),
    {
        let r = Config {
            config: ConfigSection::new(),
            env_files: Vec::new(),
            env: Vec::new(),
            env_scripts: Vec::new(),
            tasks: Vec::new(),
        };
        assert(config_view(r).env_files =~= Seq::empty());
        assert(config_view(r).env =~= Seq::empty());
        assert(config_view(r).tasks =~= Seq::empty());
        r
    }
}

/// The canonical path of the descriptor `file_name` in the current
/// directory, where it is present.
pub fn makefile_path(set: &Vec<DescriptorFile>, file_name: &str) -> (r: Option<String>)
    ensures
        opt_text(r) == makefile_path_spec(set@, file_name@),
{
    let here = String::from_str(".");
    proof {
        reveal_strlit(".");
        assert(here@ =~= seq!['.']);
    }
    let path = join_path(here.as_str(), file_name);
    match find_file(set, &path) {
        Some(i) => Some(set[i].absolute_path.clone()),
        None => None,
    }
}

/// Loads the task configuration: the descriptor `file_name` in the current
/// directory with its ancestors, the workspace-root descriptor beneath it,
/// the bundled baseline beneath both, and the command-line overrides on top;
/// see [`load_spec`]. `set` holds the descriptor files that exist, and
/// `running` is the tool's own version.
pub fn load(
    set: &Vec<DescriptorFile>,
    baseline: &Baseline,
    file_name: &str,
    force: bool,
    env_map: Option<Vec<String>>,
    experimental: bool,
    workspace_makefile: &Option<String>,
    running: &str,
) -> (r: Result<Loaded, LoadError>)
    ensures
        loaded_matches(
            r,
            load_spec(
                set@,
                *baseline,
                file_name@,
                force,
                opt_texts(env_map),
                experimental,
                opt_text(*workspace_makefile),
                running@,
            ),
        ),
        r matches Ok(l) ==> opt_text(l.makefile_path) == makefile_path_spec(set@, file_name@),
{
    let mut scripts: Vec<String> = Vec::new();
    assert(texts(scripts@) =~= Seq::<Seq<char>>::empty());
    let first = load_external_composite(
        set,
        file_name,
        force,
        workspace_makefile,
        running,
        &mut scripts,
    );
    let composite = match first {
        Err(e) => {
            return Err(e);
        },
        Ok(c) => c,
    };
    assert(texts(scripts@) =~= Seq::<Seq<char>>::empty() + texts(scripts@));
    let (skip, modify_core_tasks) = match &composite.config {
        Some(section) => (
            match section.skip_core_tasks {
                Some(b) => b,
                None => false,
            },
            clone_opt_modify(&section.modify_core_tasks),
        ),
        None => (false, None),
    };
    let effective = match &modify_core_tasks {
        Some(m) => m.is_modifications_defined(),
        None => false,
    };
    let core = if skip {
        let config = merge_base_config_and_external_config(
            Config::new(),
            composite,
            &env_map,
            false,
        );
        CoreTasks { config, namespace: String::new(), namespace_prefix: String::new() }
    } else if effective {
        let second = load_descriptors(
            set,
            baseline,
            file_name,
            force,
            &env_map,
            true,
            experimental,
            &modify_core_tasks,
            workspace_makefile,
            running,
            &mut scripts,
        );
        match second {
            Err(e) => {
                return Err(e);
            },
            Ok(c) => c,
        }
    } else {
        let core_config = load_internal_descriptors(baseline, true, experimental, &None);
        let config = merge_base_config_and_external_config(
            core_config.config,
            composite,
            &env_map,
            true,
        );
        CoreTasks {
            config,
            namespace: core_config.namespace,
            namespace_prefix: core_config.namespace_prefix,
        }
    };
    Ok(Loaded {
        config: core.config,
        makefile_path: makefile_path(set, file_name),
        namespace: core.namespace,
        namespace_prefix: core.namespace_prefix,
        load_scripts: scripts,
    })
}

proof fn lemma_cli_env_distinct(entries: Seq<Seq<char>>)
    ensures
        keys_distinct(cli_env_spec(entries)),
    decreases entries.len(),
{
    if entries.len() > 0 {
        lemma_cli_env_distinct(entries.drop_last());
        let m = cli_env_spec(entries.drop_last());
        let e = entries.last();
        if single_eq(e) {
            lemma_key_index(m, e.subrange(0, eq_index(e)));
        }
    }
}

/// Command-line overrides win over the baseline and the external
/// configuration: wherever the entries set a key that is not reserved, the
/// final environment holds the entries' value for it.
pub proof fn lemma_cli_wins(
    base: ConfigView,
    external: ExternalView,
    entries: Seq<Seq<char>>,
    late_merge: bool,
    k: Seq<char>,
    v: Seq<char>,
)
    requires
        !is_reserved(k),
        env_get(cli_env_spec(entries), k) == Some(EnvVal::Value(v)),
    ensures
        env_get(finalize_spec(base, external, Some(entries), late_merge).env, k) == Some(
            EnvVal::Value(v),
        ),
{
    let c = cli_env_spec(entries);
    lemma_cli_env_distinct(entries);
    lemma_key_index(c, k);
    let j = key_index(c, k);
    assert(c[j] == (k, EnvVal::Value(v)));
    lemma_merge_env_sets(merge_env_spec(base.env, or_empty(external.env)), c, k, v, j);
}

} // verus!

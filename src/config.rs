//! Descriptor sections, raw and resolved configurations, and the combinator
//! that layers one raw configuration over another.
use vstd::prelude::*;
use crate::env::{clone_env, env_view, merge_env, merge_env_spec, EnvMap, EnvVal};
use crate::task::{
    clone_strs, clone_tasks, merge_tasks, merge_tasks_spec, tasks_view, TaskMap, TaskView,
};

verus! {

/// Details of an env file reference.
#[derive(Debug, Clone, PartialEq)]
pub struct EnvFileInfo {
    pub path: String,
    pub base_path: Option<String>,
    pub profile: Option<String>,
}

/// A reference to an env file: a bare path, or a record.
#[derive(Debug, Clone, PartialEq)]
pub enum EnvFile {
    Path(String),
    Info(EnvFileInfo),
}

/// Modification of the bundled core tasks.
#[derive(Debug, Clone, PartialEq)]
pub struct ModifyConfig {
    pub private: Option<bool>,
    pub namespace: Option<String>,
}

/// Global settings of a descriptor.
#[derive(Debug, Clone, PartialEq)]
pub struct ConfigSection {
    pub skip_core_tasks: Option<bool>,
    pub modify_core_tasks: Option<ModifyConfig>,
    pub init_task: Option<String>,
    pub end_task: Option<String>,
    pub min_version: Option<String>,
    pub load_script: Option<String>,
}

/// One parent of an extends declaration.
#[derive(Debug, Clone, PartialEq)]
pub struct ExtendOptions {
    pub path: String,
    pub optional: Option<bool>,
}

/// The parents a descriptor declares.
#[derive(Debug, Clone, PartialEq)]
pub enum Extend {
    Path(String),
    Options(ExtendOptions),
    List(Vec<ExtendOptions>),
}

/// The decoded form of one descriptor file.
#[derive(Debug, PartialEq)]
pub struct ExternalConfig {
    pub extend: Option<Extend>,
    pub config: Option<ConfigSection>,
    pub env_files: Option<Vec<EnvFile>>,
    pub env: Option<EnvMap>,
    pub env_scripts: Option<Vec<String>>,
    pub tasks: Option<TaskMap>,
}

/// A fully composed configuration.
#[derive(Debug, PartialEq)]
pub struct Config {
    pub config: ConfigSection,
    pub env_files: Vec<EnvFile>,
    pub env: EnvMap,
    pub env_scripts: Vec<String>,
    pub tasks: TaskMap,
}

/// The mathematical form of an [`EnvFile`].
pub enum EnvFileView {
    Path(Seq<char>),
    Info { path: Seq<char>, base_path: Option<Seq<char>>, profile: Option<Seq<char>> },
}

pub open spec fn opt_text(o: Option<String>) -> Option<Seq<char>> {
    match o {
        Some(s) => Some(s@),
        None => None,
    }
}

pub open spec fn env_file_view(f: EnvFile) -> EnvFileView {
    match f {
        EnvFile::Path(p) => EnvFileView::Path(p@),
        EnvFile::Info(i) => EnvFileView::Info {
            path: i.path@,
            base_path: opt_text(i.base_path),
            profile: opt_text(i.profile),
        },
    }
}

pub open spec fn files_view(v: Vec<EnvFile>) -> Seq<EnvFileView> {
    v@.map_values(|f: EnvFile| env_file_view(f))
}

/// The mathematical form of an [`ExternalConfig`], its extends declaration aside.
pub struct ExternalView {
    pub config: Option<ConfigSection>,
    pub env_files: Option<Seq<EnvFileView>>,
    pub env: Option<Seq<(Seq<char>, EnvVal)>>,
    pub env_scripts: Option<Seq<String>>,
    pub tasks: Option<Seq<(Seq<char>, TaskView)>>,
}

/// The mathematical form of a [`Config`].
pub struct ConfigView {
    pub config: ConfigSection,
    pub env_files: Seq<EnvFileView>,
    pub env: Seq<(Seq<char>, EnvVal)>,
    pub env_scripts: Seq<String>,
    pub tasks: Seq<(Seq<char>, TaskView)>,
}

pub open spec fn external_view(c: ExternalConfig) -> ExternalView {
    ExternalView {
        config: c.config,
        env_files: match c.env_files {
            Some(v) => Some(files_view(v)),
            None => None,
        },
        env: match c.env {
            Some(m) => Some(env_view(m)),
            None => None,
        },
        env_scripts: match c.env_scripts {
            Some(v) => Some(v@),
            None => None,
        },
        tasks: match c.tasks {
            Some(m) => Some(tasks_view(m)),
            None => None,
        },
    }
}

pub open spec fn config_view(c: Config) -> ConfigView {
    ConfigView {
        config: c.config,
        env_files: files_view(c.env_files),
        env: env_view(c.env),
        env_scripts: c.env_scripts@,
        tasks: tasks_view(c.tasks),
    }
}

pub open spec fn empty_external() -> ExternalView {
    ExternalView { config: None, env_files: None, env: None, env_scripts: None, tasks: None }
}

pub open spec fn empty_section() -> ConfigSection {
    ConfigSection {
        skip_core_tasks: None,
        modify_core_tasks: None,
        init_task: None,
        end_task: None,
        min_version: None,
        load_script: None,
    }
}

pub open spec fn or_empty<T>(o: Option<Seq<T>>) -> Seq<T> {
    match o {
        Some(s) => s,
        None => Seq::empty(),
    }
}

pub open spec fn section_or_empty(o: Option<ConfigSection>) -> ConfigSection {
    match o {
        Some(s) => s,
        None => empty_section(),
    }
}

pub open spec fn pick<T>(a: Option<T>, b: Option<T>) -> Option<T> {
    match b {
        Some(_) => b,
        None => a,
    }
}

/// Field-wise override of a config section: `b`'s set fields win.
pub open spec fn extend_section(a: ConfigSection, b: ConfigSection) -> ConfigSection {
    ConfigSection {
        skip_core_tasks: pick(a.skip_core_tasks, b.skip_core_tasks),
        modify_core_tasks: pick(a.modify_core_tasks, b.modify_core_tasks),
        init_task: pick(a.init_task, b.init_task),
        end_task: pick(a.end_task, b.end_task),
        min_version: pick(a.min_version, b.min_version),
        load_script: pick(a.load_script, b.load_script),
    }
}

/// `child` layered over `parent`: lists put the child's items first, the
/// environment and the tasks merge with the child winning, and the child's
/// set config fields replace the parent's.
pub open spec fn combine_spec(child: ExternalView, parent: ExternalView) -> ExternalView {
    ExternalView {
        config: Some(
            extend_section(
                extend_section(empty_section(), section_or_empty(parent.config)),
                section_or_empty(child.config),
            ),
        ),
        env_files: Some(or_empty(child.env_files) + or_empty(parent.env_files)),
        env: Some(merge_env_spec(or_empty(parent.env), or_empty(child.env))),
        env_scripts: Some(or_empty(child.env_scripts) + or_empty(parent.env_scripts)),
        tasks: Some(merge_tasks_spec(or_empty(parent.tasks), or_empty(child.tasks), false)),
    }
}

pub fn clone_str(s: &String) -> (r: String)
    ensures
        r == *s,
{
    s.clone()
}

pub fn clone_opt_string(o: &Option<String>) -> (r: Option<String>)
    ensures
        r == *o,
{
    match o {
        Some(s) => Some(s.clone()),
        None => None,
    }
}

impl EnvFile {
    pub fn duplicate(&self) -> (r: EnvFile)
        ensures
            r == *self,
    {
        match self {
            EnvFile::Path(p) => EnvFile::Path(p.clone()),
            EnvFile::Info(i) => EnvFile::Info(
                EnvFileInfo {
                    path: i.path.clone(),
                    base_path: clone_opt_string(&i.base_path),
                    profile: clone_opt_string(&i.profile),
                },
            ),
        }
    }
}

impl ModifyConfig {
    pub fn duplicate(&self) -> (r: ModifyConfig)
        ensures
            r == *self,
    {
        ModifyConfig { private: self.private, namespace: clone_opt_string(&self.namespace) }
    }
}

pub fn clone_opt_modify(o: &Option<ModifyConfig>) -> (r: Option<ModifyConfig>)
    ensures
        r == *o,
{
    match o {
        Some(m) => Some(m.duplicate()),
        None => None,
    }
}

impl ConfigSection {
    /// A section with no field set.
    pub fn new() -> (r: ConfigSection)
        ensures
            r == empty_section(),
    {
        ConfigSection {
            skip_core_tasks: None,
            modify_core_tasks: None,
            init_task: None,
            end_task: None,
            min_version: None,
            load_script: None,
        }
    }

    pub fn duplicate(&self) -> (r: ConfigSection)
        ensures
            r == *self,
    {
        ConfigSection {
            skip_core_tasks: self.skip_core_tasks,
            modify_core_tasks: clone_opt_modify(&self.modify_core_tasks),
            init_task: clone_opt_string(&self.init_task),
            end_task: clone_opt_string(&self.end_task),
            min_version: clone_opt_string(&self.min_version),
            load_script: clone_opt_string(&self.load_script),
        }
    }

    /// Overrides every field that `other` sets.
    pub fn extend(&mut self, other: &ConfigSection)
        ensures
            *final(self) == extend_section(*old(self), *other),
    {
        if other.skip_core_tasks.is_some() {
            self.skip_core_tasks = other.skip_core_tasks;
        }
        if other.modify_core_tasks.is_some() {
            self.modify_core_tasks = clone_opt_modify(&other.modify_core_tasks);
        }
        if other.init_task.is_some() {
            self.init_task = clone_opt_string(&other.init_task);
        }
        if other.end_task.is_some() {
            self.end_task = clone_opt_string(&other.end_task);
        }
        if other.min_version.is_some() {
            self.min_version = clone_opt_string(&other.min_version);
        }
        if other.load_script.is_some() {
            self.load_script = clone_opt_string(&other.load_script);
        }
    }
}

/// `extended` followed by `base`.
pub fn merge_env_files(base: &Vec<EnvFile>, extended: &Vec<EnvFile>) -> (r: Vec<EnvFile>)
    ensures
        r@ == extended@ + base@,
{
    let mut r: Vec<EnvFile> = Vec::new();
    let mut i: usize = 0;
    while i < extended.len()
        invariant
            i <= extended.len(),
            r@ == extended@.subrange(0, i as int),
        decreases extended.len() - i,
    {
        r.push(extended[i].duplicate());
        i = i + 1;
        assert(r@ =~= extended@.subrange(0, i as int));
    }
    let mut j: usize = 0;
    while j < base.len()
        invariant
            j <= base.len(),
            r@ == extended@ + base@.subrange(0, j as int),
        decreases base.len() - j,
    {
        r.push(base[j].duplicate());
        j = j + 1;
        assert(r@ =~= extended@ + base@.subrange(0, j as int));
    }
    assert(extended@.subrange(0, extended.len() as int) =~= extended@);
    assert(base@.subrange(0, base.len() as int) =~= base@);
    r
}

/// `extended` followed by `base`.
pub fn merge_env_scripts(base: &Vec<String>, extended: &Vec<String>) -> (r: Vec<String>)
    ensures
        r@ == extended@ + base@,
{
    let mut r: Vec<String> = Vec::new();
    let mut i: usize = 0;
    while i < extended.len()
        invariant
            i <= extended.len(),
            r@ == extended@.subrange(0, i as int),
        decreases extended.len() - i,
    {
        r.push(extended[i].clone());
        i = i + 1;
        assert(r@ =~= extended@.subrange(0, i as int));
    }
    let mut j: usize = 0;
    while j < base.len()
        invariant
            j <= base.len(),
            r@ == extended@ + base@.subrange(0, j as int),
        decreases base.len() - j,
    {
        r.push(base[j].clone());
        j = j + 1;
        assert(r@ =~= extended@ + base@.subrange(0, j as int));
    }
    assert(extended@.subrange(0, extended.len() as int) =~= extended@);
    assert(base@.subrange(0, base.len() as int) =~= base@);
    r
}

impl ExternalConfig {
    /// A configuration with nothing declared.
    pub fn new() -> (r: ExternalConfig)
        ensures
            r.extend.is_none(),
            external_view(r) == empty_external(),
    {
        ExternalConfig {
            extend: None,
            config: None,
            env_files: None,
            env: None,
            env_scripts: None,
            tasks: None,
        }
    }
}

pub fn files_or_empty(o: Option<Vec<EnvFile>>) -> (r: Vec<EnvFile>)
    ensures
        files_view(r) == or_empty(
            match o {
                Some(v) => Some(files_view(v)),
                None => None,
            },
        ),
{
    match o {
        Some(v) => v,
        None => {
            let r: Vec<EnvFile> = Vec::new();
            assert(files_view(r) =~= Seq::empty());
            r
        },
    }
}

proof fn lemma_files_view_concat(r: Vec<EnvFile>, a: Vec<EnvFile>, b: Vec<EnvFile>)
    requires
        r@ == a@ + b@,
    ensures
        files_view(r) == files_view(a) + files_view(b),
{
    assert(files_view(r) =~= files_view(a) + files_view(b));
}

pub fn strings_or_empty(o: Option<Vec<String>>) -> (r: Vec<String>)
    ensures
        r@ == or_empty(
            match o {
                Some(v) => Some(v@),
                None => None,
            },
        ),
{
    match o {
        Some(v) => v,
        None => Vec::new(),
    }
}

pub fn env_or_empty(o: Option<EnvMap>) -> (r: EnvMap)
    ensures
        env_view(r) == or_empty(
            match o {
                Some(m) => Some(env_view(m)),
                None => None,
            },
        ),
{
    match o {
        Some(m) => m,
        None => {
            let r: EnvMap = Vec::new();
            assert(env_view(r) =~= Seq::empty());
            r
        },
    }
}

pub fn tasks_or_empty(o: Option<TaskMap>) -> (r: TaskMap)
    ensures
        tasks_view(r) == or_empty(
            match o {
                Some(m) => Some(tasks_view(m)),
                None => None,
            },
        ),
{
    match o {
        Some(m) => m,
        None => {
            let r: TaskMap = Vec::new();
            assert(tasks_view(r) =~= Seq::empty());
            r
        },
    }
}

/// Layers `config` over `parent_config`; the result declares no parents.
pub fn merge_external_configs(config: ExternalConfig, parent_config: ExternalConfig) -> (r:
    ExternalConfig)
    ensures
        r.extend.is_none(),
        external_view(r) == combine_spec(external_view(config), external_view(parent_config)),
{
    let parent_env_files = files_or_empty(parent_config.env_files);
    let extended_env_files = files_or_empty(config.env_files);
    let all_env_files = merge_env_files(&parent_env_files, &extended_env_files);
    proof {
        lemma_files_view_concat(all_env_files, extended_env_files, parent_env_files);
    }

    let parent_env = env_or_empty(parent_config.env);
    let extended_env = env_or_empty(config.env);
    let all_env = merge_env(&parent_env, &extended_env);

    let parent_env_scripts = strings_or_empty(parent_config.env_scripts);
    let extended_env_scripts = strings_or_empty(config.env_scripts);
    let all_env_scripts = merge_env_scripts(&parent_env_scripts, &extended_env_scripts);

    let parent_tasks = tasks_or_empty(parent_config.tasks);
    let extended_tasks = tasks_or_empty(config.tasks);
    let all_tasks = merge_tasks(&parent_tasks, &extended_tasks, false);

    let mut config_section = ConfigSection::new();
    match parent_config.config {
        Some(section) => config_section.extend(&section),
        None => config_section.extend(&ConfigSection::new()),
    }
    match config.config {
        Some(section) => config_section.extend(&section),
        None => config_section.extend(&ConfigSection::new()),
    }

    ExternalConfig {
        extend: None,
        config: Some(config_section),
        env_files: Some(all_env_files),
        env: Some(all_env),
        env_scripts: Some(all_env_scripts),
        tasks: Some(all_tasks),
    }
}

/// The mathematical form of an [`Extend`]: one parent, or an ordered list,
/// each as a path and whether it must exist.
pub enum ExtendView {
    Single(Seq<char>, bool),
    List(Seq<(Seq<char>, bool)>),
}

pub open spec fn options_target(o: ExtendOptions) -> (Seq<char>, bool) {
    (o.path@, o.optional != Some(true))
}

pub open spec fn extend_view(e: Extend) -> ExtendView {
    match e {
        Extend::Path(p) => ExtendView::Single(p@, true),
        Extend::Options(o) => ExtendView::Single(o.path@, o.optional != Some(true)),
        Extend::List(l) => ExtendView::List(l@.map_values(|o: ExtendOptions| options_target(o))),
    }
}

pub open spec fn opt_extend_view(e: Option<Extend>) -> Option<ExtendView> {
    match e {
        Some(x) => Some(extend_view(x)),
        None => None,
    }
}

impl ExtendOptions {
    pub fn duplicate(&self) -> (r: ExtendOptions)
        ensures
            options_target(r) == options_target(*self),
    {
        ExtendOptions { path: self.path.clone(), optional: self.optional }
    }
}

impl Extend {
    pub fn duplicate(&self) -> (r: Extend)
        ensures
            extend_view(r) == extend_view(*self),
    {
        match self {
            Extend::Path(p) => Extend::Path(p.clone()),
            Extend::Options(o) => Extend::Options(o.duplicate()),
            Extend::List(l) => {
                let mut out: Vec<ExtendOptions> = Vec::new();
                let mut i: usize = 0;
                while i < l.len()
                    invariant
                        i <= l.len(),
                        out@.len() == i,
                        forall|j: int| 0 <= j < i ==> options_target(#[trigger] out@[j]) == options_target(l@[j]),
                    decreases l.len() - i,
                {
                    out.push(l[i].duplicate());
                    i = i + 1;
                }
                assert(out@.map_values(|o: ExtendOptions| options_target(o)) =~= l@.map_values(
                    |o: ExtendOptions| options_target(o),
                ));
                Extend::List(out)
            },
        }
    }
}

pub fn clone_files(v: &Vec<EnvFile>) -> (r: Vec<EnvFile>)
    ensures
        r@ == v@,
{
    let mut r: Vec<EnvFile> = Vec::new();
    let mut i: usize = 0;
    while i < v.len()
        invariant
            i <= v.len(),
            r@ == v@.subrange(0, i as int),
        decreases v.len() - i,
    {
        r.push(v[i].duplicate());
        i = i + 1;
        assert(r@ =~= v@.subrange(0, i as int));
    }
    assert(v@.subrange(0, v.len() as int) =~= v@);
    r
}

impl ExternalConfig {
    /// A deep copy.
    pub fn duplicate(&self) -> (r: ExternalConfig)
        ensures
            external_view(r) == external_view(*self),
            opt_extend_view(r.extend) == opt_extend_view(self.extend),
    {
        ExternalConfig {
            extend: match &self.extend {
                Some(e) => Some(e.duplicate()),
                None => None,
            },
            config: match &self.config {
                Some(c) => Some(c.duplicate()),
                None => None,
            },
            env_files: match &self.env_files {
                Some(v) => Some(clone_files(v)),
                None => None,
            },
            env: match &self.env {
                Some(m) => Some(clone_env(m)),
                None => None,
            },
            env_scripts: match &self.env_scripts {
                Some(v) => Some(clone_strs(v)),
                None => None,
            },
            tasks: match &self.tasks {
                Some(m) => Some(clone_tasks(m)),
                None => None,
            },
        }
    }
}

} // verus!

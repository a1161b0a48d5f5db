use descriptor_merge::config::{
    merge_env_files, merge_env_scripts, merge_external_configs, Config, ConfigSection, EnvFile,
    EnvFileInfo, Extend, ExtendOptions, ExternalConfig, ModifyConfig,
};
use descriptor_merge::env::{is_reserved_key, merge_env, EnvMap, EnvValue};
use descriptor_merge::load::{
    load, merge_base_config_and_external_config, parse_cli_env, split_pair, workspace_location,
    Baseline,
};
use descriptor_merge::resolve::{
    join_path, load_descriptor_extended_makefiles, load_external_descriptor, run_load_script,
    DescriptorFile, LoadError,
};
use descriptor_merge::stamp::{add_file_location_info, parent_directory};
use descriptor_merge::task::{merge_tasks, Task, TaskMap};
use descriptor_merge::version::{check_makefile_min_version, is_newer, parse_version};

const FILE_MARKER: &str = "CARGO_MAKE_CURRENT_TASK_INITIAL_MAKEFILE";
const DIR_MARKER: &str = "CARGO_MAKE_CURRENT_TASK_INITIAL_MAKEFILE_DIRECTORY";

fn val(s: &str) -> EnvValue {
    EnvValue::Value(s.to_string())
}

fn env(pairs: Vec<(&str, EnvValue)>) -> EnvMap {
    pairs.into_iter().map(|(k, v)| (k.to_string(), v)).collect()
}

fn task_with_env(pairs: Vec<(&str, EnvValue)>) -> Task {
    let mut t = Task::new();
    t.env = Some(env(pairs));
    t
}

fn task_with_command(command: &str) -> Task {
    let mut t = Task::new();
    t.command = Some(command.to_string());
    t
}

fn tasks(pairs: Vec<(&str, Task)>) -> TaskMap {
    pairs.into_iter().map(|(k, v)| (k.to_string(), v)).collect()
}

fn empty_config() -> Config {
    Config {
        config: ConfigSection::new(),
        env_files: vec![],
        env: vec![],
        env_scripts: vec![],
        tasks: vec![],
    }
}

fn file(path: &str, decoded: ExternalConfig) -> DescriptorFile {
    DescriptorFile {
        path: path.to_string(),
        absolute_path: format!("/work/{}", path.trim_start_matches("./")),
        text: String::new(),
        decoded: Ok(decoded),
    }
}

fn with_extend(extend: Extend, tasks_map: TaskMap) -> ExternalConfig {
    let mut c = ExternalConfig::new();
    c.extend = Some(extend);
    c.tasks = Some(tasks_map);
    c
}

fn task_env_value(t: &Task, key: &str) -> Option<String> {
    t.env.as_ref().and_then(|e| e.iter().find(|(k, _)| k == key)).and_then(|(_, v)| match v {
        EnvValue::Value(s) => Some(s.clone()),
        EnvValue::Profile(_) => None,
    })
}

#[test]
fn merge_env_with_empty_extended_is_identity() {
    let base = env(vec![("A", val("1")), ("B", EnvValue::Profile(env(vec![("C", val("2"))])))]);
    let merged = merge_env(&base, &vec![]);
    assert_eq!(merged, base);
}

#[test]
fn merge_env_skips_reserved_keys_of_extended() {
    let base = env(vec![("CARGO_MAKE_CURRENT_TASK_NAME", val("base")), ("A", val("1"))]);
    let extended = env(vec![
        ("CARGO_MAKE_CURRENT_TASK_NAME", val("ext")),
        ("CARGO_MAKE_CURRENT_TASK_OTHER", val("x")),
        ("B", val("2")),
    ]);
    let merged = merge_env(&base, &extended);
    assert_eq!(
        merged,
        env(vec![("CARGO_MAKE_CURRENT_TASK_NAME", val("base")), ("A", val("1")), ("B", val("2"))])
    );
}

#[test]
fn merge_env_disjoint_keys_is_union() {
    let base = env(vec![("A", val("1")), ("B", val("2"))]);
    let extended = env(vec![("C", val("3")), ("D", val("4"))]);
    let merged = merge_env(&base, &extended);
    assert_eq!(
        merged,
        env(vec![("A", val("1")), ("B", val("2")), ("C", val("3")), ("D", val("4"))])
    );
}

#[test]
fn merge_env_profiles_merge_recursively() {
    let base = env(vec![("X", EnvValue::Profile(env(vec![("A", val("1"))])))]);
    let extended = env(vec![("X", EnvValue::Profile(env(vec![("B", val("2"))])))]);
    let merged = merge_env(&base, &extended);
    assert_eq!(
        merged,
        env(vec![("X", EnvValue::Profile(env(vec![("A", val("1")), ("B", val("2"))])))])
    );
}

#[test]
fn merge_env_replaces_scalar_in_place() {
    let base = env(vec![("A", val("1")), ("B", val("2"))]);
    let extended = env(vec![("A", EnvValue::Profile(env(vec![("C", val("3"))])))]);
    let merged = merge_env(&base, &extended);
    assert_eq!(
        merged,
        env(vec![("A", EnvValue::Profile(env(vec![("C", val("3"))]))), ("B", val("2"))])
    );
}

#[test]
fn reserved_prefix_is_recognised() {
    assert!(is_reserved_key("CARGO_MAKE_CURRENT_TASK_"));
    assert!(is_reserved_key("CARGO_MAKE_CURRENT_TASK_NAME"));
    assert!(!is_reserved_key("CARGO_MAKE_CURRENT_TAS"));
    assert!(!is_reserved_key("X_CARGO_MAKE_CURRENT_TASK_"));
}

#[test]
fn list_merge_puts_extended_first() {
    let base = vec![EnvFile::Path("a.env".to_string())];
    let extended = vec![EnvFile::Path("b.env".to_string())];
    assert_eq!(
        merge_env_files(&base, &extended),
        vec![EnvFile::Path("b.env".to_string()), EnvFile::Path("a.env".to_string())]
    );
    let scripts = merge_env_scripts(&vec!["a".to_string()], &vec!["b".to_string()]);
    assert_eq!(scripts, vec!["b".to_string(), "a".to_string()]);
}

#[test]
fn list_merge_keeps_duplicates() {
    let scripts = merge_env_scripts(&vec!["a".to_string()], &vec!["a".to_string()]);
    assert_eq!(scripts, vec!["a".to_string(), "a".to_string()]);
}

#[test]
fn task_merge_reverts_marker_only_env() {
    let base = tasks(vec![("T", task_with_env(vec![("FOO", val("1"))]))]);
    let markers = || vec![(FILE_MARKER, val("/w/Makefile.toml")), (DIR_MARKER, val("/w"))];
    let extended = tasks(vec![("T", task_with_env(markers()))]);
    let reverted = merge_tasks(&base, &extended, true);
    assert_eq!(reverted[0].1.env, Some(env(vec![("FOO", val("1"))])));
    let kept = merge_tasks(&base, &extended, false);
    assert_eq!(kept[0].1.env, Some(env(markers())));
}

#[test]
fn task_merge_keeps_richer_extended_env() {
    let base = tasks(vec![("T", task_with_env(vec![("FOO", val("1"))]))]);
    let extended = tasks(vec![(
        "T",
        task_with_env(vec![(FILE_MARKER, val("f")), (DIR_MARKER, val("d")), ("BAR", val("2"))]),
    )]);
    let merged = merge_tasks(&base, &extended, true);
    assert_eq!(task_env_value(&merged[0].1, "BAR"), Some("2".to_string()));
    assert_eq!(task_env_value(&merged[0].1, "FOO"), None);
}

#[test]
fn task_merge_overrides_field_by_field() {
    let mut base_task = task_with_command("build");
    base_task.description = Some("base".to_string());
    let mut ext_task = Task::new();
    ext_task.args = Some(vec!["--release".to_string()]);
    ext_task.description = Some("ext".to_string());
    let base = tasks(vec![("T", base_task), ("U", task_with_command("u"))]);
    let extended = tasks(vec![("T", ext_task), ("V", task_with_command("v"))]);
    let merged = merge_tasks(&base, &extended, false);
    let names: Vec<&str> = merged.iter().map(|(k, _)| k.as_str()).collect();
    assert_eq!(names, vec!["T", "U", "V"]);
    assert_eq!(merged[0].1.command, Some("build".to_string()));
    assert_eq!(merged[0].1.description, Some("ext".to_string()));
    assert_eq!(merged[0].1.args, Some(vec!["--release".to_string()]));
}

#[test]
fn parent_directory_cases() {
    assert_eq!(parent_directory("/a/b/Makefile.toml"), "/a/b");
    assert_eq!(parent_directory("/Makefile.toml"), "/");
    assert_eq!(parent_directory("Makefile.toml"), "");
    assert_eq!(parent_directory("/"), "");
}

#[test]
fn join_path_cases() {
    assert_eq!(join_path(".", "a.toml"), "./a.toml");
    assert_eq!(join_path("/w/", "a.toml"), "/w/a.toml");
    assert_eq!(join_path("", "a.toml"), "a.toml");
    assert_eq!(join_path("/w", "/abs.toml"), "/abs.toml");
}

#[test]
fn stamping_marks_files_and_tasks() {
    let mut c = ExternalConfig::new();
    c.env_files = Some(vec![
        EnvFile::Path("a.env".to_string()),
        EnvFile::Info(EnvFileInfo {
            path: "b.env".to_string(),
            base_path: Some("/elsewhere".to_string()),
            profile: None,
        }),
        EnvFile::Info(EnvFileInfo { path: "c.env".to_string(), base_path: None, profile: None }),
    ]);
    c.tasks = Some(tasks(vec![("T", Task::new()), ("U", task_with_env(vec![("A", val("1"))]))]));
    let s = add_file_location_info(c, "/w/Makefile.toml");
    let files = s.env_files.unwrap();
    assert_eq!(
        files[0],
        EnvFile::Info(EnvFileInfo {
            path: "a.env".to_string(),
            base_path: Some("/w".to_string()),
            profile: None
        })
    );
    assert_eq!(
        files[1],
        EnvFile::Info(EnvFileInfo {
            path: "b.env".to_string(),
            base_path: Some("/elsewhere".to_string()),
            profile: None
        })
    );
    assert_eq!(
        files[2],
        EnvFile::Info(EnvFileInfo {
            path: "c.env".to_string(),
            base_path: Some("/w".to_string()),
            profile: None
        })
    );
    let ts = s.tasks.unwrap();
    assert_eq!(
        ts[0].1.env,
        Some(env(vec![(FILE_MARKER, val("/w/Makefile.toml")), (DIR_MARKER, val("/w"))]))
    );
    assert_eq!(
        ts[1].1.env,
        Some(env(vec![
            ("A", val("1")),
            (FILE_MARKER, val("/w/Makefile.toml")),
            (DIR_MARKER, val("/w"))
        ]))
    );
}

#[test]
fn version_gate_rejects_newer_minimum() {
    let text = "[config]\nmin_version = \"99.0.0\"\n";
    assert_eq!(check_makefile_min_version(text, "1.0.0"), Err("99.0.0".to_string()));
    let ok = "[config]\nmin_version = \"0.9.0\"\n";
    assert_eq!(check_makefile_min_version(ok, "1.0.0"), Ok(()));
}

#[test]
fn version_gate_passes_without_minimum() {
    assert_eq!(check_makefile_min_version("[tasks.a]\ncommand = \"x\"\n", "1.0.0"), Ok(()));
    assert_eq!(check_makefile_min_version("this is [ not toml", "1.0.0"), Ok(()));
}

#[test]
fn version_parsing_and_comparison() {
    assert_eq!(parse_version("1.2.3"), Some((1, 2, 3)));
    assert_eq!(parse_version("1.2"), None);
    assert_eq!(parse_version("1.x.3"), None);
    assert_eq!(parse_version("1..3"), None);
    assert_eq!(parse_version("99999999999999999999.0.0"), None);
    assert!(is_newer("1.0.0", "1.0.1"));
    assert!(is_newer("1.9.9", "2.0.0"));
    assert!(!is_newer("1.0.0", "1.0.0"));
    assert!(!is_newer("2.0.0", "1.9.9"));
    assert!(!is_newer("1.0.0", "garbage"));
}

#[test]
fn optional_missing_ancestor_contributes_nothing() {
    let own = with_extend(
        Extend::Options(ExtendOptions { path: "missing.toml".to_string(), optional: Some(true) }),
        tasks(vec![("T", task_with_command("own"))]),
    );
    let set = vec![file("./Makefile.toml", own)];
    let mut scripts = vec![];
    let r = load_external_descriptor(&set, ".", "Makefile.toml", true, "1.0.0", 1, &mut scripts)
        .unwrap();
    let ts = r.tasks.unwrap();
    assert_eq!(ts.len(), 1);
    assert_eq!(ts[0].0, "T");
    assert_eq!(ts[0].1.command, Some("own".to_string()));
    assert_eq!(task_env_value(&ts[0].1, FILE_MARKER), Some("/work/Makefile.toml".to_string()));
    assert_eq!(r.env, Some(vec![]));
}

#[test]
fn required_missing_ancestor_fails() {
    let own = with_extend(
        Extend::Options(ExtendOptions { path: "missing.toml".to_string(), optional: Some(false) }),
        tasks(vec![]),
    );
    let set = vec![file("./Makefile.toml", own)];
    let mut scripts = vec![];
    let r = load_external_descriptor(&set, ".", "Makefile.toml", true, "1.0.0", 1, &mut scripts);
    assert_eq!(r, Err(LoadError::DescriptorMissing("./missing.toml".to_string())));
}

#[test]
fn ordered_list_later_entry_wins_field_by_field() {
    let mut a_task = task_with_command("from-a");
    a_task.description = Some("a".to_string());
    let mut b_task = Task::new();
    b_task.description = Some("b".to_string());
    let a = with_extend_none(tasks(vec![("X", a_task)]));
    let b = with_extend_none(tasks(vec![("X", b_task)]));
    let set = vec![file("./a.toml", a), file("./b.toml", b)];
    let extend = Extend::List(vec![
        ExtendOptions { path: "a.toml".to_string(), optional: None },
        ExtendOptions { path: "b.toml".to_string(), optional: None },
    ]);
    let mut scripts = vec![];
    let r = load_descriptor_extended_makefiles(&set, ".", &extend, "1.0.0", 2, &mut scripts)
        .unwrap();
    let ts = r.tasks.unwrap();
    assert_eq!(ts.len(), 1);
    assert_eq!(ts[0].1.command, Some("from-a".to_string()));
    assert_eq!(ts[0].1.description, Some("b".to_string()));
}

fn with_extend_none(tasks_map: TaskMap) -> ExternalConfig {
    let mut c = ExternalConfig::new();
    c.tasks = Some(tasks_map);
    c
}

#[test]
fn single_parent_is_layered_beneath() {
    let mut parent = with_extend_none(tasks(vec![("P", task_with_command("p"))]));
    parent.env = Some(env(vec![("A", val("parent")), ("B", val("parent"))]));
    let mut child = with_extend(
        Extend::Path("parent.toml".to_string()),
        tasks(vec![("C", task_with_command("c"))]),
    );
    child.env = Some(env(vec![("A", val("child"))]));
    let set = vec![file("./Makefile.toml", child), file("./parent.toml", parent)];
    let mut scripts = vec![];
    let r = load_external_descriptor(&set, ".", "Makefile.toml", true, "1.0.0", 2, &mut scripts)
        .unwrap();
    assert!(r.extend.is_none());
    assert_eq!(r.env, Some(env(vec![("A", val("child")), ("B", val("parent"))])));
    let names: Vec<String> = r.tasks.unwrap().iter().map(|(k, _)| k.clone()).collect();
    assert_eq!(names, vec!["P".to_string(), "C".to_string()]);
}

#[test]
fn cyclic_chain_is_reported() {
    let a = with_extend(Extend::Path("b.toml".to_string()), tasks(vec![]));
    let b = with_extend(Extend::Path("a.toml".to_string()), tasks(vec![]));
    let set = vec![file("./a.toml", a), file("./b.toml", b)];
    let mut scripts = vec![];
    let r = load_external_descriptor(&set, ".", "a.toml", true, "1.0.0", set.len(), &mut scripts);
    assert!(matches!(r, Err(LoadError::ExtendCycle(_))));
}

#[test]
fn version_and_decode_failures_surface() {
    let mut old = file("./Makefile.toml", ExternalConfig::new());
    old.text = "[config]\nmin_version = \"99.0.0\"\n".to_string();
    let mut scripts = vec![];
    let r = load_external_descriptor(&vec![old], ".", "Makefile.toml", true, "1.0.0", 1, &mut scripts);
    assert_eq!(r, Err(LoadError::VersionTooOld("99.0.0".to_string())));
    let bad = DescriptorFile {
        path: "./Makefile.toml".to_string(),
        absolute_path: "/work/Makefile.toml".to_string(),
        text: String::new(),
        decoded: Err("bad syntax".to_string()),
    };
    let r = load_external_descriptor(&vec![bad], ".", "Makefile.toml", true, "1.0.0", 1, &mut scripts);
    assert_eq!(r, Err(LoadError::DescriptorMalformed("bad syntax".to_string())));
}

#[test]
fn missing_optional_top_level_is_empty() {
    let mut scripts = vec![];
    let r = load_external_descriptor(&vec![], ".", "Makefile.toml", false, "1.0.0", 0, &mut scripts)
        .unwrap();
    assert_eq!(r, ExternalConfig::new());
}

#[test]
fn load_scripts_are_queued_in_order() {
    let mut parent = ExternalConfig::new();
    let mut section = ConfigSection::new();
    section.load_script = Some("parent-script".to_string());
    parent.config = Some(section);
    let mut child = with_extend(Extend::Path("parent.toml".to_string()), tasks(vec![]));
    let mut section = ConfigSection::new();
    section.load_script = Some("child-script".to_string());
    child.config = Some(section);
    assert!(run_load_script(&child, &mut vec![]));
    assert!(!run_load_script(&ExternalConfig::new(), &mut vec![]));
    let set = vec![file("./Makefile.toml", child), file("./parent.toml", parent)];
    let mut scripts = vec![];
    load_external_descriptor(&set, ".", "Makefile.toml", true, "1.0.0", 2, &mut scripts).unwrap();
    assert_eq!(scripts, vec!["child-script".to_string(), "parent-script".to_string()]);
}

#[test]
fn combinator_child_config_fields_win() {
    let mut child = ExternalConfig::new();
    let mut cs = ConfigSection::new();
    cs.init_task = Some("child-init".to_string());
    child.config = Some(cs);
    let mut parent = ExternalConfig::new();
    let mut ps = ConfigSection::new();
    ps.init_task = Some("parent-init".to_string());
    ps.end_task = Some("parent-end".to_string());
    parent.config = Some(ps);
    let r = merge_external_configs(child, parent);
    let c = r.config.unwrap();
    assert_eq!(c.init_task, Some("child-init".to_string()));
    assert_eq!(c.end_task, Some("parent-end".to_string()));
}

#[test]
fn cli_overrides_win_and_malformed_entries_are_dropped() {
    let mut base = empty_config();
    base.env = env(vec![("X", val("1"))]);
    let mut external = ExternalConfig::new();
    external.env = Some(env(vec![("X", val("2"))]));
    let cli = Some(vec!["X=3".to_string(), "NOVALUE".to_string()]);
    let r = merge_base_config_and_external_config(base, external, &cli, false);
    assert_eq!(r.env, env(vec![("X", val("3"))]));
}

#[test]
fn cli_entry_parsing() {
    assert_eq!(split_pair("A=1"), Some(("A".to_string(), "1".to_string())));
    assert_eq!(split_pair("A="), Some(("A".to_string(), "".to_string())));
    assert_eq!(split_pair("A=1=2"), None);
    assert_eq!(split_pair("NOVALUE"), None);
    let m = parse_cli_env(&vec!["A=1".to_string(), "B=2".to_string(), "A=3".to_string()]);
    assert_eq!(m, env(vec![("A", val("3")), ("B", val("2"))]));
}

#[test]
fn workspace_location_cases() {
    assert_eq!(
        workspace_location("/ws/Makefile.toml"),
        Some(("/ws".to_string(), "Makefile.toml".to_string()))
    );
    assert_eq!(workspace_location("/ws/"), Some(("/".to_string(), "ws".to_string())));
    assert_eq!(workspace_location("/ws/.."), None);
    assert_eq!(workspace_location("/"), None);
    assert_eq!(workspace_location("/ws/Makefile.toml/."), Some(("/ws".to_string(), "Makefile.toml".to_string())));
}

fn baseline() -> Baseline {
    let mut base = empty_config();
    base.tasks = tasks(vec![("core", task_with_env(vec![("CORE", val("base"))]))]);
    let mut stable = empty_config();
    stable.tasks = tasks(vec![
        ("core", task_with_env(vec![("CORE", val("stable"))])),
        ("extra", task_with_command("extra")),
    ]);
    stable.env = env(vec![("S", val("1"))]);
    let mut beta = empty_config();
    beta.tasks = tasks(vec![("beta", task_with_command("beta"))]);
    Baseline { base, stable, beta }
}

#[test]
fn load_merges_stable_baseline_and_reverts_marker_env() {
    let own = with_extend_none(tasks(vec![("core", Task::new())]));
    let set = vec![file("./Makefile.toml", own)];
    let r = load(&set, &baseline(), "Makefile.toml", true, None, true, &None, "1.0.0").unwrap();
    let names: Vec<String> = r.config.tasks.iter().map(|(k, _)| k.clone()).collect();
    assert_eq!(names, vec!["core".to_string(), "extra".to_string(), "beta".to_string()]);
    assert_eq!(r.config.tasks[0].1.env, Some(env(vec![("CORE", val("stable"))])));
    assert_eq!(r.config.env, env(vec![("S", val("1"))]));
    assert_eq!(r.makefile_path, Some("/work/Makefile.toml".to_string()));
    assert_eq!(r.namespace, "");
}

#[test]
fn load_skips_core_tasks_on_request() {
    let mut own = with_extend_none(tasks(vec![("mine", task_with_command("m"))]));
    let mut section = ConfigSection::new();
    section.skip_core_tasks = Some(true);
    own.config = Some(section);
    let set = vec![file("./Makefile.toml", own)];
    let cli = Some(vec!["K=v".to_string()]);
    let r = load(&set, &baseline(), "Makefile.toml", true, cli, false, &None, "1.0.0").unwrap();
    let names: Vec<String> = r.config.tasks.iter().map(|(k, _)| k.clone()).collect();
    assert_eq!(names, vec!["mine".to_string()]);
    assert_eq!(r.config.env, env(vec![("K", val("v"))]));
    assert_eq!(r.config.config.skip_core_tasks, Some(true));
}

#[test]
fn load_with_ineffective_modify_uses_stable_tier_with_reversion() {
    let mut own = with_extend_none(tasks(vec![("core", Task::new())]));
    let mut section = ConfigSection::new();
    section.modify_core_tasks = Some(ModifyConfig { private: Some(false), namespace: None });
    own.config = Some(section);
    let set = vec![file("./Makefile.toml", own)];
    let r = load(&set, &baseline(), "Makefile.toml", true, None, false, &None, "1.0.0").unwrap();
    let names: Vec<String> = r.config.tasks.iter().map(|(k, _)| k.clone()).collect();
    assert_eq!(names, vec!["core".to_string(), "extra".to_string()]);
    assert_eq!(r.config.tasks[0].1.env, Some(env(vec![("CORE", val("stable"))])));
    assert_eq!(r.namespace, "");
}

#[test]
fn task_merge_keeps_markers_over_empty_base_env() {
    let base = tasks(vec![("T", task_with_env(vec![]))]);
    let markers = || vec![(FILE_MARKER, val("/w/Makefile.toml")), (DIR_MARKER, val("/w"))];
    let extended = tasks(vec![("T", task_with_env(markers()))]);
    let merged = merge_tasks(&base, &extended, true);
    assert_eq!(merged[0].1.env, Some(env(markers())));
}

#[test]
fn parent_directory_follows_path_components() {
    assert_eq!(parent_directory("a/"), "");
    assert_eq!(parent_directory("a//b"), "a");
    assert_eq!(parent_directory("a/."), "");
    assert_eq!(parent_directory("a/b/."), "a");
    assert_eq!(parent_directory("./a"), ".");
    assert_eq!(parent_directory("/a/b/"), "/a");
    assert_eq!(parent_directory("a/.."), "a");
}

#[test]
fn load_namespaces_core_tasks() {
    let mut own = with_extend_none(tasks(vec![("mine", task_with_command("m"))]));
    let mut section = ConfigSection::new();
    section.modify_core_tasks =
        Some(ModifyConfig { private: Some(true), namespace: Some("core".to_string()) });
    own.config = Some(section);
    let set = vec![file("./Makefile.toml", own)];
    let r = load(&set, &baseline(), "Makefile.toml", true, None, false, &None, "1.0.0").unwrap();
    let names: Vec<String> = r.config.tasks.iter().map(|(k, _)| k.clone()).collect();
    assert_eq!(
        names,
        vec!["core::core".to_string(), "core::extra".to_string(), "mine".to_string()]
    );
    assert_eq!(r.config.tasks[0].1.private, Some(true));
    assert_eq!(r.namespace, "core");
    assert_eq!(r.namespace_prefix, "core::");
}

#[test]
fn load_layers_workspace_beneath_external() {
    let mut own = with_extend_none(tasks(vec![]));
    own.env = Some(env(vec![("A", val("member"))]));
    let mut ws = with_extend_none(tasks(vec![]));
    ws.env = Some(env(vec![("A", val("workspace")), ("W", val("1"))]));
    let set = vec![file("./Makefile.toml", own), file("/ws/Makefile.toml", ws)];
    let workspace = Some("/ws/Makefile.toml".to_string());
    let cli = Some(vec!["C=1".to_string()]);
    let r = load(&set, &baseline(), "Makefile.toml", true, cli, false, &workspace, "1.0.0")
        .unwrap();
    assert_eq!(r.config.env, env(vec![("S", val("1")), ("A", val("member")), ("W", val("1")), ("C", val("1"))]));
}

#[test]
fn load_fails_on_missing_forced_descriptor() {
    let r = load(&vec![], &baseline(), "Makefile.toml", true, None, false, &None, "1.0.0");
    assert_eq!(r, Err(LoadError::DescriptorMissing("./Makefile.toml".to_string())));
}

//! The extends chain: a descriptor, its ancestors, and their composition.
use vstd::prelude::*;
use vstd::string::*;
use crate::config::{
    combine_spec, empty_external, extend_view, external_view, merge_external_configs,
    opt_extend_view, options_target, Extend, ExtendView, ExternalConfig, ExternalView,
};
use crate::stamp::{add_file_location_info, parent_directory, parent_spec, stamp_spec};
use crate::version::{check_makefile_min_version, gate_spec, toml_min_version};

verus! {

/// A descriptor file that exists: where it was looked up, its canonical
/// path, its text, and what its text decodes to.
#[derive(Debug, PartialEq)]
pub struct DescriptorFile {
    pub path: String,
    pub absolute_path: String,
    pub text: String,
    pub decoded: Result<ExternalConfig, String>,
}

/// Why a load fails.
#[derive(Debug, Clone, PartialEq)]
pub enum LoadError {
    /// A descriptor that must exist does not.
    DescriptorMissing(String),
    /// A descriptor's text does not decode; the decoder's message.
    DescriptorMalformed(String),
    /// A descriptor needs a later tool version; the version it names.
    VersionTooOld(String),
    /// An extends chain leads back to a file it has already passed.
    ExtendCycle(String),
}

pub enum LoadErrorView {
    DescriptorMissing(Seq<char>),
    DescriptorMalformed(Seq<char>),
    VersionTooOld(Seq<char>),
    ExtendCycle(Seq<char>),
}

pub open spec fn error_view(e: LoadError) -> LoadErrorView {
    match e {
        LoadError::DescriptorMissing(s) => LoadErrorView::DescriptorMissing(s@),
        LoadError::DescriptorMalformed(s) => LoadErrorView::DescriptorMalformed(s@),
        LoadError::VersionTooOld(s) => LoadErrorView::VersionTooOld(s@),
        LoadError::ExtendCycle(s) => LoadErrorView::ExtendCycle(s@),
    }
}

/// What resolving yields: a configuration or an error, and the load
/// scripts met on the way, in the order they run.
pub struct Outcome {
    pub result: Result<ExternalView, LoadErrorView>,
    pub scripts: Seq<Seq<char>>,
}

pub open spec fn texts(s: Seq<String>) -> Seq<Seq<char>> {
    s.map_values(|x: String| x@)
}

/// Whether an executable result and script list agree with an outcome.
pub open spec fn matches_outcome(
    r: Result<ExternalConfig, LoadError>,
    before: Seq<String>,
    after: Seq<String>,
    o: Outcome,
) -> bool {
    &&& texts(after) == texts(before) + o.scripts
    &&& match (r, o.result) {
        (Ok(c), Ok(v)) => external_view(c) == v,
        (Err(e), Err(v)) => error_view(e) == v,
        _ => false,
    }
}

/// `name` taken relative to `dir`; an absolute name stands alone.
pub open spec fn join_spec(dir: Seq<char>, name: Seq<char>) -> Seq<char> {
    if name.len() > 0 && name[0] == '/' {
        name
    } else if dir.len() == 0 {
        name
    } else if dir.last() == '/' {
        dir + name
    } else {
        dir + seq!['/'] + name
    }
}

/// Index of the first file looked up as `p`, or -1.
pub open spec fn file_index(set: Seq<DescriptorFile>, p: Seq<char>) -> int
    decreases set.len(),
{
    if set.len() == 0 {
        -1
    } else {
        let r = file_index(set.drop_last(), p);
        if r >= 0 {
            r
        } else if set.last().path@ == p {
            set.len() - 1
        } else {
            -1
        }
    }
}

/// The load script a configuration declares, as a list of at most one.
pub open spec fn load_script_of(c: ExternalView) -> Seq<Seq<char>> {
    match c.config {
        Some(sec) => match sec.load_script {
            Some(x) => seq![x@],
            None => Seq::empty(),
        },
        None => Seq::empty(),
    }
}

/// Resolves the descriptor `name` relative to `dir`. A missing file is an
/// error when `force` holds and an empty configuration otherwise. A present
/// one passes the version gate, decodes, is stamped with its canonical path,
/// and, where it declares parents, is layered over their composition,
/// resolved relative to its own directory. `fuel` bounds the depth of the
/// chain: a chain deeper than the number of files present revisits one.
pub open spec fn resolve_file(
    set: Seq<DescriptorFile>,
    dir: Seq<char>,
    name: Seq<char>,
    force: bool,
    running: Seq<char>,
    fuel: nat,
) -> Outcome
    decreases fuel, 0nat,
{
    let path = join_spec(dir, name);
    let i = file_index(set, path);
    if i < 0 {
        if force {
            Outcome { result: Err(LoadErrorView::DescriptorMissing(path)), scripts: Seq::empty() }
        } else {
            Outcome { result: Ok(empty_external()), scripts: Seq::empty() }
        }
    } else if fuel == 0 {
        Outcome { result: Err(LoadErrorView::ExtendCycle(path)), scripts: Seq::empty() }
    } else {
        let f = set[i];
        match gate_spec(running, toml_min_version(f.text@)) {
            Some(v) => Outcome {
                result: Err(LoadErrorView::VersionTooOld(v)),
                scripts: Seq::empty(),
            },
            None => match f.decoded {
                Err(m) => Outcome {
                    result: Err(LoadErrorView::DescriptorMalformed(m@)),
                    scripts: Seq::empty(),
                },
                Ok(c) => {
                    let s = stamp_spec(external_view(c), f.absolute_path@);
                    let sc = load_script_of(s);
                    match opt_extend_view(c.extend) {
                        None => Outcome { result: Ok(s), scripts: sc },
                        Some(ev) => {
                            let o = resolve_extend(
                                set,
                                parent_spec(path),
                                ev,
                                running,
                                (fuel - 1) as nat,
                            );
                            Outcome {
                                result: match o.result {
                                    Ok(p) => Ok(combine_spec(s, p)),
                                    Err(e) => Err(e),
                                },
                                scripts: sc + o.scripts,
                            }
                        },
                    }
                },
            },
        }
    }
}

/// Resolves declared parents relative to `dir`.
pub open spec fn resolve_extend(
    set: Seq<DescriptorFile>,
    dir: Seq<char>,
    e: ExtendView,
    running: Seq<char>,
    fuel: nat,
) -> Outcome
    decreases fuel,
        match e {
            ExtendView::List(l) => l.len() + 1,
            _ => 1nat,
        },
{
    match e {
        ExtendView::Single(p, force) => resolve_file(set, dir, p, force, running, fuel),
        ExtendView::List(l) => resolve_list(set, dir, l, running, fuel),
    }
}

/// Resolves an ordered list of parents, each later one layered over the
/// composition of those before it.
pub open spec fn resolve_list(
    set: Seq<DescriptorFile>,
    dir: Seq<char>,
    entries: Seq<(Seq<char>, bool)>,
    running: Seq<char>,
    fuel: nat,
) -> Outcome
    decreases fuel, entries.len(),
{
    if entries.len() == 0 {
        Outcome { result: Ok(empty_external()), scripts: Seq::empty() }
    } else {
        let o1 = resolve_list(set, dir, entries.drop_last(), running, fuel);
        match o1.result {
            Err(_) => o1,
            Ok(acc) => {
                let o2 = resolve_file(
                    set,
                    dir,
                    entries.last().0,
                    entries.last().1,
                    running,
                    fuel,
                );
                Outcome {
                    result: match o2.result {
                        Ok(c) => Ok(combine_spec(c, acc)),
                        Err(e) => Err(e),
                    },
                    scripts: o1.scripts + o2.scripts,
                }
            },
        }
    }
}

/// `file_name` taken relative to `base_path`.
pub fn join_path(base_path: &str, file_name: &str) -> (r: String)
    ensures
        r@ == join_spec(base_path@, file_name@),
{
    let nl = file_name.unicode_len();
    let dl = base_path.unicode_len();
    if nl > 0 && file_name.get_char(0) == '/' {
        return String::from_str(file_name);
    }
    if dl == 0 {
        return String::from_str(file_name);
    }
    if base_path.get_char(dl - 1) == '/' {
        String::from_str(base_path).concat(file_name)
    } else {
        let sep = String::from_str(base_path).concat("/");
        proof {
            reveal_strlit("/");
        }
        assert(sep@ == base_path@ + seq!['/']);
        sep.concat(file_name)
    }
}

/// Position of the first file looked up as `p`.
pub fn find_file(set: &Vec<DescriptorFile>, p: &String) -> (r: Option<usize>)
    ensures
        match r {
            Some(i) => i < set.len() && i as int == file_index(set@, p@),
            None => file_index(set@, p@) == -1,
        },
{
    let mut i: usize = 0;
    while i < set.len()
        invariant
            i <= set.len(),
            file_index(set@.subrange(0, i as int), p@) == -1,
        decreases set.len() - i,
    {
        assert(set@.subrange(0, i + 1).drop_last() =~= set@.subrange(0, i as int));
        if set[i].path == *p {
            proof {
                lemma_file_index_prefix(set@, i + 1, p@);
            }
            return Some(i);
        }
        i = i + 1;
    }
    assert(set@.subrange(0, set.len() as int) =~= set@);
    None
}

proof fn lemma_file_index_prefix(set: Seq<DescriptorFile>, k: int, p: Seq<char>)
    requires
        0 <= k <= set.len(),
        file_index(set.subrange(0, k), p) >= 0,
    ensures
        file_index(set, p) == file_index(set.subrange(0, k), p),
    decreases set.len() - k,
{
    if k < set.len() {
        assert(set.subrange(0, k + 1).drop_last() =~= set.subrange(0, k));
        lemma_file_index_prefix(set, k + 1, p);
    } else {
        assert(set.subrange(0, k) =~= set);
    }
}

/// Queues the load script that a configuration declares, if any, and says
/// whether there was one.
pub fn run_load_script(external_config: &ExternalConfig, scripts: &mut Vec<String>) -> (r: bool)
    ensures
        texts(final(scripts)@) == texts(old(scripts)@) + load_script_of(
            external_view(*external_config),
        ),
        r == (load_script_of(external_view(*external_config)).len() > 0),
{
    match &external_config.config {
        Some(config) => match &config.load_script {
            Some(script) => {
                scripts.push(script.clone());
                assert(texts(scripts@) =~= texts(old(scripts)@) + seq![script@]);
                true
            },
            None => {
                assert(texts(scripts@) =~= texts(old(scripts)@) + Seq::<Seq<char>>::empty());
                false
            },
        },
        None => {
            assert(texts(scripts@) =~= texts(old(scripts)@) + Seq::<Seq<char>>::empty());
            false
        },
    }
}

/// Loads the descriptor `file_name` relative to `base_path` from the files
/// present, with its ancestors; see [`resolve_file`].
pub fn load_external_descriptor(
    set: &Vec<DescriptorFile>,
    base_path: &str,
    file_name: &str,
    force: bool,
    running: &str,
    fuel: usize,
    scripts: &mut Vec<String>,
) -> (r: Result<ExternalConfig, LoadError>)
    ensures
        matches_outcome(
            r,
            old(scripts)@,
            final(scripts)@,
            resolve_file(set@, base_path@, file_name@, force, running@, fuel as nat),
        ),
        r matches Ok(c) ==> c.extend is None,
    decreases fuel, 0usize,
{
    let ghost o = resolve_file(set@, base_path@, file_name@, force, running@, fuel as nat);
    let path = join_path(base_path, file_name);
    match find_file(set, &path) {
        None => {
            assert(texts(scripts@) =~= texts(scripts@) + Seq::<Seq<char>>::empty());
            if force {
                Err(LoadError::DescriptorMissing(path))
            } else {
                Ok(ExternalConfig::new())
            }
        },
        Some(i) => {
            assert(texts(scripts@) =~= texts(scripts@) + Seq::<Seq<char>>::empty());
            if fuel == 0 {
                return Err(LoadError::ExtendCycle(path));
            }
            let f = &set[i];
            match check_makefile_min_version(f.text.as_str(), running) {
                Err(v) => {
                    return Err(LoadError::VersionTooOld(v));
                },
                Ok(_) => {},
            }
            let decoded = match &f.decoded {
                Err(m) => {
                    return Err(LoadError::DescriptorMalformed(m.clone()));
                },
                Ok(c) => c.duplicate(),
            };
            let stamped = add_file_location_info(decoded, f.absolute_path.as_str());
            let ghost before = scripts@;
            run_load_script(&stamped, scripts);
            let ext = match &stamped.extend {
                Some(e) => Some(e.duplicate()),
                None => None,
            };
            match ext {
                None => Ok(stamped),
                Some(e) => {
                    let parent = parent_directory(path.as_str());
                    let ghost mid = scripts@;
                    let base = load_descriptor_extended_makefiles(
                        set,
                        parent.as_str(),
                        &e,
                        running,
                        fuel - 1,
                        scripts,
                    );
                    assert(texts(scripts@) == texts(before) + load_script_of(
                        external_view(stamped),
                    ) + resolve_extend(
                        set@,
                        parent_spec(path@),
                        extend_view(e),
                        running@,
                        (fuel - 1) as nat,
                    ).scripts);
                    assert(texts(scripts@) =~= texts(before) + (load_script_of(
                        external_view(stamped),
                    ) + resolve_extend(
                        set@,
                        parent_spec(path@),
                        extend_view(e),
                        running@,
                        (fuel - 1) as nat,
                    ).scripts));
                    match base {
                        Err(err) => Err(err),
                        Ok(b) => Ok(merge_external_configs(stamped, b)),
                    }
                },
            }
        },
    }
}

proof fn lemma_list_error_stays(
    set: Seq<DescriptorFile>,
    dir: Seq<char>,
    entries: Seq<(Seq<char>, bool)>,
    running: Seq<char>,
    fuel: nat,
    k: int,
)
    requires
        0 <= k <= entries.len(),
        resolve_list(set, dir, entries.subrange(0, k), running, fuel).result is Err,
    ensures
        resolve_list(set, dir, entries, running, fuel) == resolve_list(
            set,
            dir,
            entries.subrange(0, k),
            running,
            fuel,
        ),
    decreases entries.len() - k,
{
    if k < entries.len() {
        assert(entries.subrange(0, k + 1).drop_last() =~= entries.subrange(0, k));
        lemma_list_error_stays(set, dir, entries, running, fuel, k + 1);
    } else {
        assert(entries.subrange(0, k) =~= entries);
    }
}

/// Loads the parents that `extend_struct` declares, relative to
/// `parent_path`; see [`resolve_extend`].
pub fn load_descriptor_extended_makefiles(
    set: &Vec<DescriptorFile>,
    parent_path: &str,
    extend_struct: &Extend,
    running: &str,
    fuel: usize,
    scripts: &mut Vec<String>,
) -> (r: Result<ExternalConfig, LoadError>)
    ensures
        matches_outcome(
            r,
            old(scripts)@,
            final(scripts)@,
            resolve_extend(set@, parent_path@, extend_view(*extend_struct), running@, fuel as nat),
        ),
        r matches Ok(c) ==> c.extend is None,
    decreases fuel, 1usize,
{
    match extend_struct {
        Extend::Path(base_file) => load_external_descriptor(
            set,
            parent_path,
            base_file.as_str(),
            true,
            running,
            fuel,
            scripts,
        ),
        Extend::Options(extend_options) => {
            let optional = match extend_options.optional {
                Some(b) => b,
                None => false,
            };
            load_external_descriptor(
                set,
                parent_path,
                extend_options.path.as_str(),
                !optional,
                running,
                fuel,
                scripts,
            )
        },
        Extend::List(extend_list) => {
            let ghost entries = extend_list@.map_values(|o: crate::config::ExtendOptions| options_target(o));
            let ghost start = scripts@;
            let mut ordered_list_config = ExternalConfig::new();
            let mut i: usize = 0;
            assert(texts(scripts@) =~= texts(start) + Seq::<Seq<char>>::empty());
            let ghost whole = resolve_extend(set@, parent_path@, extend_view(*extend_struct), running@, fuel as nat);
            assert(whole == resolve_list(set@, parent_path@, entries, running@, fuel as nat));
            while i < extend_list.len()
                invariant
                    i <= extend_list.len(),
                    start == old(scripts)@,
                    whole == resolve_extend(set@, parent_path@, extend_view(*extend_struct), running@, fuel as nat),
                    whole == resolve_list(set@, parent_path@, entries, running@, fuel as nat),
                    entries == extend_list@.map_values(|o: crate::config::ExtendOptions| options_target(o)),
                    ordered_list_config.extend is None,
                    resolve_list(set@, parent_path@, entries.subrange(0, i as int), running@, fuel as nat).result
                        == Ok::<ExternalView, LoadErrorView>(external_view(ordered_list_config)),
                    texts(scripts@) == texts(start) + resolve_list(set@, parent_path@, entries.subrange(0, i as int), running@, fuel as nat).scripts,
                decreases extend_list.len() - i,
            {
                let entry = &extend_list[i];
                let optional = match entry.optional {
                    Some(b) => b,
                    None => false,
                };
                let ghost mid = scripts@;
                let r = load_external_descriptor(
                    set,
                    parent_path,
                    entry.path.as_str(),
                    !optional,
                    running,
                    fuel,
                    scripts,
                );
                proof {
                    let sub = entries.subrange(0, i + 1);
                    assert(sub.drop_last() =~= entries.subrange(0, i as int));
                    assert(sub.last() == options_target(*entry));
                }
                let ghost o1 = resolve_list(set@, parent_path@, entries.subrange(0, i as int), running@, fuel as nat);
                let ghost o2 = resolve_file(set@, parent_path@, entry.path@, !optional, running@, fuel as nat);
                assert(texts(scripts@) =~= texts(start) + (o1.scripts + o2.scripts));
                match r {
                    Err(e) => {
                        proof {
                            let sub = entries.subrange(0, i + 1);
                            assert(resolve_list(set@, parent_path@, sub, running@, fuel as nat).result
                                == Err::<ExternalView, LoadErrorView>(error_view(e)));
                            assert(resolve_list(set@, parent_path@, sub, running@, fuel as nat).scripts
                                == o1.scripts + o2.scripts);
                            lemma_list_error_stays(set@, parent_path@, entries, running@, fuel as nat, i + 1);
                        }
                        return Err(e);
                    },
                    Ok(entry_config) => {
                        ordered_list_config = merge_external_configs(entry_config, ordered_list_config);
                    },
                }
                i = i + 1;
            }
            assert(entries.subrange(0, extend_list.len() as int) =~= entries);
            Ok(ordered_list_config)
        },
    }
}

/// A present descriptor whose single parent is optional and missing
/// resolves to its own stamped configuration layered over nothing.
pub proof fn lemma_optional_missing_parent(
    set: Seq<DescriptorFile>,
    dir: Seq<char>,
    name: Seq<char>,
    force: bool,
    parent: Seq<char>,
    running: Seq<char>,
    fuel: nat,
)
    requires
        fuel >= 1,
        file_index(set, join_spec(dir, name)) >= 0,
        gate_spec(running, toml_min_version(set[file_index(set, join_spec(dir, name))].text@)) is None,
        set[file_index(set, join_spec(dir, name))].decoded is Ok,
        opt_extend_view(set[file_index(set, join_spec(dir, name))].decoded->Ok_0.extend) == Some(
            ExtendView::Single(parent, false),
        ),
        file_index(set, join_spec(parent_spec(join_spec(dir, name)), parent)) < 0,
    ensures
        resolve_file(set, dir, name, force, running, fuel).result == Ok::<
            ExternalView,
            LoadErrorView,
        >(
            combine_spec(
                stamp_spec(
                    external_view(set[file_index(set, join_spec(dir, name))].decoded->Ok_0),
                    set[file_index(set, join_spec(dir, name))].absolute_path@,
                ),
                empty_external(),
            ),
        ),
{
    let path = join_spec(dir, name);
    let pdir = parent_spec(path);
    assert(resolve_extend(set, pdir, ExtendView::Single(parent, false), running, (fuel - 1) as nat)
        == resolve_file(set, pdir, parent, false, running, (fuel - 1) as nat));
}

/// A present descriptor whose single parent is required and missing fails
/// with that parent's path as the missing descriptor.
pub proof fn lemma_required_missing_parent(
    set: Seq<DescriptorFile>,
    dir: Seq<char>,
    name: Seq<char>,
    force: bool,
    parent: Seq<char>,
    running: Seq<char>,
    fuel: nat,
)
    requires
        fuel >= 1,
        file_index(set, join_spec(dir, name)) >= 0,
        gate_spec(running, toml_min_version(set[file_index(set, join_spec(dir, name))].text@)) is None,
        set[file_index(set, join_spec(dir, name))].decoded is Ok,
        opt_extend_view(set[file_index(set, join_spec(dir, name))].decoded->Ok_0.extend) == Some(
            ExtendView::Single(parent, true),
        ),
        file_index(set, join_spec(parent_spec(join_spec(dir, name)), parent)) < 0,
    ensures
        resolve_file(set, dir, name, force, running, fuel).result == Err::<
            ExternalView,
            LoadErrorView,
        >(
            LoadErrorView::DescriptorMissing(
                join_spec(parent_spec(join_spec(dir, name)), parent),
            ),
        ),
{
    let path = join_spec(dir, name);
    let pdir = parent_spec(path);
    assert(resolve_extend(set, pdir, ExtendView::Single(parent, true), running, (fuel - 1) as nat)
        == resolve_file(set, pdir, parent, true, running, (fuel - 1) as nat));
}

/// An ordered list of two parents that both resolve is the second layered
/// over the first, which is layered over nothing: wherever both define a
/// task, the second's set fields override the first's field by field.
pub proof fn lemma_ordered_pair(
    set: Seq<DescriptorFile>,
    dir: Seq<char>,
    first: (Seq<char>, bool),
    second: (Seq<char>, bool),
    running: Seq<char>,
    fuel: nat,
)
    requires
        resolve_file(set, dir, first.0, first.1, running, fuel).result is Ok,
        resolve_file(set, dir, second.0, second.1, running, fuel).result is Ok,
    ensures
        resolve_list(set, dir, seq![first, second], running, fuel).result == Ok::<
            ExternalView,
            LoadErrorView,
        >(
            combine_spec(
                resolve_file(set, dir, second.0, second.1, running, fuel).result->Ok_0,
                combine_spec(
                    resolve_file(set, dir, first.0, first.1, running, fuel).result->Ok_0,
                    empty_external(),
                ),
            ),
        ),
{
    let l = seq![first, second];
    let one = seq![first];
    assert(l.drop_last() =~= one);
    assert(l.last() == second);
    assert(one.drop_last() =~= Seq::<(Seq<char>, bool)>::empty());
    assert(one.last() == first);
    let empty = Seq::<(Seq<char>, bool)>::empty();
    assert(resolve_list(set, dir, empty, running, fuel).result == Ok::<ExternalView, LoadErrorView>(
        empty_external(),
    ));
    let ra = resolve_file(set, dir, first.0, first.1, running, fuel).result->Ok_0;
    assert(resolve_list(set, dir, one, running, fuel).result == Ok::<ExternalView, LoadErrorView>(
        combine_spec(ra, empty_external()),
    ));
}

} // verus!

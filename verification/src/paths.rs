use vstd::prelude::*;
use crate::errors::FailureKind;

verus! {

/// A directory and a name joined with the path separator.
pub open spec fn spec_join(dir: Seq<char>, name: Seq<char>) -> Seq<char> {
    dir + seq!['/'] + name
}

/// Joins a directory and a relative name with the path separator.
pub fn join_path(dir: &str, name: &str) -> (r: String)
    ensures
        r@ == spec_join(dir@, name@),
{
    let mut s = String::from_str(dir);
    s.append("/");
    s.append(name);
    proof {
        reveal_strlit("/");
        assert("/"@ =~= seq!['/']);
        assert(s@ =~= spec_join(dir@, name@));
    }
    s
}

/// The bundled layout relative to one anchor directory: the worker runtime,
/// the entry script, and the working directory for the spawned process.
pub fn resolve_paths(exe_dir: &str) -> (r: (String, String, String))
    ensures
        r.0@ == spec_join(spec_join(exe_dir@, "python-runtime"@), "python.exe"@),
        r.1@ == spec_join(spec_join(exe_dir@, "backend"@), "main.py"@),
        r.2@ == spec_join(exe_dir@, "backend"@),
{
    let runtime_dir = join_path(exe_dir, "python-runtime");
    let python_exe = join_path(runtime_dir.as_str(), "python.exe");
    let backend_dir = join_path(exe_dir, "backend");
    let script = join_path(backend_dir.as_str(), "main.py");
    let workdir = join_path(exe_dir, "backend");
    (python_exe, script, workdir)
}

/// The index of the last path separator in `s`, or -1 if there is none.
pub open spec fn spec_last_sep(s: Seq<char>) -> int
    decreases s.len(),
{
    if s.len() == 0 {
        -1
    } else if s.last() == '/' {
        s.len() - 1
    } else {
        spec_last_sep(s.drop_last())
    }
}

proof fn lemma_last_sep_bounds(s: Seq<char>)
    ensures
        -1 <= spec_last_sep(s) < s.len(),
    decreases s.len(),
{
    if s.len() > 0 && s.last() != '/' {
        lemma_last_sep_bounds(s.drop_last());
    }
}

proof fn lemma_last_sep_no_sep_after(s: Seq<char>, k: int)
    requires
        0 <= k <= s.len(),
        forall|j: int| k <= j < s.len() ==> s[j] != '/',
    ensures
        spec_last_sep(s) == spec_last_sep(s.take(k)),
    decreases s.len() - k,
{
    if k < s.len() {
        lemma_last_sep_no_sep_after(s, k + 1);
        assert(s.take(k + 1).drop_last() =~= s.take(k));
        assert(s.take(k + 1).last() == s[k]);
    } else {
        assert(s.take(k) =~= s);
    }
}

/// The parent directory of a path: everything before the last separator.
/// A path without a separator has no parent here.
pub open spec fn spec_parent(p: Seq<char>) -> Option<Seq<char>> {
    if spec_last_sep(p) >= 0 {
        Some(p.take(spec_last_sep(p)))
    } else {
        None
    }
}

/// The parent directory of `p`, or None when `p` holds no separator.
pub fn parent_dir(p: &str) -> (r: Option<String>)
    ensures
        match r {
            Some(d) => spec_parent(p@) == Some(d@),
            None => spec_parent(p@) is None,
        },
{
    let len = p.unicode_len();
    let mut i: usize = len;
    while i > 0
        invariant
            len == p@.len(),
            i <= len,
            forall|j: int| i <= j < len ==> p@[j] != '/',
        decreases i,
    {
        if p.get_char(i - 1) == '/' {
            let d = p.substring_char(0, i - 1);
            proof {
                lemma_last_sep_no_sep_after(p@, i as int);
                assert(p@.take(i as int).last() == p@[i - 1]);
                assert(spec_last_sep(p@) == i - 1);
                assert(d@ =~= p@.take(i - 1));
            }
            return Some(String::from_str(d));
        }
        i -= 1;
    }
    proof {
        lemma_last_sep_no_sep_after(p@, 0);
        assert(p@.take(0) =~= Seq::<char>::empty());
    }
    None
}

/// Every proper ancestor directory of `p`, nearest first.
pub open spec fn spec_ancestors(p: Seq<char>) -> Seq<Seq<char>>
    decreases p.len(),
    via spec_ancestors_decreases
{
    match spec_parent(p) {
        Some(q) => seq![q] + spec_ancestors(q),
        None => Seq::<Seq<char>>::empty(),
    }
}

#[via_fn]
proof fn spec_ancestors_decreases(p: Seq<char>) {
    lemma_last_sep_bounds(p);
}

fn push_ancestors(r: &mut Vec<String>, cur: &str)
    ensures
        final(r)@.map_values(|s: String| s@) == old(r)@.map_values(|s: String| s@)
            + spec_ancestors(cur@),
    decreases cur@.len(),
{
    proof {
        lemma_last_sep_bounds(cur@);
    }
    match parent_dir(cur) {
        Some(d) => {
            r.push(d.clone());
            proof {
                assert(r@.map_values(|s: String| s@) =~= old(r)@.map_values(|s: String| s@).push(
                    d@,
                ));
            }
            push_ancestors(r, d.as_str());
            proof {
                assert(old(r)@.map_values(|s: String| s@).push(d@) + spec_ancestors(d@) =~= old(
                    r,
                )@.map_values(|s: String| s@) + spec_ancestors(cur@));
            }
        },
        None => {
            proof {
                assert(old(r)@.map_values(|s: String| s@) + spec_ancestors(cur@) =~= old(
                    r,
                )@.map_values(|s: String| s@));
            }
        },
    }
}

/// The parent of `d` as a zero- or one-element sequence.
pub open spec fn spec_opt_parent_seq(d: Seq<char>) -> Seq<Seq<char>> {
    match spec_parent(d) {
        Some(q) => seq![q],
        None => Seq::<Seq<char>>::empty(),
    }
}

/// The anchor directories probed for an artifact, in priority order: the
/// executable-adjacent directory, the packaged resource directory, that
/// directory's parent, the process working directory, and then every
/// ancestor of the working directory, nearest first.
pub open spec fn spec_search_dirs(exe_dir: Seq<char>, resource_dir: Seq<char>, cwd: Seq<char>)
    -> Seq<Seq<char>> {
    seq![exe_dir, resource_dir] + spec_opt_parent_seq(resource_dir) + seq![cwd] + spec_ancestors(
        cwd,
    )
}

/// Builds the prioritized anchor directories for candidate probing.
pub fn search_dirs(exe_dir: &str, resource_dir: &str, cwd: &str) -> (r: Vec<String>)
    ensures
        r@.map_values(|s: String| s@) == spec_search_dirs(exe_dir@, resource_dir@, cwd@),
{
    let mut r: Vec<String> = Vec::new();
    r.push(String::from_str(exe_dir));
    r.push(String::from_str(resource_dir));
    match parent_dir(resource_dir) {
        Some(d) => r.push(d),
        None => {},
    }
    r.push(String::from_str(cwd));
    proof {
        assert(r@.map_values(|s: String| s@) =~= seq![exe_dir@, resource_dir@]
            + spec_opt_parent_seq(resource_dir@) + seq![cwd@]);
    }
    push_ancestors(&mut r, cwd);
    proof {
        assert((seq![exe_dir@, resource_dir@] + spec_opt_parent_seq(resource_dir@) + seq![cwd@])
            + spec_ancestors(cwd@) =~= spec_search_dirs(exe_dir@, resource_dir@, cwd@));
    }
    r
}

/// Each anchor directory joined with the artifact's fixed relative path.
pub fn artifact_candidates(dirs: &Vec<String>, rel: &str) -> (r: Vec<String>)
    ensures
        r@.len() == dirs@.len(),
        forall|i: int| 0 <= i < r@.len() ==> r@[i]@ == spec_join(dirs@[i]@, rel@),
{
    let mut r: Vec<String> = Vec::new();
    let mut i: usize = 0;
    while i < dirs.len()
        invariant
            i <= dirs@.len(),
            r@.len() == i,
            forall|j: int| 0 <= j < i ==> r@[j]@ == spec_join(dirs@[j]@, rel@),
        decreases dirs@.len() - i,
    {
        r.push(join_path(dirs[i].as_str(), rel));
        i += 1;
    }
    r
}

/// One probed location for an artifact: the full path and whether a file
/// exists there, as reported by the caller's filesystem probe.
pub struct Candidate {
    pub path: String,
    pub exists: bool,
}

/// The index of the first existing candidate, or None when none exists.
pub open spec fn spec_first_existing(s: Seq<Candidate>) -> Option<int>
    decreases s.len(),
{
    if s.len() == 0 {
        None
    } else if s[0].exists {
        Some(0)
    } else {
        match spec_first_existing(s.skip(1)) {
            Some(i) => Some(i + 1),
            None => None,
        }
    }
}

/// The index of the first existing candidate, in priority order: a chosen
/// candidate exists and every higher-priority one does not.
pub fn first_existing(cands: &Vec<Candidate>) -> (r: Option<usize>)
    ensures
        match r {
            Some(i) => spec_first_existing(cands@) == Some(i as int) && i < cands@.len()
                && cands@[i as int].exists && (forall|j: int| 0 <= j < i ==> !cands@[j].exists),
            None => spec_first_existing(cands@) is None && (forall|j: int|
                0 <= j < cands@.len() ==> !cands@[j].exists),
        },
{
    let mut i: usize = 0;
    proof {
        assert(cands@.skip(0) =~= cands@);
    }
    while i < cands.len()
        invariant
            i <= cands@.len(),
            forall|j: int| 0 <= j < i ==> !cands@[j].exists,
            spec_first_existing(cands@) == match spec_first_existing(cands@.skip(i as int)) {
                Some(k) => Some(k + i),
                None => None::<int>,
            },
        decreases cands@.len() - i,
    {
        proof {
            assert(cands@.skip(i as int)[0] == cands@[i as int]);
            assert(cands@.skip(i as int).skip(1) =~= cands@.skip(i + 1));
        }
        if cands[i].exists {
            return Some(i);
        }
        i += 1;
    }
    proof {
        assert(cands@.skip(cands@.len() as int) =~= Seq::<Candidate>::empty());
    }
    None
}

/// The highest-priority existing candidate's path, or the fatal resolution
/// failure when no candidate location holds the artifact.
pub fn resolve_artifact(cands: &Vec<Candidate>) -> (r: Result<String, FailureKind>)
    ensures
        match r {
            Ok(p) => exists|i: int|
                0 <= i < cands@.len() && #[trigger] cands@[i].exists && p == cands@[i].path && (
                forall|j: int| 0 <= j < i ==> !cands@[j].exists),
            Err(e) => e == FailureKind::PathResolution && (forall|j: int|
                0 <= j < cands@.len() ==> !(#[trigger] cands@[j].exists)),
        },
{
    match first_existing(cands) {
        Some(i) => {
            let p = cands[i].path.clone();
            proof {
                assert(cands@[i as int].exists);
            }
            Ok(p)
        },
        None => Err(FailureKind::PathResolution),
    }
}

/// Everything path resolution owes the spawn: the chosen worker runtime,
/// the chosen entry artifact, and the working directory for the worker.
pub struct ResolvedWorker {
    pub runtime: String,
    pub entry: String,
    pub workdir: String,
}

/// Full path resolution: the highest-priority existing candidate for each of
/// the two required artifacts, with the working directory derived as the
/// parent of the resolved entry artifact. Fails with the fatal resolution
/// error exactly when either artifact exists at no candidate location (or
/// the chosen entry path holds no separator to take a parent from).
pub fn resolve_worker(runtime_cands: &Vec<Candidate>, entry_cands: &Vec<Candidate>) -> (r: Result<
    ResolvedWorker,
    FailureKind,
>)
    ensures
        match r {
            Ok(w) => {
                &&& spec_first_existing(runtime_cands@) matches Some(i) && w.runtime
                    == runtime_cands@[i].path
                &&& spec_first_existing(entry_cands@) matches Some(k) && w.entry
                    == entry_cands@[k].path
                &&& spec_parent(w.entry@) == Some(w.workdir@)
            },
            Err(e) => {
                &&& e == FailureKind::PathResolution
                &&& {
                    ||| spec_first_existing(runtime_cands@) is None
                    ||| spec_first_existing(entry_cands@) is None
                    ||| (spec_first_existing(entry_cands@) matches Some(k) && spec_parent(
                        entry_cands@[k].path@,
                    ) is None)
                }
            },
        },
{
    let runtime = match first_existing(runtime_cands) {
        Some(i) => runtime_cands[i].path.clone(),
        None => {
            return Err(FailureKind::PathResolution);
        },
    };
    let entry = match first_existing(entry_cands) {
        Some(i) => entry_cands[i].path.clone(),
        None => {
            return Err(FailureKind::PathResolution);
        },
    };
    let workdir = match parent_dir(entry.as_str()) {
        Some(d) => d,
        None => {
            return Err(FailureKind::PathResolution);
        },
    };
    Ok(ResolvedWorker { runtime, entry, workdir })
}

} // verus!

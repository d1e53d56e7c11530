//! Finding the `codex` executable that serves the App Server.
use crate::text::{contains, has_infix};
use vstd::prelude::*;

verus! {

/// The name of the executable `name` on this platform: `name` followed by
/// the platform's executable suffix (empty on Unix, `.exe` on Windows).
pub fn executable_name(name: &str, exe_suffix: &str) -> (r: String)
    ensures
        r@ == name@ + exe_suffix@,
{
    let mut r = name.to_owned();
    r.append(exe_suffix);
    r
}

/// Whether `path` names a regular file. This asks the file system, so the
/// answer depends on the machine and the moment.
#[verifier::external_body]
pub fn is_executable_file(path: &str) -> bool {
    std::path::Path::new(path).is_file()
}

/// The path `file` inside the directory `dir`, as the platform joins paths.
pub uninterp spec fn joined_path(dir: Seq<char>, file: Seq<char>) -> Seq<char>;

/// `Path::join`: the path `file` inside the directory `dir`. Both are UTF-8,
/// so the joined path is too, and is given as a string without loss.
#[verifier::external_body]
fn join_path(dir: &str, file: &str) -> (r: String)
    ensures
        r@ == joined_path(dir@, file@),
{
    std::path::Path::new(dir).join(file).to_string_lossy().into_owned()
}

/// Whether `a` and `b` name the same path, as `Path`'s `==` compares them:
/// component by component, so that a doubled or trailing separator does not
/// make two paths differ.
pub uninterp spec fn same_path(a: Seq<char>, b: Seq<char>) -> bool;

/// `Path == Path`: whether `a` and `b` name the same path.
#[verifier::external_body]
fn paths_equal(a: &str, b: &str) -> (r: bool)
    ensures
        r == same_path(a@, b@),
{
    std::path::Path::new(a) == std::path::Path::new(b)
}

/// Some path of `paths` is the same path as `p`.
pub open spec fn holds_path(paths: Seq<Seq<char>>, p: Seq<char>) -> bool {
    exists|k: int| 0 <= k < paths.len() && #[trigger] same_path(paths[k], p)
}

/// Whether some path of `paths` is the same path as `p`.
fn contains_path(paths: &Vec<String>, p: &str) -> (r: bool)
    ensures
        r == holds_path(paths.deep_view(), p@),
{
    let mut i: usize = 0;
    while i < paths.len()
        invariant
            i <= paths@.len(),
            forall|k: int| 0 <= k < i ==> !same_path(#[trigger] paths.deep_view()[k], p@),
        decreases paths@.len() - i,
    {
        if paths_equal(paths[i].as_str(), p) {
            assert(same_path(paths.deep_view()[i as int], p@));
            return true;
        }
        i = i + 1;
    }
    false
}

/// The candidates among `paths` that `found` marks as files, each path once
/// (a path equal as a path to an earlier one is left out), in the order of
/// their first occurrence.
pub open spec fn candidates_of(paths: Seq<Seq<char>>, found: Seq<bool>) -> Seq<Seq<char>>
    recommends
        paths.len() == found.len(),
    decreases paths.len(),
{
    if paths.len() == 0 || found.len() == 0 {
        Seq::empty()
    } else {
        let rest = candidates_of(paths.drop_last(), found.drop_last());
        if found.last() && !holds_path(rest, paths.last()) {
            rest.push(paths.last())
        } else {
            rest
        }
    }
}

/// The path of the executable `exe` in each directory of `dirs`, in order.
pub open spec fn paths_in(dirs: Seq<Seq<char>>, exe: Seq<char>) -> Seq<Seq<char>> {
    dirs.map_values(|d: Seq<char>| joined_path(d, exe))
}

/// The candidates among `paths` that `found` marks as files, each once.
pub fn select_candidates(paths: &Vec<String>, found: &Vec<bool>) -> (r: Vec<String>)
    requires
        paths@.len() == found@.len(),
    ensures
        r.deep_view() == candidates_of(paths.deep_view(), found@),
{
    let ghost p = paths.deep_view();
    let mut r: Vec<String> = Vec::new();
    let mut i: usize = 0;
    assert(r.deep_view() =~= Seq::<Seq<char>>::empty());
    assert(candidates_of(p.take(0), found@.take(0)) == Seq::<Seq<char>>::empty());
    while i < paths.len()
        invariant
            p == paths.deep_view(),
            p.len() == found@.len(),
            i <= p.len(),
            r.deep_view() == candidates_of(p.take(i as int), found@.take(i as int)),
        decreases p.len() - i,
    {
        assert(p.take(i + 1).drop_last() =~= p.take(i as int));
        assert(found@.take(i + 1).drop_last() =~= found@.take(i as int));
        assert(p.take(i + 1).last() == p[i as int]);
        assert(found@.take(i + 1).last() == found@[i as int]);
        if found[i] && !contains_path(&r, paths[i].as_str()) {
            let ghost before = r.deep_view();
            r.push(paths[i].clone());
            assert(r.deep_view() =~= before.push(p[i as int]));
        }
        i = i + 1;
    }
    assert(p.take(p.len() as int) =~= p);
    assert(found@.take(p.len() as int) =~= found@);
    r
}

/// The `codex` executables in the directories `path_dirs` of the search
/// path, each path once, in search order. Which paths are files depends on the
/// file system at the moment of the call; the result is the candidates for
/// one outcome of asking.
pub fn codex_candidates(path_dirs: &Vec<String>, exe_suffix: &str) -> (r: Vec<String>)
    ensures
        exists|found: Seq<bool>|
            found.len() == path_dirs@.len() && r.deep_view() == candidates_of(
                #[trigger] paths_in(path_dirs.deep_view(), "codex"@ + exe_suffix@),
                found,
            ),
{
    let exe = executable_name("codex", exe_suffix);
    let ghost dirs = path_dirs.deep_view();
    let mut paths: Vec<String> = Vec::new();
    let mut found: Vec<bool> = Vec::new();
    let mut i: usize = 0;
    while i < path_dirs.len()
        invariant
            dirs == path_dirs.deep_view(),
            exe@ == "codex"@ + exe_suffix@,
            i <= dirs.len(),
            paths@.len() == i,
            found@.len() == i,
            paths.deep_view() == paths_in(dirs, exe@).take(i as int),
        decreases dirs.len() - i,
    {
        let candidate = join_path(path_dirs[i].as_str(), exe.as_str());
        let is_file = is_executable_file(candidate.as_str());
        let ghost before = paths.deep_view();
        paths.push(candidate);
        found.push(is_file);
        assert(paths.deep_view() =~= paths_in(dirs, exe@).take(i + 1));
        i = i + 1;
    }
    assert(paths_in(dirs, exe@).take(dirs.len() as int) =~= paths_in(dirs, exe@));
    select_candidates(&paths, &found)
}

/// The help of `codex app-server` names the stdio transport: the command
/// succeeded and its output shows the usage and `--stdio`.
pub open spec fn help_shows_app_server(success: bool, stdout: Seq<char>) -> bool {
    &&& success
    &&& has_infix(stdout, "Usage: codex app-server"@)
    &&& has_infix(stdout, "--stdio"@)
}

/// Whether the answer of `codex app-server --help` shows that the binary
/// serves the App Server.
pub fn help_supports_app_server(success: bool, stdout: &str) -> (r: bool)
    ensures
        r == help_shows_app_server(success, stdout@),
{
    success && contains(stdout, "Usage: codex app-server") && contains(stdout, "--stdio")
}

/// The error for a binary named by `CODEX_DASHBOARD_CODEX` that does not serve the App Server.
pub open spec fn override_error(path: Seq<char>) -> Seq<char> {
    "CODEX_DASHBOARD_CODEX does not support `codex app-server`: "@ + path
}

/// The error when no candidate serves the App Server; `rejected` are the
/// candidates tried.
pub open spec fn no_binary_error(rejected: Seq<Seq<char>>) -> Seq<char> {
    if rejected.len() == 0 {
        "No codex binary found on PATH"@
    } else {
        "No codex binary on PATH supports `codex app-server`. Checked: "@ + crate::app_server::joined(
            rejected,
            ", "@,
        )
    }
}

/// The `codex` binary to run: the one that `CODEX_DASHBOARD_CODEX` names
/// where that is set and non-empty, else the first of `candidates` that
/// serves the App Server. `supports` asks a binary whether it does; what it
/// answers depends on the machine, so the contract speaks of the answers it
/// may give.
pub fn resolve_codex_binary<F: Fn(&String) -> bool>(
    env_override: Option<String>,
    candidates: &Vec<String>,
    supports: F,
) -> (r: Result<String, String>)
    requires
        forall|p: &String| supports.requires((p,)),
    ensures
        match env_override {
            Some(o) if o@.len() > 0 => match r {
                Ok(p) => p@ == o@ && supports.ensures((&o,), true),
                Err(m) => m@ == override_error(o@) && supports.ensures((&o,), false),
            },
            _ => match r {
                Ok(p) => exists|i: int|
                    0 <= i < candidates@.len() && p@ == candidates@[i]@ && supports.ensures(
                        (&candidates@[i],),
                        true,
                    ) && forall|k: int|
                        0 <= k < i ==> supports.ensures((#[trigger] &candidates@[k],), false),
                Err(m) => m@ == no_binary_error(candidates.deep_view()) && forall|k: int|
                    0 <= k < candidates@.len() ==> supports.ensures(
                        (#[trigger] &candidates@[k],),
                        false,
                    ),
            },
        },
{
    match env_override {
        Some(path) if path.unicode_len() > 0 => {
            if supports(&path) {
                Ok(path)
            } else {
                let mut m = "CODEX_DASHBOARD_CODEX does not support `codex app-server`: ".to_owned();
                m.append(path.as_str());
                Err(m)
            }
        },
        _ => {
            let mut i: usize = 0;
            while i < candidates.len()
                invariant
                    forall|p: &String| supports.requires((p,)),
                    !(env_override matches Some(o) && o@.len() > 0),
                    i <= candidates@.len(),
                    forall|k: int|
                        0 <= k < i ==> supports.ensures((#[trigger] &candidates@[k],), false),
                decreases candidates@.len() - i,
            {
                if supports(&candidates[i]) {
                    return Ok(candidates[i].clone());
                }
                i = i + 1;
            }
            if candidates.len() == 0 {
                assert(candidates.deep_view().len() == 0);
                Err("No codex binary found on PATH".to_owned())
            } else {
                let mut m = "No codex binary on PATH supports `codex app-server`. Checked: ".to_owned();
                let mut k: usize = 0;
                let ghost d = candidates.deep_view();
                let mut joined = String::new();
                assert(d.take(0) =~= Seq::<Seq<char>>::empty());
                while k < candidates.len()
                    invariant
                        d == candidates.deep_view(),
                        k <= d.len(),
                        joined@ == crate::app_server::joined(d.take(k as int), ", "@),
                    decreases d.len() - k,
                {
                    assert(d.take(k + 1).drop_last() =~= d.take(k as int));
                    if k > 0 {
                        joined.append(", ");
                    }
                    joined.append(candidates[k].as_str());
                    proof {
                        if k == 0 {
                            assert(joined@ =~= d.take(1)[0]);
                        }
                    }
                    k = k + 1;
                }
                assert(d.take(d.len() as int) =~= d);
                m.append(joined.as_str());
                Err(m)
            }
        },
    }
}

} // verus!

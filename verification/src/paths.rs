//! Where the platform keeps its data and looks for the UI build.
use vstd::prelude::*;

use crate::error::AppError;
use crate::text::{opt_view, views};

verus! {

/// The operating systems whose conventions for data directories differ.
#[derive(Debug, Clone, Copy, PartialEq, Eq, Structural)]
pub enum Platform {
    MacOs,
    Windows,
    Other,
}

/// A path given as a base path and the segments joined to it, in order.
#[derive(Debug)]
pub struct PathSpec {
    pub base: String,
    pub segments: Vec<String>,
}

/// A path by its texts: the base and the segments.
pub type PathView = (Seq<char>, Seq<Seq<char>>);

/// The meaning of a path.
pub open spec fn path_view(p: PathSpec) -> PathView {
    (p.base@, views(p.segments@))
}

/// The meaning of an optional path.
pub open spec fn opt_path_view(p: Option<PathSpec>) -> Option<PathView> {
    match p {
        Some(x) => Some(path_view(x)),
        None => None,
    }
}

/// An environment value as a path: only when it is set and not empty.
pub open spec fn env_path_spec(value: Option<Seq<char>>) -> Option<Seq<char>> {
    match value {
        Some(v) => if v.len() > 0 {
            Some(v)
        } else {
            None
        },
        None => None,
    }
}

/// An environment value as a path: only when it is set and not empty.
pub fn env_path(value: Option<String>) -> (r: Option<String>)
    ensures
        match r {
            Some(p) => env_path_spec(opt_view(value)) == Some(p@),
            None => env_path_spec(opt_view(value)) is None,
        },
{
    match value {
        Some(v) => if v.as_str().is_empty() {
            None
        } else {
            Some(v)
        },
        None => None,
    }
}

/// The data directory of the platform, from the values of `HOME`,
/// `APPDATA` and `XDG_DATA_HOME` (each only when set and not empty):
/// `~/Library/Application Support/Conjure` on macOS, `%APPDATA%/Conjure`
/// on Windows, and `$XDG_DATA_HOME/conjure` or `~/.local/share/conjure`
/// elsewhere.
pub open spec fn data_dir_of(
    platform: Platform,
    home: Option<Seq<char>>,
    appdata: Option<Seq<char>>,
    xdg_data_home: Option<Seq<char>>,
) -> Option<PathView> {
    match platform {
        Platform::MacOs => match home {
            Some(h) => Some((h, seq!["Library"@, "Application Support"@, "Conjure"@])),
            None => None,
        },
        Platform::Windows => match appdata {
            Some(a) => Some((a, seq!["Conjure"@])),
            None => None,
        },
        Platform::Other => match xdg_data_home {
            Some(x) => Some((x, seq!["conjure"@])),
            None => match home {
                Some(h) => Some((h, seq![".local"@, "share"@, "conjure"@])),
                None => None,
            },
        },
    }
}

fn segments(parts: &[&str]) -> (r: Vec<String>)
    ensures
        r@.len() == parts@.len(),
        forall|i: int| 0 <= i < parts@.len() ==> (#[trigger] r@[i])@ == parts@[i]@,
{
    let mut r: Vec<String> = Vec::new();
    let mut i: usize = 0;
    while i < parts.len()
        invariant
            i <= parts@.len(),
            r@.len() == i,
            forall|k: int| 0 <= k < i ==> (#[trigger] r@[k])@ == parts@[k]@,
        decreases parts@.len() - i,
    {
        r.push(String::from_str(parts[i]));
        i = i + 1;
    }
    r
}

/// The data directory of the platform.
pub fn platform_data_dir(
    platform: Platform,
    home: Option<String>,
    appdata: Option<String>,
    xdg_data_home: Option<String>,
) -> (r: Option<PathSpec>)
    ensures
        match r {
            Some(p) => data_dir_of(
                platform,
                env_path_spec(opt_view(home)),
                env_path_spec(opt_view(appdata)),
                env_path_spec(opt_view(xdg_data_home)),
            ) == Some(path_view(p)),
            None => data_dir_of(
                platform,
                env_path_spec(opt_view(home)),
                env_path_spec(opt_view(appdata)),
                env_path_spec(opt_view(xdg_data_home)),
            ) is None,
        },
{
    let home = env_path(home);
    let appdata = env_path(appdata);
    let xdg = env_path(xdg_data_home);
    match platform {
        Platform::MacOs => match home {
            Some(h) => {
                let s = segments(&["Library", "Application Support", "Conjure"]);
                let p = PathSpec { base: h, segments: s };
                assert(views(p.segments@) =~= seq!["Library"@, "Application Support"@, "Conjure"@]);
                Some(p)
            },
            None => None,
        },
        Platform::Windows => match appdata {
            Some(a) => {
                let s = segments(&["Conjure"]);
                let p = PathSpec { base: a, segments: s };
                assert(views(p.segments@) =~= seq!["Conjure"@]);
                Some(p)
            },
            None => None,
        },
        Platform::Other => match xdg {
            Some(x) => {
                let s = segments(&["conjure"]);
                let p = PathSpec { base: x, segments: s };
                assert(views(p.segments@) =~= seq!["conjure"@]);
                Some(p)
            },
            None => match home {
                Some(h) => {
                    let s = segments(&[".local", "share", "conjure"]);
                    let p = PathSpec { base: h, segments: s };
                    assert(views(p.segments@) =~= seq![".local"@, "share"@, "conjure"@]);
                    Some(p)
                },
                None => None,
            },
        },
    }
}

/// The file name of the database.
pub const DATABASE_FILE_NAME: &'static str = "conjure.db";

/// Where the database lives by default: `conjure.db` in the data
/// directory; without a data directory that is an internal error.
pub fn default_database_path(data_dir: Option<PathSpec>) -> (r: Result<PathSpec, AppError>)
    ensures
        match data_dir {
            Some(d) => r matches Ok(p) && path_view(p) == (path_view(d).0, path_view(d).1.push(
                DATABASE_FILE_NAME@,
            )),
            None => r matches Err(AppError::Internal(m)) && m@
                == "could not determine Conjure data directory"@,
        },
{
    match data_dir {
        Some(d) => {
            let PathSpec { base, mut segments } = d;
            let ghost before = segments@;
            segments.push(String::from_str(DATABASE_FILE_NAME));
            assert(views(segments@) =~= views(before).push(DATABASE_FILE_NAME@));
            Ok(PathSpec { base, segments })
        },
        None => Err(AppError::Internal(String::from_str("could not determine Conjure data directory"))),
    }
}

/// The places the UI build is looked for, in order: `frontend/dist`, then
/// `frontend` and `frontend/dist` next to the executable, then the
/// `frontend` directory in the data directory.
pub open spec fn dist_candidates_of(executable_dir: Option<Seq<char>>, data_dir: Option<PathView>) -> Seq<
    PathView,
> {
    let first = seq![("frontend/dist"@, Seq::<Seq<char>>::empty())];
    let with_exe = match executable_dir {
        Some(e) => first.push((e, seq!["frontend"@])).push((e, seq!["frontend/dist"@])),
        None => first,
    };
    match data_dir {
        Some(d) => with_exe.push((d.0, d.1.push("frontend"@))),
        None => with_exe,
    }
}

/// The meanings of a list of paths.
pub open spec fn path_views(v: Seq<PathSpec>) -> Seq<PathView> {
    v.map_values(|p: PathSpec| path_view(p))
}

fn one_segment(base: &String, segment: &str) -> (r: PathSpec)
    ensures
        path_view(r) == (base@, seq![segment@]),
{
    let p = PathSpec { base: base.clone(), segments: vec![String::from_str(segment)] };
    assert(views(p.segments@) =~= seq![segment@]);
    p
}

/// The places the UI build is looked for.
pub fn frontend_dist_candidates(executable_dir: Option<String>, data_dir: Option<PathSpec>) -> (r: Vec<
    PathSpec,
>)
    ensures
        path_views(r@) == dist_candidates_of(
            opt_view(executable_dir),
            opt_path_view(data_dir),
        ),
{
    let mut r: Vec<PathSpec> = Vec::new();
    r.push(PathSpec { base: String::from_str("frontend/dist"), segments: Vec::new() });
    assert(views(r@[0].segments@) =~= Seq::<Seq<char>>::empty());
    match &executable_dir {
        Some(e) => {
            r.push(one_segment(e, "frontend"));
            r.push(one_segment(e, "frontend/dist"));
        },
        None => {},
    }
    match data_dir {
        Some(d) => {
            let PathSpec { base, mut segments } = d;
            let ghost before = segments@;
            segments.push(String::from_str("frontend"));
            assert(views(segments@) =~= views(before).push("frontend"@));
            r.push(PathSpec { base, segments });
        },
        None => {},
    }
    assert(path_views(r@) =~= dist_candidates_of(
        opt_view(executable_dir),
        opt_path_view(data_dir),
    ));
    r
}

/// The index of the first candidate that holds an `index.html`, where
/// `has_index[i]` says whether candidate `i` does.
pub open spec fn first_with_index(has_index: Seq<bool>, n: int) -> Option<int>
    decreases n,
{
    if n <= 0 {
        None
    } else {
        match first_with_index(has_index, n - 1) {
            Some(i) => Some(i),
            None => if n - 1 < has_index.len() && has_index[n - 1] {
                Some(n - 1)
            } else {
                None
            },
        }
    }
}

/// Which UI build directory to serve: the one named by
/// `CONJURE_FRONTEND_DIST` when it is set and not empty, else the first
/// candidate that holds an `index.html`, else `frontend/dist`.
pub fn frontend_dist_dir(
    configured: Option<String>,
    candidates: Vec<PathSpec>,
    has_index: &Vec<bool>,
) -> (r: PathSpec)
    ensures
        match env_path_spec(opt_view(configured)) {
            Some(c) => path_view(r) == (c, Seq::<Seq<char>>::empty()),
            None => match first_with_index(has_index@, candidates@.len() as int) {
                Some(i) => path_view(r) == path_view(candidates@[i]),
                None => path_view(r) == ("frontend/dist"@, Seq::<Seq<char>>::empty()),
            },
        },
{
    let ghost given = opt_view(configured);
    if let Some(c) = env_path(configured) {
        let p = PathSpec { base: c, segments: Vec::new() };
        assert(views(p.segments@) =~= Seq::<Seq<char>>::empty());
        return p;
    }
    let ghost all = candidates@;
    let mut rest = candidates;
    let mut i: usize = 0;
    let n = rest.len();
    while i < n
        invariant
            n == all.len(),
            i <= n,
            rest@ == all,
            all == candidates@,
            given == opt_view(configured),
            env_path_spec(given) is None,
            first_with_index(has_index@, i as int) is None,
        decreases n - i,
    {
        if i < has_index.len() && has_index[i] {
            let found = rest.remove(i);
            assert(found == all[i as int]);
            assert(first_with_index(has_index@, (i + 1) as int) == Some(i as int));
            proof {
                lemma_first_stays(has_index@, (i + 1) as int, all.len() as int);
            }
            return found;
        }
        i = i + 1;
    }
    let p = PathSpec { base: String::from_str("frontend/dist"), segments: Vec::new() };
    assert(views(p.segments@) =~= Seq::<Seq<char>>::empty());
    p
}

proof fn lemma_first_stays(has_index: Seq<bool>, k: int, n: int)
    requires
        k <= n,
        first_with_index(has_index, k) is Some,
    ensures
        first_with_index(has_index, n) == first_with_index(has_index, k),
    decreases n - k,
{
    if k < n {
        lemma_first_stays(has_index, k, n - 1);
    }
}

} // verus!

//! Application settings and how submitted settings are cleaned.
use vstd::prelude::*;

use crate::domain::{validate_timeout, check_outcome, is_valid_timeout, timeout_message, DEFAULT_TIMEOUT_MS};
use crate::error::AppError;
use crate::text::{
    lemma_trimmed_idempotent, normalize_optional_text, normalized, opt_str_view, opt_view, same_text,
    same_text_spec, str_eq,
    trimmed,
};

verus! {

/// The settings that runs and the MCP endpoint use.
#[derive(Debug, Clone)]
pub struct AppSettings {
    pub default_working_dir: Option<String>,
    pub allowed_base_paths: Vec<String>,
    pub default_timeout_ms: i64,
    pub mcp_endpoint: String,
}

/// Settings as they are submitted for saving.
#[derive(Debug, Clone)]
pub struct UpdateSettings {
    pub default_working_dir: Option<String>,
    pub allowed_base_paths: Vec<String>,
    pub default_timeout_ms: Option<i64>,
    pub mcp_endpoint: Option<String>,
}

/// Whether some entry of `paths` equals `p` up to ASCII case.
pub open spec fn has_same_text(paths: Seq<Seq<char>>, p: Seq<char>) -> bool {
    exists|i: int| 0 <= i < paths.len() && same_text_spec(#[trigger] paths[i], p)
}

/// The allowed base paths that submitted `paths` leave: each trimmed, the
/// blank ones dropped, and of those equal up to ASCII case only the first
/// kept, in the order given.
pub open spec fn cleaned_paths(paths: Seq<Seq<char>>) -> Seq<Seq<char>>
    decreases paths.len(),
{
    if paths.len() == 0 {
        Seq::empty()
    } else {
        let before = cleaned_paths(paths.drop_last());
        match normalized(Some(paths.last())) {
            None => before,
            Some(p) => if has_same_text(before, p) {
                before
            } else {
                before.push(p)
            },
        }
    }
}

/// The views of a vector of strings.
pub open spec fn string_views(v: Seq<String>) -> Seq<Seq<char>> {
    v.map_values(|s: String| s@)
}

/// The endpoint that settings name when none is given.
pub open spec fn endpoint_or(given: Option<String>, fallback: Seq<char>) -> Seq<char> {
    match normalized(opt_view(given)) {
        Some(e) => e,
        None => fallback,
    }
}

/// What cleaning `submitted` with `fallback_endpoint` gives, when it
/// succeeds.
pub open spec fn sanitized_as(
    submitted: UpdateSettings,
    fallback_endpoint: Seq<char>,
    s: AppSettings,
) -> bool {
    &&& opt_view(s.default_working_dir) == normalized(opt_view(submitted.default_working_dir))
    &&& string_views(s.allowed_base_paths@) == cleaned_paths(
        string_views(submitted.allowed_base_paths@),
    )
    &&& s.default_timeout_ms == match submitted.default_timeout_ms {
        Some(t) => t,
        None => DEFAULT_TIMEOUT_MS,
    }
    &&& s.mcp_endpoint@ == endpoint_or(submitted.mcp_endpoint, fallback_endpoint)
}

fn has_same_text_exec(paths: &Vec<String>, p: &str) -> (r: bool)
    ensures
        r == has_same_text(string_views(paths@), p@),
{
    let mut i: usize = 0;
    while i < paths.len()
        invariant
            i <= paths@.len(),
            forall|k: int| 0 <= k < i ==> !same_text_spec(#[trigger] string_views(paths@)[k], p@),
        decreases paths@.len() - i,
    {
        if same_text(paths[i].as_str(), p) {
            assert(same_text_spec(string_views(paths@)[i as int], p@));
            return true;
        }
        i = i + 1;
    }
    false
}

/// Cleans a list of allowed base paths.
pub fn clean_paths(paths: &Vec<String>) -> (r: Vec<String>)
    ensures
        string_views(r@) == cleaned_paths(string_views(paths@)),
{
    let mut r: Vec<String> = Vec::new();
    let mut i: usize = 0;
    while i < paths.len()
        invariant
            i <= paths@.len(),
            string_views(r@) == cleaned_paths(string_views(paths@.subrange(0, i as int))),
        decreases paths@.len() - i,
    {
        let ghost before = r@;
        let next = normalize_optional_text(Some(paths[i].as_str()));
        proof {
            let sub = string_views(paths@.subrange(0, i + 1));
            assert(sub.drop_last() =~= string_views(paths@.subrange(0, i as int)));
            assert(sub.last() == paths@[i as int]@);
        }
        match next {
            None => {},
            Some(p) => {
                if !has_same_text_exec(&r, p.as_str()) {
                    r.push(p);
                    assert(string_views(r@) =~= string_views(before).push(p@));
                }
            },
        }
        i = i + 1;
    }
    assert(paths@.subrange(0, paths@.len() as int) =~= paths@);
    r
}

/// Cleans submitted settings: the working directory and endpoint are
/// trimmed, blank ones dropped, the base paths cleaned as
/// [`cleaned_paths`] says, a missing timeout becomes the default and an
/// endpoint that is missing or blank becomes `fallback_endpoint`.  A
/// timeout out of range is refused.
pub fn sanitize_settings(settings: UpdateSettings, fallback_endpoint: String) -> (r: Result<
    AppSettings,
    AppError,
>)
    ensures
        check_outcome(
            if is_valid_timeout(
                match settings.default_timeout_ms {
                    Some(t) => t,
                    None => DEFAULT_TIMEOUT_MS,
                },
            ) {
                None
            } else {
                Some(timeout_message())
            },
            match r {
                Ok(_) => Ok(()),
                Err(e) => Err(e),
            },
        ),
        r matches Ok(s) ==> sanitized_as(settings, fallback_endpoint@, s),
{
    let default_timeout_ms = match settings.default_timeout_ms {
        Some(t) => t,
        None => DEFAULT_TIMEOUT_MS,
    };
    validate_timeout(default_timeout_ms)?;
    let default_working_dir = match &settings.default_working_dir {
        Some(d) => normalize_optional_text(Some(d.as_str())),
        None => None,
    };
    let allowed_base_paths = clean_paths(&settings.allowed_base_paths);
    let mcp_endpoint = match &settings.mcp_endpoint {
        Some(e) => match normalize_optional_text(Some(e.as_str())) {
            Some(t) => t,
            None => fallback_endpoint,
        },
        None => fallback_endpoint,
    };
    Ok(AppSettings { default_working_dir, allowed_base_paths, default_timeout_ms, mcp_endpoint })
}

/// The settings used before any were saved: `current_dir` as working
/// directory and as the only allowed base path, the default timeout, and
/// `endpoint`.
pub fn default_settings(current_dir: Option<String>, endpoint: String) -> (r: AppSettings)
    ensures
        opt_view(r.default_working_dir) == opt_view(current_dir),
        string_views(r.allowed_base_paths@) == match current_dir {
            Some(d) => seq![d@],
            None => Seq::<Seq<char>>::empty(),
        },
        r.default_timeout_ms == DEFAULT_TIMEOUT_MS,
        r.mcp_endpoint@ == endpoint@,
{
    let mut allowed: Vec<String> = Vec::new();
    match &current_dir {
        Some(d) => {
            allowed.push(d.clone());
            assert(string_views(allowed@) =~= seq![d@]);
        },
        None => {
            assert(string_views(allowed@) =~= Seq::<Seq<char>>::empty());
        },
    }
    AppSettings {
        default_working_dir: current_dir,
        allowed_base_paths: allowed,
        default_timeout_ms: DEFAULT_TIMEOUT_MS,
        mcp_endpoint: endpoint,
    }
}

/// The endpoint a stored settings row yields: the stored text trimmed,
/// unless it is blank or the retired `http://127.0.0.1:7878/mcp`, in which
/// case `fallback`.
pub fn stored_mcp_endpoint(stored: &str, fallback: String) -> (r: String)
    ensures
        r@ == match normalized(Some(stored@)) {
            Some(e) => if e == "http://127.0.0.1:7878/mcp"@ {
                fallback@
            } else {
                e
            },
            None => fallback@,
        },
{
    match normalize_optional_text(Some(stored)) {
        Some(e) => if str_eq(e.as_str(), "http://127.0.0.1:7878/mcp") {
            fallback
        } else {
            e
        },
        None => fallback,
    }
}

/// No two cleaned base paths are equal up to ASCII case.
pub proof fn lemma_cleaned_paths_distinct(paths: Seq<Seq<char>>)
    ensures
        forall|i: int, j: int|
            0 <= i < j < cleaned_paths(paths).len() ==> !same_text_spec(
                #[trigger] cleaned_paths(paths)[i],
                #[trigger] cleaned_paths(paths)[j],
            ),
    decreases paths.len(),
{
    if paths.len() > 0 {
        lemma_cleaned_paths_distinct(paths.drop_last());
        let before = cleaned_paths(paths.drop_last());
        let after = cleaned_paths(paths);
        assert forall|i: int, j: int| 0 <= i < j < after.len() implies !same_text_spec(
            #[trigger] after[i],
            #[trigger] after[j],
        ) by {
            if j == before.len() {
                assert(after[i] == before[i]);
                if same_text_spec(after[i], after[j]) {
                    assert(has_same_text(before, after[j]));
                }
            } else {
                assert(after[i] == before[i] && after[j] == before[j]);
            }
        }
    }
}

/// Every cleaned base path is a trimmed, non-blank submitted path.
pub proof fn lemma_cleaned_paths_from_input(paths: Seq<Seq<char>>)
    ensures
        forall|i: int|
            0 <= i < cleaned_paths(paths).len() ==> exists|k: int|
                0 <= k < paths.len() && trimmed(paths[k]).len() > 0 && #[trigger] cleaned_paths(
                    paths,
                )[i] == trimmed(paths[k]),
    decreases paths.len(),
{
    if paths.len() > 0 {
        lemma_cleaned_paths_from_input(paths.drop_last());
        let before = cleaned_paths(paths.drop_last());
        let after = cleaned_paths(paths);
        assert forall|i: int| 0 <= i < after.len() implies exists|k: int|
            0 <= k < paths.len() && trimmed(paths[k]).len() > 0 && #[trigger] after[i]
                == trimmed(paths[k]) by {
            if i < before.len() {
                assert(after[i] == before[i]);
                let k = choose|k: int|
                    0 <= k < paths.drop_last().len() && trimmed(paths.drop_last()[k]).len() > 0
                        && before[i] == trimmed(paths.drop_last()[k]);
                assert(paths[k] == paths.drop_last()[k]);
            } else {
                assert(after[i] == trimmed(paths[paths.len() - 1]));
            }
        }
    }
}

/// Every non-blank submitted base path is kept, or one equal to it up to
/// ASCII case is.
pub proof fn lemma_cleaned_paths_cover_input(paths: Seq<Seq<char>>)
    ensures
        forall|k: int|
            0 <= k < paths.len() && trimmed(#[trigger] paths[k]).len() > 0 ==> has_same_text(
                cleaned_paths(paths),
                trimmed(paths[k]),
            ),
    decreases paths.len(),
{
    if paths.len() > 0 {
        lemma_cleaned_paths_cover_input(paths.drop_last());
        let before = cleaned_paths(paths.drop_last());
        let after = cleaned_paths(paths);
        assert(before.is_prefix_of(after));
        assert forall|k: int|
            0 <= k < paths.len() && trimmed(#[trigger] paths[k]).len() > 0 implies has_same_text(
            after,
            trimmed(paths[k]),
        ) by {
            if k < paths.len() - 1 {
                assert(paths[k] == paths.drop_last()[k]);
                assert(has_same_text(before, trimmed(paths[k])));
                let i = choose|i: int|
                    0 <= i < before.len() && same_text_spec(#[trigger] before[i], trimmed(paths[k]));
                assert(after[i] == before[i]);
            } else {
                let p = trimmed(paths[k]);
                if !has_same_text(before, p) {
                    assert(after[before.len() as int] == p);
                    assert(same_text_spec(after[before.len() as int], p));
                }
            }
        }
    }
}

proof fn lemma_cleaned_paths_fixed(q: Seq<Seq<char>>)
    requires
        forall|i: int| 0 <= i < q.len() ==> normalized(Some(#[trigger] q[i])) == Some(q[i]),
        forall|i: int, j: int| 0 <= i < j < q.len() ==> !same_text_spec(#[trigger] q[i], #[trigger] q[j]),
    ensures
        cleaned_paths(q) == q,
    decreases q.len(),
{
    if q.len() > 0 {
        let d = q.drop_last();
        assert forall|i: int| 0 <= i < d.len() implies normalized(Some(#[trigger] d[i])) == Some(d[i]) by {
            assert(d[i] == q[i]);
        }
        assert forall|i: int, j: int| 0 <= i < j < d.len() implies !same_text_spec(#[trigger] d[i], #[trigger] d[j]) by {
            assert(d[i] == q[i] && d[j] == q[j]);
        }
        lemma_cleaned_paths_fixed(d);
        assert(normalized(Some(q[q.len() - 1])) == Some(q.last()));
        if has_same_text(d, q.last()) {
            let i = choose|i: int| 0 <= i < d.len() && same_text_spec(#[trigger] d[i], q.last());
            assert(d[i] == q[i]);
            assert(!same_text_spec(q[i], q[q.len() - 1]));
        }
        assert(d.push(q.last()) =~= q);
    }
}

/// Cleaning cleaned base paths changes nothing.
pub proof fn lemma_cleaned_paths_idempotent(paths: Seq<Seq<char>>)
    ensures
        cleaned_paths(cleaned_paths(paths)) == cleaned_paths(paths),
{
    let q = cleaned_paths(paths);
    lemma_cleaned_paths_distinct(paths);
    lemma_cleaned_paths_from_input(paths);
    assert forall|i: int| 0 <= i < q.len() implies normalized(Some(#[trigger] q[i])) == Some(q[i]) by {
        let k = choose|k: int| 0 <= k < paths.len() && trimmed(paths[k]).len() > 0 && q[i] == trimmed(paths[k]);
        lemma_trimmed_idempotent(paths[k]);
    }
    lemma_cleaned_paths_fixed(q);
}

/// Settings that were cleaned come back unchanged when they are submitted
/// again: the working directory, base paths, timeout and endpoint stay
/// (when the endpoint fell back, the fallback must itself be trimmed text).
pub proof fn lemma_sanitize_idempotent(
    submitted: UpdateSettings,
    fallback_endpoint: Seq<char>,
    first: AppSettings,
    again: UpdateSettings,
    second: AppSettings,
)
    requires
        sanitized_as(submitted, fallback_endpoint, first),
        normalized(opt_view(submitted.mcp_endpoint)) is None ==> normalized(Some(fallback_endpoint))
            == Some(fallback_endpoint),
        opt_view(again.default_working_dir) == opt_view(first.default_working_dir),
        string_views(again.allowed_base_paths@) == string_views(first.allowed_base_paths@),
        again.default_timeout_ms == Some(first.default_timeout_ms),
        opt_view(again.mcp_endpoint) == Some(first.mcp_endpoint@),
        sanitized_as(again, fallback_endpoint, second),
    ensures
        opt_view(second.default_working_dir) == opt_view(first.default_working_dir),
        string_views(second.allowed_base_paths@) == string_views(first.allowed_base_paths@),
        second.default_timeout_ms == first.default_timeout_ms,
        second.mcp_endpoint@ == first.mcp_endpoint@,
{
    lemma_cleaned_paths_idempotent(string_views(submitted.allowed_base_paths@));
    match submitted.default_working_dir {
        Some(d) => {
            lemma_trimmed_idempotent(d@);
        },
        None => {},
    }
    if normalized(opt_view(submitted.mcp_endpoint)) is Some {
        lemma_trimmed_idempotent(submitted.mcp_endpoint->0@);
    }
}

} // verus!

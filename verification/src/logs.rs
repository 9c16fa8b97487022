//! Call logs and the filter that selects them.
use vstd::prelude::*;

use crate::domain::{execution_status_name, ExecutionSource, ExecutionStatus};
use crate::error::AppError;
use crate::json::JsonValue;
use crate::text::{chars_contain, chars_of, concat2, contains_text, fold_lower, lower_chars};
use crate::tool::{before, is_before, Timestamp};

verus! {

/// What parsing `text` as an RFC 3339 date and time gives with
/// `chrono::DateTime::parse_from_rfc3339`, taken to UTC: the seconds since
/// the Unix epoch and the nanoseconds within the second, or the display
/// text of the parse error.
pub uninterp spec fn rfc3339_parse(text: Seq<char>) -> Result<(i64, u32), Seq<char>>;

/// Parses an RFC 3339 date and time with
/// `chrono::DateTime::parse_from_rfc3339` and takes it to UTC.  The
/// contract claims that the outcome is [`rfc3339_parse`] of the text.
#[verifier::external_body]
pub(crate) fn parse_rfc3339(text: &str) -> (r: Result<Timestamp, String>)
    ensures
        match rfc3339_parse(text@) {
            Ok((s, n)) => r == Ok::<Timestamp, String>(Timestamp { seconds: s, nanos: n }),
            Err(m) => r matches Err(e) && e@ == m,
        },
{
    match chrono::DateTime::parse_from_rfc3339(text) {
        Ok(parsed) => {
            let utc = parsed.with_timezone(&chrono::Utc);
            Ok(Timestamp { seconds: utc.timestamp(), nanos: utc.timestamp_subsec_nanos() })
        },
        Err(error) => Err(error.to_string()),
    }
}

/// A recorded run.
#[derive(Debug)]
pub struct CallLog {
    pub id: u128,
    pub tool_id: Option<u128>,
    pub tool_name: String,
    pub source: ExecutionSource,
    pub params_json: JsonValue,
    /// The compact JSON text of `params_json`.
    pub params_text: String,
    pub stdout: String,
    pub stderr: String,
    pub exit_code: Option<i32>,
    pub started_at: Timestamp,
    pub finished_at: Timestamp,
    pub duration_ms: i64,
    pub status: ExecutionStatus,
}

/// Which logs to list; each criterion that is present must hold.
#[derive(Debug)]
pub struct LogFilter {
    pub tool_id: Option<u128>,
    pub status: Option<String>,
    pub from: Option<String>,
    pub to: Option<String>,
    pub search: Option<String>,
}

/// The text a search looks in: tool name, stdout, stderr and arguments,
/// separated by spaces.
pub open spec fn search_haystack(log: CallLog) -> Seq<char> {
    log.tool_name@ + " "@ + log.stdout@ + " "@ + log.stderr@ + " "@ + log.params_text@
}

/// The instant of parsed text.
pub open spec fn instant_of(p: (i64, u32)) -> Timestamp {
    Timestamp { seconds: p.0, nanos: p.1 }
}

/// Whether `log` passes `filter`, or why the filter is malformed: an
/// unknown status is a validation error (`(true, message)`), an unreadable
/// date an internal one (`(false, message)`).  Criteria are checked in the
/// order tool, status, from, to, search; the first that fails or does not
/// hold ends the check.
pub open spec fn filter_outcome(log: CallLog, filter: LogFilter) -> Result<bool, (bool, Seq<char>)> {
    if filter.tool_id matches Some(t) && log.tool_id != Some(t) {
        Ok(false)
    } else {
        let status_check: Result<bool, (bool, Seq<char>)> = match filter.status {
            None => Ok(true),
            Some(s) => if exists|st: ExecutionStatus| execution_status_name(st) == s@ {
                Ok(execution_status_name(log.status) == s@)
            } else {
                Err((true, "unsupported execution status `"@ + s@ + "`"@))
            },
        };
        let from_check: Result<bool, (bool, Seq<char>)> = match filter.from {
            None => Ok(true),
            Some(f) => match rfc3339_parse(f@) {
                Err(m) => Err((false, m)),
                Ok(p) => Ok(!before(log.started_at, instant_of(p))),
            },
        };
        let to_check: Result<bool, (bool, Seq<char>)> = match filter.to {
            None => Ok(true),
            Some(t) => match rfc3339_parse(t@) {
                Err(m) => Err((false, m)),
                Ok(p) => Ok(!before(instant_of(p), log.started_at)),
            },
        };
        let search_check: bool = match filter.search {
            None => true,
            Some(q) => contains_text(fold_lower(search_haystack(log)), fold_lower(q@)),
        };
        match status_check {
            Err(e) => Err(e),
            Ok(false) => Ok(false),
            Ok(true) => match from_check {
                Err(e) => Err(e),
                Ok(false) => Ok(false),
                Ok(true) => match to_check {
                    Err(e) => Err(e),
                    Ok(false) => Ok(false),
                    Ok(true) => Ok(search_check),
                },
            },
        }
    }
}

/// The tool criterion keeps exactly the logs of the requested tool: with
/// nothing else set, a filter for tool `t` passes a log exactly when the
/// log belongs to `t`; a log of another tool (or of none) never passes a
/// filter for `t`; and a filter with nothing set passes every log.
pub proof fn lemma_filter_by_tool(log: CallLog, filter: LogFilter)
    ensures
        filter.status is None && filter.from is None && filter.to is None && filter.search is None ==> (
        filter.tool_id matches Some(t) ==> filter_outcome(log, filter) == Ok::<bool, (bool, Seq<char>)>(
            log.tool_id == Some(t),
        )),
        filter.tool_id matches Some(t) ==> (log.tool_id != Some(t) ==> filter_outcome(log, filter) == Ok::<
            bool,
            (bool, Seq<char>),
        >(false)),
        filter.tool_id is None && filter.status is None && filter.from is None && filter.to is None
            && filter.search is None ==> filter_outcome(log, filter) == Ok::<bool, (bool, Seq<char>)>(true),
{
}

/// The status criterion keeps exactly the logs with the requested status:
/// with nothing else set, a filter naming the status `st` passes a log
/// exactly when the log's status is `st`.
pub proof fn lemma_filter_by_status(log: CallLog, filter: LogFilter, st: ExecutionStatus)
    ensures
        filter.tool_id is None && filter.from is None && filter.to is None && filter.search is None ==> (
        filter.status matches Some(s) ==> (s@ == execution_status_name(st) ==> filter_outcome(log, filter)
            == Ok::<bool, (bool, Seq<char>)>(log.status == st))),
{
    crate::domain::lemma_execution_status_names_distinct(log.status, st);
}

/// How a filter outcome is reported.
pub open spec fn reports_outcome(o: Result<bool, (bool, Seq<char>)>, r: Result<bool, AppError>) -> bool {
    match o {
        Ok(b) => r == Ok::<bool, AppError>(b),
        Err((true, m)) => r matches Err(AppError::Validation(d)) && d@ == m,
        Err((false, m)) => r matches Err(AppError::Internal(d)) && d@ == m,
    }
}

fn parse_datetime(value: &str) -> (r: Result<Timestamp, AppError>)
    ensures
        match rfc3339_parse(value@) {
            Ok(p) => r == Ok::<Timestamp, AppError>(instant_of(p)),
            Err(m) => r matches Err(AppError::Internal(d)) && d@ == m,
        },
{
    match parse_rfc3339(value) {
        Ok(t) => Ok(t),
        Err(m) => Err(AppError::Internal(m)),
    }
}

/// Whether a log passes a filter.
pub fn log_matches_filter(log: &CallLog, filter: &LogFilter) -> (r: Result<bool, AppError>)
    ensures
        reports_outcome(filter_outcome(*log, *filter), r),
{
    if let Some(tool_id) = filter.tool_id {
        let same = match log.tool_id {
            Some(t) => t == tool_id,
            None => false,
        };
        if !same {
            return Ok(false);
        }
    }
    if let Some(status) = &filter.status {
        let wanted = ExecutionStatus::try_from(status.as_str())?;
        if log.status != wanted {
            proof {
                crate::domain::lemma_execution_status_names_distinct(log.status, wanted);
            }
            return Ok(false);
        }
    }
    if let Some(from) = &filter.from {
        let start = parse_datetime(from.as_str())?;
        if is_before(log.started_at, start) {
            return Ok(false);
        }
    }
    if let Some(to) = &filter.to {
        let end = parse_datetime(to.as_str())?;
        if is_before(end, log.started_at) {
            return Ok(false);
        }
    }
    if let Some(search) = &filter.search {
        let needle = lower_chars(&chars_of(search.as_str()));
        let mut hay = concat2(log.tool_name.as_str(), " ");
        hay.append(log.stdout.as_str());
        hay.append(" ");
        hay.append(log.stderr.as_str());
        hay.append(" ");
        hay.append(log.params_text.as_str());
        let haystack = lower_chars(&chars_of(hay.as_str()));
        proof {
            reveal_strlit(" ");
            assert(hay@ =~= search_haystack(*log));
        }
        if !chars_contain(&haystack, &needle) {
            return Ok(false);
        }
    }
    Ok(true)
}

/// The logs of `s` that pass `f`, in order.
pub open spec fn passing(s: Seq<CallLog>, f: LogFilter) -> Seq<CallLog>
    decreases s.len(),
{
    if s.len() == 0 {
        Seq::empty()
    } else {
        let p = passing(s.drop_last(), f);
        if filter_outcome(s.last(), f) == Ok::<bool, (bool, Seq<char>)>(true) {
            p.push(s.last())
        } else {
            p
        }
    }
}

/// The logs that pass a filter, in order; the first log on which a
/// criterion turns out malformed stops the listing with that error.
pub fn filter_call_logs(logs: Vec<CallLog>, filter: &LogFilter) -> (r: Result<Vec<CallLog>, AppError>)
    ensures
        match r {
            Ok(kept) => kept@ == passing(logs@, *filter) && forall|i: int|
                0 <= i < logs@.len() ==> filter_outcome(#[trigger] logs@[i], *filter) is Ok,
            Err(e) => exists|i: int|
                0 <= i < logs@.len() && (forall|j: int|
                    0 <= j < i ==> filter_outcome(#[trigger] logs@[j], *filter) is Ok)
                    && reports_outcome(filter_outcome(logs@[i], *filter), Err(e)),
        },
{
    let ghost all = logs@;
    let n = logs.len();
    let mut rest = logs;
    let mut rev: Vec<CallLog> = Vec::new();
    while rest.len() > 0
        invariant
            rest@ + rev@.reverse() == all,
        decreases rest@.len(),
    {
        let ghost before_rest = rest@;
        let ghost before_rev = rev@;
        let x = rest.pop().unwrap();
        rev.push(x);
        proof {
            assert(rev@.reverse() =~= seq![x] + before_rev.reverse());
            assert(before_rest =~= rest@.push(x));
            assert(rest@ + rev@.reverse() =~= before_rest + before_rev.reverse());
        }
    }
    assert(rev@.reverse() =~= all);
    let mut kept: Vec<CallLog> = Vec::new();
    let mut k: usize = 0;
    while rev.len() > 0
        invariant
            all == logs@,
            n == all.len(),
            k <= all.len(),
            rev@.reverse() == all.subrange(k as int, all.len() as int),
            kept@ == passing(all.subrange(0, k as int), *filter),
            forall|j: int| 0 <= j < k ==> filter_outcome(#[trigger] all[j], *filter) is Ok,
        decreases rev@.len(),
    {
        let ghost before_rev = rev@;
        let x = rev.pop().unwrap();
        proof {
            assert(before_rev =~= rev@.push(x));
            assert(before_rev.reverse() =~= seq![x] + rev@.reverse());
            assert(all.subrange(k as int, all.len() as int)[0] == all[k as int]);
            assert(all[k as int] == x);
            assert(rev@.reverse() =~= before_rev.reverse().drop_first());
            assert(rev@.reverse() =~= all.subrange(k + 1, all.len() as int));
            assert(all.subrange(0, k + 1).drop_last() =~= all.subrange(0, k as int));
        }
        match log_matches_filter(&x, filter) {
            Err(e) => {
                assert(reports_outcome(filter_outcome(all[k as int], *filter), Err(e)));
                return Err(e);
            },
            Ok(true) => {
                kept.push(x);
            },
            Ok(false) => {},
        }
        k = k + 1;
    }
    assert(all.subrange(0, all.len() as int) =~= all);
    Ok(kept)
}

} // verus!

//! The decisions of the scanning engine: what an observation of a file means
//! and when sources and scheduled rules are scanned next. The engine itself
//! (directory walking, timers, the observation table) drives them.

use vstd::prelude::*;
use crate::config::Rule;
use crate::text::same_text;
use crate::error::Error;

verus! {

/// The stored observation of a source file.
#[derive(Debug, Clone)]
pub struct Observed {
    pub version: String,
    pub handled: bool,
    /// When the current version was first seen (milliseconds since the epoch).
    pub stable_since: i64,
    /// When the file was first seen unhandled (milliseconds since the epoch).
    pub first_seen: i64,
    pub status: String,
}

/// What to do about a file seen during a scan.
#[derive(Debug, Clone, Copy, PartialEq, Eq, Structural)]
pub enum Observation {
    /// A new or changed version: record it (as the baseline on an initial
    /// scan, otherwise as waiting to become stable) and do nothing else.
    Record { first_seen: i64, baseline: bool },
    /// A changed version of a file that has been changing for longer than the
    /// retry period: record it as not ready and report that.
    Expired { first_seen: i64 },
    /// Nothing to do now.
    Skip,
    /// An unchanged but still unstable file that has waited longer than the
    /// retry period: mark it not ready and report that.
    GiveUp,
    /// A stable file to plan and apply, for a scheduled scan or a
    /// reconciliation.
    Process { scheduled: bool },
}

/// What an observation means. `version` is the file's cheap version now,
/// `now` the time in milliseconds, `initial` whether this is a source's
/// initial scan, `scheduled` whether scan rules are due, and `stable_ms` and
/// `retry_ms` the source's readiness durations.
pub open spec fn observation(
    old: Option<Observed>,
    version: Seq<char>,
    now: int,
    initial: bool,
    scheduled: bool,
    stable_ms: int,
    retry_ms: int,
) -> Observation {
    if old is None || old->0.version@ != version {
        let first = match old {
            Some(o) => if !o.handled { o.first_seen as int } else { now },
            None => now,
        };
        if !initial && now - first > retry_ms {
            Observation::Expired { first_seen: first as i64 }
        } else {
            Observation::Record { first_seen: first as i64, baseline: initial }
        }
    } else {
        let o = old->0;
        if o.status@ == "own_effect"@ && o.handled {
            Observation::Skip
        } else if o.handled && !scheduled {
            Observation::Skip
        } else if now - o.stable_since < stable_ms {
            if now - o.first_seen > retry_ms {
                Observation::GiveUp
            } else {
                Observation::Skip
            }
        } else {
            Observation::Process { scheduled }
        }
    }
}

/// Decides what to do about a file seen during a scan.
pub fn observe(
    old: &Option<Observed>,
    version: &str,
    now: i64,
    initial: bool,
    scheduled: bool,
    stable_ms: u64,
    retry_ms: u64,
) -> (r: Observation)
    ensures
        r == observation(*old, version@, now as int, initial, scheduled, stable_ms as int, retry_ms as int),
{
    let changed = match old {
        None => true,
        Some(o) => !same_text(o.version.as_str(), version),
    };
    if changed {
        let first: i64 = match old {
            Some(o) => if !o.handled { o.first_seen } else { now },
            None => now,
        };
        if !initial && (now as i128) - (first as i128) > (retry_ms as i128) {
            Observation::Expired { first_seen: first }
        } else {
            Observation::Record { first_seen: first, baseline: initial }
        }
    } else {
        let o = match old {
            Some(o) => o,
            None => {
                return Observation::Skip;
            },
        };
        if same_text(o.status.as_str(), "own_effect") && o.handled {
            Observation::Skip
        } else if o.handled && !scheduled {
            Observation::Skip
        } else if (now as i128) - (o.stable_since as i128) < (stable_ms as i128) {
            if (now as i128) - (o.first_seen as i128) > (retry_ms as i128) {
                Observation::GiveUp
            } else {
                Observation::Skip
            }
        } else {
            Observation::Process { scheduled }
        }
    }
}

/// Whether a source's scan is an initial one (establishing a baseline): it
/// was never scanned, its configuration changed, or it never completed a scan.
pub open spec fn initial_scan(old: Option<(String, bool)>, signature: Seq<char>) -> bool {
    match old {
        None => true,
        Some((s, initialized)) => s@ != signature || !initialized,
    }
}

pub fn scan_is_initial(old: &Option<(String, bool)>, signature: &str) -> (r: bool)
    ensures
        r == initial_scan(*old, signature@),
{
    match old {
        None => true,
        Some((s, initialized)) => !same_text(s.as_str(), signature) || !*initialized,
    }
}

/// An initial scan only records a baseline: a new or changed file that it
/// sees is recorded, never planned, applied or reported.
pub proof fn law_initial_scan_records_baseline(
    old: Option<Observed>,
    version: Seq<char>,
    now: int,
    scheduled: bool,
    stable_ms: int,
    retry_ms: int,
)
    requires
        old is None || old->0.version@ != version,
    ensures
        observation(old, version, now, true, scheduled, stable_ms, retry_ms) matches Observation::Record {
            baseline: true,
            ..
        },
{
}

/// A later scan records a new or changed file as waiting, not as baseline,
/// so that files that appeared while the engine was stopped are processed
/// once stable (unless they have been changing for longer than the retry
/// period).
pub proof fn law_later_scans_wait_for_changes(
    old: Option<Observed>,
    version: Seq<char>,
    now: int,
    scheduled: bool,
    stable_ms: int,
    retry_ms: int,
)
    requires
        old is None || old->0.version@ != version,
    ensures
        observation(old, version, now, false, scheduled, stable_ms, retry_ms) matches Observation::Record {
            baseline: false,
            ..
        } || observation(old, version, now, false, scheduled, stable_ms, retry_ms) is Expired,
{
}

/// A restart does not redo the baseline: a source that completed a scan
/// under the same configuration is scanned as a later scan.
pub proof fn law_restart_keeps_baseline(signature: String)
    ensures
        !initial_scan(Some((signature, true)), signature@),
{
}

/// The engine's own outputs never start another rule chain: an unchanged
/// file recorded as its own effect is skipped, even when scan rules are due.
pub proof fn law_own_effects_are_skipped(
    o: Observed,
    now: int,
    initial: bool,
    scheduled: bool,
    stable_ms: int,
    retry_ms: int,
)
    requires
        o.status@ == "own_effect"@,
        o.handled,
    ensures
        observation(Some(o), o.version@, now, initial, scheduled, stable_ms, retry_ms) == Observation::Skip,
{
}

/// A file is processed only when it is unchanged since it was last seen, has
/// stayed so for the stability period, is not the engine's own effect, and,
/// when already handled, only because scan rules are due.
pub proof fn law_processing_needs_stability(
    old: Option<Observed>,
    version: Seq<char>,
    now: int,
    initial: bool,
    scheduled: bool,
    stable_ms: int,
    retry_ms: int,
)
    requires
        observation(old, version, now, initial, scheduled, stable_ms, retry_ms) is Process,
    ensures
        old is Some,
        old->0.version@ == version,
        now - old->0.stable_since >= stable_ms,
        !(old->0.status@ == "own_effect"@ && old->0.handled),
        old->0.handled ==> scheduled,
{
}

/// Due scan rules reconsider a stable file even when it was already handled
/// (for example with no matching rule before).
pub proof fn law_scheduled_scan_reconsiders(o: Observed, now: int, initial: bool, stable_ms: int, retry_ms: int)
    requires
        o.status@ != "own_effect"@,
        now - o.stable_since >= stable_ms,
    ensures
        observation(Some(o), o.version@, now, initial, true, stable_ms, retry_ms) == (Observation::Process {
            scheduled: true,
        }),
{
}

/// The delay before a due scan rule is considered again: the source's
/// stability period while files are unstable, otherwise the rule's interval.
pub fn rule_delay(unstable: bool, stable_ms: u64, every_ms: u64) -> (d: u64)
    ensures
        d == if unstable { stable_ms } else { every_ms },
{
    if unstable {
        stable_ms
    } else {
        every_ms
    }
}

/// The delay before a source is scanned again: 250 ms while files wait to be
/// handled, otherwise its reconciliation interval.
pub fn source_delay(waiting: bool, reconcile_ms: u64) -> (d: u64)
    ensures
        d == if waiting { 250 } else { reconcile_ms },
{
    if waiting {
        250
    } else {
        reconcile_ms
    }
}

/// The IDs of the scan rules of `source` whose schedule has come
/// (`ready[i]` for rule `i`), in configuration order.
pub open spec fn due_ids(rules: Seq<Rule>, source: Seq<char>, ready: Seq<bool>) -> Seq<Seq<char>>
    decreases rules.len(),
{
    if rules.len() == 0 {
        seq![]
    } else {
        let k = rules.len() - 1;
        let prev = due_ids(rules.drop_last(), source, ready.subrange(0, k));
        if rules[k].on.source@ == source && rules[k].on.kind@ == "scan"@ && ready[k] {
            prev.push(rules[k].id@)
        } else {
            prev
        }
    }
}

pub fn due_rules(rules: &Vec<Rule>, source: &str, ready: &Vec<bool>) -> (r: Vec<String>)
    requires
        ready.len() == rules.len(),
    ensures
        r@.map_values(|s: String| s@) == due_ids(rules@, source@, ready@),
{
    let mut r: Vec<String> = Vec::new();
    let mut i: usize = 0;
    while i < rules.len()
        invariant
            ready.len() == rules.len(),
            i <= rules.len(),
            r@.map_values(|s: String| s@) == due_ids(rules@.subrange(0, i as int), source@, ready@.subrange(0, i as int)),
        decreases rules.len() - i,
    {
        let ghost rs = rules@.subrange(0, i + 1);
        let ghost rd = ready@.subrange(0, i + 1);
        assert(rs.drop_last() =~= rules@.subrange(0, i as int));
        assert(rd.subrange(0, i as int) =~= ready@.subrange(0, i as int));
        let rule = &rules[i];
        if same_text(rule.on.source.as_str(), source) && same_text(rule.on.kind.as_str(), "scan") && ready[i] {
            r.push(rule.id.clone());
        }
        i = i + 1;
        assert(r@.map_values(|s: String| s@) =~= due_ids(rs, source@, rd));
    }
    assert(rules@.subrange(0, rules.len() as int) =~= rules@);
    assert(ready@.subrange(0, ready.len() as int) =~= ready@);
    r
}

/// Whether a source's scan waits: no scan rule is due and its next scan
/// time has not come.
pub fn scan_waits(due_count: usize, before_next: bool) -> (r: bool)
    ensures
        r == (due_count == 0 && before_next),
{
    due_count == 0 && before_next
}

/// Whether a source's recorded observations are dropped before a scan: its
/// scan signature changed since they were recorded.
pub fn observations_outdated(old: &Option<(String, bool)>, signature: &str) -> (r: bool)
    ensures
        r == (old matches Some(o) && o.0@ != signature@),
{
    match old {
        None => false,
        Some((s, _)) => !same_text(s.as_str(), signature),
    }
}

/// How long to wait before looking again at a source whose root is not an
/// available directory, in milliseconds.
pub const UNAVAILABLE_RETRY_MS: u64 = 5000;

/// How deep a scan walks below a source's root: one level for a
/// nonrecursive source, without limit for a recursive one.
pub fn scan_depth(recursive: bool) -> (r: usize)
    ensures
        r == if recursive { usize::MAX } else { 1 },
{
    if recursive {
        usize::MAX
    } else {
        1
    }
}

/// The status a source is left in after a finished scan.
pub fn scan_status(failed: bool) -> (r: &'static str)
    ensures
        r@ == if failed { "unavailable"@ } else { "available"@ },
{
    if failed {
        "unavailable"
    } else {
        "available"
    }
}

/// How planning a ready file came out, as far as what is recorded needs it.
pub enum Planned {
    /// A plan was made and applied; `ok` tells whether applying it succeeded.
    Applied { ok: bool },
    /// No rule claimed the file.
    NoMatch,
    /// Planning failed.
    Failed(Error),
}

/// What is recorded after planning a ready file: the job row to write, if
/// applying did not record it already (its status and rule ID), and the
/// status the observation is left in.
pub struct Recorded {
    pub job_status: Option<String>,
    pub rule_id: String,
    pub observation: String,
}

/// The rule ID a failed job records: the error's, or empty.
pub open spec fn failed_rule_id(e: Error) -> Seq<char> {
    match e.rule_id {
        Some(id) => id@,
        None => ""@,
    }
}

/// What is recorded for each way planning can come out: an applied plan
/// records its own job and leaves the observation `observed` or `failed` as
/// applying went; a file no rule claims gets a `no_match` job; a failed plan
/// gets a `failed` job with the error's rule ID, and its observation is left
/// `failed`.
pub open spec fn record_for(planned: Planned, r: Recorded) -> bool {
    match planned {
        Planned::Applied { ok } => r.job_status is None && r.rule_id@ == ""@ && r.observation@ == (if ok {
            "observed"@
        } else {
            "failed"@
        }),
        Planned::NoMatch => r.job_status matches Some(s) && s@ == "no_match"@ && r.rule_id@ == ""@
            && r.observation@ == "observed"@,
        Planned::Failed(e) => r.job_status matches Some(s) && s@ == "failed"@ && r.rule_id@ == failed_rule_id(e)
            && r.observation@ == "failed"@,
    }
}

/// Decides what is recorded after planning a ready file.
pub fn outcome_record(planned: &Planned) -> (r: Recorded)
    ensures
        record_for(*planned, r),
{
    proof {
        reveal_strlit("");
    }
    match planned {
        Planned::Applied { ok } => {
            let observation = if *ok {
                "observed".to_owned()
            } else {
                "failed".to_owned()
            };
            let r = Recorded { job_status: None, rule_id: String::new(), observation };
            assert(r.rule_id@ == ""@);
            assert(r.job_status is None);
            assert(r.observation@ == (if *ok { "observed"@ } else { "failed"@ }));
            assert(planned->ok == *ok);
            assert(record_for(*planned, r));
            r
        },
        Planned::NoMatch => {
            let r = Recorded {
                job_status: Some("no_match".to_owned()),
                rule_id: String::new(),
                observation: "observed".to_owned(),
            };
            assert(r.job_status matches Some(s) && s@ == "no_match"@);
            assert(r.rule_id@ == ""@);
            assert(r.observation@ == "observed"@);
            assert(*planned is NoMatch);
            assert(record_for(*planned, r));
            r
        },
        Planned::Failed(e) => {
            let rule_id = match &e.rule_id {
                Some(id) => id.clone(),
                None => String::new(),
            };
            assert(rule_id@ == failed_rule_id(*e));
            let status = "failed".to_owned();
            let r = Recorded { job_status: Some(status), rule_id, observation: "failed".to_owned() };
            assert(r.job_status matches Some(s) && s@ == "failed"@);
            assert(r.rule_id@ == failed_rule_id(*e));
            assert(r.observation@ == "failed"@);
            assert(*planned == Planned::Failed(*e));
            r
        },
    }
}

/// A failed plan is never recorded as finding no match: its job is `failed`
/// and names the rule that failed.
pub proof fn law_failed_plans_are_never_no_match(e: Error, r: Recorded)
    requires
        record_for(Planned::Failed(e), r),
    ensures
        r.job_status matches Some(s) && s@ != "no_match"@ && s@ == "failed"@,
        e.rule_id matches Some(id) ==> r.rule_id@ == id@,
        r.observation@ == "failed"@,
{
    reveal_strlit("failed");
    reveal_strlit("no_match");
    assert("failed"@.len() != "no_match"@.len());
}

/// A new version of a file that was already handled starts a new wait: its
/// first-seen time is now, so a later scan records it to wait for stability
/// and never expires it on the strength of the old version's age.
pub proof fn law_handled_files_start_a_new_wait(
    o: Observed,
    version: Seq<char>,
    now: int,
    scheduled: bool,
    stable_ms: int,
    retry_ms: int,
)
    requires
        o.handled,
        o.version@ != version,
        retry_ms >= 0,
    ensures
        observation(Some(o), version, now, false, scheduled, stable_ms, retry_ms) == (Observation::Record {
            first_seen: now as i64,
            baseline: false,
        }),
{
}

/// A file that keeps changing before it was handled keeps its first-seen
/// time: it waits while it has changed for at most the retry period, and
/// expires once it has been changing for longer.
pub proof fn law_changing_files_keep_their_first_sighting(
    o: Observed,
    version: Seq<char>,
    now: int,
    scheduled: bool,
    stable_ms: int,
    retry_ms: int,
)
    requires
        !o.handled,
        o.version@ != version,
    ensures
        now - o.first_seen <= retry_ms ==> observation(Some(o), version, now, false, scheduled, stable_ms, retry_ms)
            == (Observation::Record { first_seen: o.first_seen, baseline: false }),
        now - o.first_seen > retry_ms ==> observation(Some(o), version, now, false, scheduled, stable_ms, retry_ms)
            == (Observation::Expired { first_seen: o.first_seen }),
{
}

/// An unchanged file that is not the engine's own handled effect, and is
/// either unhandled or reconsidered by due scan rules, is processed once it
/// has been stable for the stability period; before that it waits, and gives
/// up only after changing for longer than the retry period.
pub proof fn law_unchanged_files_are_processed_once_stable(
    o: Observed,
    now: int,
    initial: bool,
    scheduled: bool,
    stable_ms: int,
    retry_ms: int,
)
    requires
        !(o.status@ == "own_effect"@ && o.handled),
        !o.handled || scheduled,
    ensures
        now - o.stable_since >= stable_ms ==> observation(Some(o), o.version@, now, initial, scheduled, stable_ms, retry_ms)
            == (Observation::Process { scheduled }),
        now - o.stable_since < stable_ms && now - o.first_seen > retry_ms ==> observation(
            Some(o),
            o.version@,
            now,
            initial,
            scheduled,
            stable_ms,
            retry_ms,
        ) == Observation::GiveUp,
        now - o.stable_since < stable_ms && now - o.first_seen <= retry_ms ==> observation(
            Some(o),
            o.version@,
            now,
            initial,
            scheduled,
            stable_ms,
            retry_ms,
        ) == Observation::Skip,
{
}

/// A handled file seen again unchanged without due scan rules is left alone.
pub proof fn law_handled_files_rest(o: Observed, now: int, initial: bool, stable_ms: int, retry_ms: int)
    requires
        o.handled,
    ensures
        observation(Some(o), o.version@, now, initial, false, stable_ms, retry_ms) == Observation::Skip,
{
}

/// A file seen for the first time is recorded with the current time as its
/// first sighting: as the baseline on an initial scan, else to wait.
pub proof fn law_new_files_are_recorded_now(
    version: Seq<char>,
    now: int,
    initial: bool,
    scheduled: bool,
    stable_ms: int,
    retry_ms: int,
)
    requires
        retry_ms >= 0,
    ensures
        observation(None, version, now, initial, scheduled, stable_ms, retry_ms) == (Observation::Record {
            first_seen: now as i64,
            baseline: initial,
        }),
{
}

} // verus!

//! Session feedback: where it is kept, which events are acceptable, and
//! what the recorded events add up to.
use vstd::prelude::*;

use crate::inventory::repo_state_path;
use crate::model::str_views;
use crate::strs::{uniq, uniq_strings};
use crate::text::{
    chars_of, contains, contains_str, extend_str, find_char, string_of, trim, trim_vec,
    utf8_len, utf8_len_below,
};

verus! {

/// The schema version of feedback events.
pub const FEEDBACK_EVENT_SCHEMA_VERSION: u32 = 1;

/// Where the feedback log of a repository lives under the ctxpack home:
/// `home/repos/<repo_id>/feedback.jsonl`.
pub fn feedback_path(home: &str, repo_id: &str) -> (r: String)
    ensures
        r@ == repo_state_path(home@, repo_id@, "feedback.jsonl"@),
{
    crate::inventory::repo_state_path_exec(home, repo_id, "feedback.jsonl")
}

/// Where the policy profiles of a repository live under the ctxpack home:
/// `home/repos/<repo_id>/policy-profiles.json`.
pub fn policy_profiles_path(home: &str, repo_id: &str) -> (r: String)
    ensures
        r@ == repo_state_path(home@, repo_id@, "policy-profiles.json"@),
{
    crate::inventory::repo_state_path_exec(home, repo_id, "policy-profiles.json")
}

/// How an agent session ended.
#[derive(Debug, Clone, Copy, PartialEq, Eq, Structural)]
pub enum FeedbackOutcome {
    Passed,
    Failed,
    Blocked,
    Unknown,
}

/// The size of a context pack.
#[derive(Debug, Clone, Copy, PartialEq, Eq, Structural)]
pub enum PackBudget {
    Brief,
    Standard,
    Deep,
}

/// What an agent session did with a recommended context, without source
/// text.
#[derive(Debug, Clone)]
pub struct SessionFeedbackEvent {
    pub schema_version: u32,
    pub outcome: FeedbackOutcome,
    pub budget: Option<PackBudget>,
    pub recommended_files: Vec<String>,
    pub recommended_tests: Vec<String>,
    pub recommended_commands: Vec<String>,
    pub read_files: Vec<String>,
    pub edited_files: Vec<String>,
    pub tested_files: Vec<String>,
    pub tested_commands: Vec<String>,
    pub user_corrected_files: Vec<String>,
    pub tags: Vec<String>,
    pub source_text_logged: bool,
}

// ---------------------------------------------------------------------
// Validation
// ---------------------------------------------------------------------
/// A label that is blank, longer than 512 bytes, spans lines or holds a
/// code fence.
pub open spec fn bad_label(v: Seq<char>) -> bool {
    trim(v).len() == 0 || utf8_len(v) > 512 || v.contains('\n') || v.contains('\r') || contains(
        v,
        "```"@,
    )
}

/// A path label that is absolute or climbs with `..`.
pub open spec fn bad_path(v: Seq<char>) -> bool {
    (v.len() > 0 && v[0] == '/') || contains(v, ".."@)
}

/// The message for a bad label.
pub open spec fn label_error() -> Seq<char> {
    "feedback labels must be short source-free single-line values"@
}

/// The error of a path label, if any.
pub open spec fn path_label_error(v: Seq<char>) -> Option<Seq<char>> {
    if bad_label(v) {
        Some(label_error())
    } else if bad_path(v) {
        Some("feedback path must be a safe repository-relative label: "@ + v)
    } else {
        None
    }
}

/// The first error among path labels.
pub open spec fn first_path_error(vs: Seq<Seq<char>>) -> Option<Seq<char>>
    decreases vs.len(),
{
    if vs.len() == 0 {
        None
    } else {
        match path_label_error(vs[0]) {
            Some(e) => Some(e),
            None => first_path_error(vs.drop_first()),
        }
    }
}

/// The first error among plain labels.
pub open spec fn first_label_error(vs: Seq<Seq<char>>) -> Option<Seq<char>>
    decreases vs.len(),
{
    if vs.len() == 0 {
        None
    } else if bad_label(vs[0]) {
        Some(label_error())
    } else {
        first_label_error(vs.drop_first())
    }
}

/// The path labels of an event, in checking order.
pub open spec fn event_paths(e: SessionFeedbackEvent) -> Seq<Seq<char>> {
    str_views(e.recommended_files@) + str_views(e.recommended_tests@) + str_views(e.read_files@)
        + str_views(e.edited_files@) + str_views(e.tested_files@) + str_views(
        e.user_corrected_files@,
    )
}

/// The plain labels of an event, in checking order.
pub open spec fn event_labels(e: SessionFeedbackEvent) -> Seq<Seq<char>> {
    str_views(e.recommended_commands@) + str_views(e.tested_commands@) + str_views(e.tags@)
}

/// Why an event cannot be recorded, if it cannot: it logs source text, it
/// has another schema version, or one of its labels is unsafe (the first
/// such label decides).
pub open spec fn event_error(e: SessionFeedbackEvent) -> Option<Seq<char>> {
    if e.source_text_logged {
        Some("feedback events must not log source text"@)
    } else if e.schema_version != FEEDBACK_EVENT_SCHEMA_VERSION {
        Some(
            "unsupported feedback event schema version "@ + crate::text::decimal(
                e.schema_version as nat,
            ) + "; expected 1"@,
        )
    } else {
        match first_path_error(event_paths(e)) {
            Some(m) => Some(m),
            None => first_label_error(event_labels(e)),
        }
    }
}

fn has_char(v: &[char], c: char) -> (b: bool)
    ensures
        b == v@.contains(c),
{
    match find_char(v, c) {
        Some(i) => {
            assert(v@[i as int] == c);
            true
        },
        None => {
            proof {
                if v@.contains(c) {
                    let k = choose|k: int| 0 <= k < v@.len() && v@[k] == c;
                    assert(crate::text::matches_at(v@, seq![c], k)) by {
                        assert(v@.subrange(k, k + 1) =~= seq![c]);
                    }
                }
            }
            false
        },
    }
}

fn label_is_bad(v: &str) -> (b: bool)
    ensures
        b == bad_label(v@),
{
    let c = chars_of(v);
    let t = trim_vec(&c);
    t.len() == 0 || !utf8_len_below(&c, 513) || has_char(&c, '\n') || has_char(&c, '\r')
        || contains_str(&c, "```")
}

fn path_error(v: &str) -> (r: Option<String>)
    ensures
        match path_label_error(v@) {
            Some(m) => r matches Some(x) && x@ == m,
            None => r is None,
        },
{
    if label_is_bad(v) {
        return Some(String::from_str("feedback labels must be short source-free single-line values"));
    }
    let c = chars_of(v);
    if (c.len() > 0 && c[0] == '/') || contains_str(&c, "..") {
        let mut out: Vec<char> = Vec::new();
        extend_str(&mut out, "feedback path must be a safe repository-relative label: ");
        extend_str(&mut out, v);
        return Some(string_of(&out));
    }
    None
}

proof fn lemma_first_path_error_concat(a: Seq<Seq<char>>, b: Seq<Seq<char>>)
    ensures
        first_path_error(a + b) == match first_path_error(a) {
            Some(e) => Some(e),
            None => first_path_error(b),
        },
    decreases a.len(),
{
    if a.len() > 0 {
        assert((a + b).drop_first() =~= a.drop_first() + b);
        lemma_first_path_error_concat(a.drop_first(), b);
    } else {
        assert(a + b =~= b);
    }
}

proof fn lemma_first_label_error_concat(a: Seq<Seq<char>>, b: Seq<Seq<char>>)
    ensures
        first_label_error(a + b) == match first_label_error(a) {
            Some(e) => Some(e),
            None => first_label_error(b),
        },
    decreases a.len(),
{
    if a.len() > 0 {
        assert((a + b).drop_first() =~= a.drop_first() + b);
        lemma_first_label_error_concat(a.drop_first(), b);
    } else {
        assert(a + b =~= b);
    }
}

fn first_path_error_exec(vs: &Vec<String>) -> (r: Option<String>)
    ensures
        match first_path_error(str_views(vs@)) {
            Some(m) => r matches Some(x) && x@ == m,
            None => r is None,
        },
{
    let ghost sv = str_views(vs@);
    let mut i: usize = 0;
    assert(sv.skip(0) =~= sv);
    while i < vs.len()
        invariant
            i <= vs@.len(),
            sv == str_views(vs@),
            first_path_error(sv) == first_path_error(sv.skip(i as int)),
        decreases vs.len() - i,
    {
        assert(sv.skip(i as int)[0] == vs@[i as int]@);
        assert(sv.skip(i as int).drop_first() =~= sv.skip(i + 1));
        let e = path_error(vs[i].as_str());
        if e.is_some() {
            return e;
        }
        i += 1;
    }
    assert(sv.skip(i as int) =~= Seq::<Seq<char>>::empty());
    None
}

fn first_label_error_exec(vs: &Vec<String>) -> (r: Option<String>)
    ensures
        match first_label_error(str_views(vs@)) {
            Some(m) => r matches Some(x) && x@ == m,
            None => r is None,
        },
{
    let ghost sv = str_views(vs@);
    let mut i: usize = 0;
    assert(sv.skip(0) =~= sv);
    while i < vs.len()
        invariant
            i <= vs@.len(),
            sv == str_views(vs@),
            first_label_error(sv) == first_label_error(sv.skip(i as int)),
        decreases vs.len() - i,
    {
        assert(sv.skip(i as int)[0] == vs@[i as int]@);
        assert(sv.skip(i as int).drop_first() =~= sv.skip(i + 1));
        if label_is_bad(vs[i].as_str()) {
            return Some(String::from_str("feedback labels must be short source-free single-line values"));
        }
        i += 1;
    }
    assert(sv.skip(i as int) =~= Seq::<Seq<char>>::empty());
    None
}

/// Checks that an event may be recorded: `Err` with the message of
/// `event_error` exactly when there is one.
pub fn validate_feedback_event(event: &SessionFeedbackEvent) -> (r: Result<(), String>)
    ensures
        match event_error(*event) {
            Some(m) => r matches Err(x) && x@ == m,
            None => r is Ok,
        },
{
    if event.source_text_logged {
        return Err(String::from_str("feedback events must not log source text"));
    }
    if event.schema_version != FEEDBACK_EVENT_SCHEMA_VERSION {
        let mut out: Vec<char> = Vec::new();
        extend_str(&mut out, "unsupported feedback event schema version ");
        crate::text::extend_chars(&mut out, &crate::text::decimal_chars(event.schema_version as u64));
        extend_str(&mut out, "; expected 1");
        return Err(string_of(&out));
    }
    proof {
        let a = str_views(event.recommended_files@);
        let b = str_views(event.recommended_tests@);
        let c = str_views(event.read_files@);
        let d = str_views(event.edited_files@);
        let e = str_views(event.tested_files@);
        let f = str_views(event.user_corrected_files@);
        lemma_first_path_error_concat(a, b);
        lemma_first_path_error_concat(a + b, c);
        lemma_first_path_error_concat(a + b + c, d);
        lemma_first_path_error_concat(a + b + c + d, e);
        lemma_first_path_error_concat(a + b + c + d + e, f);
        let g = str_views(event.recommended_commands@);
        let h = str_views(event.tested_commands@);
        let k = str_views(event.tags@);
        lemma_first_label_error_concat(g, h);
        lemma_first_label_error_concat(g + h, k);
    }
    let e = first_path_error_exec(&event.recommended_files);
    if e.is_some() {
        return Err(e.unwrap());
    }
    let e = first_path_error_exec(&event.recommended_tests);
    if e.is_some() {
        return Err(e.unwrap());
    }
    let e = first_path_error_exec(&event.read_files);
    if e.is_some() {
        return Err(e.unwrap());
    }
    let e = first_path_error_exec(&event.edited_files);
    if e.is_some() {
        return Err(e.unwrap());
    }
    let e = first_path_error_exec(&event.tested_files);
    if e.is_some() {
        return Err(e.unwrap());
    }
    let e = first_path_error_exec(&event.user_corrected_files);
    if e.is_some() {
        return Err(e.unwrap());
    }
    let e = first_label_error_exec(&event.recommended_commands);
    if e.is_some() {
        return Err(e.unwrap());
    }
    let e = first_label_error_exec(&event.tested_commands);
    if e.is_some() {
        return Err(e.unwrap());
    }
    let e = first_label_error_exec(&event.tags);
    if e.is_some() {
        return Err(e.unwrap());
    }
    Ok(())
}


// ---------------------------------------------------------------------
// Summaries
// ---------------------------------------------------------------------
/// What a repository's feedback events add up to.
#[derive(Debug, Clone)]
pub struct FeedbackSummary {
    pub repo_id: String,
    pub event_count: usize,
    pub passed_count: usize,
    pub failed_count: usize,
    pub blocked_count: usize,
    pub unknown_count: usize,
    pub read_file_count: usize,
    pub edited_file_count: usize,
    pub tested_file_count: usize,
    pub user_corrected_file_count: usize,
    pub source_text_logged: bool,
}

/// How many of the events ended with `o`.
pub open spec fn outcome_count(es: Seq<SessionFeedbackEvent>, o: FeedbackOutcome) -> nat
    decreases es.len(),
{
    if es.len() == 0 {
        0
    } else {
        outcome_count(es.drop_last(), o) + if es.last().outcome == o {
            1nat
        } else {
            0
        }
    }
}

/// One of the file lists of an event: read (0), edited (1), tested (2) or
/// corrected by the user (3).
pub open spec fn file_list(e: SessionFeedbackEvent, which: int) -> Seq<Seq<char>> {
    if which == 0 {
        str_views(e.read_files@)
    } else if which == 1 {
        str_views(e.edited_files@)
    } else if which == 2 {
        str_views(e.tested_files@)
    } else {
        str_views(e.user_corrected_files@)
    }
}

/// One file list of every event, concatenated in event order.
pub open spec fn all_files(es: Seq<SessionFeedbackEvent>, which: int) -> Seq<Seq<char>>
    decreases es.len(),
{
    if es.len() == 0 {
        seq![]
    } else {
        all_files(es.drop_last(), which) + file_list(es.last(), which)
    }
}

/// Whether any event logged source text.
pub open spec fn any_logged(es: Seq<SessionFeedbackEvent>) -> bool {
    exists|i: int| 0 <= i < es.len() && (#[trigger] es[i]).source_text_logged
}

fn file_list_exec(e: &SessionFeedbackEvent, which: usize) -> (r: &Vec<String>)
    ensures
        str_views(r@) == file_list(*e, which as int),
{
    if which == 0 {
        &e.read_files
    } else if which == 1 {
        &e.edited_files
    } else if which == 2 {
        &e.tested_files
    } else {
        &e.user_corrected_files
    }
}

fn distinct_files(events: &Vec<SessionFeedbackEvent>, which: usize) -> (n: usize)
    ensures
        n == uniq(all_files(events@, which as int)).len(),
{
    let mut all: Vec<String> = Vec::new();
    let mut i: usize = 0;
    while i < events.len()
        invariant
            i <= events@.len(),
            str_views(all@) == all_files(events@.take(i as int), which as int),
        decreases events.len() - i,
    {
        assert(events@.take(i + 1).drop_last() =~= events@.take(i as int));
        assert(events@.take(i + 1).last() == events@[i as int]);
        let list = file_list_exec(&events[i], which);
        let ghost before = str_views(all@);
        let mut j: usize = 0;
        while j < list.len()
            invariant
                j <= list@.len(),
                str_views(all@) == before + str_views(list@).take(j as int),
            decreases list.len() - j,
        {
            let c = list[j].clone();
            let ghost prev = str_views(all@);
            all.push(c);
            assert(str_views(all@) =~= prev.push(c@));
            assert(str_views(list@).take(j + 1) =~= str_views(list@).take(j as int).push(c@));
            j += 1;
        }
        assert(str_views(list@).take(list@.len() as int) =~= str_views(list@));
        i += 1;
    }
    assert(events@.take(events@.len() as int) =~= events@);
    let distinct = uniq_strings(&all);
    distinct.len()
}

/// The summary of some events of a repository: the number of events, of
/// each outcome, of distinct files read, edited, tested and corrected, and
/// whether any event logged source text.
pub fn summarize_feedback_events(repo_id: &str, events: &Vec<SessionFeedbackEvent>) -> (r: FeedbackSummary)
    ensures
        r.repo_id@ == repo_id@,
        r.event_count == events@.len(),
        r.passed_count == outcome_count(events@, FeedbackOutcome::Passed),
        r.failed_count == outcome_count(events@, FeedbackOutcome::Failed),
        r.blocked_count == outcome_count(events@, FeedbackOutcome::Blocked),
        r.unknown_count == outcome_count(events@, FeedbackOutcome::Unknown),
        r.read_file_count == uniq(all_files(events@, 0)).len(),
        r.edited_file_count == uniq(all_files(events@, 1)).len(),
        r.tested_file_count == uniq(all_files(events@, 2)).len(),
        r.user_corrected_file_count == uniq(all_files(events@, 3)).len(),
        r.source_text_logged == any_logged(events@),
{
    let mut passed: usize = 0;
    let mut failed: usize = 0;
    let mut blocked: usize = 0;
    let mut unknown: usize = 0;
    let mut logged = false;
    let mut i: usize = 0;
    while i < events.len()
        invariant
            i <= events@.len(),
            passed == outcome_count(events@.take(i as int), FeedbackOutcome::Passed),
            failed == outcome_count(events@.take(i as int), FeedbackOutcome::Failed),
            blocked == outcome_count(events@.take(i as int), FeedbackOutcome::Blocked),
            unknown == outcome_count(events@.take(i as int), FeedbackOutcome::Unknown),
            passed + failed + blocked + unknown == i,
            logged == any_logged(events@.take(i as int)),
        decreases events.len() - i,
    {
        let ghost t = events@.take(i + 1);
        assert(t.drop_last() =~= events@.take(i as int));
        assert(t.last() == events@[i as int]);
        match events[i].outcome {
            FeedbackOutcome::Passed => passed += 1,
            FeedbackOutcome::Failed => failed += 1,
            FeedbackOutcome::Blocked => blocked += 1,
            FeedbackOutcome::Unknown => unknown += 1,
        }
        proof {
            if events@[i as int].source_text_logged {
                assert(t[i as int].source_text_logged);
            }
            if any_logged(t) && !any_logged(events@.take(i as int)) {
                let k = choose|k: int| 0 <= k < t.len() && (#[trigger] t[k]).source_text_logged;
                if k < i {
                    assert(events@.take(i as int)[k] == t[k]);
                }
            }
            if any_logged(events@.take(i as int)) {
                let k = choose|k: int|
                    0 <= k < events@.take(i as int).len() && (#[trigger] events@.take(i as int)[k]).source_text_logged;
                assert(t[k] == events@.take(i as int)[k]);
            }
        }
        logged = logged || events[i].source_text_logged;
        i += 1;
    }
    assert(events@.take(events@.len() as int) =~= events@);
    FeedbackSummary {
        repo_id: String::from_str(repo_id),
        event_count: events.len(),
        passed_count: passed,
        failed_count: failed,
        blocked_count: blocked,
        unknown_count: unknown,
        read_file_count: distinct_files(events, 0),
        edited_file_count: distinct_files(events, 1),
        tested_file_count: distinct_files(events, 2),
        user_corrected_file_count: distinct_files(events, 3),
        source_text_logged: logged,
    }
}

/// Every event has exactly one outcome: the outcome counts add up to the
/// number of events.
pub proof fn lemma_outcomes_partition(es: Seq<SessionFeedbackEvent>)
    ensures
        outcome_count(es, FeedbackOutcome::Passed) + outcome_count(es, FeedbackOutcome::Failed)
            + outcome_count(es, FeedbackOutcome::Blocked) + outcome_count(
            es,
            FeedbackOutcome::Unknown,
        ) == es.len(),
    decreases es.len(),
{
    if es.len() > 0 {
        lemma_outcomes_partition(es.drop_last());
    }
}

proof fn lemma_first_path_error(vs: Seq<Seq<char>>)
    ensures
        first_path_error(vs) is None <==> forall|i: int| 0 <= i < vs.len() ==> !bad_label(#[trigger] vs[i]) && !bad_path(vs[i]),
    decreases vs.len(),
{
    if vs.len() > 0 {
        lemma_first_path_error(vs.drop_first());
        if first_path_error(vs) is None {
            assert forall|i: int| 0 <= i < vs.len() implies !bad_label(#[trigger] vs[i]) && !bad_path(vs[i]) by {
                if i > 0 {
                    assert(vs.drop_first()[i - 1] == vs[i]);
                }
            }
        } else if path_label_error(vs[0]) is None {
            let j = choose|j: int| 0 <= j < vs.drop_first().len() && !(!bad_label(#[trigger] vs.drop_first()[j]) && !bad_path(vs.drop_first()[j]));
            assert(vs[j + 1] == vs.drop_first()[j]);
        }
    }
}

proof fn lemma_first_label_error(vs: Seq<Seq<char>>)
    ensures
        first_label_error(vs) is None <==> forall|i: int| 0 <= i < vs.len() ==> !bad_label(#[trigger] vs[i]),
    decreases vs.len(),
{
    if vs.len() > 0 {
        lemma_first_label_error(vs.drop_first());
        if first_label_error(vs) is None {
            assert forall|i: int| 0 <= i < vs.len() implies !bad_label(#[trigger] vs[i]) by {
                if i > 0 {
                    assert(vs.drop_first()[i - 1] == vs[i]);
                }
            }
        } else if !bad_label(vs[0]) {
            let j = choose|j: int| 0 <= j < vs.drop_first().len() && bad_label(#[trigger] vs.drop_first()[j]);
            assert(vs[j + 1] == vs.drop_first()[j]);
        }
    }
}

/// An event is recorded exactly when it logs no source text, has the
/// current schema version, every path label (recommended files and tests,
/// read, edited, tested and corrected files) is a short single-line label
/// that is neither absolute nor climbs with `..`, and every other label
/// (commands and tags) is a short single-line label without code fences.
pub proof fn lemma_unsafe_events_are_refused(e: SessionFeedbackEvent)
    ensures
        event_error(e) is None <==> (!e.source_text_logged && e.schema_version
            == FEEDBACK_EVENT_SCHEMA_VERSION && (forall|i: int|
            0 <= i < event_paths(e).len() ==> !bad_label(#[trigger] event_paths(e)[i]) && !bad_path(
                event_paths(e)[i],
            )) && (forall|i: int| 0 <= i < event_labels(e).len() ==> !bad_label(#[trigger] event_labels(e)[i]))),
{
    lemma_first_path_error(event_paths(e));
    lemma_first_label_error(event_labels(e));
}

/// No more distinct files are counted than file entries were recorded.
pub proof fn lemma_distinct_files_bounded(es: Seq<SessionFeedbackEvent>, which: int)
    ensures
        uniq(all_files(es, which)).len() <= all_files(es, which).len(),
{
    lemma_uniq_len(all_files(es, which));
}

proof fn lemma_uniq_len(s: Seq<Seq<char>>)
    ensures
        uniq(s).len() <= s.len(),
    decreases s.len(),
{
    if s.len() > 0 {
        lemma_uniq_len(s.drop_last());
    }
}

// ---------------------------------------------------------------------
// Budgets and warnings
// ---------------------------------------------------------------------
/// The warning of a report built from fewer than five events.
pub open spec fn sample_warning_of(event_count: nat) -> Option<Seq<char>> {
    if event_count < 5 {
        Some("Low feedback sample count; use this report as directional evidence only."@)
    } else {
        None
    }
}

/// Executable `sample_warning_of`.
pub fn sample_warning(event_count: usize) -> (r: Option<String>)
    ensures
        crate::model::opt_view(r) == sample_warning_of(event_count as nat),
{
    if event_count < 5 {
        Some(String::from_str("Low feedback sample count; use this report as directional evidence only."))
    } else {
        None
    }
}

/// The key of a budget: its name, or `plan_only` without one.
pub open spec fn budget_name(b: Option<PackBudget>) -> Seq<char> {
    match b {
        Some(PackBudget::Brief) => "brief"@,
        Some(PackBudget::Standard) => "standard"@,
        Some(PackBudget::Deep) => "deep"@,
        None => "plan_only"@,
    }
}

/// Executable `budget_name`.
pub fn budget_key(b: Option<PackBudget>) -> (r: String)
    ensures
        r@ == budget_name(b),
{
    match b {
        Some(PackBudget::Brief) => String::from_str("brief"),
        Some(PackBudget::Standard) => String::from_str("standard"),
        Some(PackBudget::Deep) => String::from_str("deep"),
        None => String::from_str("plan_only"),
    }
}

/// The tokens a budget allows.
pub open spec fn budget_tokens(b: PackBudget) -> nat {
    match b {
        PackBudget::Brief => 4000,
        PackBudget::Standard => 16000,
        PackBudget::Deep => 64000,
    }
}

/// Executable `budget_tokens`.
pub fn pack_budget_token_estimate(b: PackBudget) -> (r: usize)
    ensures
        r == budget_tokens(b),
{
    match b {
        PackBudget::Brief => 4000,
        PackBudget::Standard => 16000,
        PackBudget::Deep => 64000,
    }
}

/// The budget keys of the events, in event order.
pub open spec fn budget_keys(es: Seq<SessionFeedbackEvent>) -> Seq<Seq<char>> {
    es.map_values(|e: SessionFeedbackEvent| budget_name(e.budget))
}

/// Whether a comparison across budgets rests on too few events: more than
/// one budget among fewer than twelve events.
pub open spec fn mixed_budget_warning(es: Seq<SessionFeedbackEvent>) -> bool {
    uniq(budget_keys(es)).len() > 1 && es.len() < 12
}

/// Executable `mixed_budget_warning`.
pub fn by_budget_sample_warning(events: &Vec<SessionFeedbackEvent>) -> (b: bool)
    ensures
        b == mixed_budget_warning(events@),
{
    let mut keys: Vec<String> = Vec::new();
    let mut i: usize = 0;
    while i < events.len()
        invariant
            i <= events@.len(),
            str_views(keys@) == budget_keys(events@.take(i as int)),
        decreases events.len() - i,
    {
        let k = budget_key(events[i].budget);
        let ghost before = str_views(keys@);
        keys.push(k);
        assert(str_views(keys@) =~= before.push(k@));
        assert(budget_keys(events@.take(i + 1)) =~= budget_keys(events@.take(i as int)).push(k@));
        i += 1;
    }
    assert(events@.take(events@.len() as int) =~= events@);
    let distinct = uniq_strings(&keys);
    distinct.len() > 1 && events.len() < 12
}


// ---------------------------------------------------------------------
// Policy profile lifecycle
// ---------------------------------------------------------------------
/// Where a retrieval policy profile stands.
#[derive(Debug, Clone, Copy, PartialEq, Eq, Structural)]
pub enum PolicyProfileStatus {
    Candidate,
    Active,
    Disabled,
    RolledBack,
}

/// The status of a profile after setting the status of profile `target` to
/// `status`: the target takes it; activating one profile disables the
/// other active ones.
pub open spec fn updated_status(cur: PolicyProfileStatus, is_target: bool, status: PolicyProfileStatus) -> PolicyProfileStatus {
    if is_target {
        status
    } else if status == PolicyProfileStatus::Active && cur == PolicyProfileStatus::Active {
        PolicyProfileStatus::Disabled
    } else {
        cur
    }
}

/// The index of the first active profile, if any.
pub open spec fn first_active(st: Seq<PolicyProfileStatus>) -> Option<int>
    decreases st.len(),
{
    if st.len() == 0 {
        None
    } else {
        match first_active(st.drop_last()) {
            Some(i) => Some(i),
            None => if st.last() == PolicyProfileStatus::Active {
                Some(st.len() - 1)
            } else {
                None
            },
        }
    }
}

fn first_active_exec(st: &Vec<PolicyProfileStatus>) -> (r: Option<usize>)
    ensures
        match first_active(st@) {
            Some(i) => r == Some(i as usize),
            None => r is None,
        },
{
    let mut i: usize = 0;
    while i < st.len()
        invariant
            i <= st@.len(),
            first_active(st@.take(i as int)) is None,
        decreases st.len() - i,
    {
        assert(st@.take(i + 1).drop_last() =~= st@.take(i as int));
        if st[i] == PolicyProfileStatus::Active {
            proof {
                lemma_first_active_extend(st@, i as int);
            }
            return Some(i);
        }
        i += 1;
    }
    assert(st@.take(st@.len() as int) =~= st@);
    None
}

proof fn lemma_first_active_extend(st: Seq<PolicyProfileStatus>, i: int)
    requires
        0 <= i < st.len(),
        first_active(st.take(i)) is None,
        st[i] == PolicyProfileStatus::Active,
    ensures
        first_active(st) == Some(i),
    decreases st.len() - i,
{
    if i + 1 < st.len() {
        assert(st.take(i + 1).drop_last() =~= st.take(i));
        lemma_first_active_prefix(st, i + 1);
    } else {
        assert(st.take(i + 1) =~= st);
        assert(st.drop_last() =~= st.take(i));
    }
}

proof fn lemma_first_active_prefix(st: Seq<PolicyProfileStatus>, n: int)
    requires
        0 <= n <= st.len(),
        first_active(st.take(n)) is Some,
    ensures
        first_active(st) == first_active(st.take(n)),
    decreases st.len() - n,
{
    if n < st.len() {
        assert(st.take(n + 1).drop_last() =~= st.take(n));
        lemma_first_active_prefix(st, n + 1);
    } else {
        assert(st.take(n) =~= st);
    }
}

/// Sets the status of the profile with id `target`; `Err`, with the
/// statuses unchanged, when no profile has that id. On success, `statuses` holds every profile's new status and
/// the result is the index of the first active profile.
pub fn update_policy_profile_status(
    ids: &Vec<String>,
    statuses: &mut Vec<PolicyProfileStatus>,
    target: &str,
    status: PolicyProfileStatus,
) -> (r: Result<Option<usize>, String>)
    requires
        old(statuses)@.len() == ids@.len(),
    ensures
        (exists|k: int| 0 <= k < ids@.len() && (#[trigger] ids@[k])@ == target@) <==> r is Ok,
        r is Err ==> (r matches Err(m) && m@ == "policy profile not found: "@ + target@)
            && final(statuses)@ == old(statuses)@,
        r is Ok ==> {
            &&& final(statuses)@.len() == ids@.len()
            &&& forall|k: int|
                0 <= k < ids@.len() ==> #[trigger] final(statuses)@[k] == updated_status(
                    old(statuses)@[k],
                    ids@[k]@ == target@,
                    status,
                )
            &&& match first_active(final(statuses)@) {
                Some(i) => r == Ok::<Option<usize>, String>(Some(i as usize)),
                None => r == Ok::<Option<usize>, String>(None),
            }
        },
{
    let t = String::from_str(target);
    let mut found = false;
    let mut j: usize = 0;
    while j < ids.len()
        invariant
            j <= ids@.len(),
            t@ == target@,
            found == exists|k: int| 0 <= k < j && (#[trigger] ids@[k])@ == target@,
        decreases ids.len() - j,
    {
        if string_eq_str(&ids[j], &t) {
            found = true;
        }
        j += 1;
    }
    if !found {
        let mut m: Vec<char> = Vec::new();
        extend_str(&mut m, "policy profile not found: ");
        extend_str(&mut m, target);
        return Err(string_of(&m));
    }
    let mut i: usize = 0;
    while i < ids.len()
        invariant
            i <= ids@.len(),
            statuses@.len() == ids@.len(),
            t@ == target@,
            forall|k: int|
                0 <= k < i ==> #[trigger] statuses@[k] == updated_status(
                    old(statuses)@[k],
                    ids@[k]@ == target@,
                    status,
                ),
            forall|k: int| i <= k < ids@.len() ==> #[trigger] statuses@[k] == old(statuses)@[k],
        decreases ids.len() - i,
    {
        let cur = statuses[i];
        let is_target = string_eq_str(&ids[i], &t);
        let next = if is_target {
            status
        } else if status == PolicyProfileStatus::Active && cur == PolicyProfileStatus::Active {
            PolicyProfileStatus::Disabled
        } else {
            cur
        };
        statuses.set(i, next);
        i += 1;
    }
    let a = first_active_exec(statuses);
    Ok(a)
}

fn string_eq_str(a: &String, b: &String) -> (r: bool)
    ensures
        r == (a@ == b@),
{
    crate::text::string_eq(a, b)
}

/// Rolls back the first active profile: `Err` when none is active, else its
/// index, its status set to rolled back.
pub fn rollback_policy_profile(statuses: &mut Vec<PolicyProfileStatus>) -> (r: Result<usize, String>)
    ensures
        match first_active(old(statuses)@) {
            Some(i) => r == Ok::<usize, String>(i as usize) && final(statuses)@ == old(statuses)@.update(
                i,
                PolicyProfileStatus::RolledBack,
            ),
            None => r matches Err(m) && m@ == "no active policy profile to roll back"@
                && final(statuses)@ == old(statuses)@,
        },
{
    match first_active_exec(statuses) {
        Some(i) => {
            proof {
                lemma_first_active_in_range(old(statuses)@);
            }
            statuses.set(i, PolicyProfileStatus::RolledBack);
            Ok(i)
        },
        None => Err(String::from_str("no active policy profile to roll back")),
    }
}

proof fn lemma_first_active_in_range(st: Seq<PolicyProfileStatus>)
    ensures
        first_active(st) matches Some(i) ==> 0 <= i < st.len() && st[i] == PolicyProfileStatus::Active,
    decreases st.len(),
{
    if st.len() > 0 {
        lemma_first_active_in_range(st.drop_last());
    }
}

/// The profiles kept when a profile with id `new_id` is written: every
/// other profile, in order (the new one is appended after them).
pub fn kept_profile_indices(ids: &Vec<String>, new_id: &String) -> (r: Vec<usize>)
    ensures
        forall|k: int| 0 <= k < r@.len() ==> r@[k] < ids@.len(),
        forall|k: int, l: int| 0 <= k < l < r@.len() ==> r@[k] < r@[l],
        forall|j: int|
            0 <= j < ids@.len() ==> (ids@[j]@ != new_id@ <==> exists|k: int|
                0 <= k < r@.len() && #[trigger] r@[k] == j),
{
    let mut r: Vec<usize> = Vec::new();
    let mut i: usize = 0;
    while i < ids.len()
        invariant
            i <= ids@.len(),
            forall|k: int| 0 <= k < r@.len() ==> r@[k] < i,
            forall|k: int, l: int| 0 <= k < l < r@.len() ==> r@[k] < r@[l],
            forall|j: int|
                0 <= j < i ==> (ids@[j]@ != new_id@ <==> exists|k: int|
                    0 <= k < r@.len() && #[trigger] r@[k] == j),
        decreases ids.len() - i,
    {
        let ghost old_r = r@;
        let keep = !string_eq_str(&ids[i], new_id);
        if keep {
            r.push(i);
        }
        proof {
            assert forall|j: int|
                0 <= j < i + 1 implies (ids@[j]@ != new_id@ <==> exists|k: int|
                0 <= k < r@.len() && #[trigger] r@[k] == j) by {
                if j < i {
                    if exists|k: int| 0 <= k < old_r.len() && #[trigger] old_r[k] == j {
                        let k = choose|k: int| 0 <= k < old_r.len() && #[trigger] old_r[k] == j;
                        assert(r@[k] == j);
                    }
                    if exists|k: int| 0 <= k < r@.len() && #[trigger] r@[k] == j {
                        let k = choose|k: int| 0 <= k < r@.len() && #[trigger] r@[k] == j;
                        if k < old_r.len() {
                            assert(old_r[k] == j);
                        }
                    }
                } else {
                    if keep {
                        assert(r@[old_r.len() as int] == j);
                    } else {
                        assert(r@ == old_r);
                    }
                }
            }
        }
        i += 1;
    }
    r
}

} // verus!

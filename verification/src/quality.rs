//! What feedback events say about the retrieval policy: how precise the
//! recommended context was, how each budget fared, and the candidate policy
//! profile that follows. Ratios are kept as numerator and denominator; the
//! host divides them.
use vstd::prelude::*;

use crate::feedback::{
    all_files, budget_tokens, file_list, mixed_budget_warning, sample_warning_of, FeedbackOutcome,
    PackBudget, PolicyProfileStatus, SessionFeedbackEvent,
};
use crate::model::str_views;
use crate::strs::{sort_strs, uniq};
use crate::text::{contains, decimal};

verus! {

// ---------------------------------------------------------------------
// The files of one event
// ---------------------------------------------------------------------
/// The files recommended to a session: its files, then its tests.
pub open spec fn recommended_of(e: SessionFeedbackEvent) -> Seq<Seq<char>> {
    str_views(e.recommended_files@) + str_views(e.recommended_tests@)
}

/// The files a session found useful: read, edited, tested, then corrected.
pub open spec fn useful_of(e: SessionFeedbackEvent) -> Seq<Seq<char>> {
    file_list(e, 0) + file_list(e, 1) + file_list(e, 2) + file_list(e, 3)
}

/// How many of the elements of `xs` occur in `ys`.
pub open spec fn count_in(xs: Seq<Seq<char>>, ys: Seq<Seq<char>>) -> nat
    decreases xs.len(),
{
    if xs.len() == 0 {
        0
    } else {
        count_in(xs.drop_last(), ys) + if ys.contains(xs.last()) {
            1nat
        } else {
            0
        }
    }
}

/// The number of distinct elements of `xs` that occur in `ys`: the size of
/// the intersection of the two as sets.
pub open spec fn overlap(xs: Seq<Seq<char>>, ys: Seq<Seq<char>>) -> nat {
    count_in(uniq(xs), ys)
}

/// The useful files of a session that were also recommended to it.
pub open spec fn event_hits(e: SessionFeedbackEvent) -> nat {
    overlap(useful_of(e), recommended_of(e))
}

/// The elements of `xs` that do not occur in `ys`, in order.
pub open spec fn not_in(xs: Seq<Seq<char>>, ys: Seq<Seq<char>>) -> Seq<Seq<char>>
    decreases xs.len(),
{
    if xs.len() == 0 {
        seq![]
    } else if ys.contains(xs.last()) {
        not_in(xs.drop_last(), ys)
    } else {
        not_in(xs.drop_last(), ys).push(xs.last())
    }
}

/// The useful files of a session that were not recommended to it, each once.
pub open spec fn event_missing(e: SessionFeedbackEvent) -> Seq<Seq<char>> {
    not_in(uniq(useful_of(e)), recommended_of(e))
}

// ---------------------------------------------------------------------
// Sums over events
// ---------------------------------------------------------------------
/// Every recommended file of the events, in event order.
pub open spec fn all_recommended(es: Seq<SessionFeedbackEvent>) -> Seq<Seq<char>>
    decreases es.len(),
{
    if es.len() == 0 {
        seq![]
    } else {
        all_recommended(es.drop_last()) + recommended_of(es.last())
    }
}

/// Every useful file of the events.
pub open spec fn all_useful(es: Seq<SessionFeedbackEvent>) -> Seq<Seq<char>> {
    all_files(es, 0) + all_files(es, 1) + all_files(es, 2) + all_files(es, 3)
}

/// Every file some session found useful without its being recommended.
pub open spec fn all_missing(es: Seq<SessionFeedbackEvent>) -> Seq<Seq<char>>
    decreases es.len(),
{
    if es.len() == 0 {
        seq![]
    } else {
        all_missing(es.drop_last()) + event_missing(es.last())
    }
}

/// A session that validated: it tested files or ran test commands.
pub open spec fn validated(e: SessionFeedbackEvent) -> bool {
    e.tested_files@.len() > 0 || e.tested_commands@.len() > 0
}

/// A session in which the user corrected files.
pub open spec fn corrected(e: SessionFeedbackEvent) -> bool {
    e.user_corrected_files@.len() > 0
}

/// A session with a tag that mentions memory.
pub open spec fn mentions_memory(e: SessionFeedbackEvent) -> bool {
    exists|i: int| 0 <= i < e.tags@.len() && contains((#[trigger] e.tags@[i])@, "memory"@)
}

/// The number of validating sessions.
pub open spec fn validated_count(es: Seq<SessionFeedbackEvent>) -> nat
    decreases es.len(),
{
    if es.len() == 0 {
        0
    } else {
        validated_count(es.drop_last()) + if validated(es.last()) {
            1nat
        } else {
            0
        }
    }
}

/// The number of sessions with user corrections.
pub open spec fn corrected_count(es: Seq<SessionFeedbackEvent>) -> nat
    decreases es.len(),
{
    if es.len() == 0 {
        0
    } else {
        corrected_count(es.drop_last()) + if corrected(es.last()) {
            1nat
        } else {
            0
        }
    }
}

/// The number of sessions tagged with memory.
pub open spec fn memory_count(es: Seq<SessionFeedbackEvent>) -> nat
    decreases es.len(),
{
    if es.len() == 0 {
        0
    } else {
        memory_count(es.drop_last()) + if mentions_memory(es.last()) {
            1nat
        } else {
            0
        }
    }
}

/// The files read, over all sessions, counted with repetition.
pub open spec fn read_total(es: Seq<SessionFeedbackEvent>) -> nat
    decreases es.len(),
{
    if es.len() == 0 {
        0
    } else {
        read_total(es.drop_last()) + es.last().read_files@.len()
    }
}

/// The tested files and test commands, over all sessions.
pub open spec fn validation_total(es: Seq<SessionFeedbackEvent>) -> nat
    decreases es.len(),
{
    if es.len() == 0 {
        0
    } else {
        validation_total(es.drop_last()) + es.last().tested_files@.len()
            + es.last().tested_commands@.len()
    }
}

/// How large the file lists of a session are, together.
pub open spec fn event_size(e: SessionFeedbackEvent) -> nat {
    e.recommended_files@.len() + e.recommended_tests@.len() + e.read_files@.len()
        + e.edited_files@.len() + e.tested_files@.len() + e.tested_commands@.len()
        + e.user_corrected_files@.len()
}

/// How large the file lists of all sessions are, together.
pub open spec fn events_size(es: Seq<SessionFeedbackEvent>) -> nat
    decreases es.len(),
{
    if es.len() == 0 {
        0
    } else {
        events_size(es.drop_last()) + event_size(es.last())
    }
}

/// The number of sessions run with a budget.
pub open spec fn budget_event_count(es: Seq<SessionFeedbackEvent>, b: Option<PackBudget>) -> nat
    decreases es.len(),
{
    if es.len() == 0 {
        0
    } else {
        budget_event_count(es.drop_last(), b) + if es.last().budget == b {
            1nat
        } else {
            0
        }
    }
}

/// The useful recommended files of the sessions run with a budget.
pub open spec fn budget_hits(es: Seq<SessionFeedbackEvent>, b: Option<PackBudget>) -> nat
    decreases es.len(),
{
    if es.len() == 0 {
        0
    } else {
        budget_hits(es.drop_last(), b) + if es.last().budget == b {
            event_hits(es.last())
        } else {
            0
        }
    }
}

/// The number of sessions in which `p` was useful without being recommended.
pub open spec fn missing_count(es: Seq<SessionFeedbackEvent>, p: Seq<char>) -> nat
    decreases es.len(),
{
    if es.len() == 0 {
        0
    } else {
        missing_count(es.drop_last(), p) + if event_missing(es.last()).contains(p) {
            1nat
        } else {
            0
        }
    }
}

// ---------------------------------------------------------------------
// Helpers
// ---------------------------------------------------------------------
fn append_strings(out: &mut Vec<String>, vs: &Vec<String>)
    ensures
        str_views(final(out)@) == str_views(old(out)@) + str_views(vs@),
{
    let ghost start = str_views(out@);
    let mut i: usize = 0;
    while i < vs.len()
        invariant
            i <= vs@.len(),
            str_views(out@) == start + str_views(vs@).take(i as int),
        decreases vs.len() - i,
    {
        let c = vs[i].clone();
        let ghost before = str_views(out@);
        out.push(c);
        assert(str_views(out@) =~= before.push(c@));
        assert(str_views(vs@).take(i + 1) =~= str_views(vs@).take(i as int).push(c@));
        i += 1;
    }
    assert(str_views(vs@).take(vs@.len() as int) =~= str_views(vs@));
}

/// Executable `recommended_of`.
pub fn event_recommended_files(e: &SessionFeedbackEvent) -> (r: Vec<String>)
    ensures
        str_views(r@) == recommended_of(*e),
{
    let mut r: Vec<String> = Vec::new();
    append_strings(&mut r, &e.recommended_files);
    append_strings(&mut r, &e.recommended_tests);
    assert(str_views(r@) =~= recommended_of(*e));
    r
}

/// Executable `useful_of`.
pub fn event_useful_files(e: &SessionFeedbackEvent) -> (r: Vec<String>)
    ensures
        str_views(r@) == useful_of(*e),
{
    let mut r: Vec<String> = Vec::new();
    append_strings(&mut r, &e.read_files);
    append_strings(&mut r, &e.edited_files);
    append_strings(&mut r, &e.tested_files);
    append_strings(&mut r, &e.user_corrected_files);
    assert(str_views(r@) =~= useful_of(*e));
    r
}

proof fn lemma_count_in_bound(xs: Seq<Seq<char>>, ys: Seq<Seq<char>>)
    ensures
        count_in(xs, ys) <= xs.len(),
    decreases xs.len(),
{
    if xs.len() > 0 {
        lemma_count_in_bound(xs.drop_last(), ys);
    }
}

proof fn lemma_uniq_len(s: Seq<Seq<char>>)
    ensures
        uniq(s).len() <= s.len(),
    decreases s.len(),
{
    if s.len() > 0 {
        lemma_uniq_len(s.drop_last());
    }
}

/// Executable `overlap`.
pub fn overlap_count(xs: &Vec<String>, ys: &Vec<String>) -> (n: usize)
    ensures
        n == overlap(str_views(xs@), str_views(ys@)),
        n <= xs@.len(),
{
    let u = crate::strs::uniq_strings(xs);
    let ghost uv = str_views(u@);
    let mut n: usize = 0;
    let mut i: usize = 0;
    proof {
        lemma_uniq_len(str_views(xs@));
    }
    while i < u.len()
        invariant
            i <= u@.len(),
            uv == str_views(u@),
            uv == uniq(str_views(xs@)),
            u@.len() <= xs@.len(),
            n == count_in(uv.take(i as int), str_views(ys@)),
            n <= i,
        decreases u.len() - i,
    {
        assert(uv.take(i + 1).drop_last() =~= uv.take(i as int));
        assert(uv.take(i + 1).last() == u@[i as int]@);
        if crate::strs::contains_string(ys, &u[i]) {
            n += 1;
        }
        i += 1;
    }
    assert(uv.take(u@.len() as int) =~= uv);
    n
}

/// Executable `event_missing`.
fn event_missing_files(e: &SessionFeedbackEvent) -> (r: Vec<String>)
    ensures
        str_views(r@) == event_missing(*e),
{
    let rec = event_recommended_files(e);
    let useful = event_useful_files(e);
    let u = crate::strs::uniq_strings(&useful);
    let ghost uv = str_views(u@);
    let ghost rv = str_views(rec@);
    let mut r: Vec<String> = Vec::new();
    let mut i: usize = 0;
    while i < u.len()
        invariant
            i <= u@.len(),
            uv == str_views(u@),
            rv == str_views(rec@),
            uv == uniq(useful_of(*e)),
            rv == recommended_of(*e),
            str_views(r@) == not_in(uv.take(i as int), rv),
        decreases u.len() - i,
    {
        assert(uv.take(i + 1).drop_last() =~= uv.take(i as int));
        assert(uv.take(i + 1).last() == u@[i as int]@);
        if !crate::strs::contains_string(&rec, &u[i]) {
            let c = u[i].clone();
            let ghost before = str_views(r@);
            r.push(c);
            assert(str_views(r@) =~= before.push(c@));
        }
        i += 1;
    }
    assert(uv.take(u@.len() as int) =~= uv);
    r
}

/// Executable `event_hits`.
fn event_hit_count(e: &SessionFeedbackEvent) -> (n: usize)
    ensures
        n == event_hits(*e),
        n <= event_size(*e),
{
    let rec = event_recommended_files(e);
    let useful = event_useful_files(e);
    overlap_count(&useful, &rec)
}

proof fn lemma_events_size_prefix(es: Seq<SessionFeedbackEvent>, i: int)
    requires
        0 <= i < es.len(),
    ensures
        events_size(es.take(i + 1)) == events_size(es.take(i)) + event_size(es[i]),
        events_size(es.take(i + 1)) <= events_size(es),
    decreases es.len() - i,
{
    assert(es.take(i + 1).drop_last() =~= es.take(i));
    if i + 1 < es.len() {
        lemma_events_size_prefix(es, i + 1);
    } else {
        assert(es.take(i + 1) =~= es);
    }
}

/// The sessions run with budget `b`, and their useful recommended files.
fn budget_totals(events: &Vec<SessionFeedbackEvent>, b: Option<PackBudget>) -> (r: (usize, usize))
    requires
        events_size(events@) <= usize::MAX,
    ensures
        r.0 == budget_event_count(events@, b),
        r.1 == budget_hits(events@, b),
{
    let mut n: usize = 0;
    let mut h: usize = 0;
    let mut i: usize = 0;
    while i < events.len()
        invariant
            i <= events@.len(),
            events_size(events@) <= usize::MAX,
            n == budget_event_count(events@.take(i as int), b),
            h == budget_hits(events@.take(i as int), b),
            n <= i,
            h <= events_size(events@.take(i as int)),
        decreases events.len() - i,
    {
        proof {
            lemma_events_size_prefix(events@, i as int);
        }
        assert(events@.take(i + 1).drop_last() =~= events@.take(i as int));
        assert(events@.take(i + 1).last() == events@[i as int]);
        if events[i].budget == b {
            let k = event_hit_count(&events[i]);
            n += 1;
            h += k;
        }
        i += 1;
    }
    assert(events@.take(events@.len() as int) =~= events@);
    (n, h)
}

/// Executable `mentions_memory`.
fn tags_memory(e: &SessionFeedbackEvent) -> (b: bool)
    ensures
        b == mentions_memory(*e),
{
    let mut i: usize = 0;
    while i < e.tags.len()
        invariant
            i <= e.tags@.len(),
            forall|k: int| 0 <= k < i ==> !contains((#[trigger] e.tags@[k])@, "memory"@),
        decreases e.tags.len() - i,
    {
        let t = crate::text::chars_of(e.tags[i].as_str());
        if crate::text::contains_str(&t, "memory") {
            assert(contains(e.tags@[i as int]@, "memory"@));
            return true;
        }
        i += 1;
    }
    false
}

/// The plain counts over a sequence of sessions.
#[derive(Debug, Clone, Copy, PartialEq, Eq, Structural)]
pub struct EventTotals {
    pub validated: usize,
    pub corrected: usize,
    pub memory: usize,
    pub read: usize,
    pub validation: usize,
}

fn event_totals(events: &Vec<SessionFeedbackEvent>) -> (t: EventTotals)
    requires
        events_size(events@) <= usize::MAX,
    ensures
        t.validated == validated_count(events@),
        t.corrected == corrected_count(events@),
        t.memory == memory_count(events@),
        t.read == read_total(events@),
        t.validation == validation_total(events@),
{
    let mut t = EventTotals { validated: 0, corrected: 0, memory: 0, read: 0, validation: 0 };
    let mut i: usize = 0;
    while i < events.len()
        invariant
            i <= events@.len(),
            events_size(events@) <= usize::MAX,
            t.validated == validated_count(events@.take(i as int)),
            t.corrected == corrected_count(events@.take(i as int)),
            t.memory == memory_count(events@.take(i as int)),
            t.read == read_total(events@.take(i as int)),
            t.validation == validation_total(events@.take(i as int)),
            t.validated <= i,
            t.corrected <= i,
            t.memory <= i,
            t.read + t.validation <= events_size(events@.take(i as int)),
        decreases events.len() - i,
    {
        proof {
            lemma_events_size_prefix(events@, i as int);
        }
        assert(events@.take(i + 1).drop_last() =~= events@.take(i as int));
        assert(events@.take(i + 1).last() == events@[i as int]);
        let e = &events[i];
        if e.tested_files.len() > 0 || e.tested_commands.len() > 0 {
            t.validated = t.validated + 1;
        }
        if e.user_corrected_files.len() > 0 {
            t.corrected = t.corrected + 1;
        }
        if tags_memory(e) {
            t.memory = t.memory + 1;
        }
        t.read = t.read + e.read_files.len();
        t.validation = t.validation + e.tested_files.len() + e.tested_commands.len();
        i += 1;
    }
    assert(events@.take(events@.len() as int) =~= events@);
    t
}

/// Every recommended and every useful file of the sessions, and every file
/// found useful without being recommended.
fn collect_files(events: &Vec<SessionFeedbackEvent>) -> (r: (Vec<String>, Vec<String>, Vec<String>))
    ensures
        str_views(r.0@) == all_recommended(events@),
        str_views(r.1@) == all_useful(events@),
        str_views(r.2@) == all_missing(events@),
{
    let mut rec: Vec<String> = Vec::new();
    let mut read: Vec<String> = Vec::new();
    let mut edited: Vec<String> = Vec::new();
    let mut tested: Vec<String> = Vec::new();
    let mut fixed: Vec<String> = Vec::new();
    let mut missing: Vec<String> = Vec::new();
    let mut i: usize = 0;
    while i < events.len()
        invariant
            i <= events@.len(),
            str_views(rec@) == all_recommended(events@.take(i as int)),
            str_views(read@) == all_files(events@.take(i as int), 0),
            str_views(edited@) == all_files(events@.take(i as int), 1),
            str_views(tested@) == all_files(events@.take(i as int), 2),
            str_views(fixed@) == all_files(events@.take(i as int), 3),
            str_views(missing@) == all_missing(events@.take(i as int)),
        decreases events.len() - i,
    {
        assert(events@.take(i + 1).drop_last() =~= events@.take(i as int));
        assert(events@.take(i + 1).last() == events@[i as int]);
        let e = &events[i];
        let er = event_recommended_files(e);
        append_strings(&mut rec, &er);
        append_strings(&mut read, &e.read_files);
        append_strings(&mut edited, &e.edited_files);
        append_strings(&mut tested, &e.tested_files);
        append_strings(&mut fixed, &e.user_corrected_files);
        let em = event_missing_files(e);
        append_strings(&mut missing, &em);
        i += 1;
    }
    assert(events@.take(events@.len() as int) =~= events@);
    let mut useful: Vec<String> = Vec::new();
    append_strings(&mut useful, &read);
    append_strings(&mut useful, &edited);
    append_strings(&mut useful, &tested);
    append_strings(&mut useful, &fixed);
    assert(str_views(useful@) =~= all_useful(events@));
    (rec, useful, missing)
}

/// Executable `missing_count`.
fn missing_count_of(events: &Vec<SessionFeedbackEvent>, p: &String) -> (n: usize)
    ensures
        n == missing_count(events@, p@),
{
    let mut n: usize = 0;
    let mut i: usize = 0;
    while i < events.len()
        invariant
            i <= events@.len(),
            n == missing_count(events@.take(i as int), p@),
            n <= i,
        decreases events.len() - i,
    {
        assert(events@.take(i + 1).drop_last() =~= events@.take(i as int));
        assert(events@.take(i + 1).last() == events@[i as int]);
        let em = event_missing_files(&events[i]);
        if crate::strs::contains_string(&em, p) {
            n += 1;
        }
        i += 1;
    }
    assert(events@.take(events@.len() as int) =~= events@);
    n
}

// ---------------------------------------------------------------------
// The policy quality report
// ---------------------------------------------------------------------
/// A ratio, kept exact: the host divides it (a zero denominator reads as 0).
#[derive(Debug, Clone, Copy, PartialEq, Eq, Structural)]
pub struct Ratio {
    pub numerator: usize,
    pub denominator: usize,
}

/// The retrieval signals a policy weighs.
#[derive(Debug, Clone, Copy, PartialEq, Eq, Structural)]
pub enum RetrievalSignalKind {
    Anchor,
    Lexical,
    RelatedTest,
    Memory,
}

/// How the sessions of one budget fared: their number and their useful
/// recommended files.
#[derive(Debug, Clone, Copy, PartialEq, Eq, Structural)]
pub struct PolicyTokenRoiCounts {
    pub budget: Option<PackBudget>,
    pub event_count: usize,
    pub useful_hits: usize,
}

/// A file that sessions needed without its being recommended, and in how
/// many sessions.
#[derive(Debug, Clone)]
pub struct MissingFileFamily {
    pub path: String,
    pub count: usize,
}

/// What a retrieval signal contributed: the sessions and the useful files
/// it accounts for.
#[derive(Debug, Clone, Copy, PartialEq, Eq, Structural)]
pub struct SignalContributionCounts {
    pub signal: RetrievalSignalKind,
    pub event_count: usize,
    pub useful_file_hits: usize,
}

/// The policy quality of a repository's feedback, with its ratios exact.
#[derive(Debug, Clone)]
pub struct PolicyQualityCounts {
    pub repo_id: String,
    pub event_count: usize,
    pub sample_warning: Option<String>,
    pub context_precision: Ratio,
    pub read_precision: Ratio,
    pub edit_recall_proxy: Ratio,
    pub validation_coverage: Ratio,
    pub correction_rate: Ratio,
    pub token_roi: Vec<PolicyTokenRoiCounts>,
    pub repeated_missing_file_families: Vec<MissingFileFamily>,
    pub signal_contributions: Vec<SignalContributionCounts>,
    pub source_text_logged: bool,
}

/// The budgets in the order of their keys: `brief`, `deep`, `plan_only`,
/// `standard`.
pub open spec fn budget_order() -> Seq<Option<PackBudget>> {
    seq![Some(PackBudget::Brief), Some(PackBudget::Deep), None, Some(PackBudget::Standard)]
}

/// The entry of one budget, when some session used it.
pub open spec fn roi_if(es: Seq<SessionFeedbackEvent>, b: Option<PackBudget>) -> Seq<(Option<PackBudget>, nat, nat)> {
    if budget_event_count(es, b) > 0 {
        seq![(b, budget_event_count(es, b), budget_hits(es, b))]
    } else {
        seq![]
    }
}

/// The token return of each budget the sessions used, in key order.
pub open spec fn token_roi_of(es: Seq<SessionFeedbackEvent>) -> Seq<(Option<PackBudget>, nat, nat)> {
    roi_if(es, budget_order()[0]) + roi_if(es, budget_order()[1]) + roi_if(es, budget_order()[2])
        + roi_if(es, budget_order()[3])
}

/// An entry of the token return as plain values.
pub open spec fn roi_view(r: PolicyTokenRoiCounts) -> (Option<PackBudget>, nat, nat) {
    (r.budget, r.event_count as nat, r.useful_hits as nat)
}

/// The files sessions needed without their being recommended, each once,
/// in path order.
pub open spec fn missing_paths(es: Seq<SessionFeedbackEvent>) -> Seq<Seq<char>> {
    sort_strs(uniq(all_missing(es)))
}

/// Whether a list of families holds each missing path in order, with the
/// number of sessions that needed it.
pub open spec fn families_of(fs: Seq<MissingFileFamily>, es: Seq<SessionFeedbackEvent>) -> bool {
    &&& fs.len() == missing_paths(es).len()
    &&& forall|k: int|
        0 <= k < fs.len() ==> (#[trigger] fs[k]).path@ == missing_paths(es)[k] && fs[k].count
            == missing_count(es, missing_paths(es)[k])
}

/// Whether any session logged source text.
pub open spec fn any_logged(es: Seq<SessionFeedbackEvent>) -> bool {
    exists|i: int| 0 <= i < es.len() && (#[trigger] es[i]).source_text_logged
}

fn any_source_text(events: &Vec<SessionFeedbackEvent>) -> (b: bool)
    ensures
        b == any_logged(events@),
{
    let mut i: usize = 0;
    while i < events.len()
        invariant
            i <= events@.len(),
            forall|k: int| 0 <= k < i ==> !(#[trigger] events@[k]).source_text_logged,
        decreases events.len() - i,
    {
        if events[i].source_text_logged {
            assert(events@[i as int].source_text_logged);
            return true;
        }
        i += 1;
    }
    false
}

fn push_roi(out: &mut Vec<PolicyTokenRoiCounts>, events: &Vec<SessionFeedbackEvent>, b: Option<PackBudget>)
    requires
        events_size(events@) <= usize::MAX,
    ensures
        final(out)@.map_values(|r: PolicyTokenRoiCounts| roi_view(r)) == old(out)@.map_values(
            |r: PolicyTokenRoiCounts| roi_view(r),
        ) + roi_if(events@, b),
{
    let (n, h) = budget_totals(events, b);
    if n > 0 {
        let ghost before = out@;
        out.push(PolicyTokenRoiCounts { budget: b, event_count: n, useful_hits: h });
        assert(out@.map_values(|r: PolicyTokenRoiCounts| roi_view(r)) =~= before.map_values(
            |r: PolicyTokenRoiCounts| roi_view(r),
        ).push(roi_view(PolicyTokenRoiCounts { budget: b, event_count: n, useful_hits: h })));
    } else {
        assert(roi_if(events@, b) =~= Seq::<(Option<PackBudget>, nat, nat)>::empty());
        assert(out@.map_values(|r: PolicyTokenRoiCounts| roi_view(r)) =~= out@.map_values(
            |r: PolicyTokenRoiCounts| roi_view(r),
        ) + roi_if(events@, b));
    }
}

fn missing_families(events: &Vec<SessionFeedbackEvent>, missing: &Vec<String>) -> (r: Vec<MissingFileFamily>)
    requires
        str_views(missing@) == all_missing(events@),
    ensures
        families_of(r@, events@),
{
    let distinct = crate::strs::uniq_strings(missing);
    let paths = crate::strs::sort_strings(distinct);
    let ghost pv = str_views(paths@);
    let mut r: Vec<MissingFileFamily> = Vec::new();
    let mut i: usize = 0;
    while i < paths.len()
        invariant
            i <= paths@.len(),
            pv == str_views(paths@),
            pv == missing_paths(events@),
            r@.len() == i,
            forall|k: int|
                0 <= k < i ==> (#[trigger] r@[k]).path@ == pv[k] && r@[k].count == missing_count(
                    events@,
                    pv[k],
                ),
        decreases paths.len() - i,
    {
        let n = missing_count_of(events, &paths[i]);
        r.push(MissingFileFamily { path: paths[i].clone(), count: n });
        i += 1;
    }
    r
}

/// The policy quality of a repository's feedback events: the sample
/// warning; the share of distinct recommended files that proved useful
/// (context precision), of distinct read files that were recommended (read
/// precision) and of distinct edited files that were recommended (edit
/// recall); the share of sessions that validated and that needed
/// corrections; per budget in key order, its sessions and useful
/// recommended files; the files needed without recommendation, in path
/// order, with the number of sessions that needed each; and what the
/// anchor, related-test and memory signals account for.
pub fn policy_quality_counts(repo_id: &str, events: &Vec<SessionFeedbackEvent>) -> (r: PolicyQualityCounts)
    requires
        events_size(events@) <= usize::MAX,
    ensures
        r.repo_id@ == repo_id@,
        r.event_count == events@.len(),
        crate::model::opt_view(r.sample_warning) == sample_warning_of(events@.len()),
        r.context_precision.numerator == overlap(all_recommended(events@), all_useful(events@)),
        r.context_precision.denominator == uniq(all_recommended(events@)).len(),
        r.read_precision.numerator == overlap(all_files(events@, 0), all_recommended(events@)),
        r.read_precision.denominator == uniq(all_files(events@, 0)).len(),
        r.edit_recall_proxy.numerator == overlap(all_files(events@, 1), all_recommended(events@)),
        r.edit_recall_proxy.denominator == uniq(all_files(events@, 1)).len(),
        r.validation_coverage == (Ratio {
            numerator: validated_count(events@) as usize,
            denominator: events@.len() as usize,
        }),
        r.correction_rate == (Ratio {
            numerator: corrected_count(events@) as usize,
            denominator: events@.len() as usize,
        }),
        r.token_roi@.map_values(|t: PolicyTokenRoiCounts| roi_view(t)) == token_roi_of(events@),
        families_of(r.repeated_missing_file_families@, events@),
        r.signal_contributions@ == seq![
            SignalContributionCounts {
                signal: RetrievalSignalKind::Anchor,
                event_count: events@.len() as usize,
                useful_file_hits: read_total(events@) as usize,
            },
            SignalContributionCounts {
                signal: RetrievalSignalKind::RelatedTest,
                event_count: events@.len() as usize,
                useful_file_hits: validation_total(events@) as usize,
            },
            SignalContributionCounts {
                signal: RetrievalSignalKind::Memory,
                event_count: events@.len() as usize,
                useful_file_hits: memory_count(events@) as usize,
            },
        ],
        r.source_text_logged == any_logged(events@),
{
    let (rec, useful, missing) = collect_files(events);
    let totals = event_totals(events);
    let n = events.len();
    let rec_distinct = crate::strs::uniq_strings(&rec).len();
    let read_distinct = crate::strs::uniq_strings(&events_files(events, 0)).len();
    let edited_distinct = crate::strs::uniq_strings(&events_files(events, 1)).len();
    let mut token_roi: Vec<PolicyTokenRoiCounts> = Vec::new();
    push_roi(&mut token_roi, events, Some(PackBudget::Brief));
    push_roi(&mut token_roi, events, Some(PackBudget::Deep));
    push_roi(&mut token_roi, events, None);
    push_roi(&mut token_roi, events, Some(PackBudget::Standard));
    assert(token_roi@.map_values(|t: PolicyTokenRoiCounts| roi_view(t)) =~= token_roi_of(events@));
    let signals = vec![
        SignalContributionCounts {
            signal: RetrievalSignalKind::Anchor,
            event_count: n,
            useful_file_hits: totals.read,
        },
        SignalContributionCounts {
            signal: RetrievalSignalKind::RelatedTest,
            event_count: n,
            useful_file_hits: totals.validation,
        },
        SignalContributionCounts {
            signal: RetrievalSignalKind::Memory,
            event_count: n,
            useful_file_hits: totals.memory,
        },
    ];
    PolicyQualityCounts {
        repo_id: String::from_str(repo_id),
        event_count: n,
        sample_warning: crate::feedback::sample_warning(n),
        context_precision: Ratio { numerator: overlap_count(&rec, &useful), denominator: rec_distinct },
        read_precision: Ratio {
            numerator: overlap_count(&events_files(events, 0), &rec),
            denominator: read_distinct,
        },
        edit_recall_proxy: Ratio {
            numerator: overlap_count(&events_files(events, 1), &rec),
            denominator: edited_distinct,
        },
        validation_coverage: Ratio { numerator: totals.validated, denominator: n },
        correction_rate: Ratio { numerator: totals.corrected, denominator: n },
        token_roi,
        repeated_missing_file_families: missing_families(events, &missing),
        signal_contributions: signals,
        source_text_logged: any_source_text(events),
    }
}

/// One file list of every session, in session order.
fn events_files(events: &Vec<SessionFeedbackEvent>, which: usize) -> (r: Vec<String>)
    requires
        which <= 3,
    ensures
        str_views(r@) == all_files(events@, which as int),
{
    let mut out: Vec<String> = Vec::new();
    let mut i: usize = 0;
    while i < events.len()
        invariant
            i <= events@.len(),
            which <= 3,
            str_views(out@) == all_files(events@.take(i as int), which as int),
        decreases events.len() - i,
    {
        assert(events@.take(i + 1).drop_last() =~= events@.take(i as int));
        assert(events@.take(i + 1).last() == events@[i as int]);
        let e = &events[i];
        if which == 0 {
            append_strings(&mut out, &e.read_files);
        } else if which == 1 {
            append_strings(&mut out, &e.edited_files);
        } else if which == 2 {
            append_strings(&mut out, &e.tested_files);
        } else {
            append_strings(&mut out, &e.user_corrected_files);
        }
        i += 1;
    }
    assert(events@.take(events@.len() as int) =~= events@);
    out
}

// ---------------------------------------------------------------------
// Outcomes by budget
// ---------------------------------------------------------------------
/// Whether a session of budget `b` has the property numbered `kind`:
/// passed (0), blocked (1), corrected (2) or validated (3).
pub open spec fn budget_has(e: SessionFeedbackEvent, b: Option<PackBudget>, kind: int) -> bool {
    e.budget == b && if kind == 0 {
        e.outcome == FeedbackOutcome::Passed
    } else if kind == 1 {
        e.outcome == FeedbackOutcome::Blocked
    } else if kind == 2 {
        corrected(e)
    } else {
        validated(e)
    }
}

/// The sessions of budget `b` with the property numbered `kind`.
pub open spec fn budget_count(es: Seq<SessionFeedbackEvent>, b: Option<PackBudget>, kind: int) -> nat
    decreases es.len(),
{
    if es.len() == 0 {
        0
    } else {
        budget_count(es.drop_last(), b, kind) + if budget_has(es.last(), b, kind) {
            1nat
        } else {
            0
        }
    }
}

/// The recommended files and tests of the sessions of budget `b`, counted
/// with repetition.
pub open spec fn budget_recommended(es: Seq<SessionFeedbackEvent>, b: Option<PackBudget>) -> nat
    decreases es.len(),
{
    if es.len() == 0 {
        0
    } else {
        budget_recommended(es.drop_last(), b) + if es.last().budget == b {
            recommended_of(es.last()).len()
        } else {
            0
        }
    }
}

/// The tokens a session of budget `b` is estimated at; 1500 without one.
pub open spec fn tokens_of(b: Option<PackBudget>) -> nat {
    match b {
        Some(x) => budget_tokens(x),
        None => 1500,
    }
}

/// How the sessions of one budget fared, with the host's ratios kept as
/// their parts: the sessions, those that passed, were blocked, needed
/// corrections or validated, the recommended context size, the useful
/// recommended files and the token estimate.
#[derive(Debug, Clone, Copy, PartialEq, Eq, Structural)]
pub struct BudgetOutcomeCounts {
    pub budget: Option<PackBudget>,
    pub event_count: usize,
    pub passed: usize,
    pub blocked: usize,
    pub corrected: usize,
    pub validated: usize,
    pub recommended_context_size: usize,
    pub useful_hits: usize,
    pub token_estimate: u128,
}

/// The outcome of the sessions of budget `b`.
pub open spec fn budget_outcome_of(es: Seq<SessionFeedbackEvent>, b: Option<PackBudget>) -> BudgetOutcomeCounts {
    let n = budget_event_count(es, b);
    BudgetOutcomeCounts {
        budget: b,
        event_count: n as usize,
        passed: budget_count(es, b, 0) as usize,
        blocked: budget_count(es, b, 1) as usize,
        corrected: budget_count(es, b, 2) as usize,
        validated: budget_count(es, b, 3) as usize,
        recommended_context_size: budget_recommended(es, b) as usize,
        useful_hits: budget_hits(es, b) as usize,
        token_estimate: (tokens_of(b) * if n == 0 {
            1
        } else {
            n
        }) as u128,
    }
}

/// The outcome of the sessions run with budget `b`.
pub fn budget_outcome(b: Option<PackBudget>, events: &Vec<SessionFeedbackEvent>) -> (r: BudgetOutcomeCounts)
    requires
        events_size(events@) <= usize::MAX,
    ensures
        r == budget_outcome_of(events@, b),
        r.event_count == budget_event_count(events@, b),
{
    let mut n: usize = 0;
    let mut passed: usize = 0;
    let mut blocked: usize = 0;
    let mut fixed: usize = 0;
    let mut checked: usize = 0;
    let mut size: usize = 0;
    let mut i: usize = 0;
    while i < events.len()
        invariant
            i <= events@.len(),
            events_size(events@) <= usize::MAX,
            n == budget_event_count(events@.take(i as int), b),
            passed == budget_count(events@.take(i as int), b, 0),
            blocked == budget_count(events@.take(i as int), b, 1),
            fixed == budget_count(events@.take(i as int), b, 2),
            checked == budget_count(events@.take(i as int), b, 3),
            size == budget_recommended(events@.take(i as int), b),
            n <= i,
            passed <= i,
            blocked <= i,
            fixed <= i,
            checked <= i,
            size <= events_size(events@.take(i as int)),
        decreases events.len() - i,
    {
        proof {
            lemma_events_size_prefix(events@, i as int);
        }
        assert(events@.take(i + 1).drop_last() =~= events@.take(i as int));
        assert(events@.take(i + 1).last() == events@[i as int]);
        let e = &events[i];
        if e.budget == b {
            n += 1;
            if e.outcome == FeedbackOutcome::Passed {
                passed += 1;
            }
            if e.outcome == FeedbackOutcome::Blocked {
                blocked += 1;
            }
            if e.user_corrected_files.len() > 0 {
                fixed += 1;
            }
            if e.tested_files.len() > 0 || e.tested_commands.len() > 0 {
                checked += 1;
            }
            size = size + e.recommended_files.len() + e.recommended_tests.len();
        }
        i += 1;
    }
    assert(events@.take(events@.len() as int) =~= events@);
    let (_, hits) = budget_totals(events, b);
    let per: u128 = match b {
        Some(x) => crate::feedback::pack_budget_token_estimate(x) as u128,
        None => 1500,
    };
    let sessions: u128 = if n == 0 {
        1
    } else {
        n as u128
    };
    assert(per * sessions <= 64000 * 0x1_0000_0000_0000_0000) by (nonlinear_arith)
        requires
            per <= 64000,
            sessions <= 0x1_0000_0000_0000_0000,
    ;
    BudgetOutcomeCounts {
        budget: b,
        event_count: n,
        passed,
        blocked,
        corrected: fixed,
        validated: checked,
        recommended_context_size: size,
        useful_hits: hits,
        token_estimate: per * sessions,
    }
}

/// How the budgets of a repository's sessions compare.
#[derive(Debug, Clone)]
pub struct OutcomeComparisonCounts {
    pub repo_id: String,
    pub event_count: usize,
    pub sample_warning: Option<String>,
    pub budgets: Vec<BudgetOutcomeCounts>,
    pub changed_sample_warning: bool,
    pub low_information_warning: bool,
    pub source_text_logged: bool,
}

/// The outcome of a budget, when some session used it.
pub open spec fn outcome_if(es: Seq<SessionFeedbackEvent>, b: Option<PackBudget>) -> Seq<BudgetOutcomeCounts> {
    if budget_event_count(es, b) > 0 {
        seq![budget_outcome_of(es, b)]
    } else {
        seq![]
    }
}

/// The outcome of each budget the sessions used, in key order.
pub open spec fn budget_outcomes_of(es: Seq<SessionFeedbackEvent>) -> Seq<BudgetOutcomeCounts> {
    outcome_if(es, budget_order()[0]) + outcome_if(es, budget_order()[1]) + outcome_if(
        es,
        budget_order()[2],
    ) + outcome_if(es, budget_order()[3])
}

fn push_outcome(out: &mut Vec<BudgetOutcomeCounts>, events: &Vec<SessionFeedbackEvent>, b: Option<PackBudget>)
    requires
        events_size(events@) <= usize::MAX,
    ensures
        final(out)@ == old(out)@ + outcome_if(events@, b),
{
    let o = budget_outcome(b, events);
    if o.event_count > 0 {
        out.push(o);
    } else {
        assert(outcome_if(events@, b) =~= Seq::<BudgetOutcomeCounts>::empty());
    }
    assert(out@ =~= old(out)@ + outcome_if(events@, b));
}

/// How the budgets of a repository's sessions compare: the outcome of each
/// budget used, in key order, with the sample warnings (fewer than five
/// sessions; more than one budget among fewer than twelve sessions).
pub fn outcome_comparison_counts(repo_id: &str, events: &Vec<SessionFeedbackEvent>) -> (r: OutcomeComparisonCounts)
    requires
        events_size(events@) <= usize::MAX,
    ensures
        r.repo_id@ == repo_id@,
        r.event_count == events@.len(),
        crate::model::opt_view(r.sample_warning) == sample_warning_of(events@.len()),
        r.budgets@ == budget_outcomes_of(events@),
        r.changed_sample_warning == mixed_budget_warning(events@),
        r.low_information_warning == (events@.len() < 5),
        r.source_text_logged == any_logged(events@),
{
    let mut budgets: Vec<BudgetOutcomeCounts> = Vec::new();
    push_outcome(&mut budgets, events, Some(PackBudget::Brief));
    push_outcome(&mut budgets, events, Some(PackBudget::Deep));
    push_outcome(&mut budgets, events, None);
    push_outcome(&mut budgets, events, Some(PackBudget::Standard));
    assert(budgets@ =~= budget_outcomes_of(events@));
    OutcomeComparisonCounts {
        repo_id: String::from_str(repo_id),
        event_count: events.len(),
        sample_warning: crate::feedback::sample_warning(events.len()),
        budgets,
        changed_sample_warning: crate::feedback::by_budget_sample_warning(events),
        low_information_warning: events.len() < 5,
        source_text_logged: any_source_text(events),
    }
}

// ---------------------------------------------------------------------
// Candidate policy profiles
// ---------------------------------------------------------------------
/// The bits of the `f32` weight 0.25.
pub const WEIGHT_025_BITS: u32 = 0x3E80_0000;
/// The bits of the `f32` weight 0.20.
pub const WEIGHT_020_BITS: u32 = 0x3E4C_CCCD;
/// The bits of the `f32` weight 0.15.
pub const WEIGHT_015_BITS: u32 = 0x3E19_999A;
/// The bits of the `f32` weight 0.10.
pub const WEIGHT_010_BITS: u32 = 0x3DCC_CCCD;
/// The bits of the `f32` weight 0.05.
pub const WEIGHT_005_BITS: u32 = 0x3D4C_CCCD;

/// The weight of a signal in a policy, as `f32` bits, with its rationale.
#[derive(Debug, Clone)]
pub struct PolicySignalWeight {
    pub signal: RetrievalSignalKind,
    pub weight_bits: u32,
    pub rationale: String,
}

/// The least weight a signal may have, as `f32` bits, and why.
#[derive(Debug, Clone)]
pub struct PolicySafetyFloor {
    pub signal: RetrievalSignalKind,
    pub minimum_weight_bits: u32,
    pub reason: String,
}

/// A retrieval policy profile.
#[derive(Debug, Clone)]
pub struct RetrievalPolicyProfile {
    pub id: String,
    pub status: PolicyProfileStatus,
    pub created_at_unix_seconds: u64,
    pub source_report_event_count: usize,
    pub rationale: String,
    pub weights: Vec<PolicySignalWeight>,
    pub safety_floors: Vec<PolicySafetyFloor>,
    pub regression_warnings: Vec<String>,
    pub rollback_profile_id: Option<String>,
    pub source_text_logged: bool,
}

/// Whether a ratio, divided as the host divides it, is at least one half.
/// For parts below 2^24 the `f32` quotient compares as the exact one does.
pub open spec fn at_least_half(r: Ratio) -> bool {
    r.denominator > 0 && 2 * r.numerator >= r.denominator
}

/// Whether a ratio is at most one fifth (a zero denominator reads as 0).
pub open spec fn at_most_fifth(r: Ratio) -> bool {
    r.denominator == 0 || 5 * r.numerator <= r.denominator
}

/// Whether a ratio is below two fifths (a zero denominator reads as 0).
pub open spec fn below_two_fifths(r: Ratio) -> bool {
    r.denominator == 0 || 5 * r.numerator < 2 * r.denominator
}

/// A weight as plain values.
pub open spec fn weight_view(w: PolicySignalWeight) -> (RetrievalSignalKind, u32, Seq<char>) {
    (w.signal, w.weight_bits, w.rationale@)
}

/// A floor as plain values.
pub open spec fn floor_view(f: PolicySafetyFloor) -> (RetrievalSignalKind, u32, Seq<char>) {
    (f.signal, f.minimum_weight_bits, f.reason@)
}

/// The weights of a candidate profile, by signal name: anchors and lexical
/// matches fixed; memory demoted when corrections are frequent (more than
/// one fifth of sessions); related tests promoted when at least half of the
/// sessions validated.
pub open spec fn candidate_weights(q: PolicyQualityCounts) -> Seq<(RetrievalSignalKind, u32, Seq<char>)> {
    seq![
        (
            RetrievalSignalKind::Anchor,
            WEIGHT_025_BITS,
            "Exact active-path and user-focus anchors keep safe minimum priority."@,
        ),
        (
            RetrievalSignalKind::Lexical,
            WEIGHT_020_BITS,
            "Lexical identifiers remain a strong source-code retrieval baseline."@,
        ),
        (
            RetrievalSignalKind::Memory,
            if at_most_fifth(q.correction_rate) {
                WEIGHT_010_BITS
            } else {
                WEIGHT_005_BITS
            },
            "Memory remains bounded and is demoted when corrections are frequent."@,
        ),
        (
            RetrievalSignalKind::RelatedTest,
            if at_least_half(q.validation_coverage) {
                WEIGHT_020_BITS
            } else {
                WEIGHT_015_BITS
            },
            "Validation feedback controls how much related-test evidence should influence context."@,
        ),
    ]
}

/// The safety floors of every candidate profile.
pub open spec fn candidate_floors() -> Seq<(RetrievalSignalKind, u32, Seq<char>)> {
    seq![
        (
            RetrievalSignalKind::Anchor,
            WEIGHT_020_BITS,
            "Active paths and explicit user anchors must not be demoted below safety floor."@,
        ),
        (
            RetrievalSignalKind::Lexical,
            WEIGHT_015_BITS,
            "Exact identifiers and paths remain mandatory for code tasks."@,
        ),
        (
            RetrievalSignalKind::RelatedTest,
            WEIGHT_010_BITS,
            "Validation context must stay visible for bug-fix and test tasks."@,
        ),
    ]
}

/// No candidate profile weights a signal below its safety floor: for each
/// floor, the profile's weight of the same signal is at least the floor.
/// Weights and floors are positive `f32` values, compared here by their
/// bits, whose order is the values' order for positive numbers.
pub proof fn lemma_weights_respect_floors(q: PolicyQualityCounts)
    ensures
        forall|i: int, j: int|
            0 <= i < candidate_floors().len() && 0 <= j < candidate_weights(q).len() && (
            #[trigger] candidate_weights(q)[j]).0 == (#[trigger] candidate_floors()[i]).0
                ==> candidate_weights(q)[j].1 >= candidate_floors()[i].1,
{
}

/// The warnings of a candidate profile: the report's sample warning, then a
/// warning when context precision is below two fifths.
pub open spec fn candidate_warnings(q: PolicyQualityCounts) -> Seq<Seq<char>> {
    (match q.sample_warning {
        Some(w) => seq![w@],
        None => seq![],
    }) + if below_two_fifths(q.context_precision) {
        seq!["Context precision is low; inspect missing-file families before applying."@]
    } else {
        seq![]
    }
}

/// The candidate policy profile a quality report suggests, created at
/// `created_at_unix_seconds`.
pub fn policy_profile_from_counts(report: &PolicyQualityCounts, created_at_unix_seconds: u64) -> (p: RetrievalPolicyProfile)
    ensures
        p.id@ == "policy-"@ + decimal(created_at_unix_seconds as nat),
        p.status == PolicyProfileStatus::Candidate,
        p.created_at_unix_seconds == created_at_unix_seconds,
        p.source_report_event_count == report.event_count,
        p.rationale@ == "Candidate generated from local source-free feedback metrics."@,
        p.weights@.map_values(|w: PolicySignalWeight| weight_view(w)) == candidate_weights(*report),
        p.safety_floors@.map_values(|f: PolicySafetyFloor| floor_view(f)) == candidate_floors(),
        str_views(p.regression_warnings@) == candidate_warnings(*report),
        p.rollback_profile_id is None,
        !p.source_text_logged,
{
    let vc = report.validation_coverage;
    let cr = report.correction_rate;
    let cp = report.context_precision;
    let related: u32 = if vc.denominator > 0 && vc.numerator as u128 * 2 >= vc.denominator as u128 {
        WEIGHT_020_BITS
    } else {
        WEIGHT_015_BITS
    };
    let memory: u32 = if cr.denominator == 0 || cr.numerator as u128 * 5 <= cr.denominator as u128 {
        WEIGHT_010_BITS
    } else {
        WEIGHT_005_BITS
    };
    let weights = vec![
        PolicySignalWeight {
            signal: RetrievalSignalKind::Anchor,
            weight_bits: WEIGHT_025_BITS,
            rationale: String::from_str("Exact active-path and user-focus anchors keep safe minimum priority."),
        },
        PolicySignalWeight {
            signal: RetrievalSignalKind::Lexical,
            weight_bits: WEIGHT_020_BITS,
            rationale: String::from_str("Lexical identifiers remain a strong source-code retrieval baseline."),
        },
        PolicySignalWeight {
            signal: RetrievalSignalKind::Memory,
            weight_bits: memory,
            rationale: String::from_str("Memory remains bounded and is demoted when corrections are frequent."),
        },
        PolicySignalWeight {
            signal: RetrievalSignalKind::RelatedTest,
            weight_bits: related,
            rationale: String::from_str("Validation feedback controls how much related-test evidence should influence context."),
        },
    ];
    assert(weights@.map_values(|w: PolicySignalWeight| weight_view(w)) =~= candidate_weights(*report));
    let floors = vec![
        PolicySafetyFloor {
            signal: RetrievalSignalKind::Anchor,
            minimum_weight_bits: WEIGHT_020_BITS,
            reason: String::from_str("Active paths and explicit user anchors must not be demoted below safety floor."),
        },
        PolicySafetyFloor {
            signal: RetrievalSignalKind::Lexical,
            minimum_weight_bits: WEIGHT_015_BITS,
            reason: String::from_str("Exact identifiers and paths remain mandatory for code tasks."),
        },
        PolicySafetyFloor {
            signal: RetrievalSignalKind::RelatedTest,
            minimum_weight_bits: WEIGHT_010_BITS,
            reason: String::from_str("Validation context must stay visible for bug-fix and test tasks."),
        },
    ];
    assert(floors@.map_values(|f: PolicySafetyFloor| floor_view(f)) =~= candidate_floors());
    let mut warnings: Vec<String> = Vec::new();
    match &report.sample_warning {
        Some(w) => warnings.push(w.clone()),
        None => {},
    }
    if cp.denominator == 0 || cp.numerator as u128 * 5 < cp.denominator as u128 * 2 {
        warnings.push(String::from_str("Context precision is low; inspect missing-file families before applying."));
    }
    assert(str_views(warnings@) =~= candidate_warnings(*report));
    let mut id: Vec<char> = Vec::new();
    crate::text::extend_str(&mut id, "policy-");
    crate::text::extend_chars(&mut id, &crate::text::decimal_chars(created_at_unix_seconds));
    RetrievalPolicyProfile {
        id: crate::text::string_of(&id),
        status: PolicyProfileStatus::Candidate,
        created_at_unix_seconds,
        source_report_event_count: report.event_count,
        rationale: String::from_str("Candidate generated from local source-free feedback metrics."),
        weights,
        safety_floors: floors,
        regression_warnings: warnings,
        rollback_profile_id: None,
        source_text_logged: false,
    }
}

// ---------------------------------------------------------------------
// Laws
// ---------------------------------------------------------------------
/// The budgets partition the sessions: every session counts under exactly
/// one of the four budget keys.
pub proof fn lemma_budgets_partition(es: Seq<SessionFeedbackEvent>)
    ensures
        budget_event_count(es, budget_order()[0]) + budget_event_count(es, budget_order()[1])
            + budget_event_count(es, budget_order()[2]) + budget_event_count(es, budget_order()[3])
            == es.len(),
    decreases es.len(),
{
    let o = budget_order();
    assert(o[0] == Some(PackBudget::Brief) && o[1] == Some(PackBudget::Deep) && o[2]
        == None::<PackBudget> && o[3] == Some(PackBudget::Standard));
    if es.len() > 0 {
        lemma_budgets_partition(es.drop_last());
        match es.last().budget {
            Some(PackBudget::Brief) => {},
            Some(PackBudget::Deep) => {},
            Some(PackBudget::Standard) => {},
            None => {},
        }
    }
}

/// A precision never exceeds one: the distinct files of `xs` found in `ys`
/// are at most the distinct files of `xs`.
pub proof fn lemma_overlap_bounded(xs: Seq<Seq<char>>, ys: Seq<Seq<char>>)
    ensures
        overlap(xs, ys) <= uniq(xs).len(),
{
    lemma_count_in_bound(uniq(xs), ys);
}

} // verus!

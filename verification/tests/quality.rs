use ctxpack::feedback::{FeedbackOutcome, PackBudget, PolicyProfileStatus, SessionFeedbackEvent};
use ctxpack::quality::{
    budget_outcome, outcome_comparison_counts, overlap_count, policy_profile_from_counts,
    policy_quality_counts, BudgetOutcomeCounts, PolicyTokenRoiCounts, Ratio, RetrievalSignalKind,
    SignalContributionCounts, WEIGHT_005_BITS, WEIGHT_010_BITS, WEIGHT_015_BITS, WEIGHT_020_BITS,
    WEIGHT_025_BITS,
};

fn strings(items: &[&str]) -> Vec<String> {
    items.iter().map(|item| item.to_string()).collect()
}

fn sessions() -> Vec<SessionFeedbackEvent> {
    vec![
        SessionFeedbackEvent {
            schema_version: 1,
            outcome: FeedbackOutcome::Passed,
            budget: Some(PackBudget::Brief),
            recommended_files: strings(&["src/a.ts"]),
            recommended_tests: strings(&["tests/a.test.ts"]),
            recommended_commands: Vec::new(),
            read_files: strings(&["src/a.ts", "src/x.ts"]),
            edited_files: strings(&["src/a.ts"]),
            tested_files: strings(&["tests/a.test.ts"]),
            tested_commands: Vec::new(),
            user_corrected_files: Vec::new(),
            tags: strings(&["memory-hit"]),
            source_text_logged: false,
        },
        SessionFeedbackEvent {
            schema_version: 1,
            outcome: FeedbackOutcome::Failed,
            budget: None,
            recommended_files: strings(&["src/b.ts"]),
            recommended_tests: Vec::new(),
            recommended_commands: Vec::new(),
            read_files: strings(&["src/x.ts"]),
            edited_files: Vec::new(),
            tested_files: Vec::new(),
            tested_commands: Vec::new(),
            user_corrected_files: strings(&["src/y.ts"]),
            tags: Vec::new(),
            source_text_logged: false,
        },
    ]
}

#[test]
fn policy_quality_counts_files_as_sets() {
    let report = policy_quality_counts("repo-1", &sessions());
    assert_eq!(report.repo_id, "repo-1");
    assert_eq!(report.event_count, 2);
    assert!(report.sample_warning.is_some());
    assert_eq!(report.context_precision, Ratio { numerator: 2, denominator: 3 });
    assert_eq!(report.read_precision, Ratio { numerator: 1, denominator: 2 });
    assert_eq!(report.edit_recall_proxy, Ratio { numerator: 1, denominator: 1 });
    assert_eq!(report.validation_coverage, Ratio { numerator: 1, denominator: 2 });
    assert_eq!(report.correction_rate, Ratio { numerator: 1, denominator: 2 });
    assert_eq!(
        report.token_roi,
        vec![
            PolicyTokenRoiCounts {
                budget: Some(PackBudget::Brief),
                event_count: 1,
                useful_hits: 2
            },
            PolicyTokenRoiCounts {
                budget: None,
                event_count: 1,
                useful_hits: 0
            },
        ]
    );
    let families: Vec<(String, usize)> = report
        .repeated_missing_file_families
        .iter()
        .map(|f| (f.path.clone(), f.count))
        .collect();
    assert_eq!(
        families,
        vec![("src/x.ts".to_string(), 2), ("src/y.ts".to_string(), 1)]
    );
    assert_eq!(
        report.signal_contributions,
        vec![
            SignalContributionCounts {
                signal: RetrievalSignalKind::Anchor,
                event_count: 2,
                useful_file_hits: 3
            },
            SignalContributionCounts {
                signal: RetrievalSignalKind::RelatedTest,
                event_count: 2,
                useful_file_hits: 1
            },
            SignalContributionCounts {
                signal: RetrievalSignalKind::Memory,
                event_count: 2,
                useful_file_hits: 1
            },
        ]
    );
    assert!(!report.source_text_logged);
}

#[test]
fn empty_feedback_has_zero_denominators() {
    let report = policy_quality_counts("repo-1", &Vec::new());
    assert_eq!(report.context_precision, Ratio { numerator: 0, denominator: 0 });
    assert!(report.token_roi.is_empty());
    assert!(report.repeated_missing_file_families.is_empty());
    let profile = policy_profile_from_counts(&report, 7);
    assert_eq!(profile.weights[2].weight_bits, WEIGHT_010_BITS);
    assert_eq!(profile.weights[3].weight_bits, WEIGHT_015_BITS);
    assert_eq!(profile.regression_warnings.len(), 2);
}

#[test]
fn candidate_profile_follows_the_report() {
    let report = policy_quality_counts("repo-1", &sessions());
    let profile = policy_profile_from_counts(&report, 1700);
    assert_eq!(profile.id, "policy-1700");
    assert_eq!(profile.status, PolicyProfileStatus::Candidate);
    assert_eq!(profile.source_report_event_count, 2);
    let weights: Vec<(RetrievalSignalKind, u32)> = profile
        .weights
        .iter()
        .map(|w| (w.signal, w.weight_bits))
        .collect();
    assert_eq!(
        weights,
        vec![
            (RetrievalSignalKind::Anchor, WEIGHT_025_BITS),
            (RetrievalSignalKind::Lexical, WEIGHT_020_BITS),
            (RetrievalSignalKind::Memory, WEIGHT_005_BITS),
            (RetrievalSignalKind::RelatedTest, WEIGHT_020_BITS),
        ]
    );
    assert_eq!(f32::from_bits(WEIGHT_025_BITS), 0.25_f32);
    assert_eq!(f32::from_bits(WEIGHT_005_BITS), 0.05_f32);
    assert_eq!(profile.safety_floors.len(), 3);
    assert_eq!(
        profile.regression_warnings,
        vec!["Low feedback sample count; use this report as directional evidence only.".to_string()]
    );
    assert!(profile.rollback_profile_id.is_none());
}

#[test]
fn budgets_are_compared_in_key_order() {
    let events = sessions();
    let comparison = outcome_comparison_counts("repo-1", &events);
    assert_eq!(comparison.event_count, 2);
    assert!(comparison.changed_sample_warning);
    assert!(comparison.low_information_warning);
    assert_eq!(
        comparison.budgets,
        vec![
            BudgetOutcomeCounts {
                budget: Some(PackBudget::Brief),
                event_count: 1,
                passed: 1,
                blocked: 0,
                corrected: 0,
                validated: 1,
                recommended_context_size: 2,
                useful_hits: 2,
                token_estimate: 4000,
            },
            BudgetOutcomeCounts {
                budget: None,
                event_count: 1,
                passed: 0,
                blocked: 0,
                corrected: 1,
                validated: 0,
                recommended_context_size: 1,
                useful_hits: 0,
                token_estimate: 1500,
            },
        ]
    );
    let deep = budget_outcome(Some(PackBudget::Deep), &events);
    assert_eq!(deep.event_count, 0);
    assert_eq!(deep.token_estimate, 64000);
}

#[test]
fn overlap_counts_distinct_shared_files() {
    assert_eq!(
        overlap_count(&strings(&["a", "b", "a", "c"]), &strings(&["a", "c", "d"])),
        2
    );
    assert_eq!(overlap_count(&Vec::new(), &strings(&["a"])), 0);
}

use stellar_analytics::analytics::stat_deltas::prior_day_snapshot;
use stellar_analytics::api::analytics_dashboard::{
    prior_day_baseline, prior_day_baselines, DailyFigures, PriorDayBaselines,
};

#[test]
fn both_days_zero_has_no_baseline() {
    assert_eq!(prior_day_baseline(0, 0), None);
}

#[test]
fn zero_yesterday_with_activity_today_is_a_baseline() {
    assert_eq!(prior_day_baseline(12, 0), Some(0));
}

#[test]
fn baseline_is_yesterdays_value() {
    assert_eq!(prior_day_baseline(150, 100), Some(100));
    assert_eq!(prior_day_baseline(0, 7), Some(7));
}

#[test]
fn baselines_cover_every_counter() {
    let today = DailyFigures { daa: 150, tx_count: 0, active_contracts: 8 };
    let yesterday = DailyFigures { daa: 100, tx_count: 0, active_contracts: 0 };
    assert_eq!(
        prior_day_baselines(&today, &yesterday),
        PriorDayBaselines { daa: Some(100), tx_count: None, active_contracts: Some(0) }
    );
}

#[test]
fn cold_start_figures_have_no_baselines() {
    let today = DailyFigures::default();
    let yesterday = DailyFigures::default();
    assert_eq!(today, DailyFigures { daa: 0, tx_count: 0, active_contracts: 0 });
    assert_eq!(
        prior_day_baselines(&today, &yesterday),
        PriorDayBaselines { daa: None, tx_count: None, active_contracts: None }
    );
}

#[test]
fn prior_day_snapshot_needs_both_days() {
    assert_eq!(prior_day_snapshot(&Some(1), Some(2)), Some(2));
    assert_eq!(prior_day_snapshot(&Some(1), None::<i32>), None);
    assert_eq!(prior_day_snapshot(&None, Some(2)), None);
    assert_eq!(prior_day_snapshot(&None::<i32>, None), None);
}

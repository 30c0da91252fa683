use finance::expenses::category::predefined_categories;
use finance::expenses::report::{
    checked_total,
    generate_monthly_chart, generate_weekly_chart, generate_year_chart, monthly_report,
    weekly_report, yearly_report, ChartRequest, ReportEntry,
};

fn entry(id: i64, name: &str, amount: u64, month: u32) -> ReportEntry {
    ReportEntry { category_id: id, category_name: name.into(), amount, month }
}

#[test]
fn monthly_report_groups_in_first_appearance_order() {
    let entries = vec![
        entry(2, "Transport", 10, 3),
        entry(1, "Food", 5, 3),
        entry(2, "Transport (renamed)", 7, 3),
    ];
    let r = monthly_report(2026, 3, &entries);
    assert_eq!(r.total, 22);
    assert_eq!(r.by_category.len(), 2);
    assert_eq!((r.by_category[0].category_id, r.by_category[0].total), (2, 17));
    assert_eq!(r.by_category[0].category_name, "Transport");
    assert_eq!((r.by_category[1].category_id, r.by_category[1].total), (1, 5));
    let sum: u64 = r.by_category.iter().map(|c| c.total).sum();
    assert_eq!(sum, r.total);
}

#[test]
fn yearly_report_by_month() {
    let entries = vec![entry(1, "Food", 5, 2), entry(1, "Food", 6, 1), entry(3, "Health", 4, 2)];
    let r = yearly_report(2025, &entries);
    assert_eq!(r.total, 15);
    assert_eq!(r.by_month.len(), 2);
    assert_eq!((r.by_month[0].month, r.by_month[0].total), (2, 9));
    assert_eq!((r.by_month[1].month, r.by_month[1].total), (1, 6));
    match generate_year_chart(&r) {
        Some(ChartRequest::Months { title, months }) => {
            assert_eq!(title, "Expenses 2025");
            assert_eq!(months, vec![(2, 9), (1, 6)]);
        }
        _ => panic!("expected a month chart"),
    }
}

#[test]
fn empty_reports_have_no_chart() {
    let r = monthly_report(2026, 1, &[]);
    assert_eq!(r.total, 0);
    assert!(generate_monthly_chart(&r).is_none());
    let w = weekly_report(2026, 5, &[]);
    assert!(generate_weekly_chart(&w).is_none());
    let y = yearly_report(2026, &[]);
    assert!(generate_year_chart(&y).is_none());
}

#[test]
fn chart_titles() {
    let entries = vec![entry(1, "Food", 5, 3)];
    match generate_monthly_chart(&monthly_report(2026, 3, &entries)) {
        Some(ChartRequest::Categories { title, bars }) => {
            assert_eq!(title, "Expenses 2026/3");
            assert_eq!(bars, vec![("Food".to_string(), 5)]);
        }
        _ => panic!("expected a category chart"),
    }
    match generate_weekly_chart(&weekly_report(2026, 12, &entries)) {
        Some(ChartRequest::Categories { title, .. }) => assert_eq!(title, "Expenses 2026 W12"),
        _ => panic!("expected a category chart"),
    }
}

#[test]
fn predefined_category_names() {
    let names = predefined_categories();
    assert_eq!(names.len(), 8);
    assert_eq!(names[0], "Food");
    assert_eq!(names[6], "Trading Deposit");
}

#[test]
fn checked_total_detects_overflow() {
    assert_eq!(checked_total(&[entry(1, "Food", 5, 1), entry(2, "Rent", 7, 1)]), Some(12));
    assert_eq!(checked_total(&[]), Some(0));
    assert_eq!(checked_total(&[entry(1, "Food", u64::MAX, 1), entry(1, "Food", 1, 1)]), None);
    assert_eq!(checked_total(&[entry(1, "Food", u64::MAX, 1)]), Some(u64::MAX));
}

#[test]
fn zero_totals_give_an_empty_chart() {
    let entries = vec![entry(1, "Food", 0, 4), entry(2, "Health", 0, 5)];
    assert!(matches!(generate_monthly_chart(&monthly_report(2026, 4, &entries)), Some(ChartRequest::Empty)));
    assert!(matches!(generate_weekly_chart(&weekly_report(2026, 15, &entries)), Some(ChartRequest::Empty)));
    assert!(matches!(generate_year_chart(&yearly_report(2026, &entries)), Some(ChartRequest::Empty)));
    let mixed = vec![entry(1, "Food", 0, 4), entry(2, "Health", 3, 4)];
    assert!(matches!(
        generate_monthly_chart(&monthly_report(2026, 4, &mixed)),
        Some(ChartRequest::Categories { .. })
    ));
}

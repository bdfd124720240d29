use history_export::error::ExportError;
use history_export::extract::{
    extract, filter_new, find_url, resolve_entries, resolve_url, sort_visits, visit_millis,
    PlaceRecord, VisitRecord,
};

fn visit(id: u64, place_id: u64, visit_date: i64) -> VisitRecord {
    VisitRecord { id, place_id, visit_date, visit_type: 1 }
}

fn place(id: u64, url: &str) -> PlaceRecord {
    PlaceRecord { id, url: url.to_string() }
}

#[test]
fn filter_drops_already_exported_ids() {
    let visits = vec![visit(1, 1, 10), visit(2, 1, 20), visit(3, 1, 30), visit(4, 1, 40)];
    let kept = filter_new(&visits, 2);
    let ids: Vec<u64> = kept.iter().map(|v| v.id).collect();
    assert_eq!(ids, vec![3, 4]);
}

#[test]
fn filter_on_fresh_state_keeps_all() {
    let visits = vec![visit(1, 1, 10), visit(2, 1, 20)];
    let kept = filter_new(&visits, 0);
    assert_eq!(kept.len(), 2);
}

#[test]
fn filter_with_no_new_visits_is_empty() {
    let visits = vec![visit(1, 1, 10), visit(2, 1, 20), visit(3, 1, 30)];
    assert_eq!(filter_new(&visits, 3).len(), 0);
    assert_eq!(filter_new(&visits, u64::MAX).len(), 0);
}

#[test]
fn sort_orders_by_ascending_id() {
    let visits = vec![visit(3, 1, 30), visit(1, 1, 10), visit(2, 1, 20)];
    let ordered = sort_visits(&visits);
    let ids: Vec<u64> = ordered.iter().map(|v| v.id).collect();
    assert_eq!(ids, vec![1, 2, 3]);
}

#[test]
fn find_url_resolves_place_reference() {
    let places = vec![place(7, "a.com"), place(9, "b.com")];
    assert_eq!(find_url(&places, 9).as_deref(), Some("b.com"));
    assert_eq!(find_url(&places, 8), None);
}

#[test]
fn dangling_place_reference_is_missing_place() {
    let places = vec![place(7, "a.com")];
    assert_eq!(resolve_url(&places, 8), Err(ExportError::MissingPlace));
    assert_eq!(resolve_url(&places, 7), Ok("a.com".to_string()));
}

#[test]
fn resolve_skips_dangling_place_reference() {
    let visits = vec![visit(1, 7, 10), visit(2, 999, 20), visit(3, 9, 30)];
    let places = vec![place(7, "a.com"), place(9, "b.com")];
    let entries = resolve_entries(&visits, &places);
    assert_eq!(entries.len(), 2);
    assert_eq!(entries[0].url, "a.com");
    assert_eq!(entries[0].visit_date, 10);
    assert_eq!(entries[1].url, "b.com");
    assert_eq!(entries[1].visit_date, 30);
}

#[test]
fn extract_three_new_visits_in_order() {
    let t1: i64 = 1_600_000_001_000_000;
    let t2: i64 = 1_600_000_002_000_000;
    let t3: i64 = 1_600_000_003_000_000;
    let visits = vec![visit(2, 20, t2), visit(1, 10, t1), visit(3, 30, t3)];
    let places = vec![place(10, "a.com"), place(20, "b.com"), place(30, "c.com")];
    let entries = extract(&visits, &places, 0);
    assert_eq!(entries.len(), 3);
    assert_eq!(entries[0].url, "a.com");
    assert_eq!(entries[1].url, "b.com");
    assert_eq!(entries[2].url, "c.com");
    assert_eq!(entries[0].visit_date, t1);
    assert_eq!(entries[1].visit_date, t2);
    assert_eq!(entries[2].visit_date, t3);
    // The date string comes from the local-timezone formatter; it must have
    // actually formatted something for an in-range timestamp.
    assert!(!entries[0].date.is_empty());
    assert_ne!(entries[0].date, entries[0].visit_date.to_string());
}

#[test]
fn extract_after_cursor_yields_nothing() {
    let visits = vec![visit(1, 10, 100), visit(2, 10, 200), visit(3, 10, 300)];
    let places = vec![place(10, "a.com")];
    let entries = extract(&visits, &places, 3);
    assert_eq!(entries.len(), 0);
}

#[test]
fn millis_conversion_truncates_toward_zero() {
    assert_eq!(visit_millis(1_500_999), 1500);
    assert_eq!(visit_millis(-1_500_999), -1500);
    assert_eq!(visit_millis(0), 0);
    assert_eq!(visit_millis(999), 0);
    assert_eq!(visit_millis(i64::MIN), i64::MIN / 1000);
}

//! Traffic-filter tests: classification under both polarities, the
//! membership toggle, in-place edits, and list replacement.

use proxy_engine::dispatch::{plan_request, RequestPlan};
use proxy_engine::filter::{TrafficFilter, TrafficFilterType};
use proxy_engine::proxy::{Proxy, ProxyExclusionRow, ProxyExclusionUpdateKind};

fn filter(enabled: bool, polarity: TrafficFilterType, patterns: &[&str]) -> TrafficFilter {
    let mut f = TrafficFilter::default();
    f.set_enabled(enabled);
    f.set_filter_type(polarity);
    f.set_filter_list(patterns.iter().map(|p| p.to_string()).collect());
    f
}

#[test]
fn deny_list_blocks_listed_uris() {
    let f = filter(true, TrafficFilterType::Deny, &["blocked.test"]);

    let d = plan_request("GET", "http://blocked.test/x", &f);
    assert!(matches!(d.plan, RequestPlan::Blocked));
    let r = d.record.expect("enabled filter must always record");
    assert!(r.blocked);
    assert_eq!(r.method, "GET");
    assert_eq!(r.request, "http://blocked.test/x");

    let d = plan_request("GET", "http://ok.test/x", &f);
    match &d.plan {
        RequestPlan::Forward(host, port) => {
            assert_eq!(host, "ok.test");
            assert_eq!(*port, 80);
        }
        _ => panic!("expected a forward plan"),
    }
    let r = d.record.expect("enabled filter must always record");
    assert!(!r.blocked);
}

#[test]
fn allow_list_blocks_everything_else() {
    let f = filter(true, TrafficFilterType::Allow, &["good.test"]);

    let d = plan_request("GET", "http://other.test/", &f);
    assert!(matches!(d.plan, RequestPlan::Blocked));
    assert!(d.record.expect("record expected").blocked);

    let d = plan_request("GET", "http://good.test/", &f);
    assert!(matches!(d.plan, RequestPlan::Forward(_, _)));
    assert!(!d.record.expect("record expected").blocked);
}

#[test]
fn disabled_filter_records_nothing() {
    let f = filter(false, TrafficFilterType::Deny, &["example.test"]);
    let d = plan_request("GET", "http://example.test/", &f);
    assert!(d.record.is_none());
    match &d.plan {
        RequestPlan::Forward(host, port) => {
            assert_eq!(host, "example.test");
            assert_eq!(*port, 80);
        }
        _ => panic!("expected a forward plan"),
    }
}

#[test]
fn matching_is_literal_substring() {
    let f = filter(true, TrafficFilterType::Deny, &["oo.ba"]);
    assert!(f.in_filter_list("http://foo.bar/"));
    assert!(!f.in_filter_list("http://foo.qux/"));
    // Case-sensitive, no globbing.
    let g = filter(true, TrafficFilterType::Deny, &["Foo"]);
    assert!(!g.in_filter_list("http://foo.test/"));
    let h = filter(true, TrafficFilterType::Deny, &["f*o"]);
    assert!(!h.in_filter_list("http://foo.test/"));
}

#[test]
fn empty_pattern_list_matches_nothing() {
    let deny = filter(true, TrafficFilterType::Deny, &[]);
    let d = plan_request("GET", "http://anything.test/", &deny);
    assert!(matches!(d.plan, RequestPlan::Forward(_, _)));

    let allow = filter(true, TrafficFilterType::Allow, &[]);
    let d = plan_request("GET", "http://anything.test/", &allow);
    assert!(matches!(d.plan, RequestPlan::Blocked));
}

#[test]
fn toggle_adds_then_removes() {
    let mut f = TrafficFilter::default();
    f.update_filter_list("a.test".to_string());
    assert_eq!(f.get_filter_list(), vec!["a.test".to_string()]);
    f.update_filter_list("b.test".to_string());
    assert_eq!(
        f.get_filter_list(),
        vec!["a.test".to_string(), "b.test".to_string()]
    );
    // Toggling an existing value removes it: net absent after two toggles.
    f.update_filter_list("a.test".to_string());
    assert_eq!(f.get_filter_list(), vec!["b.test".to_string()]);
    f.update_filter_list("a.test".to_string());
    assert_eq!(
        f.get_filter_list(),
        vec!["b.test".to_string(), "a.test".to_string()]
    );
}

#[test]
fn replace_at_puts_value_at_index() {
    let mut f = filter(false, TrafficFilterType::Deny, &["a", "b", "c"]);
    f.update_filter_list_item(1, "edited".to_string());
    assert_eq!(
        f.get_filter_list(),
        vec!["a".to_string(), "edited".to_string(), "c".to_string()]
    );
}

#[test]
fn replace_at_out_of_range_is_a_no_op() {
    let mut f = filter(false, TrafficFilterType::Deny, &["a", "b"]);
    f.update_filter_list_item(5, "x".to_string());
    assert_eq!(f.get_filter_list(), vec!["a".to_string(), "b".to_string()]);
}

#[test]
fn replace_at_never_creates_a_duplicate() {
    let mut f = filter(false, TrafficFilterType::Deny, &["a", "b"]);
    f.update_filter_list_item(1, "a".to_string());
    assert_eq!(f.get_filter_list(), vec!["a".to_string(), "b".to_string()]);
    // Re-writing the value already at the index is fine.
    f.update_filter_list_item(0, "a".to_string());
    assert_eq!(f.get_filter_list(), vec!["a".to_string(), "b".to_string()]);
}

#[test]
fn set_filter_list_deduplicates_keeping_first() {
    let mut f = TrafficFilter::default();
    f.set_filter_list(vec![
        "a".to_string(),
        "b".to_string(),
        "a".to_string(),
        "c".to_string(),
        "b".to_string(),
    ]);
    assert_eq!(
        f.get_filter_list(),
        vec!["a".to_string(), "b".to_string(), "c".to_string()]
    );
}

#[test]
fn proxy_toggles_filtering_and_polarity() {
    let mut p = Proxy::default();
    assert!(!p.get_traffic_filter().get_enabled());
    p.toggle_traffic_filtering();
    assert!(p.get_traffic_filter().get_enabled());
    p.toggle_traffic_filtering();
    assert!(!p.get_traffic_filter().get_enabled());

    assert!(matches!(
        p.get_traffic_filter().filter_type,
        TrafficFilterType::Deny
    ));
    p.switch_exclusion_list();
    assert!(matches!(
        p.get_traffic_filter().filter_type,
        TrafficFilterType::Allow
    ));
    p.switch_exclusion_list();
    assert!(matches!(
        p.get_traffic_filter().filter_type,
        TrafficFilterType::Deny
    ));
}

#[test]
fn proxy_updates_exclusion_list() {
    let mut p = Proxy::default();
    p.selected_value = "x.test".to_string();
    p.update_exclusion_list(ProxyExclusionUpdateKind::Add);
    assert_eq!(p.get_traffic_filter().get_filter_list(), vec!["x.test".to_string()]);
    p.update_exclusion_list(ProxyExclusionUpdateKind::Remove);
    assert_eq!(p.get_traffic_filter().get_filter_list(), Vec::<String>::new());
}

#[test]
fn proxy_edits_selected_row() {
    let mut p = Proxy::default();
    p.set_exclusion_list(vec!["a".to_string(), "b".to_string()]);
    p.selected_exclusion_row = ProxyExclusionRow {
        updating: true,
        index: 0,
        value: "z".to_string(),
    };
    p.update_exclusion_list(ProxyExclusionUpdateKind::Edit);
    assert_eq!(
        p.get_traffic_filter().get_filter_list(),
        vec!["z".to_string(), "b".to_string()]
    );
    // The selected row is reset after the edit.
    assert!(!p.selected_exclusion_row.updating);
    assert_eq!(p.selected_exclusion_row.index, 0);
    assert_eq!(p.selected_exclusion_row.value, "");
}

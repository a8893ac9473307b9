use dnsglobe::dns::QueryResult;
use dnsglobe::view::{
    clamp_scroll, dot_tone, footer_status, gauge_view, is_fully_propagated, is_round_settled,
    map_info, map_panel_width, propagation_tone, resolver_count_title, row_cells,
    split_at_cursor, type_tabs, GaugeView, MapInfo, RowState, Tone,
};

fn done(result: QueryResult, elapsed_ms: u128) -> RowState {
    RowState::Done { result, elapsed_ms }
}

fn records(values: &[&str], min_ttl: u32) -> QueryResult {
    QueryResult::Records { values: values.iter().map(|v| v.to_string()).collect(), min_ttl }
}

#[test]
fn idle_row() {
    let c = row_cells(&RowState::Idle, "⠋", true, false);
    assert_eq!(c.time, "—");
    assert_eq!(c.ttl, "");
    assert_eq!(c.status, "idle");
    assert_eq!(c.status_style.tone, Tone::Dim);
    assert_eq!(c.answer, "");
}

#[test]
fn pending_row_shows_spinner() {
    let c = row_cells(&RowState::Pending, "⠙", false, false);
    assert_eq!(c.time, "…");
    assert_eq!(c.status, "⠙ query");
    assert_eq!(c.status_style.tone, Tone::Yellow);
}

#[test]
fn agreeing_row() {
    let c = row_cells(&done(records(&["1.2.3.4", "5.6.7.8"], 300), 52), "", true, true);
    assert_eq!(c.time, "52ms");
    assert_eq!(c.time_style.tone, Tone::Green);
    assert_eq!(c.ttl, "300");
    assert_eq!(c.status, "✓ OK");
    assert!(c.status_style.bold);
    assert_eq!(c.status_style.tone, Tone::Green);
    assert_eq!(c.answer, "1.2.3.4, 5.6.7.8");
    assert_eq!(c.answer_style.tone, Tone::Plain);
}

#[test]
fn differing_row_after_completion() {
    let c = row_cells(&done(records(&["8.47.69.0"], 120), 208), "", true, false);
    assert_eq!(c.time, "208ms");
    assert_eq!(c.time_style.tone, Tone::Yellow);
    assert_eq!(c.status, "≠ DIFFERS");
    assert_eq!(c.status_style.tone, Tone::Magenta);
    assert_eq!(c.answer_style.tone, Tone::Magenta);
}

#[test]
fn no_outlier_flag_while_round_runs() {
    let c = row_cells(&done(records(&["8.47.69.0"], 120), 208), "", false, false);
    assert_eq!(c.status, "✓ OK");
    assert_eq!(dot_tone(&done(records(&["x"], 1), 1), false, false), Tone::Green);
}

#[test]
fn no_records_row() {
    let c = row_cells(&done(QueryResult::NoRecords("Non-Existent Domain".into()), 400), "", true, false);
    assert_eq!(c.time, "400ms");
    assert_eq!(c.time_style.tone, Tone::Red);
    assert_eq!(c.ttl, "");
    assert_eq!(c.status, "∅ NONE");
    assert_eq!(c.answer, "Non-Existent Domain");
    assert_eq!(c.answer_style.tone, Tone::Red);
}

#[test]
fn error_row() {
    let c = row_cells(&done(QueryResult::Error("refused".into()), 3000), "", true, false);
    assert_eq!(c.time, "3000ms");
    assert_eq!(c.status, "✗ ERR");
    assert_eq!(c.answer, "refused");
    assert!(c.answer_style.italic);
    assert_eq!(c.answer_style.tone, Tone::Red);
}

#[test]
fn response_time_thresholds() {
    for (ms, tone) in [(0u128, Tone::Green), (99, Tone::Green), (100, Tone::Yellow), (399, Tone::Yellow), (400, Tone::Red)] {
        let c = row_cells(&done(QueryResult::Error("e".into()), ms), "", true, false);
        assert_eq!(c.time_style.tone, tone, "{ms}");
        assert_eq!(c.time, format!("{ms}ms"));
    }
}

#[test]
fn status_colour_matches_map_dot() {
    let states = vec![
        RowState::Idle,
        RowState::Pending,
        done(records(&["a"], 1), 1),
        done(QueryResult::NoRecords("x".into()), 1),
        done(QueryResult::Error("x".into()), 1),
    ];
    for state in &states {
        for complete in [false, true] {
            for in_majority in [false, true] {
                let c = row_cells(state, "*", complete, in_majority);
                assert_eq!(c.status_style.tone, dot_tone(state, complete, in_majority));
            }
        }
    }
}

#[test]
fn map_dots() {
    assert_eq!(dot_tone(&RowState::Idle, true, true), Tone::Dim);
    assert_eq!(dot_tone(&RowState::Pending, true, true), Tone::Yellow);
    assert_eq!(dot_tone(&done(records(&["a"], 1), 1), true, false), Tone::Magenta);
    assert_eq!(dot_tone(&done(records(&["a"], 1), 1), true, true), Tone::Green);
    assert_eq!(dot_tone(&done(QueryResult::NoRecords("x".into()), 1), true, true), Tone::Red);
}

#[test]
fn map_shown_only_when_wide() {
    assert_eq!(map_panel_width(149), None);
    assert_eq!(map_panel_width(150), Some(54));
    assert_eq!(map_panel_width(266), Some(170));
    assert_eq!(map_panel_width(400), Some(170));
    for w in 150..=400u16 {
        assert!(map_panel_width(w).unwrap() + 96 <= w);
    }
}

#[test]
fn scroll_clamped_to_full_last_page() {
    assert_eq!(clamp_scroll(0, 34, 20), 0);
    assert_eq!(clamp_scroll(30, 34, 20), 17);
    assert_eq!(clamp_scroll(17, 34, 20), 17);
    assert_eq!(clamp_scroll(5, 34, 2), 5);
    assert_eq!(clamp_scroll(40, 34, 2), 34);
    assert_eq!(clamp_scroll(9, 10, 50), 0);
    let once = clamp_scroll(30, 34, 20);
    assert_eq!(clamp_scroll(once, 34, 20), once);
}

#[test]
fn settled_round() {
    assert!(!is_round_settled(0, false));
    assert!(!is_round_settled(5, true));
    assert!(is_round_settled(5, false));
}

#[test]
fn full_propagation() {
    assert!(is_fully_propagated(19, 19));
    assert!(!is_fully_propagated(0, 0));
    assert!(!is_fully_propagated(19, 20));
    assert_eq!(propagation_tone(19, 19), Tone::Green);
}

#[test]
fn gauge_tone_thresholds() {
    assert_eq!(propagation_tone(9, 10), Tone::Green);
    assert_eq!(propagation_tone(19, 20), Tone::Green);
    assert_eq!(propagation_tone(8, 10), Tone::Yellow);
    assert_eq!(propagation_tone(5, 10), Tone::Yellow);
    assert_eq!(propagation_tone(4, 10), Tone::Red);
    assert_eq!(propagation_tone(0, 0), Tone::Red);
}

#[test]
fn gauge_hint_before_any_query() {
    assert!(matches!(gauge_view(false, false, "", 0, 34, 0, 0, 0, None), GaugeView::Hint));
}

#[test]
fn gauge_checking_label() {
    match gauge_view(true, true, "⠋", 12, 34, 0, 0, 0, None) {
        GaugeView::Checking { label } => assert_eq!(label, "⠋ checking… 12/34 "),
        _ => panic!(),
    }
}

#[test]
fn gauge_settled_complete() {
    match gauge_view(true, false, "", 34, 34, 20, 20, 0, Some(12)) {
        GaugeView::Settled { tone, head, tail } => {
            assert_eq!(tone, Tone::Green);
            assert_eq!(head, " propagation 20/20 (");
            assert_eq!(tail, " · complete ");
        }
        _ => panic!(),
    }
}

#[test]
fn gauge_settled_watching_with_errors() {
    match gauge_view(true, false, "", 34, 34, 19, 20, 3, Some(12)) {
        GaugeView::Settled { tone, head, tail } => {
            assert_eq!(tone, Tone::Green);
            assert_eq!(head, " propagation 19/20 (");
            assert_eq!(tail, " · 3 unreachable · next poll in 12s (Ctrl+R stops) ");
        }
        _ => panic!(),
    }
}

#[test]
fn gauge_settled_watch_off() {
    match gauge_view(true, false, "", 34, 34, 2, 20, 0, None) {
        GaugeView::Settled { tone, tail, .. } => {
            assert_eq!(tone, Tone::Red);
            assert_eq!(tail, " · watch off (Ctrl+R resumes) ");
        }
        _ => panic!(),
    }
}

#[test]
fn header_split_at_cursor() {
    assert_eq!(split_at_cursor("example.com", 7), ("example".to_string(), ".com".to_string()));
    assert_eq!(split_at_cursor("example.com", 99), ("example.com".to_string(), String::new()));
    assert_eq!(split_at_cursor("", 0), (String::new(), String::new()));
}

#[test]
fn header_type_tabs() {
    let names: Vec<String> = ["A", "AAAA", "MX"].iter().map(|s| s.to_string()).collect();
    let tabs = type_tabs(&names, 1);
    assert_eq!(tabs.len(), 3);
    assert_eq!(tabs[0].label, " A ");
    assert_eq!(tabs[1].label, " AAAA ");
    assert!(!tabs[0].selected && tabs[1].selected && !tabs[2].selected);
}

#[test]
fn table_title() {
    assert_eq!(resolver_count_title(34), " 34 resolvers (↑/↓ scroll) ");
}

#[test]
fn map_info_panel() {
    assert!(matches!(map_info(2, true, 3, 20, 34, true, false), MapInfo::Hidden));
    match map_info(10, true, 2, 20, 34, true, false) {
        MapInfo::Majority { heading } => assert_eq!(heading, "Majority answer (20/34 resolvers):"),
        _ => panic!(),
    }
    assert!(matches!(map_info(10, false, 0, 0, 34, true, true), MapInfo::Waiting));
    assert!(matches!(map_info(10, true, 0, 0, 34, true, false), MapInfo::Legend));
    assert!(matches!(map_info(10, false, 0, 0, 34, false, false), MapInfo::Legend));
}

#[test]
fn footer_line() {
    let f = footer_status("example.com", 1, 30, 2, 2, 3);
    assert_eq!(f.heading, " example.com A: ");
    assert_eq!(f.ok, "30 ok");
    assert_eq!(f.none, "2 none");
    assert_eq!(f.err, "2 err");
    assert_eq!(f.groups, "3 answer group(s)");
    assert_eq!(f.groups_tone, Tone::Magenta);
    let g = footer_status("x.org", 28, 1, 0, 0, 1);
    assert_eq!(g.heading, " x.org AAAA: ");
    assert_eq!(g.groups_tone, Tone::Dim);
}

#[test]
fn decimal_rendering_through_titles() {
    assert_eq!(resolver_count_title(0), " 0 resolvers (↑/↓ scroll) ");
    assert_eq!(resolver_count_title(1000), " 1000 resolvers (↑/↓ scroll) ");
    assert_eq!(resolver_count_title(usize::MAX), format!(" {} resolvers (↑/↓ scroll) ", usize::MAX));
}

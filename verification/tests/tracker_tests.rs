use led_blinker::filter::FilterSet;
use led_blinker::tracker::{Notification, NotificationTracker};

fn strings(items: &[&str]) -> Vec<String> {
    items.iter().map(|s| s.to_string()).collect()
}

fn tracker(patterns: &[&str], case_insensitive: bool) -> NotificationTracker {
    NotificationTracker::new(strings(patterns), case_insensitive).expect("patterns compile")
}

fn note(app: &str, summary: &str, body: &str) -> Notification {
    Notification { app_name: app.to_string(), summary: summary.to_string(), body: body.to_string() }
}

fn add(t: &mut NotificationTracker, id: u32, app: &str, summary: &str, body: &str) -> bool {
    t.add_notification(id, app.to_string(), summary.to_string(), body.to_string())
}

#[test]
fn filter_set_compiles_patterns_in_order() {
    let set = FilterSet::new(strings(&["urgent", "err(or)?"]), false).expect("patterns compile");
    assert_eq!(set.len(), 2);
    assert_eq!(set.pattern(0), Some("urgent"));
    assert_eq!(set.pattern(1), Some("err(or)?"));
    assert_eq!(set.pattern(2), None);
    assert!(!set.case_insensitive());
}

#[test]
fn filter_set_puts_the_case_flag_in_front() {
    let set = FilterSet::new(strings(&["urgent"]), true).expect("pattern compiles");
    assert_eq!(set.pattern(0), Some("(?i)urgent"));
    assert!(set.case_insensitive());
}

#[test]
fn nothing_matches_without_patterns() {
    let set = FilterSet::new(Vec::new(), true).expect("no pattern to refuse");
    assert_eq!(set.len(), 0);
    let mut t = tracker(&[], true);
    assert!(!add(&mut t, 1, "anything", "at", "all"));
    assert!(!t.matches_filter(&note("", "", "")));
    assert_eq!(t.count_matching_notifications(), 0);
}

#[test]
fn filter_set_reports_the_first_refused_pattern() {
    let error = FilterSet::new(strings(&["fine", "foo(bar", "also(bad"]), false)
        .err()
        .expect("the second pattern is refused");
    assert_eq!(error.index, 1);
    assert!(matches!(error.cause, regex::Error::Syntax(_)));

    let error = FilterSet::new(strings(&["\\w{1000}"]), true).err().expect("too big");
    assert_eq!(error.index, 0);
    assert!(matches!(error.cause, regex::Error::CompiledTooBig(_)));
}

#[test]
fn patterns_are_regular_expressions() {
    let anchored = tracker(&["^a+b$"], false);
    assert!(anchored.matches_filter(&note("aaab", "", "")));
    assert!(!anchored.matches_filter(&note("^a+b$", "", "")));
    assert!(!anchored.matches_filter(&note("caaab", "", "")));
    let digits = tracker(&["\\d{3}"], false);
    assert!(digits.matches_filter(&note("", "call 555 now", "")));
    assert!(!digits.matches_filter(&note("", "\\d{3}", "")));
    assert!(!digits.matches_filter(&note("", "12 ba", "")));
}

#[test]
fn matching_is_case_sensitive_unless_asked() {
    let strict = tracker(&["urgent"], false);
    assert!(!strict.matches_filter(&note("mail", "URGENT: action needed", "")));
    assert!(strict.matches_filter(&note("mail", "urgent: action needed", "")));
    let loose = tracker(&["urgent"], true);
    assert!(loose.matches_filter(&note("mail", "URGENT: action needed", "")));
}

#[test]
fn any_pattern_in_any_text_matches() {
    let t = tracker(&["alpha", "beta"], false);
    assert!(t.matches_filter(&note("alpha", "", "")));
    assert!(t.matches_filter(&note("", "has beta inside", "")));
    assert!(t.matches_filter(&note("", "", "beta")));
    assert!(!t.matches_filter(&note("gamma", "delta", "epsilon")));
    assert!(!t.matches_filter(&note("al", "pha", "")));
}

#[test]
fn new_tracker_fails_on_a_bad_pattern() {
    let error = NotificationTracker::new(strings(&["[unclosed"]), false)
        .err()
        .expect("the pattern is refused");
    assert_eq!(error.index, 0);
    let error = NotificationTracker::new(strings(&["ok", "(?i)", "*"]), true)
        .err()
        .expect("the third pattern is refused");
    assert_eq!(error.index, 2);
}

#[test]
fn urgent_mail_is_matched_and_counted() {
    let mut t = tracker(&["urgent"], true);
    assert_eq!(t.count_matching_notifications(), 0);
    assert!(!t.has_matching_notifications());
    assert!(add(&mut t, 1, "mail", "URGENT: action needed", ""));
    assert_eq!(t.count_matching_notifications(), 1);
    assert!(t.has_matching_notifications());
    assert_eq!(t.len(), 1);
}

#[test]
fn upsert_replaces_by_identifier() {
    let mut t = tracker(&["urgent"], false);
    assert!(add(&mut t, 7, "mail", "urgent", ""));
    assert!(!add(&mut t, 7, "mail", "relaxed", ""));
    assert_eq!(t.len(), 1);
    assert_eq!(t.count_matching_notifications(), 0);
    assert!(add(&mut t, 7, "chat", "", "urgent again"));
    assert_eq!(t.len(), 1);
    assert_eq!(t.count_matching_notifications(), 1);
}

#[test]
fn remove_tells_whether_the_item_matched() {
    let mut t = tracker(&["urgent"], false);
    add(&mut t, 1, "mail", "urgent", "");
    add(&mut t, 2, "mail", "calm", "");
    assert!(!t.remove_notification(3));
    assert_eq!(t.len(), 2);
    assert!(!t.remove_notification(2));
    assert_eq!(t.len(), 1);
    assert!(t.remove_notification(1));
    assert_eq!(t.len(), 0);
    assert!(!t.remove_notification(1));
    assert_eq!(t.count_matching_notifications(), 0);
}

#[test]
fn clear_leaves_no_match() {
    let mut t = tracker(&["a"], false);
    t.clear();
    assert_eq!(t.count_matching_notifications(), 0);
    assert!(!t.has_matching_notifications());
    add(&mut t, 1, "a", "", "");
    add(&mut t, 2, "", "a", "");
    add(&mut t, 3, "", "", "b");
    assert_eq!(t.count_matching_notifications(), 2);
    t.clear();
    assert_eq!(t.len(), 0);
    assert_eq!(t.count_matching_notifications(), 0);
    assert!(!t.has_matching_notifications());
}

#[test]
fn count_follows_every_change() {
    let mut t = tracker(&["x"], false);
    let mut expected: std::collections::HashMap<u32, bool> = std::collections::HashMap::new();
    let steps: [(u8, u32, &str); 14] = [
        (0, 1, "x"),
        (0, 2, "y"),
        (0, 3, "xx"),
        (1, 2, ""),
        (0, 1, "y"),
        (0, 4, "x"),
        (1, 9, ""),
        (1, 3, ""),
        (0, 3, "x"),
        (2, 0, ""),
        (0, 5, "x"),
        (0, 5, "x"),
        (1, 5, ""),
        (0, 6, "zxz"),
    ];
    for (kind, id, text) in steps {
        match kind {
            0 => {
                let matched = add(&mut t, id, "app", text, "");
                assert_eq!(matched, text.contains('x'));
                expected.insert(id, matched);
            }
            1 => {
                let was = t.remove_notification(id);
                assert_eq!(was, expected.remove(&id).unwrap_or(false));
            }
            _ => {
                t.clear();
                expected.clear();
            }
        }
        let matching = expected.values().filter(|m| **m).count();
        assert_eq!(t.count_matching_notifications(), matching);
        assert_eq!(t.has_matching_notifications(), matching > 0);
        assert_eq!(t.len(), expected.len());
    }
}

#[test]
fn reconcile_replaces_what_is_held() {
    let mut t = tracker(&["x"], false);
    add(&mut t, 1, "x", "", "");
    add(&mut t, 2, "x", "", "");
    t.reconcile(vec![(5, note("x", "", "")), (6, note("y", "", "")), (5, note("z", "", ""))]);
    assert_eq!(t.len(), 2);
    assert_eq!(t.count_matching_notifications(), 0);
    assert!(!t.remove_notification(1));
    t.reconcile(Vec::new());
    assert_eq!(t.len(), 0);
}

#[test]
fn reconcile_with_what_is_held_changes_nothing() {
    let snapshot = vec![(1, note("x", "", "")), (2, note("", "y", "")), (3, note("", "", "x"))];
    let mut t = tracker(&["x"], false);
    t.reconcile(snapshot.clone());
    let count = t.count_matching_notifications();
    let held = t.len();
    assert_eq!(count, 2);
    assert_eq!(held, 3);
    t.reconcile(snapshot.clone());
    assert_eq!(t.count_matching_notifications(), count);
    assert_eq!(t.len(), held);
    t.reconcile(snapshot);
    assert_eq!(t.count_matching_notifications(), count);
}

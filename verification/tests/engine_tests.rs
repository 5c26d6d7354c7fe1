use interprether::model::{Effect, Model, Msg, Transaction};

fn record(hash: &str, message: &str, timestamp: u64) -> Transaction {
    Transaction {
        hash: hash.to_string(),
        message: message.to_string(),
        timestamp,
        from: None,
        to: None,
        animate: None,
    }
}

const NOW: u64 = 1_000_000;

#[test]
fn initial_merge_takes_batch_verbatim_without_animation() {
    let mut m = Model::create();
    let batch = vec![record("a", "one", NOW - 10), record("b", "two", NOW - 20)];
    let n = m.merge(batch, NOW);
    assert_eq!(n, 2);
    assert!(m.first_fetch_done);
    assert_eq!(m.transactions.len(), 2);
    assert_eq!(m.transactions[0].hash, "a");
    assert_eq!(m.transactions[1].hash, "b");
    assert_eq!(m.transactions[0].animate, None);
    assert_eq!(m.transactions[1].animate, None);
}

#[test]
fn later_merge_prepends_and_marks_new_records() {
    let mut m = Model::create();
    m.merge(vec![record("a", "one", NOW - 100), record("b", "two", NOW - 200)], NOW);
    let n = m.merge(vec![record("c", "three", NOW - 10), record("d", "four", NOW - 50)], NOW);
    assert_eq!(n, 2);
    let hashes: Vec<&str> = m.transactions.iter().map(|t| t.hash.as_str()).collect();
    assert_eq!(hashes, vec!["c", "d", "a", "b"]);
    assert_eq!(m.transactions[0].animate, Some(true));
    assert_eq!(m.transactions[1].animate, Some(true));
    assert_eq!(m.transactions[2].animate, None);
    // ordering invariant: timestamps never increase along the collection
    for w in m.transactions.windows(2) {
        assert!(w[0].timestamp >= w[1].timestamp);
    }
}

#[test]
fn merge_prunes_records_outside_the_retention_window() {
    let mut m = Model::create();
    m.merge(vec![record("edge", "kept", NOW - 86399), record("old", "stale", NOW - 86400)], NOW);
    // the initial merge is taken verbatim; the next merge prunes
    let later = NOW + 1;
    m.merge(vec![record("new", "fresh", NOW + 1)], later);
    let hashes: Vec<&str> = m.transactions.iter().map(|t| t.hash.as_str()).collect();
    // "edge" is now 86400s old and falls out together with "old"
    assert_eq!(hashes, vec!["new"]);
    // retention invariant: every remaining record is younger than a day
    for t in &m.transactions {
        assert!(later - t.timestamp < 86400);
    }
}

#[test]
fn merge_with_disjoint_ids_keeps_every_record() {
    let mut m = Model::create();
    m.merge(vec![record("a", "one", NOW - 30), record("b", "two", NOW - 40)], NOW);
    m.merge(vec![record("c", "x", NOW - 1), record("d", "y", NOW - 2), record("e", "z", NOW - 3)], NOW);
    assert_eq!(m.transactions.len(), 5);
}

#[test]
fn animation_clear_is_idempotent() {
    let mut m = Model::create();
    m.merge(vec![record("a", "one", NOW - 100)], NOW);
    m.merge(vec![record("b", "two", NOW - 10)], NOW);
    assert_eq!(m.transactions[0].animate, Some(true));
    let (render, effects) = m.update(Msg::RemoveAnimation(1), NOW);
    assert!(render);
    assert!(effects.is_empty());
    let once: Vec<Option<bool>> = m.transactions.iter().map(|t| t.animate).collect();
    assert_eq!(once, vec![Some(false), None]);
    let (render2, _) = m.update(Msg::RemoveAnimation(1), NOW);
    assert!(render2);
    let twice: Vec<Option<bool>> = m.transactions.iter().map(|t| t.animate).collect();
    assert_eq!(once, twice);
}

#[test]
fn animation_clear_with_zero_count_is_a_no_op() {
    let mut m = Model::create();
    m.merge(vec![record("a", "one", NOW - 100)], NOW);
    m.merge(vec![record("b", "two", NOW - 10)], NOW);
    let (render, effects) = m.update(Msg::RemoveAnimation(0), NOW);
    assert!(!render);
    assert!(effects.is_empty());
    assert_eq!(m.transactions[0].animate, Some(true));
}

#[test]
fn debounced_edits_commit_only_the_final_value() {
    let mut m = Model::create();
    let (_, e1) = m.update(Msg::DebounceFilter("h".to_string()), NOW);
    let (_, e2) = m.update(Msg::DebounceFilter("he".to_string()), NOW);
    let (_, e3) = m.update(Msg::DebounceFilter("hel".to_string()), NOW);
    let g1 = match &e1[0] {
        Effect::ScheduleDebounce(g) => *g,
        _ => panic!("expected a debounce timer"),
    };
    let g2 = match &e2[0] {
        Effect::ScheduleDebounce(g) => *g,
        _ => panic!("expected a debounce timer"),
    };
    let g3 = match &e3[0] {
        Effect::ScheduleDebounce(g) => *g,
        _ => panic!("expected a debounce timer"),
    };
    // the first two timers were superseded: their expiration commits nothing
    let (r1, _) = m.update(Msg::DebounceElapsed(g1), NOW);
    assert!(!r1);
    assert_eq!(m.text_filter, None);
    let (r2, _) = m.update(Msg::DebounceElapsed(g2), NOW);
    assert!(!r2);
    assert_eq!(m.text_filter, None);
    // only the last pending value becomes the active filter
    let (r3, _) = m.update(Msg::DebounceElapsed(g3), NOW);
    assert!(r3);
    assert_eq!(m.text_filter, Some("hel".to_string()));
    // a stale timer after the commit changes nothing
    let (r4, _) = m.update(Msg::DebounceElapsed(g3), NOW);
    assert!(!r4);
    assert_eq!(m.text_filter, Some("hel".to_string()));
}

#[test]
fn window_slice_matches_the_documented_formulas() {
    let mut m = Model::create();
    let mut batch = Vec::new();
    for i in 0..100u64 {
        batch.push(record(&format!("h{}", i), "msg", NOW - i));
    }
    m.merge(batch, NOW);
    m.row_height = 50;
    m.root_height = 600;
    let (render, _) = m.update(Msg::OnScroll(500), NOW);
    assert!(render);
    assert_eq!(m.items_count(), 100);
    assert_eq!(m.start_index(), 8);
    assert_eq!(m.visible_items_count(), 16);
    assert_eq!(m.offset_y(), 400);
    assert_eq!(m.viewport_height(), 5000);
    let slice = m.visible_transactions();
    assert_eq!(slice.len(), 16);
    assert_eq!(slice[0].hash, "h8");
    assert_eq!(slice[15].hash, "h23");
}

#[test]
fn merging_an_empty_batch_changes_nothing_but_the_flags() {
    let mut m = Model::create();
    m.merge(vec![record("a", "one", NOW - 10)], NOW);
    let n = m.merge(Vec::new(), NOW);
    assert_eq!(n, 0);
    assert_eq!(m.transactions.len(), 1);
    assert_eq!(m.transactions[0].hash, "a");
}

#[test]
fn row_height_follows_the_screen_width() {
    assert_eq!(Model::row_height_for_width(768), 244);
    assert_eq!(Model::row_height_for_width(769), 174);
}

#[test]
fn an_empty_feed_materializes_nothing() {
    let m = Model::create();
    assert_eq!(m.items_count(), 0);
    assert_eq!(m.start_index(), 0);
    assert!(m.visible_items_count() <= 0);
    assert!(m.visible_transactions().is_empty());
    assert_eq!(m.viewport_height(), 0);
}

#[test]
fn scroll_offsets_are_clamped_to_zero() {
    let mut m = Model::create();
    let (_, _) = m.update(Msg::OnScroll(-50), NOW);
    assert_eq!(m.scroll_top, 0);
}

#[test]
fn interval_fetch_uses_the_head_timestamp_as_cursor() {
    let mut m = Model::create();
    let (render, effects) = m.update(Msg::FetchTransactions, NOW);
    assert!(render);
    assert!(m.loading);
    assert!(matches!(effects[0], Effect::StartFetch(None)));
    let (_, _) = m.update(
        Msg::TransactionsFetched(vec![record("a", "one", NOW - 10)]),
        NOW,
    );
    assert!(!m.loading);
    let (_, effects) = m.update(Msg::FetchTransactions, NOW);
    assert!(matches!(effects[0], Effect::StartFetch(Some(t)) if t == NOW - 10));
}

#[test]
fn fetches_are_suppressed_while_paused_or_in_flight() {
    let mut m = Model::create();
    let (_, effects) = m.update(Msg::ToggleFeedPaused, NOW);
    assert!(m.feed_paused);
    assert!(matches!(effects[0], Effect::SchedulePoll(5)));
    let (render, effects) = m.update(Msg::FetchTransactions, NOW);
    assert!(!render);
    assert!(effects.is_empty());
    let (_, _) = m.update(Msg::ToggleFeedPaused, NOW);
    assert!(!m.feed_paused);
    let (_, _) = m.update(Msg::FetchTransactions, NOW);
    assert!(m.loading);
    // a second interval elapsing while a fetch is in flight issues nothing
    let (render, effects) = m.update(Msg::FetchTransactions, NOW);
    assert!(!render);
    assert!(effects.is_empty());
}

#[test]
fn fetch_errors_are_sticky_until_the_next_success() {
    let mut m = Model::create();
    let (_, _) = m.update(Msg::FetchTransactions, NOW);
    let (render, effects) = m.update(Msg::HttpError("boom".to_string()), NOW);
    assert!(render);
    assert!(!m.loading);
    assert_eq!(m.error, Some("boom".to_string()));
    // the scheduler re-arms after a failure: the interval is the retry cadence
    assert!(matches!(effects[0], Effect::SchedulePoll(5)));
    let (_, effects) = m.update(
        Msg::TransactionsFetched(vec![record("a", "one", NOW - 10)]),
        NOW,
    );
    assert_eq!(m.error, None);
    assert!(matches!(effects[0], Effect::SchedulePoll(5)));
    // a non-initial merge also schedules the animation-clear timer
    let (_, effects) = m.update(
        Msg::TransactionsFetched(vec![record("b", "two", NOW - 5)]),
        NOW,
    );
    assert!(matches!(effects[0], Effect::ScheduleAnimationClear(1)));
    assert!(matches!(effects[1], Effect::SchedulePoll(5)));
}

#[test]
fn shareable_url_carries_the_active_filters() {
    let mut m = Model::create();
    let (_, effects) = m.update(Msg::GenerateShareableUrl, NOW);
    match &effects[0] {
        Effect::Share(params) => {
            assert_eq!(params.text_filter, None);
            assert!(params.filters.is_none());
        },
        _ => panic!("expected a share effect"),
    }
    let (_, _) = m.update(Msg::EditFilter("hunt".to_string()), NOW);
    match m.update(Msg::GenerateShareableUrl, NOW).1.first() {
        Some(Effect::Share(params)) => {
            assert_eq!(params.text_filter, Some("hunt".to_string()));
        },
        _ => panic!("expected a share effect"),
    }
}

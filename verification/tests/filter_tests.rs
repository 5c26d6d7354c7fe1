use interprether::filter::{TransactionFilter, TransactionFilterField, TransactionFilterOperation};
use interprether::model::{Model, Msg, Transaction};

fn record_with(hash: &str, message: &str, from: &str, timestamp: u64) -> Transaction {
    Transaction {
        hash: hash.to_string(),
        message: message.to_string(),
        timestamp,
        from: Some(from.to_string()),
        to: None,
        animate: None,
    }
}

fn entry(
    field: TransactionFilterField,
    operation: TransactionFilterOperation,
    value: &str,
) -> TransactionFilter {
    TransactionFilter { field, operation, text: value.to_string() }
}

const NOW: u64 = 1_000_000;

fn two_record_model() -> Model {
    let mut m = Model::create();
    m.merge(
        vec![
            record_with("a", "hello", "x", NOW - 10),
            record_with("b", "world", "y", NOW - 20),
        ],
        NOW,
    );
    m
}

#[test]
fn include_filters_require_every_distinct_value() {
    let mut m = two_record_model();
    let (_, _) = m.update(
        Msg::AddFilter(entry(
            TransactionFilterField::From,
            TransactionFilterOperation::Include,
            "x",
        )),
        NOW,
    );
    let visible = m.filtered_transactions();
    assert_eq!(visible.len(), 1);
    assert_eq!(visible[0].hash, "a");
    // a second distinct value must also be matched, which no record does
    let (_, _) = m.update(
        Msg::AddFilter(entry(
            TransactionFilterField::From,
            TransactionFilterOperation::Include,
            "y",
        )),
        NOW,
    );
    assert_eq!(m.filtered_transactions().len(), 0);
}

#[test]
fn exclude_filters_drop_records_matching_on_any_field() {
    let mut m = two_record_model();
    let (_, _) = m.update(
        Msg::AddFilter(entry(
            TransactionFilterField::Message,
            TransactionFilterOperation::Exclude,
            "hello",
        )),
        NOW,
    );
    let visible = m.filtered_transactions();
    assert_eq!(visible.len(), 1);
    assert_eq!(visible[0].hash, "b");
}

#[test]
fn exclusion_matches_by_value_regardless_of_field() {
    let mut m = two_record_model();
    // the entry names the Message field, but the value matches record a's origin
    let (_, _) = m.update(
        Msg::AddFilter(entry(
            TransactionFilterField::Message,
            TransactionFilterOperation::Exclude,
            "x",
        )),
        NOW,
    );
    let visible = m.filtered_transactions();
    assert_eq!(visible.len(), 1);
    assert_eq!(visible[0].hash, "b");
}

#[test]
fn text_filter_is_a_case_insensitive_substring_match() {
    let mut m = Model::create();
    m.merge(
        vec![
            record_with("a", "Hello World", "x", NOW - 10),
            record_with("b", "nothing here", "y", NOW - 20),
        ],
        NOW,
    );
    let (_, _) = m.update(Msg::EditFilter("hello".to_string()), NOW);
    let visible = m.filtered_transactions();
    assert_eq!(visible.len(), 1);
    assert_eq!(visible[0].hash, "a");
    let (_, _) = m.update(Msg::EditFilter("LO WO".to_string()), NOW);
    assert_eq!(m.filtered_transactions().len(), 1);
    let (_, _) = m.update(Msg::EditFilter("absent".to_string()), NOW);
    assert_eq!(m.filtered_transactions().len(), 0);
}

#[test]
fn whitespace_only_edits_clear_the_text_filter() {
    let mut m = Model::create();
    let (_, _) = m.update(Msg::EditFilter("  hi  ".to_string()), NOW);
    assert_eq!(m.text_filter, Some("hi".to_string()));
    assert_eq!(m.scroll_top, 0);
    let (_, _) = m.update(Msg::EditFilter(" \t ".to_string()), NOW);
    assert_eq!(m.text_filter, None);
}

#[test]
fn unicode_whitespace_clears_and_trims_like_ascii_whitespace() {
    let mut m = Model::create();
    // a lone vertical tab is whitespace-only: it clears the filter
    let (_, _) = m.update(Msg::EditFilter("\u{b}".to_string()), NOW);
    assert_eq!(m.text_filter, None);
    // no-break space and em space are trimmed away around the value
    let (_, _) = m.update(Msg::EditFilter("\u{a0}hi\u{2003}".to_string()), NOW);
    assert_eq!(m.text_filter, Some("hi".to_string()));
    // next-line and ideographic space alone also clear
    let (_, _) = m.update(Msg::EditFilter("\u{85}\u{3000}".to_string()), NOW);
    assert_eq!(m.text_filter, None);
}

#[test]
fn text_filter_folds_case_beyond_ascii() {
    let mut m = Model::create();
    m.merge(
        vec![
            record_with("a", "Voil\u{c0} CAF\u{c9}", "x", NOW - 10),
            record_with("b", "nothing here", "y", NOW - 20),
        ],
        NOW,
    );
    // the record text holds the upper-case letters; the filter the lower
    let (_, _) = m.update(Msg::EditFilter("caf\u{e9}".to_string()), NOW);
    let visible = m.filtered_transactions();
    assert_eq!(visible.len(), 1);
    assert_eq!(visible[0].hash, "a");
}

#[test]
fn committing_a_filter_resets_the_scroll_position() {
    let mut m = Model::create();
    let (_, _) = m.update(Msg::OnScroll(700), NOW);
    assert_eq!(m.scroll_top, 700);
    let (_, _) = m.update(Msg::EditFilter("abc".to_string()), NOW);
    assert_eq!(m.scroll_top, 0);
}

#[test]
fn removing_a_filter_entry_restores_the_records_it_hid() {
    let mut m = two_record_model();
    let e = entry(TransactionFilterField::Message, TransactionFilterOperation::Exclude, "hello");
    let (_, _) = m.update(Msg::AddFilter(e.clone()), NOW);
    assert_eq!(m.filtered_transactions().len(), 1);
    let (_, _) = m.update(Msg::RemoveFilter(e), NOW);
    assert_eq!(m.transaction_filters.len(), 0);
    assert_eq!(m.filtered_transactions().len(), 2);
}

#[test]
fn filter_labels_spell_operation_field_and_value() {
    let inc = entry(TransactionFilterField::From, TransactionFilterOperation::Include, "0xabc");
    assert_eq!(inc.label(), "from:0xabc");
    let exc = entry(TransactionFilterField::Message, TransactionFilterOperation::Exclude, "spam");
    assert_eq!(exc.label(), "NOT message:spam");
    let to = entry(TransactionFilterField::To, TransactionFilterOperation::Include, "z");
    assert_eq!(to.label(), "to:z");
}

#[test]
fn entries_sharing_a_value_state_one_requirement() {
    let mut m = two_record_model();
    // two entries with the same value, created from different fields,
    // narrow no further than one of them
    let (_, _) = m.update(
        Msg::AddFilter(entry(
            TransactionFilterField::From,
            TransactionFilterOperation::Include,
            "x",
        )),
        NOW,
    );
    let (_, _) = m.update(
        Msg::AddFilter(entry(
            TransactionFilterField::Message,
            TransactionFilterOperation::Include,
            "x",
        )),
        NOW,
    );
    let visible = m.filtered_transactions();
    assert_eq!(visible.len(), 1);
    assert_eq!(visible[0].hash, "a");
}

#[test]
fn filtering_does_not_mutate_the_collection() {
    let mut m = two_record_model();
    let (_, _) = m.update(Msg::EditFilter("hello".to_string()), NOW);
    let _ = m.filtered_transactions();
    assert_eq!(m.transactions.len(), 2);
    assert_eq!(m.transactions[0].hash, "a");
    assert_eq!(m.transactions[1].hash, "b");
}

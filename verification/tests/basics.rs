use std::sync::Arc;

use aion::attributes::{
    SearchAttributeError, SearchAttributeSchema, SearchAttributeType, SearchAttributeValue,
    SearchAttributes,
};
use aion::durability::{timer_command, Command, CorrelationKey, LiveExecutor};
use aion::error::{DurabilityError, EngineSeamError, StoreError, TimerServiceError};
use aion::ids::{ActivityId, IdError, RunId, ScheduleId, TimerId, WorkflowId};
use aion::nif::{Determinism, Nif};
use aion::order::sorted;
use aion::payload::{ContentType, Payload};
use aion::store::{history_head, validate_contiguous};
use aion::table::Table;
use aion::text::{decimal_text, joined, signed_decimal_text, text_precedes};
use aion::timestamp::{Span, SpanError, Timestamp};

#[test]
fn live_executor_is_object_safe() {
    let _: Option<Arc<dyn LiveExecutor>> = None;
}

fn identity_native(
    args: &[beamr::term::Term],
    ctx: &mut beamr::native::ProcessContext,
) -> Result<beamr::term::Term, beamr::term::Term> {
    let _ = ctx;
    args.first().copied().ok_or(beamr::term::Term::NIL)
}

type Native = fn(
    &[beamr::term::Term],
    &mut beamr::native::ProcessContext,
) -> Result<beamr::term::Term, beamr::term::Term>;

#[test]
fn descriptor_exposes_identity_dirty_flag_and_determinism() {
    let nif: Nif<Native> = Nif::pure("example/module", "identity", 1, identity_native as Native);

    assert_eq!(nif.module(), "example/module");
    assert_eq!(nif.function(), "identity");
    assert_eq!(nif.arity(), 1);
    assert!(!nif.is_dirty());
    assert_eq!(nif.determinism(), Determinism::Pure);
    assert_eq!(nif.native() as usize, identity_native as usize);
}

#[test]
fn side_effectful_functions_are_dirty() {
    let nif = Nif::side_effectful("io", "write", 2, 7u8);
    assert!(nif.is_dirty());
    assert_eq!(nif.determinism(), Determinism::SideEffectful);
    assert_eq!(nif.native(), 7);
    assert_eq!(nif.arity(), 2);
}

#[test]
fn identifiers_have_their_texts() {
    let value = 0x0102_0304_0506_0708_090a_0b0c_0d0e_0f10;
    let text = "01020304-0506-0708-090a-0b0c0d0e0f10";
    assert_eq!(WorkflowId::new(value).to_string(), text);
    assert_eq!(RunId::new(value).to_string(), text);
    assert_eq!(ScheduleId::new(value).to_string(), text);
    assert_eq!(
        ActivityId::from_sequence_position(3).sequence_position(),
        3
    );
    assert_eq!(TimerId::anonymous(12).to_string(), "timer:anonymous:12");
    let named = TimerId::named("deadline").unwrap();
    assert_eq!(named.to_string(), "timer:named:deadline");
    assert_eq!(named.name(), Some("deadline"));
    assert_eq!(named.sequence_position(), None);
    assert_eq!(TimerId::anonymous(12).name(), None);
    assert_eq!(TimerId::anonymous(12).sequence_position(), Some(12));
    assert!(named.same(&named.clone()));
    assert_eq!(TimerId::named(""), Err(IdError::EmptyTimerName));
    assert_eq!(
        IdError::EmptyTimerName.to_string(),
        "timer name must not be empty"
    );
}

#[test]
fn instants_are_bounded_and_moved() {
    let epoch = Timestamp::unix_epoch();
    assert_eq!(epoch.timestamp(), 0);
    assert_eq!(epoch.timestamp_subsec_nanos(), 0);
    assert_eq!(Timestamp::from_timestamp(0, 0), Some(epoch));
    assert_eq!(Timestamp::from_timestamp(i64::MAX, 0), None);
    assert_eq!(Timestamp::from_timestamp(0, 2_000_000_000), None);
    let moved = epoch.after(Span::from_millis(1_500)).unwrap();
    assert_eq!(moved.timestamp(), 1);
    assert_eq!(moved.timestamp_subsec_nanos(), 500_000_000);
    assert!(epoch.not_after(&moved));
    assert!(!moved.not_after(&epoch));
    assert!(epoch.not_after(&epoch));
    assert_eq!(
        epoch.after(Span::from_secs(u64::MAX)),
        Err(SpanError::SpanOutOfRange)
    );
    assert_eq!(
        epoch.after(Span::from_secs(9_000_000_000_000_000)),
        Err(SpanError::InstantOutOfRange)
    );
    assert_eq!(epoch.to_rfc3339(), "1970-01-01T00:00:00+00:00");
}

#[test]
fn spans_are_built_from_their_parts() {
    assert_eq!(Span::from_parts(1, 1_000_000_000), None);
    assert!(Span::from_secs(0).is_zero());
    assert!(!Span::from_millis(1).is_zero());
    assert_eq!(Span::from_millis(2_345).as_millis_saturating(), 2_345);
    assert_eq!(Span::from_secs(u64::MAX).as_millis_saturating(), u64::MAX);
}

#[test]
fn json_payloads_hold_the_encoded_object() {
    let payload = Payload::from_json(&vec![(String::from("label"), String::from("a\"b"))]).unwrap();
    assert_eq!(payload.content_type(), ContentType::Json);
    assert_eq!(payload.bytes(), &br#"{"label":"a\"b"}"#.to_vec());
    assert_eq!(Payload::from_json(&vec![]).unwrap().bytes(), &b"{}".to_vec());
    assert!(payload.same(&payload.clone()));
    assert!(!payload.same(&Payload::new(ContentType::Json, Vec::new())));
}

#[test]
fn attributes_are_checked_against_their_schema() {
    let mut schema = SearchAttributeSchema::new();
    schema.register("attempt", SearchAttributeType::Int);
    assert_eq!(
        schema.validate("attempt", &SearchAttributeValue::Int(1)),
        Ok(())
    );
    assert_eq!(
        schema.validate(
            "attempt",
            &SearchAttributeValue::KeywordList(vec![String::from("a")])
        ),
        Err(SearchAttributeError::TypeMismatch {
            name: String::from("attempt"),
            expected: SearchAttributeType::Int,
            actual: SearchAttributeType::KeywordList
        })
    );
    assert_eq!(
        schema.validate("color", &SearchAttributeValue::Int(1)),
        Err(SearchAttributeError::Unregistered {
            name: String::from("color")
        })
    );
}

#[test]
fn later_attributes_replace_earlier_ones() {
    let mut first = SearchAttributes::new();
    first.insert(String::from("a"), SearchAttributeValue::Int(1));
    first.insert(String::from("b"), SearchAttributeValue::Int(2));
    let mut second = SearchAttributes::new();
    second.insert(String::from("b"), SearchAttributeValue::Int(3));
    first.extend(&second);
    assert_eq!(first.len(), 2);
    assert_eq!(first.get("b"), Some(&SearchAttributeValue::Int(3)));
    assert_eq!(first.get("c"), None);
    assert!(!first.same(&second));
    assert!(
        SearchAttributeValue::KeywordList(vec![String::from("vip")]).contains_keyword("vip")
    );
}

#[test]
fn numbers_and_texts() {
    assert_eq!(decimal_text(0), "0");
    assert_eq!(
        decimal_text(u128::MAX),
        "340282366920938463463374607431768211455"
    );
    assert_eq!(signed_decimal_text(-42), "-42");
    assert_eq!(signed_decimal_text(i64::MIN), "-9223372036854775808");
    assert_eq!(joined("a", "b"), "ab");
    assert!(text_precedes("10", "9"));
    assert!(text_precedes("a", "ab"));
    assert!(text_precedes("a", "a"));
    assert!(!text_precedes("b", "a"));
    assert!(text_precedes("z", "é"));
}

#[test]
fn identifiers_are_sorted_by_text() {
    let ids = sorted(vec![WorkflowId::new(3), WorkflowId::new(1), WorkflowId::new(2)]);
    assert_eq!(
        ids,
        vec![WorkflowId::new(1), WorkflowId::new(2), WorkflowId::new(3)]
    );
}

#[test]
fn tables_keep_one_value_per_key() {
    let mut table: Table<WorkflowId, &str> = Table::new();
    assert_eq!(table.insert(WorkflowId::new(1), "a"), None);
    assert_eq!(table.insert(WorkflowId::new(1), "b"), Some("a"));
    assert_eq!(table.len(), 1);
    assert!(table.contains_key(&WorkflowId::new(1)));
    assert_eq!(table.get(&WorkflowId::new(1)), Some(&"b"));
    assert_eq!(table.remove(&WorkflowId::new(1)), Some("b"));
    assert_eq!(table.remove(&WorkflowId::new(1)), None);
    assert!(table.entries().is_empty());
}

#[test]
fn an_empty_history_has_head_zero() {
    assert_eq!(history_head(&[]), 0);
    assert_eq!(validate_contiguous(&[], 9), Ok(()));
}

#[test]
fn timer_commands_are_keyed_by_their_timer() {
    let fire_at = Timestamp::unix_epoch();
    assert_eq!(
        timer_command(TimerId::anonymous(4), fire_at),
        Command::StartTimer {
            key: CorrelationKey::Timer(TimerId::anonymous(4)),
            fire_at
        }
    );
}

#[test]
fn error_texts() {
    let id = WorkflowId::new(1);
    let text = "00000000-0000-0000-0000-000000000001";
    let reason = || String::from("why");
    assert!(DurabilityError::HistoryShape { reason: reason() }
        .to_string()
        .ends_with("why"));
    assert!(
        DurabilityError::SearchAttribute(SearchAttributeError::Unregistered { name: reason() })
            .to_string()
            .ends_with("why")
    );
    for error in [
        EngineSeamError::Delivery { reason: reason() },
        EngineSeamError::ChildSpawn { reason: reason() },
        EngineSeamError::ChildTermination { reason: reason() },
        EngineSeamError::TimerWheel { reason: reason() },
        EngineSeamError::Recorder { reason: reason() },
    ] {
        assert!(error.to_string().ends_with("why"));
    }
    assert!(EngineSeamError::UnknownWorkflow { workflow_id: id }
        .to_string()
        .ends_with(text));
    assert!(
        TimerServiceError::Store(StoreError::Backend(String::from("why")))
            .to_string()
            .ends_with("store backend error: why")
    );
}

#[test]
fn the_range_of_instants_has_ends() {
    let first = -8_334_601_228_800;
    let last = 8_210_266_876_799;
    assert!(Timestamp::from_timestamp(first, 0).is_some());
    assert!(Timestamp::from_timestamp(first - 1, 999_999_999).is_none());
    let end = Timestamp::from_timestamp(last, 0).unwrap();
    assert!(Timestamp::from_timestamp(last + 1, 0).is_none());
    let before = Timestamp::from_timestamp(last - 1, 0).unwrap();
    assert_eq!(before.after(Span::from_secs(1)), Ok(end));
    assert_eq!(
        before.after(Span::from_secs(2)),
        Err(SpanError::InstantOutOfRange)
    );
    let final_nano = Timestamp::from_timestamp(last, 999_999_999).unwrap();
    assert_eq!(
        final_nano.after(Span::from_parts(0, 1).unwrap()),
        Err(SpanError::InstantOutOfRange)
    );
}

#[test]
fn leap_seconds_only_follow_the_last_second_of_a_minute() {
    assert_eq!(Timestamp::from_timestamp(58, 1_500_000_000), None);
    let leap = Timestamp::from_timestamp(59, 1_500_000_000).unwrap();
    let inside = leap.after(Span::from_millis(400)).unwrap();
    assert_eq!(
        (inside.timestamp(), inside.timestamp_subsec_nanos()),
        (59, 1_900_000_000)
    );
    let behind = leap.after(Span::from_millis(600)).unwrap();
    assert_eq!(
        (behind.timestamp(), behind.timestamp_subsec_nanos()),
        (60, 100_000_000)
    );
    let later = leap.after(Span::from_secs(1)).unwrap();
    assert_eq!(
        (later.timestamp(), later.timestamp_subsec_nanos()),
        (60, 500_000_000)
    );
}

#[test]
fn the_longest_span_is_a_number_of_milliseconds() {
    let epoch = Timestamp::unix_epoch();
    assert_eq!(
        epoch.after(Span::from_parts(9_223_372_036_854_775, 807_000_000).unwrap()),
        Err(SpanError::InstantOutOfRange)
    );
    assert_eq!(
        epoch.after(Span::from_parts(9_223_372_036_854_775, 807_000_001).unwrap()),
        Err(SpanError::SpanOutOfRange)
    );
}

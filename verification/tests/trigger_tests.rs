use clock_widget::parse::{
    parse_field, parse_pattern, parse_trigger_bytes, parse_trigger_set, scan_trigger_set,
    find_separator, PatternError, TriggerSetError,
};
use clock_widget::trigger::{evaluate, TriggerPattern, TriggerSet};

fn pattern(hour: Option<u8>, minute: Option<u8>, second: Option<u8>) -> TriggerPattern {
    TriggerPattern { hour, minute, second }
}

#[test]
fn wildcard_second_fires_only_at_second_zero() {
    let p = pattern(None, Some(30), None);
    assert!(p.matches(10, 30, 0));
    assert!(p.matches(23, 30, 0));
    assert!(!p.matches(10, 30, 1));
    assert!(!p.matches(10, 30, 15));
    assert!(!p.matches(10, 31, 0));
}

#[test]
fn present_fields_must_equal_the_time() {
    let p = pattern(Some(9), Some(15), Some(0));
    assert!(p.matches(9, 15, 0));
    assert!(!p.matches(10, 15, 0));
    assert!(!p.matches(9, 16, 0));
    assert!(!p.matches(9, 15, 1));
    let q = pattern(None, None, Some(7));
    assert!(q.matches(0, 0, 7));
    assert!(q.matches(23, 59, 7));
    assert!(!q.matches(23, 59, 0));
}

#[test]
fn all_wildcards_fire_once_a_minute() {
    let p = pattern(None, None, None);
    for hour in 0..24u8 {
        for minute in 0..60u8 {
            for second in 0..60u8 {
                assert_eq!(p.matches(hour, minute, second), second == 0);
            }
        }
    }
}

#[test]
fn matches_agrees_with_its_definition_everywhere() {
    let fields: [Option<u8>; 3] = [None, Some(0), Some(5)];
    for h in fields {
        for m in fields {
            for s in fields {
                let p = pattern(h, m, s);
                for hour in [0u8, 5, 23] {
                    for minute in [0u8, 5, 59] {
                        for second in [0u8, 5, 59] {
                            let expected = h.map_or(true, |v| v == hour)
                                && m.map_or(true, |v| v == minute)
                                && s.map_or(second == 0, |v| v == second);
                            assert_eq!(p.matches(hour, minute, second), expected);
                        }
                    }
                }
            }
        }
    }
}

#[test]
fn new_refuses_fields_off_the_clock_face() {
    assert_eq!(TriggerPattern::new(Some(23), Some(59), Some(59)), Some(pattern(Some(23), Some(59), Some(59))));
    assert_eq!(TriggerPattern::new(None, None, None), Some(pattern(None, None, None)));
    assert_eq!(TriggerPattern::new(Some(24), None, None), None);
    assert_eq!(TriggerPattern::new(None, Some(60), None), None);
    assert_eq!(TriggerPattern::new(None, None, Some(60)), None);
    assert!(pattern(Some(23), None, None).is_in_range());
    assert!(!pattern(Some(24), None, None).is_in_range());
}

#[test]
fn default_set_fires_at_half_past_and_on_the_hour() {
    let set = parse_trigger_set(":30:,:00:").unwrap();
    assert_eq!(set.len(), 2);
    assert_eq!(evaluate(10, 30, 0, &set), Some(0));
    assert_eq!(evaluate(10, 0, 0, &set), Some(1));
    assert_eq!(evaluate(10, 30, 15, &set), None);
}

#[test]
fn set_with_a_short_piece_keeps_the_other_pieces() {
    let scan = scan_trigger_set("9:15:0,10:,:00:");
    assert_eq!(scan.faults, vec![TriggerSetError { pattern: 1, kind: PatternError::FieldCount }]);
    assert_eq!(scan.set.len(), 2);
    assert_eq!(scan.set.get(0), Some(pattern(Some(9), Some(15), Some(0))));
    assert_eq!(scan.set.get(1), Some(pattern(None, Some(0), None)));
    assert!(evaluate(9, 15, 0, &scan.set).is_some());
    assert!(evaluate(10, 0, 0, &scan.set).is_some());
    assert!(evaluate(10, 5, 0, &scan.set).is_none());
    assert_eq!(evaluate(9, 15, 0, &scan.set), Some(0));
    assert_eq!(evaluate(10, 0, 0, &scan.set), Some(1));
}

#[test]
fn strict_reading_refuses_the_whole_text() {
    assert_eq!(
        parse_trigger_set("9:15:0,10:,:00:").err(),
        Some(TriggerSetError { pattern: 1, kind: PatternError::FieldCount })
    );
    assert_eq!(
        parse_trigger_set("1:2,x:0:0").err(),
        Some(TriggerSetError { pattern: 0, kind: PatternError::FieldCount })
    );
}

#[test]
fn first_match_wins() {
    let set = TriggerSet::from_patterns(vec![
        pattern(Some(7), None, None),
        pattern(None, Some(0), None),
        pattern(Some(7), Some(0), Some(0)),
    ])
    .unwrap();
    assert_eq!(evaluate(7, 0, 0, &set), Some(0));
    assert_eq!(evaluate(8, 0, 0, &set), Some(1));
    assert_eq!(evaluate(7, 5, 0, &set), Some(0));
    assert_eq!(evaluate(8, 5, 0, &set), None);
    assert_eq!(evaluate(7, 0, 1, &set), None);
}

#[test]
fn evaluate_gives_the_same_answer_again() {
    let set = parse_trigger_set("9:15:0,:00:,23::59").unwrap();
    for (h, m, s) in [(9u8, 15u8, 0u8), (10, 0, 0), (23, 4, 59), (1, 2, 3)] {
        let first = evaluate(h, m, s, &set);
        for _ in 0..5 {
            assert_eq!(evaluate(h, m, s, &set), first);
        }
    }
    assert_eq!(evaluate(23, 4, 59, &set), Some(2));
    assert_eq!(set.len(), 3);
}

#[test]
fn empty_set_never_fires() {
    let set = TriggerSet::empty();
    assert_eq!(set.len(), 0);
    assert_eq!(set.get(0), None);
    assert_eq!(evaluate(0, 0, 0, &set), None);
    let parsed = parse_trigger_set("").unwrap();
    assert_eq!(parsed.len(), 0);
    let scan = scan_trigger_set("");
    assert_eq!(scan.set.len(), 0);
    assert!(scan.faults.is_empty());
}

#[test]
fn from_patterns_refuses_a_pattern_off_the_clock_face() {
    assert!(TriggerSet::from_patterns(vec![pattern(Some(1), None, None), pattern(None, Some(60), None)]).is_none());
    let set = TriggerSet::from_patterns(vec![pattern(Some(1), None, None)]).unwrap();
    assert_eq!(set.len(), 1);
    assert_eq!(set.get(0), Some(pattern(Some(1), None, None)));
    assert_eq!(set.get(1), None);
}

#[test]
fn field_is_empty_or_a_plain_number() {
    assert_eq!(parse_field(b"", 59), Some(None));
    assert_eq!(parse_field(b"0", 59), Some(Some(0)));
    assert_eq!(parse_field(b"7", 59), Some(Some(7)));
    assert_eq!(parse_field(b"30", 59), Some(Some(30)));
    assert_eq!(parse_field(b"59", 59), Some(Some(59)));
    assert_eq!(parse_field(b"60", 59), None);
    assert_eq!(parse_field(b"23", 23), Some(Some(23)));
    assert_eq!(parse_field(b"24", 23), None);
    assert_eq!(parse_field(b"255", 255), Some(Some(255)));
    assert_eq!(parse_field(b"256", 255), None);
    assert_eq!(parse_field(b"999", 255), None);
    assert_eq!(parse_field(b"100", 255), Some(Some(100)));
}

#[test]
fn field_may_have_zeros_in_front() {
    assert_eq!(parse_field(b"00", 59), Some(Some(0)));
    assert_eq!(parse_field(b"09", 59), Some(Some(9)));
    assert_eq!(parse_field(b"007", 255), Some(Some(7)));
    assert_eq!(parse_field(b"0000000000000000000000000000000059", 59), Some(Some(59)));
    assert_eq!(parse_field(b"0000000000000000000000000000000060", 59), None);
    assert_eq!(parse_field(b"0", 0), Some(Some(0)));
    assert_eq!(parse_field(b"1", 0), None);
    assert_eq!(parse_field(b"5", 4), None);
}

#[test]
fn field_with_sign_or_blank_is_refused() {
    assert_eq!(parse_field(b"+5", 59), None);
    assert_eq!(parse_field(b"-5", 59), None);
    assert_eq!(parse_field(b" 5", 59), None);
    assert_eq!(parse_field(b"5 ", 59), None);
    assert_eq!(parse_field(b"a", 59), None);
    assert_eq!(parse_field(b"1a", 59), None);
    assert_eq!(parse_field(b"1000", 255), None);
    assert_eq!(parse_field(b"/", 59), None);
    assert_eq!(parse_field(b":", 59), None);
}

#[test]
fn pattern_needs_exactly_three_fields() {
    assert_eq!(parse_pattern(b"::"), Ok(pattern(None, None, None)));
    assert_eq!(parse_pattern(b"9:15:0"), Ok(pattern(Some(9), Some(15), Some(0))));
    assert_eq!(parse_pattern(b":30:"), Ok(pattern(None, Some(30), None)));
    assert_eq!(parse_pattern(b"23::59"), Ok(pattern(Some(23), None, Some(59))));
    assert_eq!(parse_pattern(b""), Err(PatternError::FieldCount));
    assert_eq!(parse_pattern(b"10"), Err(PatternError::FieldCount));
    assert_eq!(parse_pattern(b"10:"), Err(PatternError::FieldCount));
    assert_eq!(parse_pattern(b"1:2:3:4"), Err(PatternError::FieldCount));
    assert_eq!(parse_pattern(b":::"), Err(PatternError::FieldCount));
}

#[test]
fn pattern_reports_the_first_field_at_fault() {
    assert_eq!(parse_pattern(b"24:0:0"), Err(PatternError::Hour));
    assert_eq!(parse_pattern(b"0:60:0"), Err(PatternError::Minute));
    assert_eq!(parse_pattern(b"0:0:60"), Err(PatternError::Second));
    assert_eq!(parse_pattern(b"x:y:z"), Err(PatternError::Hour));
    assert_eq!(parse_pattern(b"1:y:z"), Err(PatternError::Minute));
    assert_eq!(parse_pattern(b"1:2:z"), Err(PatternError::Second));
    assert_eq!(parse_pattern(b"09:05:00"), Ok(pattern(Some(9), Some(5), Some(0))));
    assert_eq!(parse_pattern(b"9:5:0"), Ok(pattern(Some(9), Some(5), Some(0))));
}

#[test]
fn scan_reports_every_fault_with_its_position() {
    let scan = scan_trigger_set("1:2:3,,25::,4:5:6,::x,");
    assert_eq!(
        scan.faults,
        vec![
            TriggerSetError { pattern: 1, kind: PatternError::FieldCount },
            TriggerSetError { pattern: 2, kind: PatternError::Hour },
            TriggerSetError { pattern: 4, kind: PatternError::Second },
            TriggerSetError { pattern: 5, kind: PatternError::FieldCount },
        ]
    );
    assert_eq!(scan.set.len(), 2);
    assert_eq!(scan.set.get(0), Some(pattern(Some(1), Some(2), Some(3))));
    assert_eq!(scan.set.get(1), Some(pattern(Some(4), Some(5), Some(6))));
}

#[test]
fn strict_reading_keeps_the_order_written() {
    let set = parse_trigger_bytes(b"23:59:59,0:0:0,::").unwrap();
    assert_eq!(set.len(), 3);
    assert_eq!(set.get(0), Some(pattern(Some(23), Some(59), Some(59))));
    assert_eq!(set.get(1), Some(pattern(Some(0), Some(0), Some(0))));
    assert_eq!(set.get(2), Some(pattern(None, None, None)));
    assert_eq!(
        parse_trigger_bytes(b"::,").err(),
        Some(TriggerSetError { pattern: 1, kind: PatternError::FieldCount })
    );
    assert_eq!(
        parse_trigger_bytes(b",").err(),
        Some(TriggerSetError { pattern: 0, kind: PatternError::FieldCount })
    );
}

#[test]
fn text_outside_ascii_is_refused_piece_by_piece() {
    let scan = scan_trigger_set("é:0:0,1:2:3");
    assert_eq!(scan.faults, vec![TriggerSetError { pattern: 0, kind: PatternError::Hour }]);
    assert_eq!(scan.set.len(), 1);
}

#[test]
fn separator_is_found_first_or_not_at_all() {
    assert_eq!(find_separator(b"ab:cd:e", b':'), 2);
    assert_eq!(find_separator(b":ab", b':'), 0);
    assert_eq!(find_separator(b"abc", b':'), 3);
    assert_eq!(find_separator(b"", b':'), 0);
}

use callcheck::valgrind_parser::{parse_cfn, parse_position_name, parse_valgrind_file, InstrCounter, ValgrindLine};

#[test]
fn test_add() {
    println!("{:#?}", parse_cfn("(23) fooo"));
}

#[test]
fn cfn_without_header_is_no_match() {
    assert!(parse_cfn("(23) fooo").is_none());
}

#[test]
fn position_name_with_id_and_label() {
    let (pn, consumed) = parse_position_name("(23) fooo\n");
    assert_eq!(pn.number, Some(23));
    assert_eq!(pn.trailing.as_deref(), Some("fooo"));
    assert_eq!(consumed, 9);
}

#[test]
fn position_name_without_newline_has_no_label() {
    let (pn, consumed) = parse_position_name("(23) fooo");
    assert_eq!(pn.number, Some(23));
    assert_eq!(pn.trailing, None);
    assert_eq!(consumed, 4);
}

#[test]
fn position_name_empty_input() {
    let (pn, consumed) = parse_position_name("");
    assert_eq!(pn.number, None);
    assert_eq!(pn.trailing, None);
    assert_eq!(consumed, 0);
}

#[test]
fn subposition_markers_all_four_forms() {
    let (lines, skipped) = parse_valgrind_file("+12 5\n-4 2\n0xff 1\n* 0 99\n");
    assert_eq!(skipped, 0);
    assert_eq!(
        lines,
        vec![
            ValgrindLine::InstrCounter(InstrCounter::Relative(12)),
            ValgrindLine::InstrCounter(InstrCounter::Relative(-4)),
            ValgrindLine::InstrCounter(InstrCounter::Absolute(255)),
            ValgrindLine::InstrCounter(InstrCounter::Same()),
        ]
    );
}

#[test]
fn fn_line_is_recognized() {
    let (lines, skipped) = parse_valgrind_file("fn=(1) main\n");
    assert_eq!(skipped, 0);
    assert_eq!(lines.len(), 1);
    match &lines[0] {
        ValgrindLine::FnLine(pn) => {
            assert_eq!(pn.number, Some(1));
            assert_eq!(pn.trailing.as_deref(), Some("main"));
        }
        other => panic!("expected a function assignment, got {:?}", other),
    }
}

#[test]
fn call_record_with_object_crossing() {
    let input = "cob=(3) /lib/x.so\ncfn=(2) foo\ncalls=1 0x10\n* 0 5\n";
    let (cfn, consumed) = parse_cfn(input).expect("the record should parse");
    assert_eq!(cfn.position_name.number, Some(2));
    assert_eq!(cfn.position_name.trailing.as_deref(), Some("foo"));
    assert_eq!(cfn.target_instr, InstrCounter::Absolute(0x10));
    assert_eq!(cfn.from_instr, InstrCounter::Same());
    let ob = cfn.next_object_file.expect("the cob line should be kept");
    assert_eq!(ob.number, Some(3));
    assert_eq!(ob.trailing.as_deref(), Some("/lib/x.so"));
    assert_eq!(consumed, input.len());
}

#[test]
fn call_record_without_object_crossing() {
    let (cfn, _) = parse_cfn("cfn=(2) foo\ncalls=1 0x10\n0x100 5\n").expect("should parse");
    assert!(cfn.next_object_file.is_none());
    assert_eq!(cfn.from_instr, InstrCounter::Absolute(0x100));
}

#[test]
fn foreign_lines_are_skipped_and_counted() {
    let (lines, skipped) = parse_valgrind_file("events: Ir\nfn=(1) main\nsummary: 5\n");
    assert_eq!(lines.len(), 1);
    assert_eq!(skipped, 2);
}

#[test]
fn truncated_final_line_stops_the_parse() {
    let (lines, skipped) = parse_valgrind_file("fn=(1) main\ncfn=(2) fo");
    assert_eq!(lines.len(), 1);
    assert!(matches!(lines[0], ValgrindLine::FnLine(_)));
    assert_eq!(skipped, 0);
}

#[test]
fn empty_input_parses_to_nothing() {
    let (lines, skipped) = parse_valgrind_file("");
    assert!(lines.is_empty());
    assert_eq!(skipped, 0);
}

#[test]
fn counter_resolution_round_trip() {
    assert_eq!(InstrCounter::Relative(5).resolve(10), 15);
    assert_eq!(InstrCounter::Relative(-5).resolve(10), 5);
    assert_eq!(InstrCounter::Absolute(7).resolve(999), 7);
    assert_eq!(InstrCounter::Same().resolve(42), 42);
    assert_eq!(InstrCounter::Relative(-1).resolve(0), u64::MAX);
}

use portscan::ports::{open_ports, parse_port_list, range_parser};
use portscan::text::{chars_of, parse_port, split_fields};
use portscan::PortKind;

const RANGE_ERROR: &str = "the range must be 'start-end'. Example: 1-100";
const LIST_ERROR: &str = "Error: Failed parsing default ports";

#[test]
fn range_parser_reads_start_and_end() {
    assert_eq!(range_parser("1-100"), Ok(PortKind::Range(1, 100)));
    assert_eq!(range_parser("78-82"), Ok(PortKind::Range(78, 82)));
    assert_eq!(range_parser("0-65535"), Ok(PortKind::Range(0, 65535)));
}

#[test]
fn range_parser_takes_a_plus_sign_and_leading_zeros() {
    assert_eq!(range_parser("+1-+2"), Ok(PortKind::Range(1, 2)));
    assert_eq!(range_parser("0001-000000080"), Ok(PortKind::Range(1, 80)));
}

#[test]
fn range_parser_keeps_an_inverted_range() {
    assert_eq!(range_parser("9-1"), Ok(PortKind::Range(9, 1)));
    assert_eq!(PortKind::Range(9, 1).expand(), Vec::<u16>::new());
}

#[test]
fn range_parser_turns_down_what_is_no_range() {
    for input in [
        "", "1", "-", "1-", "-1", "1-2-3", "1--2", "a-b", "1-b", "1-65536", "99999-1", " 1-2",
        "1 -2", "1-2 ", "1-2\n", "+-1", "1-+", "1_0-20", "١-٢",
    ] {
        assert_eq!(range_parser(input), Err(RANGE_ERROR.to_string()), "input {:?}", input);
    }
}

#[test]
fn a_range_holds_both_of_its_ends() {
    assert_eq!(PortKind::Range(78, 82).expand(), vec![78, 79, 80, 81, 82]);
    assert_eq!(PortKind::Range(0, 0).expand(), vec![0]);
    assert_eq!(PortKind::Range(65535, 65535).expand(), vec![65535]);
    assert_eq!(PortKind::Range(65533, 65535).expand(), vec![65533, 65534, 65535]);
    assert_eq!(PortKind::Range(0, 65535).expand().len(), 65536);
}

#[test]
fn a_list_is_tried_as_it_stands() {
    assert_eq!(PortKind::List(vec![443, 22, 443]).expand(), vec![443, 22, 443]);
    assert_eq!(PortKind::List(vec![]).expand(), Vec::<u16>::new());
}

#[test]
fn a_port_kind_is_cloned_as_it_is() {
    let list = PortKind::List(vec![1, 2, 3]);
    assert_eq!(list.clone(), list);
    assert_eq!(PortKind::Range(5, 9).clone(), PortKind::Range(5, 9));
}

#[test]
fn port_list_is_read_field_by_field() {
    assert_eq!(parse_port_list("22,80,443"), Ok(PortKind::List(vec![22, 80, 443])));
    assert_eq!(parse_port_list("80"), Ok(PortKind::List(vec![80])));
    assert_eq!(parse_port_list("80,80,+7,007"), Ok(PortKind::List(vec![80, 80, 7, 7])));
}

#[test]
fn port_list_with_anything_else_is_turned_down() {
    for text in ["", ",", "22,", ",22", "22,,80", "22, 80", "22,80\n", "22;80", "65536", "-1", "x"] {
        assert_eq!(parse_port_list(text), Err(LIST_ERROR.to_string()), "text {:?}", text);
    }
}

#[test]
fn a_field_spells_a_port_or_nothing() {
    let read = |text: &str| parse_port(&chars_of(text));
    assert_eq!(read("0"), Some(0));
    assert_eq!(read("65535"), Some(65535));
    assert_eq!(read("+65535"), Some(65535));
    assert_eq!(read("00000065535"), Some(65535));
    assert_eq!(read("65536"), None);
    assert_eq!(read("4294967296"), None);
    assert_eq!(read("99999999999999999999999999"), None);
    assert_eq!(read(""), None);
    assert_eq!(read("+"), None);
    assert_eq!(read("++1"), None);
    assert_eq!(read("-0"), None);
    assert_eq!(read("1a"), None);
    assert_eq!(read("1 "), None);
}

#[test]
fn a_field_is_read_as_the_standard_parser_reads_it() {
    for text in ["0", "7", "080", "+80", "65535", "65536", "", "+", "-1", " 1", "1e3", "0x10", "٣"] {
        assert_eq!(parse_port(&chars_of(text)), text.parse::<u16>().ok(), "text {:?}", text);
    }
}

#[test]
fn text_is_cut_at_every_separator() {
    let cut = |text: &str| -> Vec<String> {
        split_fields(&chars_of(text), ',').iter().map(|field| field.iter().collect()).collect()
    };
    assert_eq!(cut(""), vec![""]);
    assert_eq!(cut("a"), vec!["a"]);
    assert_eq!(cut("a,b"), vec!["a", "b"]);
    assert_eq!(cut(","), vec!["", ""]);
    assert_eq!(cut("a,,b,"), vec!["a", "", "b", ""]);
    for text in ["", "x", ",", ",,", "1,2,3", ",a,", "é,ü"] {
        let expected: Vec<String> = text.split(',').map(str::to_string).collect();
        assert_eq!(cut(text), expected, "text {:?}", text);
    }
}

#[test]
fn open_ports_come_out_sorted_and_once() {
    assert_eq!(open_ports(&vec![]), Vec::<u16>::new());
    assert_eq!(open_ports(&vec![80]), vec![80]);
    assert_eq!(open_ports(&vec![443, 22, 80]), vec![22, 80, 443]);
    assert_eq!(open_ports(&vec![80, 22, 80, 443, 22, 80]), vec![22, 80, 443]);
    assert_eq!(open_ports(&vec![65535, 0, 65535, 0]), vec![0, 65535]);
}

#[test]
fn open_ports_of_a_full_range_are_all_ports() {
    let every: Vec<u16> = (0..=65535u16).rev().collect();
    let sorted = open_ports(&every);
    assert_eq!(sorted.len(), 65536);
    assert!(sorted.windows(2).all(|pair| pair[0] < pair[1]));
}

#[test]
fn a_port_that_did_not_connect_is_not_returned() {
    let connected = vec![9000, 21, 8080, 21];
    let sorted = open_ports(&connected);
    for port in 0..=65535u16 {
        assert_eq!(sorted.contains(&port), connected.contains(&port));
    }
}

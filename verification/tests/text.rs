use cosmic_viewer::text::{decode_align, encode_align, group_spans, intern_str, InternTable, TextAlign};

#[test]
fn alignment_codes() {
    assert_eq!(encode_align(TextAlign::Left), 0);
    assert_eq!(encode_align(TextAlign::Center), 1);
    assert_eq!(encode_align(TextAlign::Right), 2);
    assert_eq!(encode_align(TextAlign::Justified), 0);
    assert_eq!(encode_align(TextAlign::End), 0);
    assert_eq!(decode_align(0), TextAlign::Left);
    assert_eq!(decode_align(1), TextAlign::Center);
    assert_eq!(decode_align(2), TextAlign::Right);
    assert_eq!(decode_align(7), TextAlign::Left);
}

#[test]
fn alignment_round_trip() {
    for a in [TextAlign::Left, TextAlign::Center, TextAlign::Right] {
        assert_eq!(decode_align(encode_align(a)), a);
    }
}

#[test]
fn spans_group_into_lines() {
    let texts: Vec<String> = ["Hello ", "world", "", "next", ""].iter().map(|s| s.to_string()).collect();
    let aligns = vec![None, Some(1), Some(2), None, None];
    let lines = group_spans(&texts, &aligns);
    assert_eq!(lines.len(), 3);
    assert_eq!(lines[0].text, "Hello world");
    assert_eq!(lines[0].spans, vec![0, 1]);
    assert_eq!(lines[0].align, Some(1));
    assert_eq!(lines[1].text, "next");
    assert_eq!(lines[1].spans, vec![3]);
    assert_eq!(lines[1].align, Some(2));
    assert_eq!(lines[2].text, "");
    assert!(lines[2].spans.is_empty());
    assert_eq!(lines[2].align, None);
}

#[test]
fn no_spans_give_one_empty_line() {
    let lines = group_spans(&Vec::new(), &Vec::new());
    assert_eq!(lines.len(), 1);
    assert_eq!(lines[0].text, "");
    assert_eq!(lines[0].align, None);
}

#[test]
fn interning_reuses_entries() {
    let mut table = InternTable::new();
    let a = intern_str(&mut table, "Sans");
    assert_eq!(a, "Sans");
    assert_eq!(table.len(), 1);
    let b = intern_str(&mut table, &String::from("Sans"));
    assert_eq!(b, "Sans");
    assert!(std::ptr::eq(a, b));
    assert_eq!(table.len(), 1);
    let c = intern_str(&mut table, "Serif");
    assert_eq!(c, "Serif");
    assert_eq!(table.len(), 2);
}

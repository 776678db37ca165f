use bevy_vn::asb::{parse_asb, read_string, read_u32_le, AsbError, AsbScript};

fn push_string(out: &mut Vec<u8>, s: &str) {
    out.extend_from_slice(&(s.len() as u32).to_le_bytes());
    out.extend_from_slice(s.as_bytes());
    out.push(0);
}

fn push_label(out: &mut Vec<u8>, name: &str) {
    out.extend_from_slice(&1u32.to_le_bytes());
    push_string(out, name);
}

fn push_command(out: &mut Vec<u8>, tag: &str, line: u32, attrs: &[(&str, &str)]) {
    out.extend_from_slice(&0u32.to_le_bytes());
    push_string(out, tag);
    out.extend_from_slice(&line.to_le_bytes());
    out.extend_from_slice(&(attrs.len() as u32).to_le_bytes());
    for (k, v) in attrs {
        push_string(out, k);
        push_string(out, v);
    }
}

fn script_bytes(items: u32, body: &[u8]) -> Vec<u8> {
    let mut out = b"ASB\0\0".to_vec();
    out.extend_from_slice(&items.to_le_bytes());
    out.extend_from_slice(body);
    out
}

/// A small script: an opening block and a `main` block of twelve commands.
fn small_asb() -> Vec<u8> {
    let mut body = Vec::new();
    push_label(&mut body, "top");
    push_command(&mut body, "Size", 1, &[("0", "1280"), ("1", "720")]);
    push_label(&mut body, "main");
    push_command(&mut body, "SetValidityOfLoading", 2, &[("0", "FALSE")]);
    push_command(&mut body, "SetValidityOfSaving", 3, &[("0", "FALSE")]);
    push_command(&mut body, "Size", 4, &[("0", "1280"), ("1", "720")]);
    push_command(&mut body, "Window", 5, &[("0", "OFF")]);
    push_command(&mut body, "Blackout", 6, &[("0", "0")]);
    push_command(&mut body, "DrawScene", 7, &[("0", "bg_0001")]);
    push_command(&mut body, "FadeFilm", 8, &[("0", "1000")]);
    push_command(&mut body, "Wait", 9, &[("0", "8000")]);
    push_command(&mut body, "SetGlobalFlag", 10, &[("0", "1"), ("1", "1")]);
    push_command(&mut body, "RouteFlag", 11, &[]);
    push_command(&mut body, "Wait", 12, &[("0", "500")]);
    push_command(&mut body, "Fadeout", 13, &[("0", "BLACK")]);
    script_bytes(15, &body)
}

fn parse_small() -> AsbScript {
    parse_asb(&small_asb()).unwrap()
}

#[test]
fn test_parse_small_asb() {
    let script = parse_small();
    assert!(!script.blocks.is_empty(), "Expected at least one block");
    let main = script.blocks.iter().find(|b| b.label == "main");
    assert!(main.is_some(), "Expected block labeled 'main'");
    let main = main.unwrap();
    assert_eq!(main.commands.len(), 12, "Expected 12 commands in 'main' block");
    let tags: Vec<_> = main.commands.iter().map(|c| c.tag.as_str()).collect();
    assert!(tags.contains(&"SetValidityOfLoading"));
    assert!(tags.contains(&"SetValidityOfSaving"));
    assert!(tags.contains(&"Size"));
    assert!(tags.contains(&"Window"));
    assert!(tags.contains(&"Blackout"));
    assert!(tags.contains(&"DrawScene"));
    assert!(tags.contains(&"FadeFilm"));
    assert!(tags.contains(&"Wait"));
    assert!(tags.contains(&"SetGlobalFlag"));
    assert!(tags.contains(&"RouteFlag"));
    assert!(tags.contains(&"Fadeout"));
}

#[test]
fn test_parse_check_attrs() {
    let script = parse_small();
    let main = script.blocks.iter().find(|b| b.label == "main").unwrap();
    let wait = main.commands.iter().find(|c| c.tag == "Wait").unwrap();
    assert_eq!(wait.attrs.get_str("0").map(|s| s.as_str()), Some("8000"));
}

#[test]
fn bad_magic_is_refused() {
    assert_eq!(parse_asb(b"ASX\0\0\0\0\0\0").err(), Some(AsbError::InvalidMagic));
    assert_eq!(parse_asb(b"ASB\0\0\0\0\0").err(), Some(AsbError::InvalidMagic));
}

#[test]
fn commands_before_the_first_label_join_the_first_block() {
    let mut body = Vec::new();
    push_command(&mut body, "Wait", 1, &[("0", "1")]);
    push_label(&mut body, "a");
    push_command(&mut body, "Wait", 2, &[("0", "2")]);
    let script = parse_asb(&script_bytes(3, &body)).unwrap();
    assert_eq!(script.blocks.len(), 1);
    assert_eq!(script.blocks[0].label, "a");
    assert_eq!(script.blocks[0].commands.len(), 2);
}

#[test]
fn reading_stops_at_an_unknown_item_or_truncation() {
    let mut body = Vec::new();
    push_label(&mut body, "a");
    push_command(&mut body, "Wait", 1, &[]);
    body.extend_from_slice(&9u32.to_le_bytes());
    push_command(&mut body, "Never", 2, &[]);
    let script = parse_asb(&script_bytes(4, &body)).unwrap();
    assert_eq!(script.blocks.len(), 1);
    assert_eq!(script.blocks[0].commands.len(), 1);

    let mut body = Vec::new();
    push_label(&mut body, "a");
    push_command(&mut body, "Wait", 1, &[]);
    body.extend_from_slice(&0u32.to_le_bytes());
    body.extend_from_slice(&100u32.to_le_bytes());
    let script = parse_asb(&script_bytes(5, &body)).unwrap();
    assert_eq!(script.blocks[0].commands.len(), 1);
}

#[test]
fn a_later_duplicate_attribute_wins() {
    let mut body = Vec::new();
    push_label(&mut body, "a");
    push_command(&mut body, "Wait", 1, &[("0", "1"), ("0", "2")]);
    let script = parse_asb(&script_bytes(2, &body)).unwrap();
    let c = &script.blocks[0].commands[0];
    assert_eq!(c.attrs.len(), 1);
    assert_eq!(c.attrs.get_str("0").map(|s| s.as_str()), Some("2"));
}

#[test]
fn strings_and_numbers_read_little_endian() {
    let data = [1u8, 2, 0, 0, 3, 0, 0, 0, b'a', b'b', b'c', 0, 9];
    let mut pos = 0usize;
    assert_eq!(read_u32_le(&data, &mut pos), Some(0x201));
    assert_eq!(pos, 4);
    assert_eq!(read_string(&data, &mut pos), Some("abc".to_string()));
    assert_eq!(pos, 12);
    assert_eq!(read_u32_le(&data, &mut pos), None);
    let bad = [2u8, 0, 0, 0, 0xff, 0xfe, 0];
    let mut pos = 0usize;
    assert_eq!(read_string(&bad, &mut pos), None);
    let unterminated = [1u8, 0, 0, 0, b'a', b'b'];
    let mut pos = 0usize;
    assert_eq!(read_string(&unterminated, &mut pos), None);
}

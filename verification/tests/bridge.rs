use irongen::record::App;
use irongen::wire::decode_selection;
use irongen::wire::parse_wire;
use irongen::wire::serialize_apps;
use irongen::wire::strip_placeholders;

fn app(name: &str, desc: &str, cmd: &str) -> App {
    App::new(
        name.as_bytes().to_vec(),
        desc.as_bytes().to_vec(),
        cmd.as_bytes().to_vec(),
    )
}

#[test]
fn serialize_one_record() {
    let apps = vec![app("Firefox", "Browser", "firefox %u")];
    let wire = serialize_apps(&apps);
    assert_eq!(wire, b"firefox %u\nFirefox\nBrowser\0".to_vec());
}

#[test]
fn wire_round_trip_three_records() {
    let apps = vec![
        app("Firefox", "Browser", "firefox %u"),
        app("Files", "Two\nlines of description", "nautilus"),
        app("Terminal", "", "xterm"),
    ];
    let wire = serialize_apps(&apps);
    let back = parse_wire(&wire);
    assert_eq!(back.len(), apps.len());
    for (a, b) in apps.iter().zip(back.iter()) {
        assert_eq!(a.cmd(), b.cmd());
        assert_eq!(a.name(), b.name());
        assert_eq!(a.desc(), b.desc());
    }
}

#[test]
fn wire_round_trip_empty() {
    let apps: Vec<App> = Vec::new();
    let wire = serialize_apps(&apps);
    assert_eq!(wire, Vec::<u8>::new());
    assert_eq!(parse_wire(&wire).len(), 0);
}

#[test]
fn decode_empty_output_is_cancellation() {
    assert!(decode_selection(&Vec::new()).is_none());
}

#[test]
fn decode_all_nulls_is_cancellation() {
    assert!(decode_selection(&b"\0\0".to_vec()).is_none());
}

#[test]
fn decode_takes_last_segment_first_line() {
    let out = b"query\0firefox %u --new-window\nFirefox\nBrowser\0".to_vec();
    let line = decode_selection(&out).unwrap();
    assert_eq!(line, b"firefox %u --new-window".to_vec());
}

#[test]
fn decode_single_segment() {
    let out = b"run --fast\nTool\nDesc\0".to_vec();
    let line = decode_selection(&out).unwrap();
    assert_eq!(line, b"run --fast".to_vec());
}

#[test]
fn strip_removes_placeholder_tokens() {
    let r = strip_placeholders(&b"firefox %u --new-window".to_vec());
    assert_eq!(r, b"'firefox --new-window'".to_vec());
}

#[test]
fn strip_keeps_plain_command() {
    let r = strip_placeholders(&b"xterm -e top".to_vec());
    assert_eq!(r, b"'xterm -e top'".to_vec());
}

#[test]
fn strip_all_tokens_placeholder() {
    let r = strip_placeholders(&b"%f".to_vec());
    assert_eq!(r, b"''".to_vec());
}

#[test]
fn strip_middle_placeholder() {
    let r = strip_placeholders(&b"prog %F tail".to_vec());
    assert_eq!(r, b"'prog tail'".to_vec());
}

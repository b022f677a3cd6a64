use bulkdl::probe::parse_probe;

#[test]
fn probe_fields_are_read_positionally() {
    let info = parse_probe("dQw4w9WgXcQ\nNever Gonna\n3145728\n3200000\n3:32");
    assert_eq!(info.id, "dQw4w9WgXcQ");
    assert_eq!(info.title, "Never Gonna");
    assert_eq!(info.filesize, "3145728");
    assert_eq!(info.filesize_approx, "3200000");
    assert_eq!(info.duration, "3:32");
}

#[test]
fn missing_probe_lines_become_empty_fields() {
    let info = parse_probe("abc\nSome Title");
    assert_eq!(info.id, "abc");
    assert_eq!(info.title, "Some Title");
    assert_eq!(info.filesize, "");
    assert_eq!(info.filesize_approx, "");
    assert_eq!(info.duration, "");
}

#[test]
fn empty_probe_output_gives_empty_fields() {
    let info = parse_probe("");
    assert_eq!(info.id, "");
    assert_eq!(info.title, "");
    assert_eq!(info.filesize, "");
    assert_eq!(info.filesize_approx, "");
    assert_eq!(info.duration, "");
}

#[test]
fn blank_probe_lines_stay_in_position() {
    let info = parse_probe("id9\n\n\n42\nlong");
    assert_eq!(info.id, "id9");
    assert_eq!(info.title, "");
    assert_eq!(info.filesize, "");
    assert_eq!(info.filesize_approx, "42");
    assert_eq!(info.duration, "long");
}

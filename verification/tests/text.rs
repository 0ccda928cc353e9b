use acadctl_plugin::doc::new_document_id as new_doc_id;
use acadctl_plugin::documents::{new_document_id, valid_document_id};
use acadctl_plugin::drawing::new_drawing_id;
use acadctl_plugin::exec::diagnostic::{
    append_diagnostic, bounded_diagnostic, bounded_native_diagnostic,
};
use acadctl_plugin::exec::output::channel;
use acadctl_plugin::exec::outcome::SourceValidationError;
use acadctl_plugin::exec::state::validated_source;
use acadctl_plugin::exec::value::printer::PrintError;
use acadctl_plugin::exec::value::printer_layout::{group_fit, Extent, Fit, Layout};
use acadctl_plugin::execution::output::{ChunkPoll, OutputSink};
use acadctl_plugin::ids::{DocId, DrawingId};
use acadctl_plugin::limits::{MAX_DIAGNOSTIC_BYTES, MAX_EXECUTION_SOURCE_BYTES};
use acadctl_plugin::naming::{
    is_dwg, is_dwg_name, path_display_name, paths_equal, shown_name, DrawingPath,
};
use acadctl_plugin::template::{render, Marker, RenderError};
use acadctl_plugin::text::{
    ascii_uppercase, byte_count, contains_control, is_control, is_decimal_digit, is_hex_digit,
    is_whitespace, push_decimal, push_signed_decimal, split_prefix, to_ascii_upper,
};
use bytes::Bytes;

#[test]
fn character_classes_are_those_of_the_standard_library() {
    for ch in '\0'..=char::MAX {
        assert_eq!(is_control(ch), ch.is_control());
        assert_eq!(is_whitespace(ch), ch.is_whitespace());
        assert_eq!(is_decimal_digit(ch), ch.is_ascii_digit());
        assert_eq!(is_hex_digit(ch), ch.is_ascii_hexdigit());
        assert_eq!(to_ascii_upper(ch), ch.to_ascii_uppercase());
    }
    assert!(contains_control("a\u{7f}"));
    assert!(!contains_control("a b"));
    assert_eq!(ascii_uppercase("straße.dwg"), "STRAßE.DWG");
}

#[test]
fn numerals_are_those_of_the_standard_library() {
    for value in [0, 7, 10, 99, 100, 4096, u64::MAX] {
        let mut text = String::from("=");
        push_decimal(&mut text, value);
        assert_eq!(text, format!("={value}"));
    }
    for value in [0, -1, 42, -4096, i64::MIN, i64::MAX] {
        let mut text = String::new();
        push_signed_decimal(&mut text, value);
        assert_eq!(text, value.to_string());
    }
}

#[test]
fn prefixes_end_between_characters() {
    assert_eq!(byte_count("aé漢"), 6);
    assert_eq!(split_prefix("aé漢", 0), ("", "aé漢"));
    assert_eq!(split_prefix("aé漢", 2), ("a", "é漢"));
    assert_eq!(split_prefix("aé漢", 3), ("aé", "漢"));
    assert_eq!(split_prefix("aé漢", 5), ("aé", "漢"));
    assert_eq!(split_prefix("aé漢", 6), ("aé漢", ""));
    assert_eq!(split_prefix("aé漢", 100), ("aé漢", ""));
}

#[test]
fn a_diagnostic_is_cut_only_where_it_is_too_long() {
    let fits = "x".repeat(MAX_DIAGNOSTIC_BYTES);
    assert_eq!(bounded_diagnostic(fits.clone()), fits);
    let cut = bounded_diagnostic("é".repeat(MAX_DIAGNOSTIC_BYTES));
    assert_eq!(
        cut,
        format!("{}... [truncated]", "é".repeat((MAX_DIAGNOSTIC_BYTES - 15) / 2))
    );
    assert!(cut.len() <= MAX_DIAGNOSTIC_BYTES);
    assert_eq!(bounded_diagnostic(cut.clone()), cut);
    assert_eq!(bounded_native_diagnostic("ab".into(), true), "ab... [truncated]");
    let mut message = String::from("first");
    append_diagnostic(&mut message, "second");
    assert_eq!(message, "first; second");
}

#[test]
fn a_path_is_shown_by_its_last_component() {
    assert_eq!(path_display_name("/tmp/house.dwg"), "house.dwg");
    assert_eq!(path_display_name("house.dwg"), "house.dwg");
    assert_eq!(path_display_name("/"), "/");
    assert_eq!(path_display_name("/tmp/house.dwg/"), "house.dwg");
    assert_eq!(path_display_name("/tmp/house.dwg/.//"), "house.dwg");
    assert_eq!(path_display_name("./"), "./");
    assert_eq!(path_display_name(""), "");
    assert_eq!(path_display_name("/tmp/.."), "/tmp/..");
    assert_eq!(shown_name("/", None), "/");
    assert_eq!(shown_name("/a/b", Some("b")), "b");
}

#[test]
fn only_names_with_the_drawing_suffix_are_drawings() {
    assert!(is_dwg("/tmp/house.dwg"));
    assert!(is_dwg("/tmp/house.DwG"));
    assert!(!is_dwg("/tmp/house.dxf"));
    assert!(!is_dwg("/tmp/.dwg"));
    assert!(!is_dwg("/tmp/house.dwg/.."));
    assert!(is_dwg("/tmp/house.dwg/"));
    assert!(!is_dwg("/tmp/house.dwg/./.."));
    assert!(!is_dwg("/"));
    assert!(is_dwg_name("a.dwg"));
    assert!(!is_dwg_name(".dwg"));
    assert!(!is_dwg_name("dwg"));
}

#[test]
fn capitals_count_only_where_the_file_system_tells_them_apart() {
    assert!(!paths_equal("/tmp/House.dwg", "/tmp/house.dwg", false));
    assert!(paths_equal("/tmp/House.dwg", "/tmp/house.dwg", true));
    assert!(!paths_equal("/tmp/House.dwg", "/tmp/house.dw", true));
    assert!(!paths_equal("É", "é", true));
    let path = DrawingPath::new("C:\\House.dwg".into(), true);
    assert!(path.matches("c:\\house.DWG"));
    assert_eq!(path.as_str(), "C:\\House.dwg");
}

#[test]
fn identifiers_of_four_digits_are_read_exactly() {
    assert_eq!(DocId::from_hex("36C8").unwrap().value(), 0x36c8);
    assert_eq!(DocId::from_hex("0000").unwrap().value(), 0);
    assert!(DrawingId::from_hex("0000").is_none());
    assert_eq!(DrawingId::from_hex("FFFF").unwrap().value(), 0xffff);
    for text in ["", "36C", "36C80", "36c8", "36G8", "+6C8", "３6C8"] {
        assert!(DocId::from_hex(text).is_none());
        assert!(DrawingId::from_hex(text).is_none());
    }
    assert!(DrawingId::new(0).is_none());
    assert!(DrawingId::from_number(65536).is_none());
    assert!(DrawingId::from_number(0).is_none());
    assert_eq!(DrawingId::from_number(65535).unwrap().value(), 65535);
}

#[test]
fn new_identifiers_differ_from_all_reserved_ones() {
    let mut texts = Vec::new();
    let mut documents = Vec::new();
    let mut drawings = Vec::new();
    for _ in 0..300 {
        let id = new_document_id(&texts);
        assert!(valid_document_id(&id));
        assert!(!texts.contains(&id));
        texts.push(id);
        let id = new_doc_id(&documents);
        assert!(!documents.contains(&id));
        documents.push(id);
        let id = new_drawing_id(&drawings);
        assert_ne!(id.value(), 0);
        assert!(!drawings.contains(&id));
        drawings.push(id);
    }
}

#[test]
fn an_identifier_is_found_where_all_others_are_reserved() {
    let reserved: Vec<DrawingId> = (1..=65535)
        .filter(|value| *value != 4711)
        .map(|value| DrawingId::new(value).unwrap())
        .collect();
    assert_eq!(new_drawing_id(&reserved).value(), 4711);
}

#[test]
fn a_source_loses_its_byte_order_mark_and_nothing_else() {
    let marked = Bytes::from_static(b"\xef\xbb\xbf(form)");
    assert_eq!(&validated_source(marked).unwrap()[..], b"(form)");
    let twice = Bytes::from_static(b"\xef\xbb\xbf\xef\xbb\xbfx");
    assert_eq!(&validated_source(twice).unwrap()[..], b"\xef\xbb\xbfx");
    let plain = Bytes::from_static("é".as_bytes());
    assert_eq!(&validated_source(plain).unwrap()[..], "é".as_bytes());
    assert_eq!(
        validated_source(Bytes::from_static(b"\xff")),
        Err(SourceValidationError::InvalidUtf8)
    );
    assert_eq!(
        validated_source(Bytes::from_static(b"a\0b")),
        Err(SourceValidationError::NullCharacter)
    );
    let largest = Bytes::from(vec![b'x'; MAX_EXECUTION_SOURCE_BYTES]);
    assert_eq!(
        validated_source(largest).unwrap().len(),
        MAX_EXECUTION_SOURCE_BYTES
    );
    assert_eq!(
        validated_source(Bytes::from(vec![b'x'; MAX_EXECUTION_SOURCE_BYTES + 1])),
        Err(SourceValidationError::SourceTooLarge)
    );
}

fn collect(sink: &mut OutputSink) -> String {
    let mut text = String::new();
    while let ChunkPoll::Chunk(chunk) = sink.next_chunk() {
        text.push_str(&chunk);
    }
    text
}

fn laid_out(first: &str, second: &str) -> String {
    let mut sink = channel();
    let mut layout = Layout::new();
    layout.begin_group(&mut sink, 0).unwrap();
    layout.text(&mut sink, first).unwrap();
    layout.line(&mut sink, " ", 1).unwrap();
    layout.text(&mut sink, second).unwrap();
    layout.end_group(&mut sink).unwrap();
    layout.finish(&mut sink).unwrap();
    sink.finish();
    collect(&mut sink)
}

#[test]
fn a_group_is_broken_where_it_is_wider_than_a_line() {
    let narrow = "a".repeat(49);
    let exact = "b".repeat(50);
    let wide = "b".repeat(51);
    assert_eq!(laid_out(&narrow, &exact), format!("{narrow} {exact}\n"));
    assert_eq!(laid_out(&narrow, &wide), format!("{narrow}\n  {wide}\n"));
}

#[test]
fn width_is_counted_in_columns_of_the_terminal() {
    let doubled = "漢".repeat(26);
    let combining = "e\u{301}".repeat(45);
    assert_eq!(
        laid_out(&doubled, &doubled),
        format!("{doubled}\n  {doubled}\n")
    );
    assert_eq!(
        laid_out(&combining, &combining),
        format!("{combining} {combining}\n")
    );
}

#[test]
fn a_layout_that_is_not_complete_is_refused() {
    let mut sink = channel();
    let mut layout = Layout::new();
    layout.begin_group(&mut sink, 0).unwrap();
    assert_eq!(layout.finish(&mut sink), Err(PrintError::InvalidSequence));
}

#[test]
fn groups_fit_by_the_columns_up_to_their_end() {
    let group = vec![
        Extent::Begin,
        Extent::Columns(3),
        Extent::Begin,
        Extent::Columns(4),
        Extent::End,
        Extent::End,
    ];
    assert_eq!(group_fit(&group, 7), Fit::Yes);
    assert_eq!(group_fit(&group, 6), Fit::No);
    assert_eq!(group_fit(&vec![Extent::Begin, Extent::Columns(3)], 3), Fit::Unknown);
    assert_eq!(
        group_fit(
            &vec![Extent::Begin, Extent::Columns(usize::MAX), Extent::Columns(1)],
            usize::MAX
        ),
        Fit::Unknown
    );
}

#[test]
fn a_template_needs_every_marker_and_leaves_none() {
    let markers = |value: &str| vec![Marker { name: "NAME", value: value.into() }];
    assert_eq!(
        render("({{NAME}} {{NAME}})", &markers("x")),
        Ok("(x x)".into())
    );
    assert_eq!(render("(NAME)", &markers("x")), Err(RenderError::UnusedMarker(0)));
    assert_eq!(
        render("({{NAME}} {{REST}})", &markers("x")),
        Err(RenderError::UnknownMarker)
    );
    assert_eq!(render("{{NAME}}", &markers("{{")), Err(RenderError::UnknownMarker));
    assert_eq!(render("plain", &Vec::new()), Ok("plain".into()));
}

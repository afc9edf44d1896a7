use static_site_generator::util::{line_pieces, read_file, style_to_attr, write_css_color, Color, TextStyle};

#[test]
fn opaque_color_has_six_digits() {
    let mut s = String::from("x");
    write_css_color(&mut s, Color { r: 0x12, g: 0xab, b: 0x00, a: 0xff });
    assert_eq!(s, "x#12ab00");
}

#[test]
fn translucent_color_has_eight_digits() {
    let mut s = String::new();
    write_css_color(&mut s, Color { r: 255, g: 1, b: 16, a: 0x80 });
    assert_eq!(s, "#ff011080");
}

#[test]
fn style_lists_decorations_then_color() {
    let st = TextStyle { underline: true, bold: true, italic: true, foreground: Color { r: 0, g: 0, b: 0, a: 255 } };
    assert_eq!(
        style_to_attr(st),
        "text-decoration:underline;font-weight:bold;font-style:italiccolor:#000000"
    );
    let plain = TextStyle { underline: false, bold: false, italic: false, foreground: Color { r: 1, g: 2, b: 3, a: 4 } };
    assert_eq!(style_to_attr(plain), "color:#01020304");
}

#[test]
fn read_file_accepts_utf8() {
    assert_eq!(read_file("héllo".as_bytes().to_vec()).unwrap(), "héllo");
}

#[test]
fn read_file_rejects_invalid_utf8() {
    let e = read_file(vec![0xff, 0xfe]).unwrap_err();
    assert_eq!(e.message(), "stream did not contain valid UTF-8");
}

#[test]
fn blank_ranges_stay_plain() {
    let st = TextStyle { underline: false, bold: true, italic: false, foreground: Color { r: 1, g: 2, b: 3, a: 255 } };
    let pieces = line_pieces(&vec![(st, "  \t".to_string()), (st, "let".to_string()), (st, "\u{3000}".to_string())]);
    assert_eq!(pieces, vec![
        (None, "  \t".to_string()),
        (Some(st), "let".to_string()),
        (None, "\u{3000}".to_string()),
        (None, "\n".to_string()),
    ]);
    assert_eq!(line_pieces(&vec![]), vec![(None, "\n".to_string())]);
}

use solang::ast::{Diagnostics, Level, Loc};
use solang::unescape;

#[test]
fn test_unescape() {
    let s = r#"\u00f3"#;
    let mut vec = Diagnostics::default();
    let res = unescape(s, 0, 0, &mut vec);
    assert!(vec.is_empty());
    assert_eq!(res, vec![0xc3, 0xb3]);
    let s = r#"\xff"#;
    let res = unescape(s, 0, 0, &mut vec);
    assert!(vec.is_empty());
    assert_eq!(res, vec![255]);
}

#[test]
fn unescape_plain_text_is_its_utf8() {
    let mut diags = Diagnostics::default();
    let res = unescape("héllo €", 10, 3, &mut diags);
    assert!(diags.is_empty());
    assert_eq!(res, "héllo €".as_bytes().to_vec());
}

#[test]
fn unescape_simple_escapes() {
    let mut diags = Diagnostics::default();
    let res = unescape(r#"a\\\'\"\b\f\n\r\t\v"#, 0, 0, &mut diags);
    assert!(diags.is_empty());
    assert_eq!(res, vec![b'a', b'\\', b'\'', b'"', 0x08, 0x0c, b'\n', b'\r', b'\t', 0x0b]);
}

#[test]
fn unescape_backslash_newline_is_dropped() {
    let mut diags = Diagnostics::default();
    let res = unescape("a\\\nb", 0, 0, &mut diags);
    assert!(diags.is_empty());
    assert_eq!(res, vec![b'a', b'b']);
}

#[test]
fn unescape_unicode_escapes_are_utf8() {
    let mut diags = Diagnostics::default();
    assert_eq!(unescape(r#"\u0041"#, 0, 0, &mut diags), vec![0x41]);
    assert_eq!(unescape(r#"\u20AC"#, 0, 0, &mut diags), vec![0xe2, 0x82, 0xac]);
    assert_eq!(unescape(r#"\x41\x7a"#, 0, 0, &mut diags), vec![0x41, 0x7a]);
    assert!(diags.is_empty());
}

#[test]
fn unescape_unknown_escape() {
    let mut diags = Diagnostics::default();
    let res = unescape(r#"a\qb"#, 5, 2, &mut diags);
    assert_eq!(res, vec![b'a', b'b']);
    assert_eq!(diags.len(), 1);
    let d = &diags.contents[0];
    assert_eq!(d.level, Level::Error);
    assert_eq!(d.message, "unknown escape character 'q'");
    assert_eq!(d.loc, Loc::File(2, 7, 8));
}

#[test]
fn unescape_bad_hex_escape() {
    let mut diags = Diagnostics::default();
    let res = unescape(r#"\xzzA"#, 0, 0, &mut diags);
    assert_eq!(res, vec![b'A']);
    assert_eq!(diags.len(), 1);
    assert_eq!(diags.contents[0].message, "\\x escape should be followed by two hex digits");
    assert_eq!(diags.contents[0].loc, Loc::File(0, 1, 3));
}

#[test]
fn unescape_short_hex_escape_at_end() {
    let mut diags = Diagnostics::default();
    let res = unescape(r#"\x4"#, 0, 0, &mut diags);
    assert_eq!(res, Vec::<u8>::new());
    assert_eq!(diags.len(), 1);
    assert_eq!(diags.contents[0].message, "\\x escape should be followed by two hex digits");
    assert_eq!(diags.contents[0].loc, Loc::File(0, 1, 3));
}

#[test]
fn unescape_bad_unicode_escape() {
    let mut diags = Diagnostics::default();
    let res = unescape(r#"\u12g4z"#, 0, 0, &mut diags);
    assert_eq!(res, vec![b'z']);
    assert_eq!(diags.len(), 1);
    assert_eq!(diags.contents[0].message, "\\u escape should be followed by four hex digits");
    assert_eq!(diags.contents[0].loc, Loc::File(0, 1, 5));
}

#[test]
fn unescape_surrogate_is_invalid() {
    let mut diags = Diagnostics::default();
    let res = unescape(r#"\ud800!"#, 4, 1, &mut diags);
    assert_eq!(res, vec![b'!']);
    assert_eq!(diags.len(), 1);
    assert_eq!(diags.contents[0].message, "Found an invalid unicode character");
    assert_eq!(diags.contents[0].loc, Loc::File(1, 5, 11));
}

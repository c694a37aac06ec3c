use eoka::page::escape::escape_js_string;

#[test]
fn test_escape_js_string() {
    assert_eq!(escape_js_string("hello"), "hello");
    assert_eq!(escape_js_string("it's"), "it\\'s");
    assert_eq!(escape_js_string("line1\nline2"), "line1\\nline2");
    assert_eq!(escape_js_string("back\\slash"), "back\\\\slash");
    assert_eq!(escape_js_string("${var}"), "\\${var}");
    // Null byte and Unicode line terminators must be escaped
    assert_eq!(escape_js_string("a\0b"), "a\\0b");
    assert_eq!(escape_js_string("a\u{2028}b"), "a\\u2028b");
    assert_eq!(escape_js_string("a\u{2029}b"), "a\\u2029b");
}

#[test]
fn quotes_dollars_and_returns() {
    assert_eq!(escape_js_string("\"`\r"), "\\\"\\`\\r");
    assert_eq!(escape_js_string("$$ {$"), "$$ {$");
    assert_eq!(escape_js_string("$${${"), "$\\${\\${");
    assert_eq!(escape_js_string("\t\u{e9}"), "\t\u{e9}");
    assert_eq!(escape_js_string("\x001\0a\0"), "\\x001\\0a\\0");
}

/// Reads the inside of a single-quoted literal that uses only simple escapes.
fn read_literal(inside: &str) -> String {
    let mut out = String::new();
    let mut chars = inside.chars();
    while let Some(c) = chars.next() {
        if c != '\\' {
            assert!(c != '\'' && c != '\n' && c != '\r');
            out.push(c);
            continue;
        }
        match chars.next().unwrap() {
            'n' => out.push('\n'),
            'r' => out.push('\r'),
            '0' => out.push('\0'),
            c if c == 'u' || c == 'x' => {
                let length = if c == 'u' { 4 } else { 2 };
                let hex: String = (0..length).map(|_| chars.next().unwrap()).collect();
                out.push(char::from_u32(u32::from_str_radix(&hex, 16).unwrap()).unwrap());
            }
            other => out.push(other),
        }
    }
    out
}

#[test]
fn an_escaped_text_reads_as_itself() {
    for text in ["", "a'b\"c`d\\e\nf\rg\0h\u{2028}\u{2029}${i}$", "\\n", "'\\'", "\0\x30\09\0"] {
        assert_eq!(read_literal(&escape_js_string(text)), text);
    }
}

use academic_workflow::errors::SharedError;
use academic_workflow::sanitization::{
    escape_json_string, escape_sql_like, normalize_path, normalize_unicode,
    normalize_unicode_nfd, remove_control_characters, sanitize_filename, sanitize_html,
    sanitize_html_basic, sanitize_path, sanitize_sql_input, strip_html, truncate_string,
};

#[test]
fn test_escape_sql_like() {
    assert_eq!(escape_sql_like("test%"), "test\\%");
    assert_eq!(escape_sql_like("test_"), "test\\_");
    assert_eq!(escape_sql_like("normal"), "normal");
    assert_eq!(escape_sql_like("a%b_c"), "a\\%b\\_c");
}

#[test]
fn test_sanitize_sql_input() {
    let input = "user'; DROP TABLE users--";
    let clean = sanitize_sql_input(input);
    assert!(!clean.contains("--"));
    assert!(!clean.contains(';'));
    assert!(clean.contains("''"));
}

#[test]
fn test_normalize_unicode() {
    // Test NFC normalization
    let normalized = normalize_unicode("Café");
    assert!(normalized.len() <= 5);

    // Test consistency
    let input1 = "\u{e9}"; // composed
    let input2 = "e\u{301}"; // decomposed (e + combining acute)
    assert_eq!(normalize_unicode(input1), normalize_unicode(input2));
}

#[test]
fn test_remove_control_characters() {
    let input = "Hello\x00World\nTest\r\nLine";
    let clean = remove_control_characters(input);
    assert!(!clean.contains('\x00'));
    assert!(clean.contains('\n'));
    assert!(clean.contains('\r'));
}

#[test]
fn test_sanitize_filename() {
    assert_eq!(sanitize_filename("file.txt"), "file.txt");
    assert_eq!(sanitize_filename("my file.txt"), "my file.txt");

    // Dangerous characters
    let dangerous = "../../../etc/passwd";
    let clean = sanitize_filename(dangerous);
    assert!(!clean.contains('/'));
    assert!(!clean.contains(".."));

    // Windows reserved characters
    assert_eq!(sanitize_filename("file:name.txt"), "file_name.txt");
    assert_eq!(sanitize_filename("file?.txt"), "file_.txt");

    // Empty result
    assert_eq!(sanitize_filename("..."), "file");
    assert_eq!(sanitize_filename("   "), "file");
}

#[test]
fn test_truncate_string() {
    assert_eq!(truncate_string("Hello, World!", 10), "Hello, ...");
    assert_eq!(truncate_string("Short", 10), "Short");
    assert_eq!(truncate_string("Exactly10!", 10), "Exactly10!");

    // Test UTF-8 safety
    let emoji = "Hello 😀 World";
    let truncated = truncate_string(emoji, 10);
    assert!(truncated.len() <= 10);
}

#[test]
fn test_escape_json_string() {
    assert_eq!(escape_json_string("Hello"), "Hello");
    assert_eq!(escape_json_string("Say \"Hi\""), "Say \\\"Hi\\\"");
    assert_eq!(escape_json_string("Line1\nLine2"), "Line1\\nLine2");
    assert_eq!(escape_json_string("Tab\there"), "Tab\\there");
}

#[test]
fn sql_like_escapes_the_backslash_first() {
    assert_eq!(escape_sql_like("50%_\\"), "50\\%\\_\\\\");
    assert_eq!(escape_sql_like(""), "");
}

#[test]
fn sql_input_removals_happen_in_order() {
    assert_eq!(sanitize_sql_input("a--b/*c*/d;e'f"), "abcde''f");
    // Removing the dashes brings a slash and a star together, and they go too.
    assert_eq!(sanitize_sql_input("/--*x"), "x");
    assert_eq!(sanitize_sql_input("---"), "-");
    // A marker that only forms after its own pass stays.
    assert_eq!(sanitize_sql_input("-/**/-"), "--");
}

#[test]
fn json_escapes() {
    assert_eq!(escape_json_string("a\\b\"c\nd\re\tf"), "a\\\\b\\\"c\\nd\\re\\tf");
}

#[test]
fn control_characters_are_removed_but_common_whitespace() {
    assert_eq!(remove_control_characters("a\u{0}b\u{7f}c\u{9f}d\te\nf\rg h"), "abcd\te\nf\rg h");
    assert_eq!(remove_control_characters("\u{a0}é"), "\u{a0}é");
}

#[test]
fn truncation_edges() {
    assert_eq!(truncate_string("abcdef", 5), "ab...");
    assert_eq!(truncate_string("abcdef", 3), "...");
    assert_eq!(truncate_string("abcdef", 2), "...");
    assert_eq!(truncate_string("abcdef", 0), "...");
    assert_eq!(truncate_string("", 0), "");
    // Two bytes are left for text; the second character would need three.
    assert_eq!(truncate_string("a€bcdef", 5), "a...");
    assert_eq!(truncate_string("a€bcdef", 7), "a€...");
    assert_eq!(truncate_string("a€bcdef", 9), "a€bcdef");
}

#[test]
fn filename_edges() {
    assert_eq!(sanitize_filename("a<b>c:d\"e|f?g*h"), "a_b_c_d_e_f_g_h");
    assert_eq!(sanitize_filename(" . name . "), "name");
    assert_eq!(sanitize_filename("a/b\\c\u{0}d\ne"), "abcde");
    assert_eq!(sanitize_filename(""), "file");
    assert_eq!(sanitize_filename("/\\"), "file");
    assert_eq!(sanitize_filename(&"a".repeat(300)), "a".repeat(255));
    // 127 two-byte characters take 254 bytes; one more would pass 255.
    assert_eq!(sanitize_filename(&"é".repeat(200)), "é".repeat(127));
}

#[test]
fn normal_forms() {
    assert_eq!(normalize_unicode("e\u{301}"), "\u{e9}");
    assert_eq!(normalize_unicode_nfd("\u{e9}"), "e\u{301}");
    assert_eq!(normalize_unicode("plain"), "plain");
}

#[test]
fn test_sanitize_path() {
    // Valid paths
    assert!(sanitize_path("uploads/file.txt", "/var/www").is_ok());
    assert!(sanitize_path("file.txt", "/var/www").is_ok());

    // Invalid paths
    assert!(sanitize_path("../etc/passwd", "/var/www").is_err());
    assert!(sanitize_path("/etc/passwd", "/var/www").is_err());
    assert!(sanitize_path("file\0.txt", "/var/www").is_err());
}

#[test]
fn test_normalize_path() {
    let normalized = normalize_path("/var/www/../uploads/./file.txt");
    assert_eq!(normalized, "/var/uploads/file.txt");
}

#[test]
fn normal_forms_of_paths() {
    assert_eq!(normalize_path(""), "");
    assert_eq!(normalize_path("/"), "/");
    assert_eq!(normalize_path("//a///b/"), "/a/b");
    assert_eq!(normalize_path("./a/./b"), "a/b");
    assert_eq!(normalize_path("a/b/../../.."), "");
    assert_eq!(normalize_path("/.."), "");
    assert_eq!(normalize_path("/../a"), "a");
    assert_eq!(normalize_path("a/..b/c"), "a/..b/c");
    assert_eq!(normalize_path("..."), "...");
}

#[test]
fn path_reasons_in_order() {
    let reason = |path: &str, base: &str| match sanitize_path(path, base) {
        Err(SharedError::Sanitization(reason)) => reason,
        other => panic!("unexpected outcome: {:?}", other),
    };
    assert_eq!(reason("/a\0/..", "/base"), "Path contains null bytes");
    assert_eq!(reason("/a/..", "/base"), "Absolute paths are not allowed");
    assert_eq!(reason("a..b", "/base"), "Path traversal detected");
    assert_eq!(reason("a", "/base/../other"), "Path escapes base directory");
    assert_eq!(reason("a", "./base"), "Path escapes base directory");

    assert_eq!(sanitize_path("a/./b//c.txt", "/var/www/").unwrap(), "/var/www/a/b/c.txt");
    assert_eq!(sanitize_path("", "/var/www").unwrap(), "/var/www");
    assert_eq!(sanitize_path("x", "").unwrap(), "x");
    assert_eq!(sanitize_path("x", "rel/dir").unwrap(), "rel/dir/x");
}

#[test]
fn test_sanitize_html() {
    let input = "<script>alert('xss')</script>Hello";
    let clean = sanitize_html(input);
    assert!(!clean.contains("<script"));
    assert!(clean.contains("Hello"));
}

#[test]
fn test_sanitize_html_basic() {
    let input = "<p>Hello <strong>world</strong></p>";
    let clean = sanitize_html_basic(input);
    assert!(clean.contains("<p>"));
    assert!(clean.contains("<strong>"));

    let dangerous = "<script>alert('xss')</script>";
    let clean = sanitize_html_basic(dangerous);
    assert!(!clean.contains("<script"));
}

#[test]
fn test_strip_html() {
    assert_eq!(strip_html("<p>Hello</p>"), "Hello");
    assert_eq!(strip_html("<b>Bold</b> text"), "Bold text");
    assert_eq!(strip_html("<script>alert('xss')</script>Hello"), "Hello");
}

#[test]
fn html_keeps_what_is_allowed() {
    let plain = sanitize_html("<b>bold</b><marquee class=\"x\">m</marquee>");
    assert!(plain.contains("<b>bold</b>"));
    assert!(!plain.contains("marquee") && !plain.contains("class"));

    let input = "<u class=\"x\" onclick=\"y\">under</u>";
    let basic = sanitize_html_basic(input);
    assert!(basic.contains("class=\"x\"") && !basic.contains("onclick"));
    assert!(!sanitize_html(input).contains("class"));
    assert_eq!(strip_html(input), "under");
}

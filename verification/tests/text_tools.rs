use karu_core::posts::{calculate_reading_time, generate_slug};
use karu_core::preview::{build_link_preview, extract_meta};
use karu_core::strutil::id_hex;

#[test]
fn slug_lowercases_and_joins_words() {
    assert_eq!(generate_slug("Hello World"), "hello-world");
    assert_eq!(generate_slug("  Rust & Verus: a tale!  "), "rust-verus-a-tale");
    assert_eq!(generate_slug("MiXeD CaSe"), "mixed-case");
    assert_eq!(generate_slug(""), "");
    assert_eq!(generate_slug("!!!"), "");
    assert_eq!(generate_slug("a.b"), "ab");
    assert_eq!(generate_slug("a . b"), "a-b");
}

#[test]
fn reading_time_counts_words_at_two_hundred_per_minute() {
    assert_eq!(calculate_reading_time(""), 1);
    assert_eq!(calculate_reading_time("one two three"), 1);
    let two_hundred = vec!["word"; 200].join(" ");
    assert_eq!(calculate_reading_time(&two_hundred), 2);
    let one_ninety_nine = vec!["word"; 199].join(" ");
    assert_eq!(calculate_reading_time(&one_ninety_nine), 1);
}

#[test]
fn extract_meta_reads_property_and_name_forms() {
    let body = r#"<head><meta property="og:title" content="The Title" /><meta name="description" content="About things" /></head>"#;
    assert_eq!(extract_meta(body, "og:title").as_deref(), Some("The Title"));
    assert_eq!(extract_meta(body, "description").as_deref(), Some("About things"));
    assert_eq!(extract_meta(body, "og:image"), None);
}

#[test]
fn extract_meta_prefers_property_form() {
    let body = r#"<meta name="og:title" content="from name" /><meta property="og:title" content="from property" />"#;
    assert_eq!(extract_meta(body, "og:title").as_deref(), Some("from property"));
}

#[test]
fn link_preview_trims_title_and_prefers_open_graph() {
    let plain = "<html><title>  My Page  </title></html>";
    let p = build_link_preview(plain, String::from("https://example.test/a"));
    assert_eq!(p.title.as_deref(), Some("My Page"));
    assert_eq!(p.description, None);
    assert_eq!(p.image, None);
    assert_eq!(p.url, "https://example.test/a");

    let mut rich = String::from("<html><title>Doc Title</title>");
    rich.push_str(r#"<meta property="og:title" content="OG Title" />"#);
    rich.push_str(r#"<meta property="og:description" content="OG Desc" />"#);
    rich.push_str(r#"<meta property="og:image" content="https://img.test/x.png" />"#);
    rich.push_str("</html>");
    let p = build_link_preview(&rich, String::from("https://example.test/b"));
    assert_eq!(p.title.as_deref(), Some("OG Title"));
    assert_eq!(p.description.as_deref(), Some("OG Desc"));
    assert_eq!(p.image.as_deref(), Some("https://img.test/x.png"));
}

#[test]
fn link_preview_without_title_tags() {
    let p = build_link_preview("<html><body>nothing here</body></html>", String::from("u"));
    assert_eq!(p.title, None);
}

#[test]
fn id_hex_is_fixed_width_lowercase() {
    assert_eq!(id_hex(0), "0000000000000000");
    assert_eq!(id_hex(1), "0000000000000001");
    assert_eq!(id_hex(0xdead_beef), "00000000deadbeef");
    assert_eq!(id_hex(u64::MAX), "ffffffffffffffff");
}

#[test]
fn extract_meta_falls_through_without_closing_quote() {
    let body = r#"<meta property="og:title" content="unterminated<meta name="og:title" content="named" />"#;
    assert_eq!(extract_meta(body, "og:title").as_deref(), Some("unterminated<meta name="));
}

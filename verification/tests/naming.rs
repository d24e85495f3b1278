use dora2tf::generator::{
    quote_tag_key, short_id, tf_name, tf_name_from_lowercase, tf_rule_name, tf_unique_name, try_short_id,
};
use dora2tf::text::{char_is_whitespace, i32_text, str_eq, utf8_width};

#[test]
fn tf_name_lowercases_and_replaces_separators() {
    assert_eq!(tf_name("Web-Server.prod/A B"), "web_server_prod_a_b");
}

#[test]
fn tf_name_drops_other_characters() {
    assert_eq!(tf_name("db#1(main)"), "db1main");
    assert_eq!(tf_name("keep_underscore"), "keep_underscore");
}

#[test]
fn tf_name_falls_back_to_unnamed() {
    assert_eq!(tf_name(""), "unnamed");
    assert_eq!(tf_name("!!!"), "unnamed");
}

#[test]
fn tf_name_keeps_unicode_alphanumerics() {
    assert_eq!(tf_name("Ünïcode-Name"), "ünïcode_name");
}

#[test]
fn tf_name_output_is_identifier_safe() {
    for raw in ["a-b c.d/e", "X:Y@Z", "---", "ok", "1st"] {
        let n = tf_name(raw);
        assert!(!n.is_empty());
        assert!(n.chars().all(|c| c == '_' || c.is_alphanumeric()));
        assert!(!n.starts_with(|c: char| c.is_ascii_digit()));
    }
}

#[test]
fn tf_name_prefixes_leading_digit() {
    assert_eq!(tf_name("1web"), "_1web");
    assert_eq!(tf_name("1st"), "_1st");
    assert_eq!(tf_name("-9"), "_9");
    assert_eq!(tf_name("web1"), "web1");
}

#[test]
fn short_id_examples() {
    assert_eq!(short_id("i-0abc123def456gh"), "i0abc123de");
    assert_eq!(short_id("vpc-0abc123d"), "vpc0abc123");
    assert_eq!(short_id("vol-0abc123d"), "vol0abc123");
    assert_eq!(short_id("sg-0abc12"), "sg0abc12");
    assert_eq!(short_id(""), "");
}

#[test]
fn short_id_counts_bytes() {
    assert_eq!(short_id("é-é-é-é-é-é-é"), "ééééé");
    assert_eq!(short_id("ééééé-ééééééé"), "ééééé");
    assert_eq!(short_id("é-é-é"), "ééé");
}

#[test]
fn try_short_id_refuses_a_cut_inside_a_character() {
    assert_eq!(try_short_id("aé-éééééé"), None);
    assert_eq!(try_short_id("i-0abc123def456gh"), Some("i0abc123de".to_string()));
    assert_eq!(try_short_id("é-é-é-é-é-é-é"), Some("ééééé".to_string()));
}

#[test]
fn tf_unique_name_example() {
    assert_eq!(tf_unique_name("web-server", "i-0abc123def456gh"), "web_server_i0abc123de");
}

#[test]
fn tf_unique_name_always_appends_suffix() {
    assert_eq!(tf_unique_name("I0ABC123DE-box", "i-0abc123def456gh"), "i0abc123de_box_i0abc123de");
    assert_eq!(tf_unique_name("i0abc", "i-0a"), "i0abc_i0a");
}

#[test]
fn tf_unique_name_distinct_short_ids_do_not_collide() {
    assert_ne!(tf_unique_name("i0abc", "i-0a"), tf_unique_name("i0abc", "i-0ab"));
    assert_ne!(tf_unique_name("a", "b-c"), tf_unique_name("a_b", "c"));
}

#[test]
fn tf_unique_name_differs_for_different_ids() {
    let a = tf_unique_name("web", "i-0aaaaaaaaaa");
    let b = tf_unique_name("web", "i-0bbbbbbbbbb");
    assert_ne!(a, b);
    assert!(a.starts_with("web"));
}

#[test]
fn quote_tag_key_cases() {
    assert_eq!(quote_tag_key("Name"), "Name");
    assert_eq!(quote_tag_key("aws:cloudformation"), "\"aws:cloudformation\"");
    assert_eq!(quote_tag_key("cost-center"), "\"cost-center\"");
    assert_eq!(quote_tag_key("a.b"), "\"a.b\"");
    assert_eq!(quote_tag_key("a/b"), "\"a/b\"");
    assert_eq!(quote_tag_key("a b"), "\"a b\"");
    assert_eq!(quote_tag_key("me@x"), "\"me@x\"");
    assert_eq!(quote_tag_key("9lives"), "\"9lives\"");
    assert_eq!(quote_tag_key(""), "\"\"");
    assert_eq!(quote_tag_key("under_score"), "under_score");
    assert_eq!(quote_tag_key("team+ops"), "\"team+ops\"");
    assert_eq!(quote_tag_key("a=b"), "\"a=b\"");
    assert_eq!(quote_tag_key("Größe"), "Größe");
}

#[test]
fn tf_rule_name_example() {
    assert_eq!(tf_rule_name("web_sg_sg0abc123", "ingress", "tcp", 80), "web_sg_sg0abc123_ingress_tcp_80");
}

#[test]
fn tf_rule_name_all_protocols() {
    assert_eq!(tf_rule_name("sg", "egress", "-1", -1), "sg_egress_all_-1");
}

#[test]
fn i32_text_matches_display() {
    for n in [0, 7, 10, 99, 100, 65535, -1, -42, i32::MAX, i32::MIN] {
        assert_eq!(i32_text(n), n.to_string());
    }
}

#[test]
fn str_eq_compares_characters() {
    assert!(str_eq("abc", "abc"));
    assert!(!str_eq("abc", "abd"));
    assert!(!str_eq("abc", "ab"));
}

#[test]
fn char_is_whitespace_matches_std() {
    for v in 0..=0x10FFFFu32 {
        if let Some(c) = char::from_u32(v) {
            assert_eq!(char_is_whitespace(c), c.is_whitespace(), "{:#x}", v);
        }
    }
}

#[test]
fn utf8_width_matches_std() {
    for c in ['a', '\u{7f}', '\u{80}', 'é', '\u{7ff}', '\u{800}', '€', '\u{ffff}', '\u{10000}', '😀'] {
        assert_eq!(utf8_width(c), c.len_utf8());
    }
}

#[test]
fn tf_name_is_idempotent() {
    for raw in ["Web-Server.prod/A B", "1web", "db#1(main)", "Ünïcode-Name", "!!!", "_x", "-9"] {
        let once = tf_name(raw);
        assert_eq!(tf_name(&once), once);
    }
}

#[test]
fn tf_name_from_lowercase_normalises_lowered_text() {
    assert_eq!(tf_name_from_lowercase("web-server.prod"), "web_server_prod");
    assert_eq!(tf_name_from_lowercase("9lives"), "_9lives");
    assert_eq!(tf_name_from_lowercase("#!"), "unnamed");
    assert_eq!(tf_name_from_lowercase("ABC"), "ABC");
}

#[test]
fn tf_name_results_are_identifier_characters() {
    for raw in ["", "!!!", "Web Server", "1st", "Ünïcode-Name"] {
        let n = tf_name(raw);
        assert!(n.chars().all(|c| c == '_' || c.is_alphanumeric()));
        assert!(!n.starts_with(|c: char| c.is_ascii_digit()));
    }
}

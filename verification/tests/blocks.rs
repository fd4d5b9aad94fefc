use mdbook_private::config::Config;
use mdbook_private::extract::extract_private_blocks;

const STYLE_OPEN: &str = "<blockquote style='position: relative; padding: 20px 20px;'>\
<span style='position: absolute; top: 0; right: 5px; font-size: 80%; opacity: 0.4;'>";

fn remove_cfg() -> Config {
    Config::new(Some(true), None, None, None)
}

fn keep_cfg() -> Config {
    Config::new(None, None, None, None)
}

fn extract(content: &str, cfg: &Config) -> String {
    let out = extract_private_blocks(&content.as_bytes().to_vec(), cfg);
    String::from_utf8(out).unwrap()
}

#[test]
fn no_marker_is_identity() {
    let content = "# Title\n\nNothing hidden here, <!-- an ordinary comment -->, the end.\n";
    assert_eq!(extract(content, &remove_cfg()), content);
    assert_eq!(extract(content, &keep_cfg()), content);
}

#[test]
fn remove_scenario() {
    let out = extract("# C\n<!--private\nSecret\n-->\nEnd", &remove_cfg());
    assert_eq!(out, "# C\nEnd");
}

#[test]
fn keep_styled_scenario() {
    let out = extract("# C\n<!--private\nSecret\n-->\nEnd", &keep_cfg());
    assert_eq!(out, format!("# C\n{}CONFIDENTIAL</span>Secret</blockquote>\nEnd", STYLE_OPEN));
}

#[test]
fn remove_is_idempotent_here() {
    let once = extract("# C\n<!--private\nSecret\n-->\nEnd", &remove_cfg());
    let twice = extract(&once, &remove_cfg());
    assert_eq!(twice, once);
}

#[test]
fn keep_unstyled_gives_bare_payload() {
    let cfg = Config::new(None, Some(false), None, None);
    let out = extract("# C\n<!--private\nSecret\n-->\nEnd", &cfg);
    assert_eq!(out, "# C\nSecret\nEnd");
}

#[test]
fn custom_notice_is_used() {
    let cfg = Config::new(None, None, Some(b"INTERNAL ONLY".to_vec()), None);
    let out = extract("<!--private\nSecret\n-->", &cfg);
    assert_eq!(out, format!("{}INTERNAL ONLY</span>Secret</blockquote>\n", STYLE_OPEN));
}

#[test]
fn empty_payload_still_wraps() {
    let out = extract("a<!-- private -->b", &keep_cfg());
    assert_eq!(out, format!("a{}CONFIDENTIAL</span></blockquote>\nb", STYLE_OPEN));
    assert_eq!(extract("a<!-- private -->b", &remove_cfg()), "ab");
}

#[test]
fn two_blocks_close_on_their_own_delimiters() {
    let content = "<!--private\nA\n--> mid <!--private\nB\n-->";
    assert_eq!(extract(content, &remove_cfg()), " mid ");
    assert_eq!(
        extract(content, &keep_cfg()),
        format!(
            "{s}CONFIDENTIAL</span>A</blockquote>\n mid {s}CONFIDENTIAL</span>B</blockquote>\n",
            s = STYLE_OPEN
        )
    );
}

#[test]
fn payload_may_mention_the_keyword() {
    let content = "<!--private\nthe word private stays inside\n-->\nrest";
    assert_eq!(extract(content, &remove_cfg()), "rest");
}

#[test]
fn keyword_must_be_a_whole_word() {
    let content = "x<!--privateer\nnot a block\n-->y";
    assert_eq!(extract(content, &remove_cfg()), content);
}

#[test]
fn unclosed_block_is_left_alone() {
    let content = "a<!--private\nnever closed";
    assert_eq!(extract(content, &remove_cfg()), content);
    assert_eq!(extract(content, &keep_cfg()), content);
}

#[test]
fn closing_consumes_one_line_break_only() {
    let out = extract("a<!--private x-->\n\nb", &remove_cfg());
    assert_eq!(out, "a\nb");
}

#[test]
fn config_defaults() {
    let cfg = Config::new(None, None, None, None);
    assert!(!cfg.remove);
    assert!(cfg.style);
    assert_eq!(cfg.notice, b"CONFIDENTIAL".to_vec());
    assert_eq!(cfg.prefix, b"_".to_vec());
}

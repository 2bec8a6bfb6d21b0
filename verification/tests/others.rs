use herdr_recent_navigator::others::{parse_ssh_target, split_words, strip_ansi};

#[test]
fn test_strip_ansi_removes_sequences() {
    assert_eq!(strip_ansi("\x1b[38;5;1mline one\x1b[0m\nline two\n"), "line one\nline two\n");
    assert_eq!(strip_ansi("a\x1b]0;title\x07b"), "ab");
    assert_eq!(strip_ansi("a\x1b]8;;http://x\x1b\\link\x1b]8;;\x1b\\b"), "alinkb");
    assert_eq!(strip_ansi("x\x1b7y\x1b=z"), "xyz");
    assert_eq!(strip_ansi("plain 界"), "plain 界");
    assert_eq!(strip_ansi("tail\x1b"), "tail");
}

#[test]
fn test_split_words_on_unicode_whitespace() {
    assert_eq!(split_words("  ssh\t-p\u{3000}22  host "), vec!["ssh", "-p", "22", "host"]);
    assert!(split_words(" \n ").is_empty());
}

#[test]
fn test_parse_ssh_target_variants() {
    assert_eq!(parse_ssh_target("ssh -p 2200 lex@10.0.0.9").as_deref(), Some("lex@10.0.0.9:2200"));
    assert_eq!(parse_ssh_target("-zsh"), None);
    assert_eq!(parse_ssh_target("/usr/bin/ssh host").as_deref(), Some("host"));
    assert_eq!(parse_ssh_target("ssh -i ~/.ssh/id -A me@box uptime").as_deref(), Some("me@box"));
    assert_eq!(parse_ssh_target("ssh -v"), None);
    assert_eq!(parse_ssh_target("sshd -D"), None);
    assert_eq!(parse_ssh_target(""), None);
}

use tty_mood::zsh::{extract_command_name, ZshHistoryParser};

#[test]
fn extract_command_skips_env_vars() {
    assert_eq!(extract_command_name("FOO=bar mycommand"), "mycommand");
    assert_eq!(extract_command_name("A=1 B=2 gcc main.c"), "gcc");
}

#[test]
fn extract_command_handles_sudo() {
    assert_eq!(extract_command_name("sudo pacman -S vim"), "pacman");
}

#[test]
fn extract_command_edge_cases() {
    assert_eq!(extract_command_name("   "), "");
    assert_eq!(extract_command_name("  # note "), "# note");
    assert_eq!(extract_command_name("sudo"), "sudo");
    assert_eq!(extract_command_name("--opt=1 ls"), "--opt=1");
    assert_eq!(extract_command_name("A=1"), "");
}

#[test]
fn parse_extended_format() {
    let parser = ZshHistoryParser::new();
    let entries = parser.parse_content(": 1702400000:0;git status\n");

    assert_eq!(entries.len(), 1);
    assert_eq!(entries[0].command, "git");
    assert!(entries[0].timestamp.is_some());
}

#[test]
fn parse_multiline_command() {
    let parser = ZshHistoryParser::new();
    let content = ": 1702400000:0;echo hello\\\nworld\n";
    let entries = parser.parse_content(content);

    assert_eq!(entries.len(), 1);
    assert_eq!(entries[0].command, "echo");
}

#[test]
fn parse_simple_format() {
    let parser = ZshHistoryParser::new();
    let entries = parser.parse_content("ls -la\ncd ..\n");

    assert_eq!(entries.len(), 2);
    assert_eq!(entries[0].command, "ls");
    assert_eq!(entries[1].command, "cd");
    assert!(entries[0].timestamp.is_none());
}

#[test]
fn timestamp_parsing() {
    let parser = ZshHistoryParser::new();
    let entries = parser.parse_content(": 1702400000:0;test\n");

    let ts = entries[0].timestamp.unwrap();
    let dt = time::OffsetDateTime::from_unix_timestamp(ts.unix).unwrap();
    assert!(dt.year() >= 2023);
}

#[test]
fn handles_real_world_format() {
    let content = r#": 1765024056:0;ls -la ~/.zshrc
: 1765024162:0;source ~/.zshrc
: 1765024284:0;micro ~/.zshrc
: 1765034660:0;# Nerd Fonts Paket installieren\
sudo pacman -S ttf-jetbrains-mono-nerd\
\
# Font Cache aktualisieren\
fc-cache -fv
"#;
    let parser = ZshHistoryParser::new();
    let entries = parser.parse_content(content);

    assert_eq!(entries.len(), 4);
    assert_eq!(entries[0].command, "ls");
    assert_eq!(entries[1].command, "source");
    assert_eq!(entries[2].command, "micro");
    assert!(entries[3].command.starts_with('#'));
}

#[test]
fn parse_line_fields() {
    let parser = ZshHistoryParser::new().preserve_full_lines(true);
    let entry = parser.parse_line(": 86400:12;sudo make install", 9).unwrap();
    assert_eq!(entry.command, "make");
    assert_eq!(entry.full_line, "sudo make install");
    assert_eq!(entry.duration, Some(12));
    assert_eq!(entry.line_number, 9);
    let ts = entry.timestamp.unwrap();
    assert_eq!(ts.unix, 86400);
    assert_eq!(ts.hour, 0);
    assert_eq!(ts.weekday, 5);
    assert!(parser.parse_line(": 1:0 no semicolon", 1).is_none());
    assert!(parser.parse_line("# comment", 1).is_none());
    assert!(parser.parse_line("", 1).is_none());
    let bad = parser.parse_line(": abc:x;ls", 2).unwrap();
    assert!(bad.timestamp.is_none());
    assert!(bad.duration.is_none());
}

#[test]
fn parse_content_numbers_lines_and_handles_crlf() {
    let parser = ZshHistoryParser::new();
    let entries = parser.parse_content("# c\r\nls\r\nfoo\\\nbar\ncat x");
    assert_eq!(entries.len(), 3);
    assert_eq!(entries[0].command, "ls");
    assert_eq!(entries[0].line_number, 2);
    assert_eq!(entries[1].command, "foo");
    assert_eq!(entries[1].line_number, 3);
    assert_eq!(entries[2].command, "cat");
    assert_eq!(entries[2].line_number, 5);
}

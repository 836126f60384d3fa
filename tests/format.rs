use tty_mood::format::{center, hrule, hrule_double, right_align, truncate, BoxBuilder, BoxStyle, Indenter, Stamp, Table};

#[test]
fn box_builder_basic() {
    let output = BoxBuilder::new()
        .title("TEST")
        .line("Hello")
        .line("World")
        .build();

    assert!(output.contains("TEST"));
    assert!(output.contains("Hello"));
    assert!(output.contains("World"));
    assert!(output.contains("┌"));
    assert!(output.contains("└"));
}

#[test]
fn box_builder_double_style() {
    let output = BoxBuilder::new()
        .style(BoxStyle::Double)
        .title("DOUBLE")
        .build();

    assert!(output.contains("╔"));
    assert!(output.contains("╝"));
}

#[test]
fn stamp_render() {
    let stamp = Stamp::NullBureau.render();
    assert!(stamp.contains("NULL BUREAU"));
    assert!(stamp.contains("[="));
}

#[test]
fn stamp_inline() {
    let stamp = Stamp::Filed.inline();
    assert_eq!(stamp, "[STAMP: FILED - NO ACTION REQUIRED]");
}

#[test]
fn table_basic() {
    let table = Table::new()
        .row("KEY1", "value1")
        .row("LONGER_KEY", "value2")
        .build();

    assert!(table.contains("KEY1"));
    assert!(table.contains("LONGER_KEY"));
    assert!(table.contains(": "));
}

#[test]
fn truncate_short_string() {
    assert_eq!(truncate("hello", 10), "hello");
}

#[test]
fn truncate_long_string() {
    let result = truncate("hello world", 8);
    assert_eq!(result.chars().count(), 8);
    assert!(result.ends_with('…'));
}

#[test]
fn center_string() {
    let centered = center("hi", 6);
    assert_eq!(centered, "  hi  ");
}

#[test]
fn right_align_string() {
    let aligned = right_align("hi", 6);
    assert_eq!(aligned, "    hi");
}

#[test]
fn box_exact_layout() {
    let output = BoxBuilder::new().min_width(6).title("AB").line("xy").build();
    let expected = "┌──────┐\n│  AB  │\n├──────┤\n│ xy   │\n└──────┘\n";
    assert_eq!(output, expected);
}

#[test]
fn box_grows_for_long_lines() {
    let output = BoxBuilder::new().min_width(2).padding(2).line("abc").build();
    assert_eq!(output, "┌───────┐\n│  abc  │\n└───────┘\n");
}

#[test]
fn stamp_render_exact() {
    let stamp = Stamp::Void.render();
    let bar = "=".repeat("VOID - RETROACTIVELY".chars().count() + 2);
    let expected = format!("[{}]\n[ VOID - RETROACTIVELY ]\n[{}]\n", bar, bar);
    assert_eq!(stamp, expected);
}

#[test]
fn table_pads_keys() {
    let table = Table::new().row("A", "1").row("BBB", "2").build();
    assert_eq!(table, "A  : 1\nBBB: 2\n");
}

#[test]
fn table_fixed_key_width_and_separator() {
    let table = Table::new().separator(" = ").key_width(5).row("KEY", "v").build();
    assert_eq!(table, "KEY   = v\n");
}

#[test]
fn table_empty_builds_nothing() {
    assert_eq!(Table::new().build(), "");
}

#[test]
fn indenter_prefixes_every_line() {
    let text = Indenter::spaces(2).line("a").lines(vec!["b".to_string(), "c".to_string()]).build();
    assert_eq!(text, "  a\n  b\n  c\n");
    assert_eq!(Indenter::new("> ").line("x").build(), "> x\n");
}

#[test]
fn truncate_to_one_gives_ellipsis() {
    assert_eq!(truncate("hello", 1), "…");
    assert_eq!(truncate("hello", 0), "…");
    assert_eq!(truncate("hello", 3), "he…");
}

#[test]
fn center_odd_padding_goes_right() {
    assert_eq!(center("hi", 5), " hi  ");
    assert_eq!(center("hello", 3), "hello");
}

#[test]
fn rules_repeat_the_line() {
    assert_eq!(hrule(3), "───");
    assert_eq!(hrule_double(2), "══");
    assert_eq!(hrule(0), "");
}

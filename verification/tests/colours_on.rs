use colored::Colorize;
use regex::Regex;
use rgrep::{collect_entries, default_strategy, format_line, render_block};

#[test]
fn format_line_should_work() {
    colored::control::set_override(true);
    let result = format_line("Hello, Tyr~", 1000, 7..10);
    let expected = format!(
        "{0: >6}:{1: <3} Hello, {2}~",
        "1000".blue(),
        "8".cyan(),
        "Tyr".red()
    );
    assert_eq!(result, expected);
}

#[test]
fn default_strategy_should_work() {
    colored::control::set_override(true);
    let input = b"hello world!\nhey Tyr";
    let pattern = Regex::new("he\\w+").unwrap();
    let result = default_strategy("src/main.rs", &input[..], &pattern).unwrap();
    let expected = [
        "src/main.rs".green().to_string(),
        format_line("hello world!", 1, 0..5),
        format_line("hey Tyr", 2, 0..3),
        String::new(),
    ];
    assert_eq!(result, expected.join("\n"));
}

#[test]
fn coloured_line_carries_the_escape_sequences() {
    colored::control::set_override(true);
    let result = format_line("Hello, Tyr~", 1000, 7..10);
    assert_eq!(
        result,
        "\u{1b}[34m  1000\u{1b}[0m:\u{1b}[36m8  \u{1b}[0m Hello, \u{1b}[31mTyr\u{1b}[0m~"
    );
}

#[test]
fn coloured_block_starts_with_the_green_path() {
    colored::control::set_override(true);
    let pattern = Regex::new("he\\w+").unwrap();
    let result = default_strategy("src/main.rs", b"hello world!\nhey Tyr", &pattern).unwrap();
    let expected = "\u{1b}[32msrc/main.rs\u{1b}[0m\n\
        \u{1b}[34m     1\u{1b}[0m:\u{1b}[36m1  \u{1b}[0m \u{1b}[31mhello\u{1b}[0m world!\n\
        \u{1b}[34m     2\u{1b}[0m:\u{1b}[36m1  \u{1b}[0m \u{1b}[31mhey\u{1b}[0m Tyr\n";
    assert_eq!(result, expected);
}

#[test]
fn coloured_column_counts_characters() {
    colored::control::set_override(true);
    let result = format_line("你好 Tyr", 3, 7..10);
    assert_eq!(
        result,
        "\u{1b}[34m     3\u{1b}[0m:\u{1b}[36m4  \u{1b}[0m 你好 \u{1b}[31mTyr\u{1b}[0m"
    );
}

#[test]
fn formatting_twice_gives_the_same_text() {
    colored::control::set_override(true);
    let first = format_line("one two three", 12, 4..7);
    let second = format_line("one two three", 12, 4..7);
    assert_eq!(first, second);
}

#[test]
fn entries_are_joined_by_line_breaks() {
    colored::control::set_override(true);
    let lines = vec![Some(String::from("ab")), Some(String::from("xb"))];
    let pattern = Regex::new("b").unwrap();
    let entries = collect_entries(&lines, &pattern);
    assert_eq!(entries.len(), 2);
    let block = render_block("p", &entries);
    assert_eq!(block, format!("p\n{}\n{}\n", entries[0], entries[1]));
    assert_ne!(entries[0], "ab");
}

#[test]
fn colour_goes_on_behind_a_reset_inside_the_match() {
    colored::control::set_override(true);
    let result = format_line("a\u{1b}[0mb c", 1, 0..6);
    assert_eq!(
        result,
        "\u{1b}[34m     1\u{1b}[0m:\u{1b}[36m1  \u{1b}[0m \u{1b}[31ma\u{1b}[0m\u{1b}[31mb\u{1b}[0m c"
    );
}

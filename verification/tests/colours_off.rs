use regex::Regex;
use rgrep::line::decimal_text;
use rgrep::{
    assemble_line, collect_entries, default_strategy, format_line, is_match_range, read_chunk,
    render_block,
    scan_lines, scan_target, split_lines, ErrorKind, GrepConfig, GrepError, Target,
};
use std::io::{BufRead, BufReader};

fn some(text: &str) -> Option<String> {
    Some(String::from(text))
}

fn target(path: &str, content: &str) -> Target {
    Target { path: String::from(path), content: content.as_bytes().to_vec() }
}

fn std_lines(input: &[u8]) -> Vec<Option<String>> {
    BufReader::new(input).lines().map(|line| line.ok()).collect()
}

#[test]
fn plain_line_has_number_column_and_text() {
    colored::control::set_override(false);
    assert_eq!(format_line("Hello, Tyr~", 1000, 7..10), "  1000:8   Hello, Tyr~");
}

#[test]
fn number_field_is_six_wide_and_right_aligned() {
    colored::control::set_override(false);
    assert_eq!(format_line("abc", 1, 0..1), "     1:1   abc");
    assert_eq!(format_line("abc", 123456, 0..1), "123456:1   abc");
    assert_eq!(format_line("abc", 1234567, 1..2), "1234567:2   abc");
}

#[test]
fn column_field_is_three_wide_and_left_aligned() {
    colored::control::set_override(false);
    let line = "0123456789012 x";
    assert_eq!(format_line(line, 7, 9..10), "     7:10  0123456789012 x");
    let long = "a".repeat(120);
    assert_eq!(format_line(&long, 7, 100..101), format!("     7:101 {}", long));
    assert_eq!(format_line(&long, 7, 99..100), format!("     7:100 {}", long));
    let longer = "a".repeat(1200);
    assert_eq!(format_line(&longer, 7, 1000..1001), format!("     7:1001 {}", longer));
}

#[test]
fn column_is_counted_in_characters_not_bytes() {
    colored::control::set_override(false);
    assert_eq!(format_line("你好 Tyr", 3, 7..10), "     3:4   你好 Tyr");
    assert_eq!(format_line("héllo wörld", 1, 7..13), "     1:7   héllo wörld");
}

#[test]
fn empty_match_and_match_at_the_ends() {
    colored::control::set_override(false);
    assert_eq!(format_line("abc", 2, 0..0), "     2:1   abc");
    assert_eq!(format_line("abc", 2, 3..3), "     2:4   abc");
    assert_eq!(format_line("abc", 2, 0..3), "     2:1   abc");
    assert_eq!(format_line("", 2, 0..0), "     2:1   ");
}

#[test]
fn plain_formatting_twice_gives_the_same_text() {
    colored::control::set_override(false);
    assert_eq!(format_line("one two", 5, 4..7), format_line("one two", 5, 4..7));
}

#[test]
fn decimal_text_writes_numbers() {
    assert_eq!(decimal_text(0), "0");
    assert_eq!(decimal_text(7), "7");
    assert_eq!(decimal_text(10), "10");
    assert_eq!(decimal_text(1000), "1000");
    assert_eq!(decimal_text(9081726354), "9081726354");
    assert_eq!(decimal_text(u128::MAX), u128::MAX.to_string());
}

#[test]
fn assemble_line_puts_the_parts_in_order() {
    assert_eq!(assemble_line("  12", "3 ", "ab", "cd", "ef"), "  12:3  abcdef");
    assert_eq!(assemble_line("", "", "", "", ""), ": ");
}

#[test]
fn render_block_ends_every_line() {
    let entries = vec![String::from("one"), String::from("two"), String::from("three")];
    assert_eq!(render_block("path", &entries), "path\none\ntwo\nthree\n");
    assert_eq!(render_block("path", &[String::from("one")].to_vec()), "path\none\n");
    assert_eq!(render_block("path", &Vec::new()), "path\n\n");
}

#[test]
fn scan_writes_the_path_and_the_matching_lines() {
    colored::control::set_override(false);
    let lines = vec![some("hello world!"), some("hey Tyr")];
    let pattern = Regex::new("he\\w+").unwrap();
    let block = scan_lines("src/main.rs", &lines, &pattern);
    assert_eq!(block, "src/main.rs\n     1:1   hello world!\n     2:1   hey Tyr\n");
    let same = default_strategy("src/main.rs", b"hello world!\nhey Tyr", &pattern).unwrap();
    assert_eq!(same, block);
}

#[test]
fn scan_without_a_match_writes_nothing() {
    colored::control::set_override(false);
    let lines = vec![some("alpha"), some("beta")];
    let pattern = Regex::new("z+").unwrap();
    assert_eq!(scan_lines("some/file", &lines, &pattern), "");
    assert_eq!(scan_lines("some/file", &Vec::new(), &pattern), "");
    assert_eq!(default_strategy("some/file", b"alpha\nbeta\n", &pattern).unwrap(), "");
    assert_eq!(default_strategy("some/file", b"", &pattern).unwrap(), "");
}

#[test]
fn scan_lists_matches_by_ascending_line_number() {
    colored::control::set_override(false);
    let lines = vec![some("no"), some("a tick"), some("nothing"), some("tock tick"), some("tick")];
    let pattern = Regex::new("tick").unwrap();
    let entries = collect_entries(&lines, &pattern);
    assert_eq!(
        entries,
        vec![
            String::from("     2:3   a tick"),
            String::from("     4:6   tock tick"),
            String::from("     5:1   tick"),
        ]
    );
}

#[test]
fn only_the_first_match_of_a_line_counts() {
    colored::control::set_override(false);
    let lines = vec![some("xx ab ab ab")];
    let pattern = Regex::new("ab").unwrap();
    assert_eq!(collect_entries(&lines, &pattern), vec![String::from("     1:4   xx ab ab ab")]);
}

#[test]
fn a_line_that_could_not_be_read_still_counts() {
    colored::control::set_override(false);
    let lines = vec![some("hey"), None, some("hello")];
    let pattern = Regex::new("he").unwrap();
    let block = scan_lines("f", &lines, &pattern);
    assert_eq!(block, "f\n     1:1   hey\n     3:1   hello\n");
    let same = default_strategy("f", b"hey\n\xff\xfe he\nhello\n", &pattern).unwrap();
    assert_eq!(same, block);
}

#[test]
fn compile_gives_the_pattern_error() {
    let config = GrepConfig::new(String::from("(unclosed"), String::from("*.rs"));
    let error = config.compile().unwrap_err();
    assert!(matches!(error, GrepError::GegexPatternError(_)));
    assert_eq!(error.kind(), ErrorKind::Pattern);
    assert_eq!(error.message(), "Regex pattern error");
}

#[test]
fn compile_gives_the_expression() {
    let config = GrepConfig::new(String::from("he\\w+"), String::from("*.rs"));
    let re = config.compile().unwrap();
    assert_eq!(re.as_str(), "he\\w+");
    assert_eq!(re.find("oh hey").map(|m| m.range()), Some(3..6));
}

#[test]
fn invalid_pattern_ends_the_run_before_any_target() {
    let config = GrepConfig::new(String::from("a{2,1}"), String::from("[unbalanced"));
    let result = config.match_with(
        |_: &Target, _: &Regex| -> Result<String, GrepError> { panic!("no file is scanned") },
        Ok(vec![Some(target("a.txt", "aa"))]),
    );
    assert!(matches!(result, Err(GrepError::GegexPatternError(_))));
    assert!(matches!(
        config.match_with_default_strategy(Ok(vec![Some(target("a.txt", "aa"))])),
        Err(GrepError::GegexPatternError(_))
    ));
    assert!(matches!(
        config.match_with_default_strategy(Err(glob::glob(&config.glob).err().unwrap())),
        Err(GrepError::GegexPatternError(_))
    ));
}

#[test]
fn invalid_glob_gives_the_glob_error() {
    let config = GrepConfig::new(String::from("he\\w+"), String::from("src/[unbalanced"));
    let listing = glob::glob(&config.glob).map(|_| Vec::new());
    let error = config
        .match_with(
            |_: &Target, _: &Regex| -> Result<String, GrepError> { panic!("no file is scanned") },
            listing,
        )
        .unwrap_err();
    assert!(matches!(error, GrepError::GlobPatternError(_)));
    assert_eq!(error.kind(), ErrorKind::Glob);
    assert_eq!(error.message(), "Glob pattern error");
    let again = glob::glob(&config.glob).map(|_| Vec::new());
    assert!(matches!(
        config.match_with_default_strategy(again),
        Err(GrepError::GlobPatternError(_))
    ));
}

#[test]
fn io_error_has_its_kind_and_message() {
    let error = GrepError::IoError(std::io::Error::new(std::io::ErrorKind::Other, "broken"));
    assert_eq!(error.kind(), ErrorKind::Io);
    assert_eq!(error.message(), "I/O error");
}

#[test]
fn unreadable_file_is_skipped_and_the_others_are_scanned() {
    colored::control::set_override(false);
    let config = GrepConfig::new(String::from("he\\w+"), String::from("*.txt"));
    let targets = vec![
        Some(target("a.txt", "hello world!\nhey Tyr")),
        None,
        Some(target("b.txt", "no match\n")),
        Some(target("c.txt", "oh hello\r\n")),
    ];
    let outcomes = config.match_with_default_strategy(Ok(targets)).unwrap();
    assert_eq!(outcomes.len(), 4);
    assert_eq!(
        outcomes[0].as_ref().unwrap().as_ref().unwrap(),
        "a.txt\n     1:1   hello world!\n     2:1   hey Tyr\n"
    );
    assert!(outcomes[1].is_none());
    assert_eq!(outcomes[2].as_ref().unwrap().as_ref().unwrap(), "");
    assert_eq!(outcomes[3].as_ref().unwrap().as_ref().unwrap(), "c.txt\n     1:4   oh hello\n");
}

#[test]
fn an_error_of_the_strategy_stays_with_its_target() {
    colored::control::set_override(false);
    let config = GrepConfig::new(String::from("x"), String::from("*"));
    let targets = vec![
        Some(target("bad", "x")),
        Some(target("good", "x")),
    ];
    let outcomes = config
        .match_with(
            |t: &Target, re: &Regex| -> Result<String, GrepError> {
                if t.path == "bad" {
                    Err(GrepError::IoError(std::io::Error::new(std::io::ErrorKind::Other, "full")))
                } else {
                    scan_target(t, re)
                }
            },
            Ok(targets),
        )
        .unwrap();
    assert!(matches!(outcomes[0], Some(Err(GrepError::IoError(_)))));
    assert_eq!(outcomes[1].as_ref().unwrap().as_ref().unwrap(), "good\n     1:1   x\n");
}

#[test]
fn split_lines_cuts_after_line_feeds() {
    assert_eq!(split_lines(b""), Vec::<Option<String>>::new());
    assert_eq!(split_lines(b"a"), vec![some("a")]);
    assert_eq!(split_lines(b"a\n"), vec![some("a")]);
    assert_eq!(split_lines(b"a\nb"), vec![some("a"), some("b")]);
    assert_eq!(split_lines(b"\n\n"), vec![some(""), some("")]);
    assert_eq!(split_lines(b"hello world!\nhey Tyr"), vec![some("hello world!"), some("hey Tyr")]);
}

#[test]
fn split_lines_takes_the_carriage_return_with_the_line_feed() {
    assert_eq!(split_lines(b"a\r\nb\r\n"), vec![some("a"), some("b")]);
    assert_eq!(split_lines(b"a\r"), vec![some("a\r")]);
    assert_eq!(split_lines(b"a\r\r\n"), vec![some("a\r")]);
    assert_eq!(split_lines(b"a\rb\n"), vec![some("a\rb")]);
    assert_eq!(split_lines(b"\r\n"), vec![some("")]);
}

#[test]
fn split_lines_skips_what_is_not_text() {
    assert_eq!(split_lines(b"ok\n\xff\xfe\nfine\n"), vec![some("ok"), None, some("fine")]);
    assert_eq!(split_lines(b"\xc3"), vec![None]);
    assert_eq!(split_lines("你好\n".as_bytes()), vec![some("你好")]);
}

#[test]
fn split_lines_reads_as_a_buffered_reader_does() {
    let inputs: [&[u8]; 12] = [
        b"",
        b"a",
        b"a\n",
        b"a\nb",
        b"a\r\nb\r",
        b"\n\n",
        b"\r\n",
        b"x\r\r\n",
        b"ok\n\xff\xfe\nfine\n",
        b"\xe4\xbd\n\xa0ok",
        b"tail\xff",
        b"one\ntwo\nthree\n\n",
    ];
    for input in inputs {
        assert_eq!(split_lines(input), std_lines(input));
    }
}

#[test]
fn read_chunk_strips_the_break() {
    assert_eq!(read_chunk(b"abc\n"), some("abc"));
    assert_eq!(read_chunk(b"abc\r\n"), some("abc"));
    assert_eq!(read_chunk(b"abc"), some("abc"));
    assert_eq!(read_chunk(b"abc\r"), some("abc\r"));
    assert_eq!(read_chunk(b"\xff\n"), None);
}

#[test]
fn errors_convert_from_their_causes() {
    let from_glob = GrepError::from(glob::glob("[").err().unwrap());
    assert!(matches!(from_glob, GrepError::GlobPatternError(_)));
    let from_regex = GrepError::from(Regex::new("(").unwrap_err());
    assert!(matches!(from_regex, GrepError::GegexPatternError(_)));
    let from_io = GrepError::from(std::io::Error::new(std::io::ErrorKind::Other, "x"));
    assert!(matches!(from_io, GrepError::IoError(_)));
}

#[test]
fn match_range_lies_between_characters() {
    assert!(is_match_range("你好 Tyr", &(7..10)));
    assert!(is_match_range("你好 Tyr", &(0..3)));
    assert!(is_match_range("abc", &(3..3)));
    assert!(is_match_range("", &(0..0)));
    assert!(!is_match_range("你好 Tyr", &(1..3)));
    assert!(!is_match_range("你好 Tyr", &(0..2)));
    assert!(!is_match_range("abc", &(2..1)));
    assert!(!is_match_range("abc", &(1..4)));
}

use highlighter::{DefaultHighlighter, Highlighter};
use nu_ansi_term::{Color, Style};

fn words(list: &[&str]) -> Vec<String> {
    list.iter().map(|word| word.to_string()).collect()
}

fn neutral() -> Style {
    Style { foreground: Some(Color::White), ..Style::default() }
}

fn matched() -> Style {
    Style { foreground: Some(Color::Green), ..Style::default() }
}

fn not_matched() -> Style {
    Style { foreground: Some(Color::Red), ..Style::default() }
}

fn neutral_bold() -> Style {
    Style { foreground: Some(Color::White), is_bold: true, ..Style::default() }
}

#[test]
fn no_keywords_gives_one_neutral_segment() {
    let highlighter = DefaultHighlighter::new(vec![]);
    let styled = highlighter.highlight("ls -la");
    assert_eq!(styled.buffer, vec![(neutral(), "ls -la".to_string())]);
}

#[test]
fn keyword_at_the_start_leaves_an_empty_prefix() {
    let highlighter = DefaultHighlighter::new(words(&["ls"]));
    let styled = highlighter.highlight("ls -la");
    assert_eq!(
        styled.buffer,
        vec![
            (neutral(), "".to_string()),
            (matched(), "ls".to_string()),
            (neutral_bold(), " -la".to_string()),
        ]
    );
}

#[test]
fn longer_keyword_wins_over_its_own_prefix() {
    let highlighter = DefaultHighlighter::new(words(&["ls", "lsblk"]));
    let styled = highlighter.highlight("run lsblk now");
    assert_eq!(
        styled.buffer,
        vec![
            (neutral(), "run ".to_string()),
            (matched(), "lsblk".to_string()),
            (neutral_bold(), " now".to_string()),
        ]
    );
}

#[test]
fn unknown_command_gives_one_notmatch_segment() {
    let highlighter = DefaultHighlighter::new(words(&["git"]));
    let styled = highlighter.highlight("ls -la");
    assert_eq!(styled.buffer, vec![(not_matched(), "ls -la".to_string())]);
}

#[test]
fn only_the_first_occurrence_is_marked() {
    let highlighter = DefaultHighlighter::new(words(&["ls"]));
    let styled = highlighter.highlight("ls ls");
    assert_eq!(
        styled.buffer,
        vec![
            (neutral(), "".to_string()),
            (matched(), "ls".to_string()),
            (neutral_bold(), " ls".to_string()),
        ]
    );
}

#[test]
fn longer_keyword_wins_whatever_the_order() {
    let line = "ls then lsblk";
    let expected = vec![
        (neutral(), "ls then ".to_string()),
        (matched(), "lsblk".to_string()),
        (neutral_bold(), "".to_string()),
    ];
    let ascending = DefaultHighlighter::new(words(&["ls", "lsblk"]));
    assert_eq!(ascending.highlight(line).buffer, expected);
    let descending = DefaultHighlighter::new(words(&["lsblk", "ls"]));
    assert_eq!(descending.highlight(line).buffer, expected);
}

#[test]
fn longer_keyword_wins_when_it_stands_later_in_the_line() {
    let highlighter = DefaultHighlighter::new(words(&["cd", "make"]));
    let styled = highlighter.highlight("cd src; make all");
    assert_eq!(
        styled.buffer,
        vec![
            (neutral(), "cd src; ".to_string()),
            (matched(), "make".to_string()),
            (neutral_bold(), " all".to_string()),
        ]
    );
}

#[test]
fn of_equal_lengths_the_first_configured_wins() {
    let line = "cd ab";
    let first = DefaultHighlighter::new(words(&["ab", "cd"]));
    assert_eq!(
        first.highlight(line).buffer,
        vec![
            (neutral(), "cd ".to_string()),
            (matched(), "ab".to_string()),
            (neutral_bold(), "".to_string()),
        ]
    );
    let second = DefaultHighlighter::new(words(&["cd", "ab"]));
    assert_eq!(
        second.highlight(line).buffer,
        vec![
            (neutral(), "".to_string()),
            (matched(), "cd".to_string()),
            (neutral_bold(), " ab".to_string()),
        ]
    );
}

#[test]
fn lengths_are_counted_in_bytes() {
    // Two characters in four bytes are longer than three characters in three.
    let highlighter = DefaultHighlighter::new(words(&["abc", "\u{e9}\u{e9}"]));
    let styled = highlighter.highlight("abc \u{e9}\u{e9}!");
    assert_eq!(
        styled.buffer,
        vec![
            (neutral(), "abc ".to_string()),
            (matched(), "\u{e9}\u{e9}".to_string()),
            (neutral_bold(), "!".to_string()),
        ]
    );
    // One character in two bytes ties with two characters in two bytes.
    let tied = DefaultHighlighter::new(words(&["ab", "\u{e9}"]));
    assert_eq!(tied.highlight("\u{e9}ab").buffer[1], (matched(), "ab".to_string()));
    let tied = DefaultHighlighter::new(words(&["\u{e9}", "ab"]));
    assert_eq!(tied.highlight("\u{e9}ab").buffer[1], (matched(), "\u{e9}".to_string()));
}

#[test]
fn offsets_hold_behind_characters_of_several_bytes() {
    let highlighter = DefaultHighlighter::new(words(&["ls"]));
    let styled = highlighter.highlight("h\u{e9}llo \u{1f600} ls \u{4e16}\u{754c}");
    assert_eq!(
        styled.buffer,
        vec![
            (neutral(), "h\u{e9}llo \u{1f600} ".to_string()),
            (matched(), "ls".to_string()),
            (neutral_bold(), " \u{4e16}\u{754c}".to_string()),
        ]
    );
}

#[test]
fn keyword_in_the_middle_of_a_word_is_found() {
    let highlighter = DefaultHighlighter::new(words(&["cat"]));
    let styled = highlighter.highlight("concatenate");
    assert_eq!(
        styled.buffer,
        vec![
            (neutral(), "con".to_string()),
            (matched(), "cat".to_string()),
            (neutral_bold(), "enate".to_string()),
        ]
    );
}

#[test]
fn keyword_that_is_the_whole_line() {
    let highlighter = DefaultHighlighter::new(words(&["ls"]));
    let styled = highlighter.highlight("ls");
    assert_eq!(
        styled.buffer,
        vec![
            (neutral(), "".to_string()),
            (matched(), "ls".to_string()),
            (neutral_bold(), "".to_string()),
        ]
    );
}

#[test]
fn keyword_longer_than_the_line_does_not_match() {
    let highlighter = DefaultHighlighter::new(words(&["lsblk"]));
    let styled = highlighter.highlight("ls");
    assert_eq!(styled.buffer, vec![(not_matched(), "ls".to_string())]);
}

#[test]
fn overlapping_start_is_searched_from_every_offset() {
    let highlighter = DefaultHighlighter::new(words(&["aab"]));
    let styled = highlighter.highlight("aaab");
    assert_eq!(
        styled.buffer,
        vec![
            (neutral(), "a".to_string()),
            (matched(), "aab".to_string()),
            (neutral_bold(), "".to_string()),
        ]
    );
}

#[test]
fn empty_line_without_keywords() {
    let highlighter = DefaultHighlighter::new(vec![]);
    let styled = highlighter.highlight("");
    assert_eq!(styled.buffer, vec![(neutral(), "".to_string())]);
}

#[test]
fn empty_line_with_keywords() {
    let highlighter = DefaultHighlighter::new(words(&["ls"]));
    let styled = highlighter.highlight("");
    assert_eq!(styled.buffer, vec![(not_matched(), "".to_string())]);
}

#[test]
fn empty_keyword_matches_at_the_start_of_the_line() {
    let highlighter = DefaultHighlighter::new(words(&[""]));
    let styled = highlighter.highlight("ls -la");
    assert_eq!(
        styled.buffer,
        vec![
            (neutral(), "".to_string()),
            (matched(), "".to_string()),
            (neutral_bold(), "ls -la".to_string()),
        ]
    );
}

#[test]
fn empty_keyword_matches_the_empty_line() {
    let highlighter = DefaultHighlighter::new(words(&[""]));
    let styled = highlighter.highlight("");
    assert_eq!(
        styled.buffer,
        vec![
            (neutral(), "".to_string()),
            (matched(), "".to_string()),
            (neutral_bold(), "".to_string()),
        ]
    );
}

#[test]
fn empty_keyword_loses_to_any_other_match() {
    let highlighter = DefaultHighlighter::new(words(&["", "la"]));
    let styled = highlighter.highlight("ls -la");
    assert_eq!(
        styled.buffer,
        vec![
            (neutral(), "ls -".to_string()),
            (matched(), "la".to_string()),
            (neutral_bold(), "".to_string()),
        ]
    );
    let styled = highlighter.highlight("pwd");
    assert_eq!(
        styled.buffer,
        vec![
            (neutral(), "".to_string()),
            (matched(), "".to_string()),
            (neutral_bold(), "pwd".to_string()),
        ]
    );
}

#[test]
fn repeated_keywords_change_nothing() {
    let once = DefaultHighlighter::new(words(&["ls", "git"]));
    let twice = DefaultHighlighter::new(words(&["ls", "git", "ls", "git", "ls"]));
    for line in ["ls -la", "git status", "echo", "", "gitls"] {
        assert_eq!(once.highlight(line).buffer, twice.highlight(line).buffer);
    }
}

#[test]
fn segments_rejoin_to_the_line() {
    let highlighters = [
        DefaultHighlighter::new(vec![]),
        DefaultHighlighter::new(words(&["ls"])),
        DefaultHighlighter::new(words(&["ls", "lsblk", "git", ""])),
        DefaultHighlighter::new(words(&["\u{e9}", " "])),
    ];
    let lines = ["", " ", "ls", "  ls -la  ", "run lsblk now", "git\tpush\n", "caf\u{e9} ls", "\u{1f600}"];
    for highlighter in highlighters.iter() {
        for line in lines {
            let styled = highlighter.highlight(line);
            assert_eq!(styled.raw_string(), line);
            let joined: String = styled.buffer.iter().map(|segment| segment.1.as_str()).collect();
            assert_eq!(joined, line);
        }
    }
}

#[test]
fn default_has_no_keywords_and_the_default_colours() {
    let highlighter = DefaultHighlighter::default();
    assert_eq!(highlighter.highlight("ls -la").buffer, vec![(neutral(), "ls -la".to_string())]);
    let keyed = DefaultHighlighter::new(words(&["ls"]));
    let styled = keyed.highlight("als");
    assert_eq!(styled.buffer[0].0, Color::White.normal());
    assert_eq!(styled.buffer[1].0, Color::Green.normal());
    assert_eq!(styled.buffer[2].0, Color::White.bold());
    assert_eq!(keyed.highlight("x").buffer[0].0, Color::Red.normal());
}

#[test]
fn default_colour_constants() {
    assert_eq!(highlighter::highlighter::DEFAULT_BUFFER_MATCH_COLOR, Color::Green);
    assert_eq!(highlighter::highlighter::DEFAULT_BUFFER_NEUTRAL_COLOR, Color::White);
    assert_eq!(highlighter::highlighter::DEFAULT_BUFFER_NOTMATCH_COLOR, Color::Red);
}

#[test]
fn changed_colours_show_in_the_next_result() {
    let mut highlighter = DefaultHighlighter::new(words(&["ls"]));
    let earlier_match = highlighter.highlight("a ls b");
    let earlier_miss = highlighter.highlight("pwd");
    highlighter.change_colors(Color::Blue, Color::Rgb(1, 2, 3), Color::Fixed(7));
    let later_match = highlighter.highlight("a ls b");
    assert_eq!(
        later_match.buffer,
        vec![
            (Style::new().fg(Color::Fixed(7)), "a ".to_string()),
            (Style::new().fg(Color::Blue), "ls".to_string()),
            (Style::new().bold().fg(Color::Fixed(7)), " b".to_string()),
        ]
    );
    let later_miss = highlighter.highlight("pwd");
    assert_eq!(later_miss.buffer, vec![(Style::new().fg(Color::Rgb(1, 2, 3)), "pwd".to_string())]);
    // What was returned before the change is as it was.
    assert_eq!(
        earlier_match.buffer,
        vec![
            (neutral(), "a ".to_string()),
            (matched(), "ls".to_string()),
            (neutral_bold(), " b".to_string()),
        ]
    );
    assert_eq!(earlier_miss.buffer, vec![(not_matched(), "pwd".to_string())]);
}

#[test]
fn changed_colours_leave_the_keywords_alone() {
    let mut highlighter = DefaultHighlighter::new(words(&["ls", "lsblk"]));
    highlighter.change_colors(Color::Cyan, Color::Purple, Color::Yellow);
    let styled = highlighter.highlight("run lsblk now");
    assert_eq!(styled.buffer[1], (Style::new().fg(Color::Cyan), "lsblk".to_string()));
    let mut empty = DefaultHighlighter::default();
    empty.change_colors(Color::Cyan, Color::Purple, Color::Yellow);
    assert_eq!(empty.highlight("ls").buffer, vec![(Style::new().fg(Color::Yellow), "ls".to_string())]);
}

#[test]
fn changing_colours_twice_keeps_the_last() {
    let mut highlighter = DefaultHighlighter::new(words(&["ls"]));
    highlighter.change_colors(Color::Blue, Color::Blue, Color::Blue);
    highlighter.change_colors(Color::Green, Color::Red, Color::White);
    assert_eq!(
        highlighter.highlight("ls").buffer,
        DefaultHighlighter::new(words(&["ls"])).highlight("ls").buffer
    );
}

#[test]
fn styles_set_the_colour_and_bold_and_nothing_else() {
    let highlighter = DefaultHighlighter::new(words(&["ls"]));
    let styled = highlighter.highlight("ls -la");
    let prefix = styled.buffer[0].0;
    assert_eq!(prefix.foreground, Some(Color::White));
    assert_eq!(prefix.background, None);
    assert!(!prefix.is_bold);
    assert!(Style { foreground: None, ..prefix }.is_plain());
    let suffix = styled.buffer[2].0;
    assert_eq!(suffix.foreground, Some(Color::White));
    assert!(suffix.is_bold);
    assert!(Style { foreground: None, is_bold: false, ..suffix }.is_plain());
    assert_ne!(prefix, suffix);
}

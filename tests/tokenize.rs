use shado::command::{has_blank_segment, split_pipes, tokenize_commands, Cmd};
use shado::text::{split_words, trimmed};

#[test]
fn test_keyword() {
    assert_eq!("test", Cmd::new("test").keyword);
}

#[test]
fn no_args() {
    assert_eq!(0, Cmd::new("test").args.len());
}

#[test]
fn one_arg() {
    assert_eq!(1, Cmd::new("test one").args.len());
}

#[test]
fn multi_args() {
    assert_eq!(3, Cmd::new("test one two three").args.len());
}

#[test]
fn segment_keeps_its_text_and_order() {
    let c = Cmd::new("  ls   -l\t-a ");
    assert_eq!(c.line, "  ls   -l\t-a ");
    assert_eq!(c.keyword, "ls");
    assert_eq!(c.args, vec!["-l".to_string(), "-a".to_string()]);
}

#[test]
fn line_without_delimiter_is_one_segment() {
    let p = tokenize_commands("  grep -n foo bar.txt\n");
    assert_eq!(p.line, "  grep -n foo bar.txt\n");
    assert_eq!(p.splits.len(), 1);
    assert_eq!(p.splits[0].keyword, "grep");
    assert_eq!(p.splits[0].args, vec!["-n".to_string(), "foo".to_string(), "bar.txt".to_string()]);
}

#[test]
fn three_segments_in_order() {
    let p = tokenize_commands("a | b | c");
    assert_eq!(p.splits.len(), 3);
    assert_eq!(p.splits[0].keyword, "a");
    assert_eq!(p.splits[1].keyword, "b");
    assert_eq!(p.splits[2].keyword, "c");
    assert_eq!(p.splits[1].line, "b");
}

#[test]
fn segments_keep_arguments() {
    let p = tokenize_commands("cat file.txt | sort -r | uniq -c\n");
    assert_eq!(p.splits.len(), 3);
    assert_eq!(p.splits[0].args, vec!["file.txt".to_string()]);
    assert_eq!(p.splits[1].keyword, "sort");
    assert_eq!(p.splits[1].args, vec!["-r".to_string()]);
    assert_eq!(p.splits[2].args, vec!["-c".to_string()]);
}

#[test]
fn pipe_without_spaces_is_no_delimiter() {
    let p = tokenize_commands("echo a|b c");
    assert_eq!(p.splits.len(), 1);
    assert_eq!(p.splits[0].args, vec!["a|b".to_string(), "c".to_string()]);
}

#[test]
fn delimiter_search_goes_left_to_right() {
    assert_eq!(split_pipes("x | | y"), vec!["x".to_string(), "| y".to_string()]);
    assert_eq!(split_pipes(""), vec!["".to_string()]);
    assert_eq!(split_pipes(" | "), vec!["".to_string(), "".to_string()]);
}

#[test]
fn blank_segments_are_found() {
    assert!(has_blank_segment("a |  | b"));
    assert!(!has_blank_segment(" | b"));
    assert!(has_blank_segment("a | \t | b"));
    assert!(!has_blank_segment("a | b"));
    assert!(!has_blank_segment("a"));
}

#[test]
fn words_split_on_unicode_whitespace() {
    assert_eq!(split_words("a\u{3000}b\u{a0} c"), vec!["a".to_string(), "b".to_string(), "c".to_string()]);
    assert_eq!(split_words("   "), Vec::<String>::new());
    assert_eq!(split_words(""), Vec::<String>::new());
}

#[test]
fn trimming_drops_outer_whitespace_only() {
    assert_eq!(trimmed("  a b \n"), "a b");
    assert_eq!(trimmed(" \t\n"), "");
    assert_eq!(trimmed("x"), "x");
}

#[test]
fn outer_whitespace_of_a_pipeline_is_trimmed() {
    let p = tokenize_commands("\t  ls  -a |  wc -l  \n");
    assert_eq!(p.splits.len(), 2);
    assert_eq!(p.splits[0].line, "ls  -a");
    assert_eq!(p.splits[0].keyword, "ls");
    assert_eq!(p.splits[0].args, vec!["-a".to_string()]);
    assert_eq!(p.splits[1].line, " wc -l");
    assert_eq!(p.splits[1].keyword, "wc");
    assert_eq!(p.splits[1].args, vec!["-l".to_string()]);
}

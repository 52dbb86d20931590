use vault::prompt::{parse_tags, strip_line_ending};

#[test]
fn line_ending_is_stripped() {
    assert_eq!(strip_line_ending("github\n"), "github");
    assert_eq!(strip_line_ending("\n"), "");
    assert_eq!(strip_line_ending("abc\r\n"), "abc");
    assert_eq!(strip_line_ending("a b \n\r\n"), "a b ");
    assert_eq!(strip_line_ending("bez konca"), "bez konca");
}

#[test]
fn tags_are_split_trimmed_and_filtered() {
    assert_eq!(parse_tags("praca, dom ,, x"), vec!["praca", "dom", "x"]);
    assert!(parse_tags("").is_empty());
    assert!(parse_tags(" , ,").is_empty());
    assert_eq!(parse_tags("jeden"), vec!["jeden"]);
}

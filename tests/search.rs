use pngme::{search, search_case_insensitive, Config};

#[test]
fn case_senstive() {
    let query = "duct";
    let content = "\
Rust: 
safe, fast, productive.
Pick three
Duct tape";

    assert_eq!(vec!["safe, fast, productive."], search(query, content));
}

#[test]
fn case_insenstive() {
    let query = "rUsT";
    let content = "\
Rust:
safe, fast, productive.
Pick three
Duct tape
Trust me";

    assert_eq!(vec!["Rust:", "Trust me"], search_case_insensitive(&query, &content));
}

#[test]
fn search_strips_line_endings() {
    let content = "one\r\ntwo\r\nthree\n";
    assert_eq!(search("o", content), vec!["one", "two"]);
    assert_eq!(search("", content), vec!["one", "two", "three"]);
}

#[test]
fn search_keeps_a_lone_carriage_return() {
    assert_eq!(search("a", "a\r"), vec!["a\r"]);
}

#[test]
fn search_keeps_empty_lines_between() {
    assert_eq!(search("", "a\n\nb"), vec!["a", "", "b"]);
    assert_eq!(search("", ""), Vec::<&str>::new());
    assert_eq!(search("", "\n"), vec![""]);
}

#[test]
fn search_matches_whole_query_only() {
    assert_eq!(search("abc", "ab\nabd\nxabcx"), vec!["xabcx"]);
    assert_eq!(search("abcd", "abc"), Vec::<&str>::new());
}

#[test]
fn search_case_insensitive_handles_non_ascii() {
    assert_eq!(search_case_insensitive("ÉTÉ", "été\nhiver"), vec!["été"]);
}

#[test]
fn config_needs_two_arguments() {
    let args = vec![String::from("prog"), String::from("q")];
    assert!(Config::new(&args, true).is_err());
}

#[test]
fn config_takes_query_and_file() {
    let args = vec![String::from("prog"), String::from("q"), String::from("f.txt")];
    let c = Config::new(&args, false).unwrap();
    assert_eq!(c.query, "q");
    assert_eq!(c.file_name, "f.txt");
    assert!(!c.case_sensitive);
}

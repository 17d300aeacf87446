use greprs::grep::Config;
use greprs::grep::Mode;
use greprs::grep::ParseOutcome;
use greprs::grep::filter;
use greprs::grep::regex_search;
use greprs::grep::search;
use greprs::text::split_lines;

#[test]
fn one_result() {
    let query = "duct";
    let contents = "\
Rust:
safe, fast, productive.
Pick three.";

    assert_eq!(vec!["safe, fast, productive."], search(query, contents, false));
}

#[test]
fn multiple_results() {
    let query = "e";
    let contents = "\
Reese's Puffs
Reese's Puffs
Peanut Butter
Chocolate Flavor";

    assert_eq!(
        vec!["Reese's Puffs", "Reese's Puffs", "Peanut Butter", "Chocolate Flavor"],
        search(query, contents, false)
    );
}

#[test]
fn case_insensitive() {
    let query = "rUsT";
    let contents = "\
Rust:
safe, fast, productive.
Pick three.";

    assert_eq!(vec!["Rust:"], search(query, contents, true));
}

#[test]
fn search_with_regex() {
    let query = "hello[0-9]";
    let contents = "\
hello1
hello2
helloABC";

    assert_eq!(vec!["hello1", "hello2"], regex_search(query, contents).unwrap());
}

#[test]
fn empty_query_returns_every_line() {
    let contents = "alpha\nbeta\ngamma";
    assert_eq!(vec!["alpha", "beta", "gamma"], search("", contents, false));
    assert_eq!(vec!["alpha", "beta", "gamma"], search("", contents, true));
}

#[test]
fn ignore_case_returns_superset() {
    let contents = "Rust:\nrust is nice\nRUST\nno match here";
    let sensitive = search("rust", contents, false);
    let insensitive = search("rust", contents, true);
    assert!(insensitive.len() >= sensitive.len());
    for line in &sensitive {
        assert!(insensitive.contains(line));
    }
    assert_eq!(vec!["rust is nice"], sensitive);
    assert_eq!(vec!["Rust:", "rust is nice", "RUST"], insensitive);
}

#[test]
fn regex_and_literal_agree_on_plain_queries() {
    let contents = "xabcy\nabab\nabc\nno";
    let literal = search("abc", contents, false);
    let regex = regex_search("abc", contents).unwrap();
    assert_eq!(literal, regex);
}

#[test]
fn filter_is_idempotent() {
    let contents = "one\ntwo\nthree\ntwo";
    let first = filter("two", contents, Mode::Literal { ignore_case: false }).unwrap();
    let second = filter("two", contents, Mode::Literal { ignore_case: false }).unwrap();
    assert_eq!(first, second);
    let r1 = filter("t.o", contents, Mode::Regex).unwrap();
    let r2 = filter("t.o", contents, Mode::Regex).unwrap();
    assert_eq!(r1, r2);
}

#[test]
fn empty_content_yields_no_lines() {
    let empty: Vec<&str> = Vec::new();
    assert_eq!(empty, search("anything", "", false));
    assert_eq!(empty, search("", "", true));
    assert_eq!(empty, regex_search("any.*thing", "").unwrap());
    assert_eq!(empty, filter("x", "", Mode::Literal { ignore_case: true }).unwrap());
}

#[test]
fn malformed_pattern_is_an_error() {
    assert!(regex_search("[", "some\ncontent").is_err());
    assert!(filter("[", "some\ncontent", Mode::Regex).is_err());
    assert!(filter("[", "some\ncontent", Mode::Literal { ignore_case: false }).is_ok());
}

#[test]
fn regex_mode_matches_within_lines() {
    let contents = "count 12 sheep\nno digits\nroom 7";
    assert_eq!(vec!["count 12 sheep", "room 7"], regex_search("[0-9]+", contents).unwrap());
}

#[test]
fn split_lines_drops_trailing_newline() {
    let empty: Vec<&str> = Vec::new();
    assert_eq!(vec!["a", "b"], split_lines("a\nb\n"));
    assert_eq!(vec!["a", "b"], split_lines("a\nb"));
    assert_eq!(vec!["a", "", "b"], split_lines("a\n\nb"));
    assert_eq!(vec![""], split_lines("\n"));
    assert_eq!(empty, split_lines(""));
}

#[test]
fn split_lines_handles_crlf_endings() {
    assert_eq!(vec!["hi", "bye"], split_lines("hi\r\nbye"));
    assert_eq!(vec!["hi", "bye"], split_lines("hi\r\nbye\r\n"));
    // a carriage return not followed by a newline stays in the line
    assert_eq!(vec!["a\r"], split_lines("a\r"));
    assert_eq!(vec!["a\rb"], split_lines("a\rb"));
}

#[test]
fn search_on_crlf_content() {
    assert_eq!(vec!["hi"], search("hi", "hi\r\nbye", false));
}

#[test]
fn ignore_case_folds_unicode() {
    assert_eq!(vec!["\u{c4}"], search("\u{e4}", "\u{c4}\nx", true));
    assert_eq!(vec!["STRASSE"], search("strasse", "STRASSE", true));
}

#[test]
fn plain_punctuation_agrees_across_modes() {
    let contents = "a_b-c,d\nx_y\nplain";
    let literal = search("_b-c,", contents, false);
    let regex = regex_search("_b-c,", contents).unwrap();
    assert_eq!(literal, regex);
    assert_eq!(vec!["a_b-c,d"], literal);
}

#[test]
fn parse_no_arguments_is_an_error() {
    let args = vec![String::from("greprs")];
    let is_path = vec![false];
    let r = Config::new(&args, &is_path);
    assert_eq!(r.err(), Some("No arguments provided"));
}

#[test]
fn parse_flags_only_asks_for_help() {
    let args = vec![String::from("greprs"), String::from("-h")];
    let is_path = vec![false, false];
    match Config::new(&args, &is_path) {
        Ok(ParseOutcome::ShowHelp) => {}
        _ => panic!("expected the help outcome"),
    }
}

#[test]
fn parse_collects_query_path_and_flags() {
    let args = vec![
        String::from("greprs"),
        String::from("-i"),
        String::from("needle"),
        String::from("haystack.txt"),
    ];
    let is_path = vec![false, false, false, true];
    match Config::new(&args, &is_path) {
        Ok(ParseOutcome::Parsed(config)) => {
            assert_eq!(config.query, "needle");
            assert_eq!(config.filepath, "haystack.txt");
            assert!(config.ignore_case);
            assert!(!config.regex);
        }
        _ => panic!("expected a parsed configuration"),
    }
}

#[test]
fn parse_help_flag_wins_over_positionals() {
    let args = vec![
        String::from("greprs"),
        String::from("-h"),
        String::from("needle"),
        String::from("haystack.txt"),
    ];
    let is_path = vec![false, false, false, true];
    match Config::new(&args, &is_path) {
        Ok(ParseOutcome::ShowHelp) => {}
        _ => panic!("expected the help outcome"),
    }
}

#[test]
fn parse_regex_flag_either_spelling() {
    let args = vec![
        String::from("greprs"),
        String::from("--regex"),
        String::from("h.llo"),
        String::from("file.txt"),
    ];
    let is_path = vec![false, false, false, true];
    match Config::new(&args, &is_path) {
        Ok(ParseOutcome::Parsed(config)) => {
            assert!(config.regex);
            assert_eq!(config.query, "h.llo");
        }
        _ => panic!("expected a parsed configuration"),
    }
}

#[test]
fn parse_path_versus_query_by_existence() {
    let args = vec![
        String::from("greprs"),
        String::from("somequery"),
        String::from("afile"),
    ];
    let is_path = vec![false, false, true];
    match Config::new(&args, &is_path) {
        Ok(ParseOutcome::Parsed(config)) => {
            assert_eq!(config.query, "somequery");
            assert_eq!(config.filepath, "afile");
        }
        _ => panic!("expected a parsed configuration"),
    }
}

use primer::collections::{count_words, word_count, WordCount};
use primer::config::Config;
use primer::search::{matching_lines, search, search_case_insensitive, select_by_key};
use primer::text::{find_char, split_lines, split_whitespace};

fn args(words: &[&str]) -> Vec<String> {
    words.iter().map(|w| w.to_string()).collect()
}

#[test]
fn arguments_are_read_in_order() {
    let config = Config::parse_args(args(&["minigrep", "duct", "poem.txt"]), false).ok().unwrap();
    assert_eq!(config.query, "duct");
    assert_eq!(config.filename, "poem.txt");
    assert!(config.case_sensitive);
    let config = Config::parse_args(args(&["x", "a", "b", "c", "d"]), true).ok().unwrap();
    assert_eq!((config.query.as_str(), config.filename.as_str()), ("a", "b"));
    assert!(!config.case_sensitive);
}

#[test]
fn missing_arguments_are_named() {
    let both = "Missing required arguments: [search_expr] [filename]";
    let file = "Missing required arguments: search_expr [filename]";
    assert_eq!(Config::parse_args(args(&[]), false).err(), Some(both));
    assert_eq!(Config::parse_args(args(&["minigrep"]), true).err(), Some(both));
    assert_eq!(Config::parse_args(args(&["minigrep", "duct"]), false).err(), Some(file));
}

#[test]
fn case_sensitive_search_finds_the_line() {
    let query = "duct";
    let contents = "Rust:\nsafe, fast, productive.\nPick three.\nDuct tape.";
    assert_eq!(vec!["safe, fast, productive."], search(query, contents));
}

#[test]
fn case_insensitive_search_finds_both_lines() {
    let query = "rUsT";
    let contents = "Rust:\nsafe, fast, productive.\nPick three.\nTrust me.";
    assert_eq!(vec!["Rust:", "Trust me."], search_case_insensitive(query, contents));
    assert!(search(query, contents).is_empty());
}

#[test]
fn case_is_folded_beyond_ascii() {
    let contents = "ÄRGER\nDobrý DEN\nno match";
    assert_eq!(vec!["ÄRGER"], search_case_insensitive("ärg", contents));
    assert_eq!(vec!["Dobrý DEN"], search_case_insensitive("OBRÝ d", contents));
}

#[test]
fn lines_end_at_line_feeds_with_or_without_carriage_return() {
    let contents = "a\r\nab\n\nba\r";
    assert_eq!(vec!["a", "ab", "ba\r"], search("a", contents));
    assert_eq!(vec!["ba\r"], search("\r", contents));
    assert_eq!(vec!["a", "ab", "", "ba\r"], search("", contents));
    assert_eq!(vec![""], search("", "\n"));
    assert!(search("", "").is_empty());
    assert!(search("a", "").is_empty());
    assert_eq!(vec!["a"], search("a", "a\n"));
    assert_eq!(vec!["x\ry"], search("y", "x\ry\n"));
}

#[test]
fn a_query_matches_only_as_a_whole() {
    assert!(search("abc", "ab\nbc\nacb").is_empty());
    assert_eq!(vec!["xabcx"], search("abc", "ab\nxabcx\nbc"));
    assert_eq!(vec!["the end"], search("end", "the end"));
    assert!(search("longer than the line", "line").is_empty());
}

#[test]
fn lines_are_selected_by_their_keys() {
    let lines = vec!["One", "Two", "Three"];
    let keys = vec![String::from("x"), String::from("needle"), String::from("a needle b")];
    assert_eq!(select_by_key(&lines, &keys, "needle"), vec!["Two", "Three"]);
    assert_eq!(select_by_key(&lines, &keys, "x"), vec!["One"]);
    assert!(select_by_key(&lines, &keys, "One").is_empty());
    assert!(select_by_key(&Vec::new(), &Vec::new(), "").is_empty());
}

#[test]
fn the_configuration_picks_the_search() {
    let contents = "Rust:\nTrust me.";
    let exact = Config {
        query: String::from("rust"),
        filename: String::new(),
        case_sensitive: true,
    };
    assert_eq!(vec!["Trust me."], matching_lines(&exact, contents));
    let loose = Config { case_sensitive: false, ..exact };
    assert_eq!(vec!["Rust:", "Trust me."], matching_lines(&loose, contents));
}

fn sorted(counts: WordCount) -> Vec<(String, i32)> {
    let mut entries = counts.into_entries();
    entries.sort();
    entries
}

#[test]
fn words_are_counted() {
    let counts = word_count("Buy one get one free").unwrap();
    assert_eq!(counts.get("one"), Some(2));
    assert_eq!(counts.get("Buy"), Some(1));
    assert_eq!(counts.get("get"), Some(1));
    assert_eq!(counts.get("free"), Some(1));
    assert_eq!(counts.get("buy"), None);
    assert_eq!(counts.get(""), None);
    assert_eq!(
        counts.into_entries(),
        vec![
            (String::from("Buy"), 1),
            (String::from("one"), 2),
            (String::from("get"), 1),
            (String::from("free"), 1)
        ]
    );
}

#[test]
fn any_white_space_sets_words_apart() {
    let counts = word_count("  a\tb\n\na\u{2003}c \r\n").unwrap();
    assert_eq!(
        sorted(counts),
        vec![(String::from("a"), 2), (String::from("b"), 1), (String::from("c"), 1)]
    );
    assert!(word_count("").unwrap().into_entries().is_empty());
    assert!(word_count(" \n\t ").unwrap().into_entries().is_empty());
}

#[test]
fn given_words_are_counted_as_they_are() {
    let counts = count_words(&vec!["x", "", "x", " ", "", "x"]).unwrap();
    assert_eq!(counts.get("x"), Some(3));
    assert_eq!(counts.get(""), Some(2));
    assert_eq!(counts.get(" "), Some(1));
    assert_eq!(counts.get("y"), None);
    assert!(WordCount::new().get("x").is_none());
    assert!(count_words(&Vec::new()).unwrap().into_entries().is_empty());
}

#[test]
fn a_text_is_split_into_its_lines() {
    assert_eq!(split_lines("foo\r\nbar\n\nbaz\r"), vec!["foo", "bar", "", "baz\r"]);
    assert_eq!(split_lines("foo\nbar\n"), vec!["foo", "bar"]);
    assert_eq!(split_lines("one line"), vec!["one line"]);
    assert_eq!(split_lines("a\r\r\n\r\n"), vec!["a\r", ""]);
    assert_eq!(split_lines("\n\n"), vec!["", ""]);
    assert!(split_lines("").is_empty());
}

#[test]
fn a_text_is_split_into_its_words() {
    assert_eq!(split_whitespace(" Mary   had\ta\u{2009}little  \n\t lamb"), vec![
        "Mary", "had", "a", "little", "lamb"
    ]);
    assert!(split_whitespace("").is_empty());
    assert!(split_whitespace("   ").is_empty());
    assert_eq!(find_char("dobrý den", ' '), 5);
    assert_eq!(find_char("dobrý den", 'x'), 9);
    assert_eq!(find_char("", 'x'), 0);
    assert_eq!(find_char("xx", 'x'), 0);
}

#[test]
fn many_words_are_counted_as_long_as_each_count_fits() {
    let words: Vec<&str> = (0..100_000).map(|i| if i % 4 == 0 { "four" } else { "rest" }).collect();
    let counts = count_words(&words).unwrap();
    assert_eq!(counts.get("four"), Some(25_000));
    assert_eq!(counts.get("rest"), Some(75_000));
    let text = "a b ".repeat(50_000);
    let counts = word_count(&text).unwrap();
    assert_eq!(counts.get("a"), Some(50_000));
    assert_eq!(counts.get("b"), Some(50_000));
    assert_eq!(counts.into_entries().len(), 2);
}

use rust_wintun::grep::{search_str, Config, ConfigError};

fn grep_args(args: &[&str]) -> std::vec::IntoIter<String> {
    args.iter().map(|a| a.to_string()).collect::<Vec<_>>().into_iter()
}

#[test]
fn config_takes_path_then_query() {
    let config = Config::new(grep_args(&["minigrep", "poem.txt", "the"])).unwrap();
    assert_eq!(config.file_path, "poem.txt");
    assert_eq!(config.query, "the");
    assert_eq!(config.to_string(), "query: the, file_path: poem.txt");
    let config = Config::new(grep_args(&["minigrep", "a", "b", "c", "d"])).unwrap();
    assert_eq!(config, Config { query: "b".to_string(), file_path: "a".to_string() });
}

#[test]
fn config_needs_both_arguments() {
    assert_eq!(
        Config::new(grep_args(&[])),
        Err(ConfigError::Lack("file_path is empty".to_string()))
    );
    assert_eq!(
        Config::new(grep_args(&["minigrep"])),
        Err(ConfigError::Lack("file_path is empty".to_string()))
    );
    let error = Config::new(grep_args(&["minigrep", "poem.txt"])).unwrap_err();
    assert_eq!(error, ConfigError::Lack("query is empty".to_string()));
    assert_eq!(error.to_string(), "LackError: query is empty");
}

#[test]
fn search_ignores_case() {
    let contents = "Rust:\nsafe, fast, productive.\nPick three.\nTrust me.";
    assert_eq!(search_str("rUsT", contents), vec!["Rust:", "Trust me."]);
    assert_eq!(search_str("DUCT", contents), vec!["safe, fast, productive."]);
    assert_eq!(search_str("monomorphization", contents), Vec::<&str>::new());
}

#[test]
fn search_goes_line_by_line() {
    assert_eq!(search_str("a", "a\r\nb\r\nca\r\n"), vec!["a", "ca"]);
    assert_eq!(search_str("a\nb", "a\nb"), Vec::<&str>::new());
    assert_eq!(search_str("", "x\n\ny"), vec!["x", "", "y"]);
    assert_eq!(search_str("", ""), Vec::<&str>::new());
    assert_eq!(search_str("x", ""), Vec::<&str>::new());
    assert_eq!(search_str("\r", "a\r"), vec!["a\r"]);
    assert_eq!(search_str("\r", "a\r\n"), Vec::<&str>::new());
}

#[test]
fn search_knows_letters_beyond_ascii() {
    assert_eq!(search_str("äpfel", "ÄPFEL und\nBirnen\nKein Apfel"), vec!["ÄPFEL und"]);
    assert_eq!(search_str("ΣΟΦ", "φιλοσοφία\nλόγος"), vec!["φιλοσοφία"]);
}

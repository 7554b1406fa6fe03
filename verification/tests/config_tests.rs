use reshader::{encode_config, parse_config, Config};

#[test]
fn add_game_path_appends_in_order() {
    let mut c = Config::new();
    assert!(c.add_game_path(String::from("/games/a")));
    assert!(c.add_game_path(String::from("/games/b")));
    assert_eq!(c.game_paths, vec!["/games/a", "/games/b"]);
}

#[test]
fn add_game_path_rejects_an_exact_duplicate() {
    let mut c = Config::new();
    assert!(c.add_game_path(String::from("/games/a")));
    assert!(!c.add_game_path(String::from("/games/a")));
    assert_eq!(c.game_paths, vec!["/games/a"]);
}

#[test]
fn contains_game_path_sees_what_was_added() {
    let mut c = Config::new();
    c.add_game_path(String::from("/games/a"));
    assert!(c.contains_game_path(&String::from("/games/a")));
    assert!(!c.contains_game_path(&String::from("/games/b")));
}

#[test]
fn remove_game_path_keeps_the_order_of_the_rest() {
    let mut c = Config::new();
    c.add_game_path(String::from("/games/a"));
    c.add_game_path(String::from("/games/b"));
    c.add_game_path(String::from("/games/c"));
    c.remove_game_path(&String::from("/games/b"));
    assert_eq!(c.game_paths, vec!["/games/a", "/games/c"]);
}

#[test]
fn remove_game_path_on_a_missing_path_changes_nothing() {
    let mut c = Config::new();
    c.add_game_path(String::from("/games/a"));
    c.remove_game_path(&String::from("/games/x"));
    assert_eq!(c.game_paths, vec!["/games/a"]);
}

#[test]
fn encode_writes_the_one_line_record() {
    let mut c = Config::new();
    c.add_game_path(String::from("/games/a"));
    c.add_game_path(String::from("/games/b"));
    assert_eq!(
        encode_config(&c),
        "game_paths = [\"/games/a\", \"/games/b\"]\n"
    );
}

#[test]
fn encode_of_an_empty_record() {
    let c = Config::new();
    assert_eq!(encode_config(&c), "game_paths = []\n");
}

#[test]
fn round_trip_keeps_the_ordered_list() {
    let mut c = Config::new();
    c.add_game_path(String::from("/games/a"));
    c.add_game_path(String::from("/games/b"));
    c.add_game_path(String::from("/games/a b c"));
    let text = encode_config(&c);
    let back = parse_config(&text).unwrap();
    assert_eq!(back.game_paths, c.game_paths);
}

#[test]
fn round_trip_escapes_quotes_and_backslashes() {
    let mut c = Config::new();
    c.add_game_path(String::from("C:\\Games\\One"));
    c.add_game_path(String::from("/odd\"name/game"));
    let text = encode_config(&c);
    let back = parse_config(&text).unwrap();
    assert_eq!(back.game_paths, c.game_paths);
}

#[test]
fn round_trip_of_the_empty_record() {
    let c = Config::new();
    let back = parse_config(&encode_config(&c)).unwrap();
    assert!(back.game_paths.is_empty());
}

#[test]
fn parse_keeps_duplicates_as_read() {
    let back = parse_config("game_paths = [\"/a\", \"/a\"]\n").unwrap();
    assert_eq!(back.game_paths, vec!["/a", "/a"]);
}

#[test]
fn parse_rejects_malformed_records() {
    assert!(parse_config("").is_none());
    assert!(parse_config("game_paths = [").is_none());
    assert!(parse_config("game_paths = [\"/a\"").is_none());
    assert!(parse_config("game_paths = [\"/a\"] trailing").is_none());
    assert!(parse_config("paths = [\"/a\"]\n").is_none());
    assert!(parse_config("game_paths = [\"/a\",\"/b\"]\n").is_none());
}

#[test]
fn parse_accepts_a_record_without_trailing_newline() {
    let back = parse_config("game_paths = [\"/a\"]").unwrap();
    assert_eq!(back.game_paths, vec!["/a"]);
}

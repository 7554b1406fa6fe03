use reshader::FileTree;

#[test]
fn later_source_wins_on_a_shared_path() {
    let mut merged = FileTree::new();

    let mut source_a = FileTree::new();
    source_a.put(String::from("Shaders/common.fx"), b"from a".to_vec());
    source_a.put(String::from("Shaders/only_a.fx"), b"a only".to_vec());

    let mut source_b = FileTree::new();
    source_b.put(String::from("Shaders/common.fx"), b"from b".to_vec());
    source_b.put(String::from("Textures/only_b.png"), b"b only".to_vec());

    merged.merge_from(&source_a);
    merged.merge_from(&source_b);

    assert_eq!(
        merged.get(&String::from("Shaders/common.fx")).unwrap(),
        b"from b"
    );
    assert_eq!(
        merged.get(&String::from("Shaders/only_a.fx")).unwrap(),
        b"a only"
    );
    assert_eq!(
        merged.get(&String::from("Textures/only_b.png")).unwrap(),
        b"b only"
    );
}

#[test]
fn merge_leaves_destination_only_files_untouched() {
    let mut merged = FileTree::new();
    merged.put(String::from("ReShade.ini"), b"KeepMe=1".to_vec());

    let mut source = FileTree::new();
    source.put(String::from("Shaders/a.fx"), b"a".to_vec());
    merged.merge_from(&source);

    assert_eq!(merged.get(&String::from("ReShade.ini")).unwrap(), b"KeepMe=1");
    assert_eq!(merged.get(&String::from("Shaders/a.fx")).unwrap(), b"a");
}

#[test]
fn put_replaces_earlier_content() {
    let mut tree = FileTree::new();
    tree.put(String::from("f"), b"one".to_vec());
    tree.put(String::from("f"), b"two".to_vec());
    assert_eq!(tree.get(&String::from("f")).unwrap(), b"two");
}

#[test]
fn get_misses_an_absent_path() {
    let tree = FileTree::new();
    assert!(tree.get(&String::from("nope")).is_none());
}

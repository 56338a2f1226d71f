use termcards::card::{Card, CardRow};

fn card() -> Card {
    Card {
        id: 11,
        volume_mounts: vec![("/a".to_string(), "/b".to_string())],
        expected_output: "out".to_string(),
        expected_input: "in".to_string(),
        command: None,
        docker_image: "img".to_string(),
        work_dir: Some("/w".to_string()),
    }
}

#[test]
fn card_row_writes_mounts_as_json() {
    let row = CardRow::from_card(card(), 4);
    assert_eq!(row.id, 11);
    assert_eq!(row.ord, 4);
    assert_eq!(row.volume_mounts, r#"[["/a","/b"]]"#);
    assert_eq!(row.work_dir, Some("/w".to_string()));
}

#[test]
fn card_row_round_trip() {
    let row = CardRow::from_card(card(), 0);
    let back = row.into_card().unwrap();
    assert_eq!(back.id, 11);
    assert_eq!(back.volume_mounts, vec![("/a".to_string(), "/b".to_string())]);
    assert_eq!(back.expected_output, "out");
    assert_eq!(back.expected_input, "in");
    assert_eq!(back.command, None);
    assert_eq!(back.docker_image, "img");
}

#[test]
fn card_row_with_bad_mounts() {
    let mut row = CardRow::from_card(card(), 0);
    row.volume_mounts = "not json".to_string();
    assert!(row.clone().into_card().is_none());
    let lenient = row.into_card_lenient();
    assert!(lenient.volume_mounts.is_empty());
    assert_eq!(lenient.id, 11);
}

#[test]
fn card_row_decodes_two_mounts() {
    let mut row = CardRow::from_card(card(), 0);
    row.volume_mounts = r#"[["/h1","/c1"],["/h2","/c2"]]"#.to_string();
    let c = row.into_card().unwrap();
    assert_eq!(
        c.volume_mounts,
        vec![
            ("/h1".to_string(), "/c1".to_string()),
            ("/h2".to_string(), "/c2".to_string())
        ]
    );
}

#[test]
fn card_row_round_trip_with_special_characters() {
    let mut c = card();
    c.volume_mounts = vec![("/a b/\"q\"".to_string(), "/ü\\x".to_string())];
    let back = CardRow::from_card(c, 1).into_card().unwrap();
    assert_eq!(back.volume_mounts, vec![("/a b/\"q\"".to_string(), "/ü\\x".to_string())]);
}

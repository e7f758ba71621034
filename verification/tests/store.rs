use text_store::{
    add_text, append_text, delete_text, largest_id, load_texts, update_text, StoreFile, TextItem,
    NOT_FOUND,
};

fn item(id: u64, content: &str, created_at: &str) -> TextItem {
    TextItem { id, content: String::from(content), created_at: String::from(created_at) }
}

fn three() -> Vec<TextItem> {
    vec![
        item(3, "three", "2024-01-03T00:00:00+00:00"),
        item(7, "seven", "2024-01-07T00:00:00+00:00"),
        item(5, "five", "2024-01-05T00:00:00+00:00"),
    ]
}

#[test]
fn load_of_missing_file_is_empty() {
    let texts = load_texts(StoreFile::Missing);
    assert_eq!(texts, Ok(Vec::new()));
}

#[test]
fn load_gives_the_collection_as_read() {
    let texts = load_texts(StoreFile::Loaded(three()));
    assert_eq!(texts, Ok(three()));
}

#[test]
fn load_of_failed_file_gives_its_message() {
    let texts = load_texts(StoreFile::Failed(String::from("expected value at line 1 column 1")));
    assert_eq!(texts, Err(String::from("expected value at line 1 column 1")));
}

#[test]
fn largest_id_of_no_items_is_zero() {
    assert_eq!(largest_id(&Vec::new()), 0);
}

#[test]
fn largest_id_is_found_wherever_it_stands() {
    assert_eq!(largest_id(&three()), 7);
    assert_eq!(largest_id(&vec![item(9, "a", "t"), item(2, "b", "t")]), 9);
    assert_eq!(largest_id(&vec![item(2, "a", "t"), item(9, "b", "t")]), 9);
    assert_eq!(largest_id(&vec![item(u64::MAX, "a", "t")]), u64::MAX);
}

#[test]
fn append_to_no_items_gives_id_one() {
    let mut texts = Vec::new();
    let added = append_text(&mut texts, String::from("hello"), String::from("ts1"));
    assert_eq!(added, item(1, "hello", "ts1"));
    assert_eq!(texts, vec![item(1, "hello", "ts1")]);
}

#[test]
fn append_takes_one_more_than_the_largest_id() {
    let mut texts = three();
    let added = append_text(&mut texts, String::from("eight"), String::from("ts8"));
    assert_eq!(added, item(8, "eight", "ts8"));
    let mut expected = three();
    expected.push(item(8, "eight", "ts8"));
    assert_eq!(texts, expected);
}

#[test]
fn append_works_up_to_the_last_id() {
    let mut texts = vec![item(u64::MAX - 1, "a", "t")];
    let added = append_text(&mut texts, String::from("b"), String::from("t"));
    assert_eq!(added.id, u64::MAX);
}

#[test]
fn appends_count_upward_whatever_the_content() {
    let mut texts = three();
    let contents = ["", "same", "same", "a much longer text, with \"quotes\" and \n a line break"];
    let mut expected_id = 8;
    for content in contents {
        let added = append_text(&mut texts, String::from(content), String::from("ts"));
        assert_eq!(added.id, expected_id);
        assert_eq!(added.content, content);
        expected_id += 1;
    }
    assert_eq!(texts.len(), 7);
    assert_eq!(&texts[..3], &three()[..]);
    let ids: Vec<u64> = texts.iter().map(|t| t.id).collect();
    assert_eq!(ids, vec![3, 7, 5, 8, 9, 10, 11]);
}

#[test]
fn add_to_missing_file_starts_the_collection() {
    let (texts, added) = add_text(StoreFile::Missing, String::from("hello")).unwrap();
    assert_eq!(added.id, 1);
    assert_eq!(added.content, "hello");
    assert_eq!(texts, vec![added]);
}

#[test]
fn add_then_load_ends_with_the_added_item() {
    let (texts, added) = add_text(StoreFile::Loaded(three()), String::from("new")).unwrap();
    assert_eq!(added.id, 8);
    let loaded = load_texts(StoreFile::Loaded(texts)).unwrap();
    assert_eq!(loaded.len(), 4);
    assert_eq!(loaded.last(), Some(&added));
    assert_eq!(&loaded[..3], &three()[..]);
}

#[test]
fn add_on_failed_file_gives_its_message() {
    let result = add_text(StoreFile::Failed(String::from("permission denied")), String::from("x"));
    assert_eq!(result, Err(String::from("permission denied")));
}

#[test]
fn add_stamps_with_the_current_time_in_rfc3339() {
    let before = chrono::Utc::now();
    let (_, added) = add_text(StoreFile::Missing, String::from("hello")).unwrap();
    let after = chrono::Utc::now();
    let stamp = chrono::DateTime::parse_from_rfc3339(&added.created_at).unwrap();
    assert_eq!(stamp.offset().local_minus_utc(), 0);
    assert!(before <= stamp && stamp <= after);
}

#[test]
fn update_of_unknown_id_is_not_found() {
    let result = update_text(StoreFile::Loaded(three()), 4, String::from("four"));
    assert_eq!(result, Err(String::from("Text not found")));
    assert_eq!(NOT_FOUND, "Text not found");
}

#[test]
fn update_on_missing_file_is_not_found() {
    let result = update_text(StoreFile::Missing, 1, String::from("one"));
    assert_eq!(result, Err(String::from("Text not found")));
}

#[test]
fn update_on_failed_file_gives_its_message() {
    let result = update_text(StoreFile::Failed(String::from("EOF while parsing")), 1, String::from("x"));
    assert_eq!(result, Err(String::from("EOF while parsing")));
}

#[test]
fn update_changes_content_only() {
    let (texts, changed) = update_text(StoreFile::Loaded(three()), 7, String::from("SEVEN")).unwrap();
    assert_eq!(changed, item(7, "SEVEN", "2024-01-07T00:00:00+00:00"));
    assert_eq!(
        texts,
        vec![
            item(3, "three", "2024-01-03T00:00:00+00:00"),
            item(7, "SEVEN", "2024-01-07T00:00:00+00:00"),
            item(5, "five", "2024-01-05T00:00:00+00:00"),
        ]
    );
}

#[test]
fn update_reaches_the_first_and_the_last_item() {
    let (texts, changed) = update_text(StoreFile::Loaded(three()), 3, String::from("")).unwrap();
    assert_eq!(changed, item(3, "", "2024-01-03T00:00:00+00:00"));
    assert_eq!(texts[0], changed);
    let (texts, changed) = update_text(StoreFile::Loaded(three()), 5, String::from("FIVE")).unwrap();
    assert_eq!(texts[2], changed);
    assert_eq!(&texts[..2], &three()[..2]);
}

#[test]
fn update_changes_the_first_of_items_that_share_an_id() {
    let stored = vec![item(1, "a", "t1"), item(2, "b", "t2"), item(2, "c", "t3")];
    let (texts, changed) = update_text(StoreFile::Loaded(stored), 2, String::from("B")).unwrap();
    assert_eq!(changed, item(2, "B", "t2"));
    assert_eq!(texts, vec![item(1, "a", "t1"), item(2, "B", "t2"), item(2, "c", "t3")]);
}

#[test]
fn delete_of_unknown_id_changes_nothing() {
    let texts = delete_text(StoreFile::Loaded(three()), 4);
    assert_eq!(texts, Ok(three()));
}

#[test]
fn delete_on_missing_file_gives_no_items() {
    let texts = delete_text(StoreFile::Missing, 1);
    assert_eq!(texts, Ok(Vec::new()));
}

#[test]
fn delete_on_failed_file_gives_its_message() {
    let texts = delete_text(StoreFile::Failed(String::from("invalid type")), 1);
    assert_eq!(texts, Err(String::from("invalid type")));
}

#[test]
fn delete_keeps_the_rest_in_order() {
    assert_eq!(
        delete_text(StoreFile::Loaded(three()), 3),
        Ok(vec![item(7, "seven", "2024-01-07T00:00:00+00:00"), item(5, "five", "2024-01-05T00:00:00+00:00")])
    );
    assert_eq!(
        delete_text(StoreFile::Loaded(three()), 7),
        Ok(vec![item(3, "three", "2024-01-03T00:00:00+00:00"), item(5, "five", "2024-01-05T00:00:00+00:00")])
    );
    assert_eq!(
        delete_text(StoreFile::Loaded(three()), 5),
        Ok(vec![item(3, "three", "2024-01-03T00:00:00+00:00"), item(7, "seven", "2024-01-07T00:00:00+00:00")])
    );
}

#[test]
fn delete_takes_every_item_with_the_id() {
    let stored = vec![
        item(2, "a", "t1"),
        item(1, "b", "t2"),
        item(2, "c", "t3"),
        item(2, "d", "t4"),
        item(3, "e", "t5"),
    ];
    let texts = delete_text(StoreFile::Loaded(stored), 2);
    assert_eq!(texts, Ok(vec![item(1, "b", "t2"), item(3, "e", "t5")]));
    let texts = delete_text(StoreFile::Loaded(vec![item(2, "a", "t1"), item(2, "c", "t3")]), 2);
    assert_eq!(texts, Ok(Vec::new()));
}

#[test]
fn add_after_delete_of_the_largest_id_takes_it_again() {
    let texts = delete_text(StoreFile::Loaded(three()), 7).unwrap();
    let (_, added) = add_text(StoreFile::Loaded(texts), String::from("again")).unwrap();
    assert_eq!(added.id, 6);
    let texts = delete_text(StoreFile::Loaded(vec![item(1, "a", "t")]), 1).unwrap();
    let (_, added) = add_text(StoreFile::Loaded(texts), String::from("again")).unwrap();
    assert_eq!(added.id, 1);
}

#[test]
fn a_session_of_all_four_commands() {
    let (texts, hello) = add_text(StoreFile::Missing, String::from("hello")).unwrap();
    assert_eq!(hello.id, 1);
    assert_eq!(hello.content, "hello");
    let (texts, world) = add_text(StoreFile::Loaded(texts), String::from("world")).unwrap();
    assert_eq!(world.id, 2);
    assert_eq!(world.content, "world");
    let (texts, changed) = update_text(StoreFile::Loaded(texts), 1, String::from("HELLO")).unwrap();
    assert_eq!(changed, item(1, "HELLO", &hello.created_at));
    let texts = delete_text(StoreFile::Loaded(texts), 2).unwrap();
    let loaded = load_texts(StoreFile::Loaded(texts)).unwrap();
    assert_eq!(loaded, vec![item(1, "HELLO", &hello.created_at)]);
}

#[test]
fn a_copy_of_an_item_equals_it() {
    let first = item(4, "text", "2024-01-04T00:00:00+00:00");
    let copy = first.clone();
    assert_eq!(copy, first);
    assert_eq!(copy.id, 4);
    assert_eq!(copy.content, "text");
    assert_eq!(copy.created_at, "2024-01-04T00:00:00+00:00");
}

use text_store::{get_data_path, DATA_FILE};

#[test]
fn the_store_file_is_named_data_json() {
    assert_eq!(DATA_FILE, "data.json");
}

#[test]
fn the_store_file_lies_beside_the_application_directory() {
    assert_eq!(get_data_path("/srv/notes/src-tauri"), "/srv/notes/data.json");
    assert_eq!(get_data_path("/srv/notes/src-tauri/"), "/srv/notes/data.json");
    assert_eq!(get_data_path("/app"), "/data.json");
}

#[test]
fn a_relative_directory_gives_a_relative_store_file() {
    assert_eq!(get_data_path("notes/src-tauri"), "notes/data.json");
    assert_eq!(get_data_path("src-tauri"), "data.json");
}

#[test]
fn a_directory_without_parent_holds_the_store_file_itself() {
    assert_eq!(get_data_path("/"), "/data.json");
    assert_eq!(get_data_path(""), "data.json");
}

#[test]
fn the_path_keeps_characters_outside_ascii() {
    assert_eq!(get_data_path("/home/zoë/notizen/app"), "/home/zoë/notizen/data.json");
}

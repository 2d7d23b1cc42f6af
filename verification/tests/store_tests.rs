use servers::store::{file_from_document, read_document, Document};
use servers::{MediaEntry, MediaServer, TextEntry, TextServer};

fn text_entry(extension: Option<&str>, content: Option<&str>) -> TextEntry {
    TextEntry {
        is_file: true,
        extension: extension.map(|e| e.to_string()),
        content: content.map(|c| c.to_string()),
    }
}

fn media_entry(name: &str, content: &[u8]) -> MediaEntry {
    MediaEntry {
        is_file: true,
        file_name: Some(name.to_string()),
        content: Some(content.to_vec()),
    }
}

#[test]
fn test_text_server() {
    let files = vec![text_entry(
        Some("json"),
        Some("{\"title\": \"Drones\", \"text\": \"They fly.\", \"media_ids\": [[0, \"logo\"]]}"),
    )];
    let text_server = TextServer::new_from_folder(&files);
    let files_list = text_server.list_files();

    assert_eq!(files_list.len(), 1);
    println!("{:#?}", files_list);

    let file_content = text_server.get_file_text(files_list[0].0).unwrap();
    println!("File[0]: {:?}", file_content);
    assert_eq!(file_content.title, "Drones");
    assert_eq!(file_content.text, "They fly.");
    assert_eq!(file_content.media_ids, vec![(0, "logo".to_string())]);
}

#[test]
fn test_media_server() {
    let media_server = MediaServer::new_from_folder(&vec![media_entry("0_logo.png", &[1, 2, 3])]);
    println!("{:#?}", media_server.stored_media.keys());

    let media0 = media_server.stored_media.get(&0);
    println!("{:#?}", media0);
    assert_eq!(media0, Some(&vec![1, 2, 3]));
}

#[test]
fn stores_start_empty() {
    assert_eq!(TextServer::new().list_files(), vec![]);
    assert_eq!(TextServer::new().get_file_text(0), None);
    assert_eq!(MediaServer::new().get_media(0), None);
}

#[test]
fn texts_are_numbered_in_order_and_others_skipped() {
    let mut folder = text_entry(Some("json"), Some("{}"));
    folder.is_file = false;
    let entries = vec![
        text_entry(Some("json"), Some("{\"title\": \"A\"}")),
        text_entry(Some("txt"), Some("{\"title\": \"B\"}")),
        text_entry(None, Some("{\"title\": \"C\"}")),
        text_entry(Some("json"), Some("not json")),
        text_entry(Some("json"), None),
        folder,
        text_entry(Some("json"), Some("{\"title\": \"D\", \"text\": \"d\"}")),
    ];
    let server = TextServer::new_from_folder(&entries);
    let mut list = server.list_files();
    list.sort();
    assert_eq!(list, vec![(0, "A".to_string()), (1, "D".to_string())]);
    assert_eq!(server.get_file_text(1).unwrap().text, "d");
    assert_eq!(server.get_file_text(0).unwrap().text, "");
    assert_eq!(server.get_file_text(2), None);
}

#[test]
fn added_text_gets_the_next_number() {
    let mut server = TextServer::new();
    server.add_text("{\"title\": \"first\"}");
    server.add_text("[broken");
    server.add_text("{\"title\": \"second\"}");
    assert_eq!(server.stored_texts.len(), 2);
    assert_eq!(server.get_file_text(0).unwrap().title, "first");
    assert_eq!(server.get_file_text(1).unwrap().title, "second");
}

#[test]
fn document_fields_are_read() {
    let text = "{\"title\": 5, \"text\": \"t\", \"media_ids\": [[7, \"x\"], [\"7\", \"y\"], [8], 9, [-1, \"z\"], [1.5, \"w\"]]}";
    let document = read_document(text).unwrap();
    assert_eq!(document.title, None);
    assert_eq!(document.text, Some("t".to_string()));
    assert_eq!(
        document.media_ids,
        Some(vec![
            (Some(7), Some("x".to_string())),
            (None, Some("y".to_string())),
            (Some(8), None),
            (None, None),
            (None, Some("z".to_string())),
            (None, Some("w".to_string())),
        ])
    );
}

#[test]
fn documents_that_are_no_objects_say_nothing() {
    for text in ["null", "[1, 2]", "\"title\"", "3"] {
        let document = read_document(text).unwrap();
        assert_eq!(document, Document { title: None, text: None, media_ids: None });
    }
    assert_eq!(read_document("{\"title\": }"), None);
    assert_eq!(read_document(""), None);
}

#[test]
fn file_fills_in_what_the_document_lacks() {
    let file = file_from_document(Document { title: None, text: None, media_ids: None });
    assert_eq!(file.title, "Untitled");
    assert_eq!(file.text, "");
    assert_eq!(file.media_ids, vec![]);

    let file = file_from_document(Document {
        title: Some("T".to_string()),
        text: Some("x".to_string()),
        media_ids: Some(vec![
            (Some(1), Some("one".to_string())),
            (None, Some("two".to_string())),
            (Some(3), None),
            (Some(4), Some("four".to_string())),
        ]),
    });
    assert_eq!(file.title, "T");
    assert_eq!(file.media_ids, vec![(1, "one".to_string()), (4, "four".to_string())]);
}

#[test]
fn only_json_files_are_texts() {
    assert!(TextServer::reads(true, &Some("json".to_string())));
    assert!(!TextServer::reads(true, &Some("JSON".to_string())));
    assert!(!TextServer::reads(false, &Some("json".to_string())));
    assert!(!TextServer::reads(true, &None));
}

#[test]
fn media_are_numbered_by_their_first_digit() {
    let mut unreadable = media_entry("5.png", &[]);
    unreadable.content = None;
    let mut unnamed = media_entry("6.png", &[6]);
    unnamed.file_name = None;
    let mut folder = media_entry("7", &[7]);
    folder.is_file = false;
    let entries = vec![
        media_entry("12.png", &[12]),
        media_entry("1.png", &[1]),
        media_entry("logo.png", &[2]),
        media_entry("", &[3]),
        media_entry("9x", &[9]),
        unreadable,
        unnamed,
        folder,
    ];
    let server = MediaServer::new_from_folder(&entries);
    assert_eq!(server.stored_media.len(), 2);
    assert_eq!(server.get_media(1), Some(vec![1]));
    assert_eq!(server.get_media(9), Some(vec![9]));
    assert_eq!(server.get_media(12), None);
    assert_eq!(MediaServer::number(true, &Some("\u{0663}x".to_string())), None);
    assert_eq!(MediaServer::number(true, &Some("0".to_string())), Some(0));
}

#[test]
fn stores_are_copied_whole() {
    let mut texts = TextServer::new();
    texts.add_text("{\"title\": \"A\"}");
    let copy = texts.clone();
    assert_eq!(copy, texts);
    texts.add_text("{}");
    assert_eq!(copy.list_files(), vec![(0, "A".to_string())]);
    let mut media = MediaServer::new();
    media.stored_media.insert(3, vec![1, 2]);
    assert_eq!(media.clone().get_media(3), Some(vec![1, 2]));
}

use local_lens::control::{Controller, StartOutcome};
use local_lens::engine::AppMessage;
use local_lens::labels::{load_labels, tag_for_class, tags_for_ranking, Label};
use local_lens::scanner::{comment_has_marker, embed_arguments, is_image_file, is_processed, select_images, MetadataError};
use local_lens::words::{split_words, words_from_texts};

fn v(xs: &[&str]) -> Vec<String> {
    xs.iter().map(|x| x.to_string()).collect()
}

#[test]
fn image_extensions() {
    assert!(is_image_file("/photos/cat.jpg"));
    assert!(is_image_file("dog.jpeg"));
    assert!(is_image_file("a.b/c.png"));
    assert!(!is_image_file("cat.JPG"));
    assert!(!is_image_file("/photos/.png"));
    assert!(!is_image_file("/photos.jpg/readme"));
    assert!(!is_image_file("notes.txt"));
    assert!(is_image_file("..jpg"));
}

#[test]
fn only_regular_image_files_are_selected() {
    let entries = vec![
        ("/p/a.jpg".to_string(), true),
        ("/p/dir.png".to_string(), false),
        ("/p/b.gif".to_string(), true),
        ("/p/c.png".to_string(), true),
    ];
    assert_eq!(select_images(&entries), v(&["/p/a.jpg", "/p/c.png"]));
}

#[test]
fn embedding_sets_the_marker() {
    let args = embed_arguments(&v(&["cat", "dog"]));
    assert_eq!(
        args,
        v(&[
            "-overwrite_original",
            "-Keywords=cat, dog",
            "-Subject=cat, dog",
            "-XPKeywords=cat, dog",
            "-Comment=cat, dog",
            "-UserComment=local_lens_processed"
        ])
    );
    assert!(comment_has_marker("local_lens_processed"));
    assert!(comment_has_marker("x local_lens_processed\n"));
    assert!(!comment_has_marker(""));
    assert!(is_processed(Some("local_lens_processed")));
    assert!(!is_processed(Some("local_lens")));
    assert!(!is_processed(None));
}

#[test]
fn metadata_error_texts() {
    assert_eq!(
        MetadataError::NotInstalled.message(),
        "exiftool not found. Please install it: sudo apt install libimage-exiftool-perl"
    );
    assert_eq!(MetadataError::ToolFailed("bad".to_string()).message(), "Exiftool failed: bad");
}

#[test]
fn labels_from_json() {
    let labels = load_labels("[\"tench\", \"goldfish\"]").unwrap();
    assert_eq!(labels, vec![Label { name: "tench".to_string() }, Label { name: "goldfish".to_string() }]);
    assert!(load_labels("{\"a\": 1}").is_err());
    assert!(load_labels("not json").is_err());
}

#[test]
fn tags_from_ranked_classes() {
    let labels = vec![Label { name: "tench".to_string() }, Label { name: "goldfish".to_string() }];
    assert_eq!(tag_for_class(&labels, 1), "goldfish");
    assert_eq!(tag_for_class(&labels, 7), "class_7");
    assert_eq!(tags_for_ranking(&labels, &vec![1, 0, 9, 3, 4, 5, 6]), v(&["goldfish", "tench", "class_9", "class_3", "class_4"]));
    assert_eq!(tags_for_ranking(&labels, &vec![0]), v(&["tench"]));
}

#[test]
fn recognised_text_becomes_words() {
    assert_eq!(split_words("  Hello,\tWorld!  ab "), v(&["Hello,", "World!", "ab"]));
    assert_eq!(words_from_texts(&v(&["Hello, World! ab 42x", "WORLD exit"])), v(&["42x", "exit", "hello", "world"]));
    assert_eq!(words_from_texts(&Vec::new()), Vec::<String>::new());
}

#[test]
fn control_plane_refuses_a_second_job() {
    let mut c = Controller::new();
    assert_eq!(c.request_tagging("", true), StartOutcome::MissingInput);
    assert_eq!(c.request_tagging("/p", false), StartOutcome::ClassifierUnavailable);
    assert_eq!(c.request_tagging("/p", true), StartOutcome::Started);
    assert_eq!(c.request_rename("a", "b"), StartOutcome::AlreadyRunning);
    assert!(c.request_cancel());
    c.handle(AppMessage::Progress(2, 5));
    assert_eq!(c.progress, (2, 5));
    c.handle(AppMessage::Finished);
    assert!(!c.is_processing);
    assert_eq!(c.request_rename("a", ""), StartOutcome::MissingInput);
    assert_eq!(c.request_rename("a", "b"), StartOutcome::Started);
    assert_eq!(c.logs.last().unwrap(), "Renaming 'a' to 'b'...");
}

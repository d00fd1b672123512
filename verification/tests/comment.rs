use dezes::app::App;
use dezes::hex::comment::Commands;

fn app() -> App {
    let mut app = App::new();
    app.config.database = false;
    app
}

#[test]
fn recommenting_an_offset_replaces_the_entry() {
    let mut app = app();
    app.hex_view.offset = 0;

    Commands::comment(&mut app, 0x100, "first".to_string());
    Commands::comment(&mut app, 0x100, "second".to_string());

    assert_eq!(
        app.hex_view.comment_name_list.len(),
        1,
        "one entry per offset"
    );
    assert_eq!(app.hex_view.comment_name_list[0].comment, "second");
    assert_eq!(
        app.hex_view.comments.get(&0x100).map(String::as_str),
        Some("second")
    );
}

#[test]
fn deleting_a_comment_removes_the_entry() {
    let mut app = app();
    app.hex_view.offset = 0;

    Commands::comment(&mut app, 0x100, "note".to_string());
    Commands::comment(&mut app, 0x100, String::new());

    assert!(
        app.hex_view.comment_name_list.is_empty(),
        "the Names list still lists a comment that no longer exists"
    );
    assert!(!app.hex_view.comments.contains_key(&0x100));
}

#[test]
fn other_offsets_are_left_alone() {
    let mut app = app();

    Commands::comment(&mut app, 0x100, "a".to_string());
    Commands::comment(&mut app, 0x200, "b".to_string());
    Commands::comment(&mut app, 0x100, "a2".to_string());

    let mut entries: Vec<(usize, String)> = app
        .hex_view
        .comment_name_list
        .iter()
        .map(|c| (c.offset, c.comment.clone()))
        .collect();
    entries.sort();
    assert_eq!(
        entries,
        vec![(0x100, "a2".to_string()), (0x200, "b".to_string())]
    );
}

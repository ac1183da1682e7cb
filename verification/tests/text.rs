use cyfile::Text;

#[test]
fn text_new() {
    let text = Text::new();

    assert!(text.content().is_empty());
    assert!(text.comment().is_empty());
}

#[test]
fn text_with_content() {
    let text = Text::new().with_content("This is a content.");

    assert_eq!(text.content(), "This is a content.");
}

#[test]
fn text_with_comment() {
    let text = Text::new().with_comment("This is a comment.");

    assert_eq!(text.comment(), "This is a comment.");
}

#[test]
fn text_with_content_and_comment() {
    let text = Text::new()
        .with_content("This is a content.")
        .with_comment("This is a comment.");

    assert_eq!(text.content(), "This is a content.");
    assert_eq!(text.comment(), "This is a comment.");
}

#[test]
fn text_set_content() {
    let mut text = Text::new();

    text.set_content("This is a content.");

    assert_eq!(text.content(), "This is a content.");
}

#[test]
fn text_set_comment() {
    let mut text = Text::new();

    text.set_comment("This is a comment.");

    assert_eq!(text.comment(), "This is a comment.");
}

#[test]
fn new() {
    let text = Text::new();

    assert!(text.content().is_empty());
    assert!(text.comment().is_empty());
}

#[test]
fn with_content() {
    let text = Text::new().with_content("Content");

    assert_eq!(text.content(), "Content");
    assert!(text.comment().is_empty());
}

#[test]
fn with_comment() {
    let text = Text::new().with_comment("Comment");

    assert!(text.content().is_empty());
    assert_eq!(text.comment(), "Comment");
}

#[test]
fn set_content() {
    let mut text = Text::new().with_content("Content").with_comment("Comment");

    text.set_content("New content");

    assert_eq!(text.content(), "New content");
    assert_eq!(text.comment(), "Comment");
}

#[test]
fn set_comment() {
    let mut text = Text::new().with_content("Content").with_comment("Comment");

    text.set_comment("New comment");

    assert_eq!(text.content(), "Content");
    assert_eq!(text.comment(), "New comment");
}

#[test]
fn mod_new() {
    let text = Text::new();

    assert!(text.content().is_empty());
    assert!(text.comment().is_empty());
}

#[test]
fn mod_with_content() {
    let text = Text::new().with_content("Content");

    assert_eq!(text.content(), "Content");
    assert!(text.comment().is_empty());
}

#[test]
fn mod_with_comment() {
    let text = Text::new().with_comment("Comment");

    assert!(text.content().is_empty());
    assert_eq!(text.comment(), "Comment");
}

#[test]
fn mod_set_content() {
    let mut text = Text::new().with_content("Content").with_comment("Comment");

    text.set_content("New content");

    assert_eq!(text.content(), "New content");
    assert_eq!(text.comment(), "Comment");
}

#[test]
fn mod_set_comment() {
    let mut text = Text::new().with_content("Content").with_comment("Comment");

    text.set_comment("New comment");

    assert_eq!(text.content(), "Content");
    assert_eq!(text.comment(), "New comment");
}

#[test]
fn same_and_duplicate() {
    let text = Text::new().with_content("Content").with_comment("Comment");
    let copy = text.duplicate();

    assert!(text.same(&copy));
    assert_eq!(text, copy);
    assert!(!text.same(&Text::new().with_content("Content")));
    assert!(Text::default().same(&Text::new()));
}

#[test]
fn empty() {
    let text = Text::new();

    assert_eq!(text.describe(), "");
}

#[test]
fn shown_with_content() {
    let text = Text::with_content(Text::new(), "content of the text");

    assert_eq!(text.describe(), "Content:\n  content of the text");
}

#[test]
fn shown_with_comment() {
    let text = Text::with_comment(Text::new(), "comment of the text");

    assert_eq!(text.describe(), "Comment:\n  comment of the text");
}

#[test]
fn shown_with_content_and_comment() {
    let text = Text::with_content_and_comment("content of the text", "comment of the text");

    assert_eq!(
        text.describe(),
        "Content:\n  content of the text\n\nComment:\n  comment of the text"
    );
}

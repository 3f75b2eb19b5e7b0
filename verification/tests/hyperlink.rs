use docx_rust::text::TextTree;
use docx_rust::codec::XmlCodec;
use docx_rust::document::{Hyperlink, Run};

#[test]
fn test_multiple_runs() {
    let hyperlink = Hyperlink::default()
        .push_run(Run::default().push_text("First "))
        .push_run(Run::default().push_text("Second"));

    assert_eq!(hyperlink.content.len(), 2);
    assert_eq!(hyperlink.text(), "First Second");
}

#[test]
fn test_add_text_method() {
    let hyperlink = Hyperlink::default().add_text("Hello ").add_text("World");

    assert_eq!(hyperlink.content.len(), 2);
    assert_eq!(hyperlink.text(), "Hello World");
}

#[test]
fn test_text_replacement_across_runs() {
    let mut hyperlink = Hyperlink::default()
        .add_text("Old text in first run")
        .add_text("Old text in second run");

    hyperlink.replace_text_simple("Old text", "New text");

    assert_eq!(hyperlink.text(), "New text in first runNew text in second run");
}

#[test]
fn test_text_replacement_multiple_replacements() {
    let mut hyperlink = Hyperlink::default().add_text("Hello World").add_text("Goodbye Moon");

    let replacements = [("Hello", "Hi"), ("Goodbye", "Bye")];
    hyperlink.replace_text(&replacements).unwrap();

    assert_eq!(hyperlink.text(), "Hi WorldBye Moon");
}

#[test]
fn test_backward_compatibility_first_run() {
    let hyperlink = Hyperlink::default().add_text("First").add_text("Second");

    assert_eq!(hyperlink.first_run().unwrap().text(), "First");
}

#[test]
fn test_from_single_run() {
    let run = Run::default().push_text("Single run");
    let hyperlink = Hyperlink::from_single_run(run);

    assert_eq!(hyperlink.content.len(), 1);
    assert_eq!(hyperlink.text(), "Single run");
}

#[test]
fn test_iter_text_multiple_runs() {
    let hyperlink = Hyperlink::default().add_text("First").add_text(" Second");

    let texts: Vec<String> = hyperlink.iter_text();

    assert_eq!(texts, vec!["First", " Second"]);
}

#[test]
fn test_complex_table_of_contents_scenario() {
    let mut hyperlink = Hyperlink::default()
        .id("_Toc123456789")
        .push_run(Run::default().push_text("Chapter 1"))
        .push_run(Run::default().push_text("    "))
        .push_run(Run::default().push_text("Introduction"));

    assert_eq!(hyperlink.content.len(), 3);
    assert_eq!(hyperlink.text(), "Chapter 1    Introduction");
    assert_eq!(hyperlink.id.as_ref().unwrap(), "_Toc123456789");

    hyperlink.replace_text_simple("Chapter 1", "Section 1");
    assert_eq!(hyperlink.text(), "Section 1    Introduction");
}

#[test]
fn first_run_mut_changes_the_first_run_in_place() {
    let mut hyperlink = Hyperlink::default().add_text("First").add_text("Second");
    if let Some(run) = hyperlink.first_run_mut() {
        run.replace_text_simple("First", "1st");
    }
    assert_eq!(hyperlink.text(), "1stSecond");
    assert!(Hyperlink::default().first_run_mut().is_none());
    assert!(Hyperlink::default().first_run().is_none());
}

#[test]
fn pattern_across_two_runs_is_not_found() {
    let mut hyperlink = Hyperlink::default().add_text("Old ").add_text("text");
    hyperlink.replace_text_simple("Old text", "New text");
    assert_eq!(hyperlink.text(), "Old text");
}

#[test]
fn hyperlink_is_written_with_target_and_runs() {
    assert_eq!(Hyperlink::default().to_element().to_text(), "<w:hyperlink/>");
    assert_eq!(Hyperlink::default().id("id").to_element().to_text(), r#"<w:hyperlink r:id="id"/>"#);
    assert_eq!(
        Hyperlink::default().anchor("anchor").to_element().to_text(),
        r#"<w:hyperlink w:anchor="anchor"/>"#
    );
    assert_eq!(
        Hyperlink::default().push_run(Run::default()).to_element().to_text(),
        "<w:hyperlink><w:r/></w:hyperlink>"
    );
    assert_eq!(
        Hyperlink::default().add_text("a<b").to_element().to_text(),
        "<w:hyperlink><w:r><w:t>a&lt;b</w:t></w:r></w:hyperlink>"
    );
}

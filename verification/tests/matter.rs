use gray_matter::Pod;
use website::matter::{Document, FrontMatter, DATE_KEY, DESCRIPTION_KEY, TECH_KEY, TITLE_KEY};

fn full_block() -> Pod {
    let mut block = Pod::new_hash();
    block.insert("title".to_string(), Pod::String("Alpha".to_string())).unwrap();
    block.insert("date".to_string(), Pod::String("2024-01-01".to_string())).unwrap();
    block.insert("description".to_string(), Pod::String("First".to_string())).unwrap();
    block
        .insert(
            "tech".to_string(),
            Pod::Array(vec![Pod::String("Go".to_string()), Pod::String("SQL".to_string())]),
        )
        .unwrap();
    block
}

#[test]
fn keys_are_those_of_the_content_files() {
    assert_eq!(TITLE_KEY, "title");
    assert_eq!(DATE_KEY, "date");
    assert_eq!(DESCRIPTION_KEY, "description");
    assert_eq!(TECH_KEY, "tech");
}

#[test]
fn front_matter_takes_the_four_entries() {
    let matter = FrontMatter::from_pod(full_block());
    assert_eq!(
        matter,
        FrontMatter {
            title: Some("Alpha".to_string()),
            date: Some("2024-01-01".to_string()),
            description: Some("First".to_string()),
            tech: Some(vec!["Go".to_string(), "SQL".to_string()]),
        }
    );
}

#[test]
fn front_matter_passes_over_other_entries() {
    let mut block = full_block();
    block.insert("draft".to_string(), Pod::Boolean(true)).unwrap();
    block.insert("weight".to_string(), Pod::Integer(3)).unwrap();
    assert_eq!(FrontMatter::from_pod(block), FrontMatter::from_pod(full_block()));
}

#[test]
fn front_matter_lacks_what_the_block_lacks() {
    let mut block = Pod::new_hash();
    block.insert("title".to_string(), Pod::String("Alone".to_string())).unwrap();
    assert_eq!(
        FrontMatter::from_pod(block),
        FrontMatter { title: Some("Alone".to_string()), date: None, description: None, tech: None }
    );
    assert_eq!(FrontMatter::from_pod(Pod::new_hash()), FrontMatter::empty());
}

#[test]
fn front_matter_lacks_entries_of_the_wrong_shape() {
    let mut block = full_block();
    block.insert("title".to_string(), Pod::Integer(7)).unwrap();
    block.insert("date".to_string(), Pod::Array(vec![])).unwrap();
    block.insert("description".to_string(), Pod::Null).unwrap();
    block.insert("tech".to_string(), Pod::String("Go".to_string())).unwrap();
    assert_eq!(FrontMatter::from_pod(block), FrontMatter::empty());
}

#[test]
fn front_matter_wants_every_tag_to_be_a_text() {
    let mut block = full_block();
    block
        .insert(
            "tech".to_string(),
            Pod::Array(vec![Pod::String("Go".to_string()), Pod::Integer(2), Pod::String("C".to_string())]),
        )
        .unwrap();
    assert_eq!(FrontMatter::from_pod(block).tech, None);
    let mut block = full_block();
    block.insert("tech".to_string(), Pod::Array(vec![])).unwrap();
    assert_eq!(FrontMatter::from_pod(block).tech, Some(vec![]));
}

#[test]
fn front_matter_of_what_is_no_table_is_empty() {
    assert_eq!(FrontMatter::from_pod(Pod::Null), FrontMatter::empty());
    assert_eq!(FrontMatter::from_pod(Pod::String("title".to_string())), FrontMatter::empty());
    assert_eq!(FrontMatter::from_pod(Pod::Array(vec![Pod::String("title".to_string())])), FrontMatter::empty());
    assert_eq!(
        FrontMatter::empty(),
        FrontMatter { title: None, date: None, description: None, tech: None }
    );
}

#[test]
fn front_matter_keeps_the_tags_in_their_order() {
    let text = "---\ntitle: T\ndate: 2024-01-01\ndescription: D\ntech:\n  - zig\n  - ada\n  - zig\n  - C\n---\n";
    let document = Document::parse(text).unwrap();
    assert_eq!(
        document.matter.tech,
        Some(vec!["zig".to_string(), "ada".to_string(), "zig".to_string(), "C".to_string()])
    );
}

#[test]
fn document_parts_the_block_from_the_body() {
    let text = "---\ntitle: Alpha\ndate: 2024-01-01\ndescription: First\ntech: [Go, SQL]\n---\n# Heading\n\nText";
    let document = Document::parse(text).unwrap();
    assert_eq!(document.matter, FrontMatter::from_pod(full_block()));
    assert_eq!(document.body, "# Heading\n\nText");
}

#[test]
fn document_without_a_block_has_no_entries() {
    let document = Document::parse("# Heading\n\nText").unwrap();
    assert_eq!(document.matter, FrontMatter::empty());
    assert_eq!(document.body, "# Heading\n\nText");
    let document = Document::parse("").unwrap();
    assert_eq!(document.matter, FrontMatter::empty());
    assert_eq!(document.body, "");
    let document = Document::parse("---\n---\nThis is content").unwrap();
    assert_eq!(document.matter, FrontMatter::empty());
    assert_eq!(document.body, "This is content");
}

#[test]
fn document_with_a_block_that_is_not_yaml_is_none() {
    assert_eq!(Document::parse("---\ntitle: [unclosed\n---\nbody"), None);
}

#[test]
fn document_agrees_with_gray_matter() {
    let text = "---\ntitle: Home\nother: 1\n---\nOther stuff";
    let theirs: gray_matter::ParsedEntity =
        gray_matter::Matter::<gray_matter::engine::YAML>::new().parse(text).unwrap();
    let ours = Document::parse(text).unwrap();
    assert_eq!(ours.body, theirs.content);
    assert_eq!(ours.matter.title, theirs.data.unwrap()["title"].as_string().ok());
}

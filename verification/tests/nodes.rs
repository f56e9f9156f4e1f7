use aerie::nodes::{FetchImages, LoadImages, NodeClass, TextInput, WorkNode};

fn node(t: &str) -> WorkNode {
    WorkNode::new(t.to_string(), NodeClass::Other)
}

fn special(t: &str, class: NodeClass) -> WorkNode {
    WorkNode::new(t.to_string(), class)
}

#[test]
fn node_kind_is_last_type_segment() {
    assert_eq!(node("aerie::workflow::nodes::Start").kind(), "Start");
    assert_eq!(node("Preview").kind(), "Preview");
}

#[test]
fn node_classification() {
    let start = special("aerie::workflow::nodes::Start", NodeClass::Start);
    let finish = special("aerie::workflow::nodes::Finish", NodeClass::Finish);
    let sub = special("aerie::workflow::nodes::subgraph::Subgraph", NodeClass::Subgraph);
    let select = special("aerie::workflow::nodes::Select", NodeClass::Select);
    assert!(start.is_start() && start.is_protected() && !start.is_finish());
    assert!(finish.is_finish() && finish.is_protected());
    assert!(sub.is_subgraph() && !sub.is_protected());
    assert!(select.is_eager());
    assert!(special("x::OutputNode", NodeClass::OutputNode).is_output());
    assert!(special("x::Preview", NodeClass::Preview).is_preview());
    assert!(special("x::CommentNode", NodeClass::CommentNode).is_comment());
}

#[test]
fn a_type_named_like_a_special_one_is_not_special() {
    let imposter = node("plugin::Start");
    assert_eq!(imposter.kind(), "Start");
    assert!(!imposter.is_start());
    assert!(!imposter.is_protected());
}

#[test]
fn fetch_images_sources() {
    let f = FetchImages::default();
    assert_eq!(f.title(), "Fetch Images");
    assert!(f.sources(None).is_empty());
    assert_eq!(f.sources(Some(TextInput::Text("u1".to_string()))), vec!["u1".to_string()]);
    assert_eq!(
        f.sources(Some(TextInput::TextList(vec!["a".to_string(), "b".to_string()]))),
        vec!["a".to_string(), "b".to_string()]
    );
}

#[test]
fn load_images_add_and_remove() {
    let mut n = LoadImages::new();
    assert_eq!(n.title(), "Images");
    assert_eq!(n.len(), 0);
    n.add_images(vec!["d1".to_string(), "d2".to_string(), "d3".to_string()]);
    assert_eq!(n.len(), 3);
    assert_eq!(n.remove_image(1), "d2");
    assert_eq!(n.sources(), vec!["d1".to_string(), "d3".to_string()]);
}

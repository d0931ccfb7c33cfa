//! Record marshaling details and smaller helpers.

use confluence::call_trace;
use confluence::attachment::AttachmentRequest;
use confluence::page::{Page, UpdatePage};
use confluence::rpser::xml::{Element, XMLNode, Error};
use confluence::space::Space;
use confluence::transforms::FromXMLNode;
use confluence::datetime::DateTimeValue;
use confluence::wsdl::Wsdl;

fn typed(name: &str, ty: &str, text: &str) -> Element {
    Element::node(name).with_attr("type", ty).with_text(text)
}

#[test]
fn call_trace_redacts_login_unconditionally() {
    assert_eq!(call_trace("login"), "[call] login ******");
    assert_eq!(call_trace("getPage"), "[call] getPage");
}

#[test]
fn space_marshals_with_required_typed_fields() {
    let node = XMLNode::Element(
        Element::node("getSpaceReturn")
            .with_child(Element::node("description"))
            .with_child(typed("homePage", "xsd:long", "11"))
            .with_child(typed("key", "xsd:string", "K"))
            .with_child(typed("name", "xsd:string", "Name"))
            .with_child(typed("type", "xsd:string", "global"))
            .with_child(typed("url", "xsd:string", "http://s")),
    );
    let space = Space::from_node(node).unwrap();
    assert_eq!(space.home_page, 11);
    assert_eq!(space.key, "K");
    assert_eq!(space.name, "Name");
    assert_eq!(space.space_type, "global");
    assert_eq!(space.url, "http://s");
    // the paths reached elements, not raw text, so the two text reads are
    // absent rather than failing
    assert_eq!(space.description, None);
    assert_eq!(space.space_group, None);
}

#[test]
fn space_marshals_without_a_description_child() {
    let node = XMLNode::Element(
        Element::node("getSpaceReturn")
            .with_child(typed("homePage", "xsd:long", "11"))
            .with_child(typed("key", "xsd:string", "K"))
            .with_child(typed("name", "xsd:string", "Name"))
            .with_child(typed("type", "xsd:string", "global"))
            .with_child(typed("url", "xsd:string", "http://s")),
    );
    let space = Space::from_node(node).unwrap();
    assert_eq!(space.description, None);
    assert_eq!(space.space_group, None);
    assert_eq!(space.key, "K");
}

#[test]
fn space_marshal_fails_fast_on_a_missing_required_path() {
    let node = XMLNode::Element(
        Element::node("getSpaceReturn").with_child(Element::node("description")),
    );
    let err = Space::from_node(node).unwrap_err();
    assert_eq!(err, Error::NotFoundAtPath { path: vec!["homePage".to_string()] });
}

#[test]
fn attachment_request_serializes_optional_parts_only_when_given() {
    let bare = AttachmentRequest::new("f.png", "image/png", None, None).to_element();
    assert_eq!(bare.name, "attachment");
    assert_eq!(bare.children.len(), 2);

    let full = AttachmentRequest::new(
        "f.png",
        "image/png",
        Some("T".to_string()),
        Some("C".to_string()),
    )
    .to_element();
    assert_eq!(full.children.len(), 4);
    let title = full.get_at_path(&["title"]).unwrap();
    match title {
        XMLNode::Element(t) => assert_eq!(t.get_text(), Some("T".to_string())),
        XMLNode::Text(_) => panic!("expected the element"),
    }
}

#[test]
fn update_page_carries_over_every_identifying_field() {
    let page = Page {
        id: 5,
        space: "S".to_string(),
        parent_id: 2,
        title: "T".to_string(),
        url: "u".to_string(),
        version: 3,
        content: "C".to_string(),
        created: DateTimeValue { seconds: 0, nanos: 0 },
        creator: "a".to_string(),
        modified: DateTimeValue { seconds: 0, nanos: 0 },
        modifier: "b".to_string(),
        home_page: false,
        content_status: "current".to_string(),
        current: true,
    };
    let up = UpdatePage::from_page(page);
    assert_eq!(up.id, Some(5));
    assert_eq!(up.version, Some(3));
    assert_eq!(up.parent_id, Some(2));
    assert_eq!(up.space, "S");

    let created = UpdatePage::with_create_fields(None, "S", "T", "C");
    assert_eq!(created.id, None);
    assert_eq!(created.version, None);
}

#[test]
fn wsdl_without_a_binding_yields_an_empty_directory() {
    let doc = Element::node("definitions")
        .with_child(Element::node("service").with_child(
            Element::node("port").with_child(Element::node("address").with_attr(
                "location",
                "http://e",
            )),
        ));
    let wsdl = Wsdl::from_document(&doc);
    assert_eq!(wsdl.operations, vec![]);
}

#[test]
fn wsdl_operations_without_a_name_are_skipped() {
    let doc = Element::node("definitions")
        .with_child(
            Element::node("binding")
                .with_child(Element::node("operation"))
                .with_child(Element::node("operation").with_attr("name", "login")),
        )
        .with_child(Element::node("service").with_child(
            Element::node("port").with_child(Element::node("address").with_attr(
                "location",
                "http://e",
            )),
        ));
    let wsdl = Wsdl::from_document(&doc);
    assert_eq!(wsdl.operations, vec![("login".to_string(), "http://e".to_string())]);
}

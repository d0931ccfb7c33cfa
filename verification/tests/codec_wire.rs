//! The textual wire layer: rendering, parsing, the envelope, and fault
//! detection.

use confluence::rpser::xml::{Element, XMLNode};
use confluence::rpser::wire::parse_document;
use confluence::rpser::{Method, Response, RpcError};

#[test]
fn to_string_renders_the_documented_shape() {
    let doc = Element::node("tag")
        .with_child(Element::node("hello").with_text("world"))
        .to_string();
    assert_eq!(
        doc,
        "<?xml version=\"1.0\" encoding=\"UTF-8\"?><tag><hello>world</hello></tag>"
    );
}

#[test]
fn to_string_escapes_text_and_attributes() {
    let doc = Element::node("t")
        .with_attr("a", "x\"y")
        .with_text("<b>&'</b>")
        .to_string();
    assert_eq!(
        doc,
        "<?xml version=\"1.0\" encoding=\"UTF-8\"?><t a=\"x&quot;y\">&lt;b&gt;&amp;&apos;&lt;/b&gt;</t>"
    );
}

#[test]
fn parse_then_inspect_round_trips_the_rendering() {
    let original = Element::node("page")
        .with_attr("kind", "demo")
        .with_child(Element::node("title").with_text("A <b>bold</b> & \"quoted\" 'title'"))
        .with_child(Element::node("empty"));
    let text = original.to_string();
    let parsed = parse_document(&text).expect("the rendering must parse back");
    assert_eq!(parsed, original);
}

#[test]
fn parse_reads_attributes_and_self_closing_tags() {
    let e = parse_document("<a x=\"1\" y='2'><b/>text</a>").unwrap();
    assert_eq!(e.name, "a");
    assert_eq!(
        e.attributes,
        vec![("x".to_string(), "1".to_string()), ("y".to_string(), "2".to_string())]
    );
    assert_eq!(e.children.len(), 2);
    match &e.children[0] {
        XMLNode::Element(b) => {
            assert_eq!(b.name, "b");
            assert!(b.children.is_empty());
        },
        XMLNode::Text(_) => panic!("expected the element"),
    }
    assert_eq!(e.children[1], XMLNode::Text("text".to_string()));
}

#[test]
fn parse_strips_namespace_prefixes_from_names() {
    let e = parse_document("<w:a w:k=\"v\"><w:b/></w:a>").unwrap();
    assert_eq!(e.name, "a");
    assert_eq!(e.attributes, vec![("k".to_string(), "v".to_string())]);
    match &e.children[0] {
        XMLNode::Element(b) => assert_eq!(b.name, "b"),
        XMLNode::Text(_) => panic!("expected the element"),
    }
}

#[test]
fn parse_decodes_entities_in_text() {
    let e = parse_document("<a>&lt;x&gt; &amp; &quot;q&quot; &apos;a&apos;</a>").unwrap();
    assert_eq!(e.get_text(), Some("<x> & \"q\" 'a'".to_string()));
}

#[test]
fn parse_accepts_a_prolog_and_surrounding_whitespace() {
    let e = parse_document("<?xml version=\"1.0\" encoding=\"UTF-8\"?>\n <a/> \n").unwrap();
    assert_eq!(e.name, "a");
}

#[test]
fn parse_skips_comments_inside_and_around_the_document() {
    let e = parse_document(
        "<?xml version=\"1.0\"?> <!-- lead --> <a><!-- note --><b/><!-- tail --></a> <!-- end -->",
    )
    .unwrap();
    assert_eq!(e.name, "a");
    // only the element and the surrounding spaces remain
    let elems: Vec<_> = e
        .children
        .iter()
        .filter(|n| matches!(n, XMLNode::Element(_)))
        .collect();
    assert_eq!(elems.len(), 1);
}

#[test]
fn parse_reads_cdata_as_verbatim_text() {
    let e = parse_document("<a><![CDATA[<raw> & \"text\"]]></a>").unwrap();
    assert_eq!(e.get_text(), Some("<raw> & \"text\"".to_string()));
    let empty = parse_document("<a><![CDATA[]]></a>").unwrap();
    assert_eq!(empty.get_text(), Some("".to_string()));
}

#[test]
fn parse_decodes_numeric_character_references() {
    let e = parse_document("<a>&#65;&#x42;&#233;&#x1F600;</a>").unwrap();
    assert_eq!(e.get_text(), Some("AB\u{e9}\u{1F600}".to_string()));
}

#[test]
fn invalid_numeric_references_are_malformed() {
    assert!(parse_document("<a>&#xD800;</a>").is_none());
    assert!(parse_document("<a>&#1114112;</a>").is_none());
    assert!(parse_document("<a>&#99999999999999999999;</a>").is_none());
    assert!(parse_document("<a>&#;</a>").is_none());
    assert!(parse_document("<a>&#x;</a>").is_none());
}

#[test]
fn doctype_declarations_are_outside_the_grammar() {
    assert!(parse_document("<!DOCTYPE a><a/>").is_none());
}

#[test]
fn malformed_documents_do_not_parse() {
    assert!(parse_document("").is_none());
    assert!(parse_document("<a>").is_none());
    assert!(parse_document("<a></b>").is_none());
    assert!(parse_document("just text").is_none());
    assert!(parse_document("<a>&bogus;</a>").is_none());
    assert!(parse_document("<a/><b/>").is_none());
    assert!(parse_document("<a><!-- unterminated </a>").is_none());
    assert!(parse_document("<a><![CDATA[ unterminated </a>").is_none());
}

#[test]
fn envelope_has_the_fixed_skeleton_and_ordered_parameters() {
    let m = Method::new("login")
        .with(Element::node("username").with_text("u"))
        .with(Element::node("password").with_text("p"));
    let xml = m.as_xml("http://e");
    assert_eq!(
        xml,
        "<?xml version=\"1.0\" encoding=\"UTF-8\"?><soapenv:Envelope xmlns:soapenv=\"http://schemas.xmlsoap.org/soap/envelope/\" xmlns:xsi=\"http://www.w3.org/2001/XMLSchema-instance\" xmlns:xsd=\"http://www.w3.org/2001/XMLSchema\"><soapenv:Header/><soapenv:Body><login xmlns=\"http://e\"><username>u</username><password>p</password></login></soapenv:Body></soapenv:Envelope>"
    );
}

fn fault_response_text() -> String {
    "<?xml version=\"1.0\" encoding=\"UTF-8\"?><soapenv:Envelope xmlns:soapenv=\"http://schemas.xmlsoap.org/soap/envelope/\"><soapenv:Body><soapenv:Fault><faultcode>soapenv:Server</faultcode><faultstring>java.lang.Exception: boom</faultstring></soapenv:Fault></soapenv:Body></soapenv:Envelope>"
    .to_string()
}

#[test]
fn fault_shaped_body_is_a_remote_fault_never_malformed() {
    let err = Response::from_xml(&fault_response_text()).unwrap_err();
    assert_eq!(
        err,
        RpcError::Fault {
            fault_code: "soapenv:Server".to_string(),
            fault_string: "java.lang.Exception: boom".to_string(),
        }
    );
}

#[test]
fn unparseable_response_is_malformed_document() {
    let err = Response::from_xml("this is not xml").unwrap_err();
    assert_eq!(err, RpcError::MalformedDocument);
    let err2 = Response::from_xml("<Envelope><Body>").unwrap_err();
    assert_eq!(err2, RpcError::MalformedDocument);
}

#[test]
fn normal_response_exposes_the_operation_element() {
    let text = "<soapenv:Envelope xmlns:soapenv=\"http://schemas.xmlsoap.org/soap/envelope/\"><soapenv:Body><ns1:getSpaceResponse xmlns:ns1=\"urn:x\"><getSpaceReturn><key type=\"xsd:string\">K</key></getSpaceReturn></ns1:getSpaceResponse></soapenv:Body></soapenv:Envelope>";
    let resp = Response::from_xml(text).unwrap();
    assert_eq!(resp.body.name, "getSpaceResponse");
    let key = resp.body.descend(&["getSpaceReturn", "key"]).unwrap();
    assert_eq!(key.as_string().unwrap(), "K");
}

#[test]
fn response_without_a_body_is_a_navigation_error() {
    let err = Response::from_xml("<Envelope><Head/></Envelope>").unwrap_err();
    assert!(matches!(err, RpcError::Xml(_)));
}

#[test]
fn from_body_detects_a_fault_built_as_a_tree() {
    let body = Element::node("Body").with_child(
        Element::node("Fault")
            .with_child(Element::node("faultcode").with_text("c"))
            .with_child(Element::node("faultstring").with_text("s")),
    );
    let err = Response::from_body(body).unwrap_err();
    assert_eq!(
        err,
        RpcError::Fault { fault_code: "c".to_string(), fault_string: "s".to_string() }
    );
}

//! The session state machine, the operation directory, and the end-to-end
//! flow on canned wire texts.

use confluence::{
    accept_response, get_children_response, get_page_response, get_server_info_response,
    remove_page_response, wsdl_url, Error, LogoutStep, Session,
};
use confluence::page::{PageUpdateOptions, UpdatePage};
use confluence::attachment::AttachmentRequest;
use confluence::rpser::xml::Element;
use confluence::rpser::Response;
use confluence::wsdl::Wsdl;

const ENDPOINT: &str = "http://confluence/rpc";

fn canned_wsdl_text() -> String {
    "<?xml version=\"1.0\" encoding=\"UTF-8\"?>\n<wsdl:definitions xmlns:wsdl=\"http://schemas.xmlsoap.org/wsdl/\">\n  <wsdl:binding name=\"confluenceservice\">\n    <wsdl:operation name=\"login\"/>\n    <wsdl:operation name=\"logout\"/>\n    <wsdl:operation name=\"getPage\"/>\n    <wsdl:operation name=\"removePage\"/>\n    <wsdl:operation name=\"getChildren\"/>\n    <wsdl:operation name=\"getServerInfo\"/>\n    <wsdl:operation name=\"storePage\"/>\n    <wsdl:operation name=\"updatePage\"/>\n    <wsdl:operation name=\"addAttachment\"/>\n  </wsdl:binding>\n  <wsdl:service name=\"ConfluenceSoapService\">\n    <wsdl:port name=\"confluenceservice\">\n      <wsdl:address location=\"http://confluence/rpc\"/>\n    </wsdl:port>\n  </wsdl:service>\n</wsdl:definitions>\n"
    .to_string()
}

fn response_with(child: Element) -> Response {
    Response { body: child }
}

fn login_response(token: &str) -> Response {
    response_with(
        Element::node("loginResponse")
            .with_child(Element::node("loginReturn").with_text(token)),
    )
}

fn logged_in_session() -> Session {
    let wsdl = Wsdl::from_text(&canned_wsdl_text()).unwrap();
    let mut session = Session::start(wsdl);
    session.accept_login(&login_response("tok123")).unwrap();
    session
}

#[test]
fn wsdl_url_appends_the_well_known_path() {
    assert_eq!(
        wsdl_url("http://confluence/"),
        "http://confluence/rpc/soap-axis/confluenceservice-v2?wsdl"
    );
    assert_eq!(
        wsdl_url("http://confluence"),
        "http://confluence/rpc/soap-axis/confluenceservice-v2?wsdl"
    );
}

#[test]
fn directory_projects_operations_to_the_service_endpoint() {
    let wsdl = Wsdl::from_text(&canned_wsdl_text()).unwrap();
    assert_eq!(wsdl.endpoint("login"), Some(ENDPOINT.to_string()));
    assert_eq!(wsdl.endpoint("getPage"), Some(ENDPOINT.to_string()));
    assert_eq!(wsdl.endpoint("nonexistent"), None);
}

#[test]
fn accept_login_moves_the_token_into_the_session() {
    let wsdl = Wsdl::from_pairs(vec![("login".to_string(), ENDPOINT.to_string())]);
    let mut session = Session::start(wsdl);
    assert_eq!(session.token(), "");
    session.accept_login(&login_response("secret")).unwrap();
    assert_eq!(session.token(), "secret");
}

#[test]
fn login_without_a_token_in_the_response_is_distinct() {
    let wsdl = Wsdl::from_pairs(vec![]);
    let mut session = Session::start(wsdl);
    let resp = response_with(
        Element::node("loginResponse").with_child(Element::node("loginReturn")),
    );
    let err = session.accept_login(&resp).unwrap_err();
    assert!(matches!(err, Error::ReceivedNoLoginToken));
    assert_eq!(session.token(), "");
}

#[test]
fn method_not_in_directory_fails_fast_with_no_call_produced() {
    // a directory holding only `login`
    let wsdl = Wsdl::from_pairs(vec![("login".to_string(), ENDPOINT.to_string())]);
    let session = Session::start(wsdl);
    let m = session.method("getPage");
    let err = session.prepare(&m).unwrap_err();
    match err {
        Error::MethodNotFoundInWsdl(name) => assert_eq!(name, "getPage"),
        other => panic!("expected the fail-fast error, got {:?}", other),
    }
}

#[test]
fn logout_is_idempotent_and_issues_no_second_call() {
    let mut session = logged_in_session();

    // first logout: exactly one call is produced
    let step = session.logout_request().unwrap();
    let call = match step {
        LogoutStep::Request(call) => call,
        LogoutStep::AlreadyLoggedOut => panic!("a logged-in session must produce a call"),
    };
    assert_eq!(call.url, ENDPOINT);
    assert_eq!(call.action, "logout");
    let resp = response_with(
        Element::node("logoutResponse")
            .with_child(Element::node("logoutReturn").with_text("true")),
    );
    assert_eq!(session.accept_logout(&resp).unwrap(), true);
    assert_eq!(session.token(), "");

    // second logout: the benign answer, nothing to send
    let again = session.logout_request().unwrap();
    assert!(matches!(again, LogoutStep::AlreadyLoggedOut));
}

#[test]
fn logout_reports_false_when_the_remote_side_says_so() {
    let mut session = logged_in_session();
    let resp = response_with(
        Element::node("logoutResponse")
            .with_child(Element::node("logoutReturn").with_text("expired")),
    );
    assert_eq!(session.accept_logout(&resp).unwrap(), false);
    assert_eq!(session.token(), "");
}

fn canned_page_fields(with_version: bool) -> String {
    let version = if with_version {
        "<version type=\"xsd:int\">1</version>"
    } else {
        ""
    };
    format!(
        "<id type=\"xsd:long\">7</id><space type=\"xsd:string\">S</space><parentId type=\"xsd:long\">0</parentId><title type=\"xsd:string\">Hi</title><url type=\"xsd:string\">http://confluence/x</url>{}<content type=\"xsd:string\">body text</content><created type=\"xsd:dateTime\">2015-09-10T16:34:00Z</created><creator type=\"xsd:string\">alice</creator><modified type=\"xsd:dateTime\">2015-09-11T08:00:00Z</modified><modifier type=\"xsd:string\">bob</modifier><homePage type=\"xsd:boolean\">false</homePage><contentStatus type=\"xsd:string\">current</contentStatus><current type=\"xsd:boolean\">true</current>",
        version
    )
}

fn canned_page_response(with_version: bool) -> String {
    format!(
        "<?xml version=\"1.0\" encoding=\"UTF-8\"?><soapenv:Envelope xmlns:soapenv=\"http://schemas.xmlsoap.org/soap/envelope/\"><soapenv:Body><ns1:getPageResponse xmlns:ns1=\"urn:x\"><getPageReturn>{}</getPageReturn></ns1:getPageResponse></soapenv:Body></soapenv:Envelope>",
        canned_page_fields(with_version)
    )
}

#[test]
fn end_to_end_get_page_yields_the_typed_record() {
    let session = logged_in_session();

    // the request goes to the endpoint the description named
    let call = session.get_page_by_id_request(7).unwrap();
    assert_eq!(call.url, ENDPOINT);
    assert_eq!(call.action, "getPage");
    assert!(call.envelope.contains("<pageId>7</pageId>"));
    assert!(call.envelope.contains("<token>tok123</token>"));

    // the canned response marshals into the record
    let resp = accept_response(&canned_page_response(true)).unwrap();
    let page = get_page_response(&resp).unwrap();
    assert_eq!(page.id, 7);
    assert_eq!(page.title, "Hi");
    assert_eq!(page.space, "S");
    assert_eq!(page.version, 1);
    assert_eq!(page.content, "body text");
    assert_eq!(page.home_page, false);
    assert_eq!(page.current, true);
    assert_eq!(
        page.created.seconds,
        chrono::DateTime::parse_from_rfc3339("2015-09-10T16:34:00Z").unwrap().timestamp()
    );
}

#[test]
fn end_to_end_missing_required_field_fails_the_whole_marshal() {
    let resp = accept_response(&canned_page_response(false)).unwrap();
    let err = get_page_response(&resp).unwrap_err();
    match err {
        Error::Rpc(confluence::rpser::RpcError::Xml(
            confluence::rpser::xml::Error::NotFoundAtPath { path },
        )) => assert_eq!(path, vec!["version".to_string()]),
        other => panic!("expected the missing-version failure, got {:?}", other),
    }
}

#[test]
fn remove_page_reports_the_remote_answer() {
    let yes = response_with(
        Element::node("removePageResponse")
            .with_child(Element::node("removePageReturn").with_text("true")),
    );
    assert_eq!(remove_page_response(&yes).unwrap(), true);
    let no = response_with(
        Element::node("removePageResponse")
            .with_child(Element::node("removePageReturn").with_text("nope")),
    );
    assert_eq!(remove_page_response(&no).unwrap(), false);
}

fn summary_element() -> Element {
    Element::node("PageSummary")
        .with_child(Element::node("id").with_attr("type", "xsd:long").with_text("9"))
        .with_child(Element::node("space").with_attr("type", "xsd:string").with_text("S"))
        .with_child(Element::node("parentId").with_attr("type", "xsd:long").with_text("7"))
        .with_child(Element::node("title").with_attr("type", "xsd:string").with_text("Child"))
        .with_child(Element::node("url").with_attr("type", "xsd:string").with_text("http://c"))
}

#[test]
fn get_children_marshals_each_child_element() {
    // text between the child elements — as a pretty-printed wire document
    // produces — is not part of the list
    let resp = response_with(
        Element::node("getChildrenResponse").with_child(
            Element::node("getChildrenReturn")
                .with_text("\n  ")
                .with_child(summary_element())
                .with_text("\n  ")
                .with_child(summary_element())
                .with_text("\n"),
        ),
    );
    let summaries = get_children_response(&resp).unwrap();
    assert_eq!(summaries.len(), 2);
    assert_eq!(summaries[0].id, 9);
    assert_eq!(summaries[0].title, "Child");
}

#[test]
fn get_children_accepts_a_pretty_printed_response_text() {
    let text = "<soapenv:Envelope xmlns:soapenv=\"http://schemas.xmlsoap.org/soap/envelope/\"><soapenv:Body><getChildrenResponse><getChildrenReturn>\n  <PageSummary>\n    <id type=\"xsd:long\">9</id>\n    <space type=\"xsd:string\">S</space>\n    <parentId type=\"xsd:long\">7</parentId>\n    <title type=\"xsd:string\">Child</title>\n    <url type=\"xsd:string\">http://c</url>\n  </PageSummary>\n</getChildrenReturn></getChildrenResponse></soapenv:Body></soapenv:Envelope>";
    let resp = accept_response(text).unwrap();
    let summaries = get_children_response(&resp).unwrap();
    assert_eq!(summaries.len(), 1);
    assert_eq!(summaries[0].id, 9);
    assert_eq!(summaries[0].space, "S");
}

#[test]
fn one_bad_child_fails_the_whole_list() {
    let resp = response_with(
        Element::node("getChildrenResponse").with_child(
            Element::node("getChildrenReturn")
                .with_child(summary_element())
                .with_child(Element::node("PageSummary")),
        ),
    );
    assert!(get_children_response(&resp).is_err());
}

#[test]
fn server_info_marshals_required_and_optional_fields() {
    let resp = response_with(
        Element::node("getServerInfoResponse").with_child(
            Element::node("getServerInfoReturn")
                .with_child(
                    Element::node("developmentBuild")
                        .with_attr("type", "xsd:boolean")
                        .with_text("false"),
                )
                .with_child(
                    Element::node("majorVersion").with_attr("type", "xsd:int").with_text("5"),
                )
                .with_child(
                    Element::node("minorVersion").with_attr("type", "xsd:int").with_text("9"),
                )
                .with_child(
                    Element::node("patchLevel").with_attr("type", "xsd:int").with_text("1"),
                ),
        ),
    );
    let info = get_server_info_response(&resp).unwrap();
    assert_eq!(info.major_version, 5);
    assert_eq!(info.minor_version, 9);
    assert_eq!(info.patch_level, 1);
    assert_eq!(info.development_build, false);
    assert_eq!(info.base_url, None);
    assert_eq!(info.build_id, None);
}

#[test]
fn store_page_request_carries_the_page_items_in_order() {
    let session = logged_in_session();
    let page = UpdatePage::with_create_fields(Some(3), "S", "T", "C");
    let call = session.store_page_request(page).unwrap();
    assert_eq!(call.action, "storePage");
    assert!(call.envelope.contains(
        "<page><space>S</space><title>T</title><content>C</content><parentId>3</parentId></page>"
    ));
}

#[test]
fn update_page_request_adds_the_options() {
    let session = logged_in_session();
    let page = UpdatePage {
        id: Some(7),
        space: "S".to_string(),
        title: "T".to_string(),
        content: "C".to_string(),
        version: Some(2),
        parent_id: None,
    };
    let options = PageUpdateOptions { version_comment: None, minor_edit: true };
    let call = session.update_page_request(page, options).unwrap();
    assert!(call.envelope.contains("<id>7</id><version>2</version>"));
    assert!(call.envelope.contains(
        "<pageUpdateOptions><minorEdit>true</minorEdit></pageUpdateOptions>"
    ));
}

#[test]
fn add_attachment_request_carries_the_base64_data() {
    let session = logged_in_session();
    let attachment = AttachmentRequest::new("f.bin", "application/octet-stream", None, None);
    let data: Vec<u8> = vec![0, 1, 2, 3, 4];
    let call = session.add_attachment_request(99, attachment, &data).unwrap();
    assert_eq!(call.action, "addAttachment");
    let expected = base64::encode(&data);
    assert!(call.envelope.contains(&format!(
        "<attachmentData>{}</attachmentData>",
        expected
    )));
    assert!(call.envelope.contains("<contentId>99</contentId>"));
    assert!(call.envelope.contains("<fileName>f.bin</fileName>"));
}

use edinet_xbrl::error::{ParseFailure, StructuralFault};
use edinet_xbrl::events::{XmlEvent, XmlToken};
use edinet_xbrl::models::xbrl::{DynamicXBRLContent, XBRLElement};
use edinet_xbrl::parser::{document_from_events, parse_dynamic_xbrl, Progress, TreeBuilder};

fn parsed(content: &str) -> DynamicXBRLContent {
    match parse_dynamic_xbrl(content) {
        Ok(document) => document,
        Err(failure) => panic!("unexpected failure: {:?}", failure),
    }
}

fn failure_of(content: &str) -> ParseFailure {
    match parse_dynamic_xbrl(content) {
        Ok(document) => panic!("unexpected document: {:?}", document),
        Err(failure) => failure,
    }
}

fn count(elements: &Vec<XBRLElement>) -> usize {
    let mut total = 0;
    let mut stack: Vec<&XBRLElement> = elements.iter().collect();
    while let Some(element) = stack.pop() {
        total += 1;
        stack.extend(element.children.iter());
    }
    total
}

fn start(name: &str, attributes: Vec<(&str, &str)>) -> XmlEvent {
    XmlEvent {
        token: XmlToken::Start {
            name: name.as_bytes().to_vec(),
            attributes: attributes
                .into_iter()
                .map(|(k, v)| Some((k.as_bytes().to_vec(), v.as_bytes().to_vec())))
                .collect(),
        },
        position: 0,
    }
}

fn text(content: &str) -> XmlEvent {
    XmlEvent { token: XmlToken::Text { content: content.as_bytes().to_vec() }, position: 0 }
}

fn plain(token: XmlToken, position: usize) -> XmlEvent {
    XmlEvent { token, position }
}

#[test]
fn reads_a_single_element_with_its_text() {
    let document = parsed("<jppfs_cor:NetSales>1000</jppfs_cor:NetSales>");
    assert_eq!(document.elements.len(), 1);
    let element = &document.elements[0];
    assert_eq!(element.name, "jppfs_cor:NetSales");
    assert_eq!(element.value.as_deref(), Some("1000"));
    assert!(element.children.is_empty());
    assert!(element.attributes.is_empty());
    assert_eq!(element.context_ref, None);
    assert_eq!(element.unit_ref, None);
    assert!(document.namespaces.is_empty());
    assert!(document.contexts.is_empty());
}

#[test]
fn pulls_context_and_unit_references_out_of_the_attributes() {
    let document = parsed(
        r#"<a contextRef="CurrentYTDDuration" unitRef="JPY" decimals="-6" id="x">5</a>"#,
    );
    let element = &document.elements[0];
    assert_eq!(element.context_ref.as_deref(), Some("CurrentYTDDuration"));
    assert_eq!(element.unit_ref.as_deref(), Some("JPY"));
    assert_eq!(element.attributes.len(), 2);
    assert_eq!(element.attributes.get("decimals"), Some(&"-6".to_string()));
    assert_eq!(element.attributes.get("id"), Some(&"x".to_string()));
    assert!(!element.attributes.contains_key("contextRef"));
    assert!(!element.attributes.contains_key("unitRef"));
}

#[test]
fn namespace_declarations_fill_the_namespaces_and_stay_attributes() {
    let document = parsed(
        r#"<root xmlns:jppfs_cor="http://example.com/jppfs" xmlns="http://example.com/default"><inner xmlns:xlink="http://www.w3.org/1999/xlink"/><leaf xmlns:late="urn:late"></leaf></root>"#,
    );
    assert_eq!(document.namespaces.len(), 3);
    assert_eq!(
        document.namespaces.get("jppfs_cor"),
        Some(&"http://example.com/jppfs".to_string())
    );
    assert_eq!(
        document.namespaces.get("xlink"),
        Some(&"http://www.w3.org/1999/xlink".to_string())
    );
    assert_eq!(document.namespaces.get("late"), Some(&"urn:late".to_string()));
    assert!(!document.namespaces.contains_key("xmlns"));
    assert!(!document.namespaces.contains_key(""));
    let root = &document.elements[0];
    assert!(!root.attributes.contains_key("xmlns:jppfs_cor"));
    assert_eq!(root.attributes.len(), 1);
    assert_eq!(
        root.attributes.get("xmlns"),
        Some(&"http://example.com/default".to_string())
    );
    assert!(root.children[0].attributes.is_empty());
    assert!(root.children[1].attributes.is_empty());
}

#[test]
fn a_declaration_goes_to_the_namespaces_and_other_attributes_stay() {
    let document = parsed("<r xmlns:x='u' id='i1'><x:a>5</x:a></r>");
    assert_eq!(document.namespaces.len(), 1);
    assert_eq!(document.namespaces.get("x"), Some(&"u".to_string()));
    let root = &document.elements[0];
    assert_eq!(root.attributes.entries(), &vec![("id".to_string(), "i1".to_string())]);
    assert_eq!(root.children[0].name, "x:a");
    assert_eq!(root.children[0].value.as_deref(), Some("5"));
}

#[test]
fn a_marker_without_a_prefix_declares_the_empty_prefix() {
    let events = vec![start("a", vec![("xmlns:", "urn:none"), ("xmlnsx", "kept")])];
    let mut events = events;
    events.push(plain(XmlToken::End, 0));
    let document = document_from_events(&events).unwrap();
    assert_eq!(document.namespaces.get(""), Some(&"urn:none".to_string()));
    assert_eq!(document.namespaces.len(), 1);
    assert_eq!(
        document.elements[0].attributes.entries(),
        &vec![("xmlnsx".to_string(), "kept".to_string())]
    );
}

#[test]
fn a_later_declaration_of_a_prefix_replaces_the_earlier_one() {
    let document = parsed(r#"<a xmlns:p="first"><b xmlns:p="second"></b></a>"#);
    assert_eq!(document.namespaces.len(), 1);
    assert_eq!(document.namespaces.get("p"), Some(&"second".to_string()));
}

#[test]
fn nests_children_in_document_order() {
    let document = parsed("<a><b><c>1</c></b><d>2</d></a><e></e>");
    assert_eq!(document.elements.len(), 2);
    let a = &document.elements[0];
    assert_eq!(a.name, "a");
    assert_eq!(a.children.len(), 2);
    assert_eq!(a.children[0].name, "b");
    assert_eq!(a.children[0].children[0].name, "c");
    assert_eq!(a.children[0].children[0].value.as_deref(), Some("1"));
    assert_eq!(a.children[1].name, "d");
    assert_eq!(a.children[1].value.as_deref(), Some("2"));
    assert_eq!(document.elements[1].name, "e");
    assert_eq!(document.elements[1].value, None);
}

#[test]
fn the_last_text_of_an_open_element_wins() {
    let document = parsed("<a>first<!-- between -->second</a>");
    assert_eq!(document.elements[0].value.as_deref(), Some("second"));
    let document = parsed("<a>before<b>inner</b>after</a>");
    assert_eq!(document.elements[0].value.as_deref(), Some("after"));
    assert_eq!(document.elements[0].children[0].value.as_deref(), Some("inner"));
}

#[test]
fn text_is_trimmed_and_blank_text_is_no_text() {
    let document = parsed("<a>\n   12.5  \n</a><b>   </b>");
    assert_eq!(document.elements[0].value.as_deref(), Some("12.5"));
    assert_eq!(document.elements[1].value, None);
}

#[test]
fn text_keeps_the_markup_escapes_as_written() {
    let document = parsed(r#"<a title="x &amp; y">1 &lt; 2</a>"#);
    assert_eq!(document.elements[0].value.as_deref(), Some("1 &lt; 2"));
    assert_eq!(
        document.elements[0].attributes.get("title"),
        Some(&"x &amp; y".to_string())
    );
}

#[test]
fn text_outside_of_every_element_is_dropped() {
    let document = parsed("stray<a>kept</a>more");
    assert_eq!(document.elements.len(), 1);
    assert_eq!(document.elements[0].value.as_deref(), Some("kept"));
}

#[test]
fn declarations_comments_and_character_data_sections_carry_no_element() {
    let document = parsed(
        "<?xml version=\"1.0\" encoding=\"UTF-8\"?><!DOCTYPE x><a><!-- c --><![CDATA[42]]><?pi data?></a>",
    );
    assert_eq!(document.elements.len(), 1);
    assert!(document.elements[0].children.is_empty());
    assert_eq!(document.elements[0].value, None);
}

#[test]
fn a_self_closing_tag_is_an_element_without_text_or_children() {
    let document = parsed(r#"<a><b contextRef="Q" id="1" xmlns:p="urn:p"/>text<c/></a><d/>"#);
    assert_eq!(document.elements.len(), 2);
    let a = &document.elements[0];
    assert_eq!(a.value.as_deref(), Some("text"));
    assert_eq!(a.children.len(), 2);
    let b = &a.children[0];
    assert_eq!(b.name, "b");
    assert_eq!(b.value, None);
    assert!(b.children.is_empty());
    assert_eq!(b.context_ref.as_deref(), Some("Q"));
    assert_eq!(b.attributes.entries(), &vec![("id".to_string(), "1".to_string())]);
    assert_eq!(a.children[1].name, "c");
    assert_eq!(document.elements[1].name, "d");
    assert_eq!(document.namespaces.get("p"), Some(&"urn:p".to_string()));
    assert_eq!(count(&document.elements), 4);
    let lone = parsed("<a/>");
    assert_eq!(lone.elements.len(), 1);
    assert_eq!(lone.elements[0].name, "a");
}

#[test]
fn names_and_text_may_be_any_unicode() {
    let document = parsed("<売上高 種類=\"連結\">千円</売上高>");
    assert_eq!(document.elements[0].name, "売上高");
    assert_eq!(document.elements[0].value.as_deref(), Some("千円"));
    assert_eq!(
        document.elements[0].attributes.get("種類"),
        Some(&"連結".to_string())
    );
}

#[test]
fn an_empty_input_is_an_empty_document() {
    let document = parsed("");
    assert!(document.elements.is_empty());
    assert!(document.namespaces.is_empty());
    let document = parsed("   \n ");
    assert!(document.elements.is_empty());
}

#[test]
fn the_tree_holds_one_element_for_each_start_tag() {
    let content = "<a><b><c/><d>1</d></b><e><f><g><h>2</h></g></f></e></a><i></i><j><k></k></j>";
    let document = parsed(content);
    let tags = content.matches('<').count() - content.matches("</").count();
    assert_eq!(tags, 11);
    assert_eq!(count(&document.elements), tags);
    assert_eq!(count(&parsed("<a><b/></a>").elements), 2);
}

#[test]
fn deep_nesting_is_read_without_recursion() {
    let depth = 2000;
    let mut content = String::new();
    for _ in 0..depth {
        content.push_str("<n>");
    }
    content.push_str("7");
    for _ in 0..depth {
        content.push_str("</n>");
    }
    let document = parsed(&content);
    assert_eq!(count(&document.elements), depth);
    let mut element = &document.elements[0];
    let mut levels = 1;
    while let Some(child) = element.children.first() {
        element = child;
        levels += 1;
    }
    assert_eq!(levels, depth);
    assert_eq!(element.value.as_deref(), Some("7"));
}

#[test]
fn an_unterminated_element_is_a_structural_failure() {
    assert_eq!(
        failure_of("<a><b>1</b>"),
        ParseFailure::StructuralError { fault: StructuralFault::UnclosedElement }
    );
    assert_eq!(
        failure_of("<a>"),
        ParseFailure::StructuralError { fault: StructuralFault::UnclosedElement }
    );
}

#[test]
fn a_tag_that_never_closes_is_a_parse_failure() {
    assert!(matches!(failure_of("<a><b"), ParseFailure::ParseError { .. }));
    assert!(matches!(failure_of("<a><!-- open"), ParseFailure::ParseError { .. }));
}

#[test]
fn an_end_tag_without_a_start_tag_fails() {
    assert_eq!(failure_of("</a>"), ParseFailure::ParseError { position: 2 });
    assert!(matches!(failure_of("<a></a></a>"), ParseFailure::ParseError { .. }));
}

#[test]
fn an_end_tag_of_another_name_fails() {
    assert_eq!(failure_of("<a></b>"), ParseFailure::ParseError { position: 5 });
}

#[test]
fn a_malformed_attribute_is_a_parse_failure() {
    assert_eq!(failure_of("<a key></a>"), ParseFailure::ParseError { position: 7 });
    assert!(matches!(failure_of("<a k=v></a>"), ParseFailure::ParseError { .. }));
    assert!(matches!(failure_of(r#"<a k="1" k="2"></a>"#), ParseFailure::ParseError { .. }));
}

#[test]
fn events_build_the_tree_they_describe() {
    let events = vec![
        start("root", vec![("xmlns:p", "urn:p"), ("contextRef", "Q")]),
        text("ignored"),
        start("p:leaf", vec![("unitRef", "JPY"), ("id", "1")]),
        text("first"),
        plain(XmlToken::Other, 0),
        text("second"),
        plain(XmlToken::End, 0),
        plain(XmlToken::End, 0),
        plain(XmlToken::Eof, 0),
    ];
    let document = document_from_events(&events).unwrap();
    assert_eq!(document.elements.len(), 1);
    let root = &document.elements[0];
    assert_eq!(root.name, "root");
    assert_eq!(root.context_ref.as_deref(), Some("Q"));
    assert_eq!(root.value.as_deref(), Some("ignored"));
    assert!(root.attributes.is_empty());
    assert_eq!(root.children.len(), 1);
    assert_eq!(root.children[0].name, "p:leaf");
    assert_eq!(root.children[0].value.as_deref(), Some("second"));
    assert_eq!(root.children[0].unit_ref.as_deref(), Some("JPY"));
    assert_eq!(root.children[0].attributes.get("id"), Some(&"1".to_string()));
    assert_eq!(document.namespaces.get("p"), Some(&"urn:p".to_string()));
}

#[test]
fn the_last_of_repeated_reference_attributes_wins() {
    let events = vec![
        start("a", vec![("contextRef", "first"), ("k", "1"), ("contextRef", "second"), ("k", "2")]),
        plain(XmlToken::End, 0),
    ];
    let document = document_from_events(&events).unwrap();
    assert_eq!(document.elements[0].context_ref.as_deref(), Some("second"));
    assert_eq!(document.elements[0].attributes.len(), 1);
    assert_eq!(document.elements[0].attributes.get("k"), Some(&"2".to_string()));
}

#[test]
fn events_that_run_out_end_the_input() {
    let events = vec![start("a", vec![]), plain(XmlToken::End, 0)];
    assert_eq!(document_from_events(&events).unwrap().elements.len(), 1);
    let events = vec![start("a", vec![])];
    assert_eq!(
        document_from_events(&events).unwrap_err(),
        ParseFailure::StructuralError { fault: StructuralFault::UnclosedElement }
    );
    assert!(document_from_events(&vec![]).unwrap().elements.is_empty());
}

#[test]
fn events_after_the_end_of_input_are_not_looked_at() {
    let events = vec![
        start("a", vec![]),
        plain(XmlToken::End, 0),
        plain(XmlToken::Eof, 0),
        plain(XmlToken::Malformed, 9),
        start("b", vec![]),
    ];
    let document = document_from_events(&events).unwrap();
    assert_eq!(document.elements.len(), 1);
}

#[test]
fn an_end_event_with_nothing_open_is_a_structural_failure() {
    let events = vec![start("a", vec![]), plain(XmlToken::End, 0), plain(XmlToken::End, 0)];
    assert_eq!(
        document_from_events(&events).unwrap_err(),
        ParseFailure::StructuralError { fault: StructuralFault::UnmatchedEnd }
    );
}

#[test]
fn a_malformed_event_fails_at_its_position() {
    let events = vec![start("a", vec![]), plain(XmlToken::Malformed, 17), plain(XmlToken::End, 0)];
    assert_eq!(
        document_from_events(&events).unwrap_err(),
        ParseFailure::ParseError { position: 17 }
    );
}

#[test]
fn bytes_that_are_not_text_fail_at_the_position_of_their_event() {
    let bad_name = XmlEvent {
        token: XmlToken::Start { name: vec![0xff, 0x41], attributes: vec![] },
        position: 4,
    };
    assert_eq!(
        document_from_events(&vec![bad_name]).unwrap_err(),
        ParseFailure::ParseError { position: 4 }
    );
    let bad_key = XmlEvent {
        token: XmlToken::Start {
            name: b"a".to_vec(),
            attributes: vec![Some((vec![0xc3], b"v".to_vec()))],
        },
        position: 5,
    };
    assert_eq!(
        document_from_events(&vec![bad_key]).unwrap_err(),
        ParseFailure::ParseError { position: 5 }
    );
    let bad_value = XmlEvent {
        token: XmlToken::Start {
            name: b"a".to_vec(),
            attributes: vec![Some((b"k".to_vec(), vec![0xe3, 0x81]))],
        },
        position: 6,
    };
    assert_eq!(
        document_from_events(&vec![bad_value]).unwrap_err(),
        ParseFailure::ParseError { position: 6 }
    );
    let unread = XmlEvent {
        token: XmlToken::Start { name: b"a".to_vec(), attributes: vec![None] },
        position: 7,
    };
    assert_eq!(
        document_from_events(&vec![unread]).unwrap_err(),
        ParseFailure::ParseError { position: 7 }
    );
    let bad_text =
        XmlEvent { token: XmlToken::Text { content: vec![0x80] }, position: 8 };
    assert_eq!(
        document_from_events(&vec![start("a", vec![]), bad_text]).unwrap_err(),
        ParseFailure::ParseError { position: 8 }
    );
}

#[test]
fn text_that_is_dropped_is_not_decoded() {
    let stray = XmlEvent { token: XmlToken::Text { content: vec![0x80] }, position: 1 };
    let document = document_from_events(&vec![stray]).unwrap();
    assert!(document.elements.is_empty());
}

#[test]
fn a_builder_takes_events_one_by_one() {
    let builder = TreeBuilder::new();
    let builder = match builder.accept(&start("a", vec![])) {
        Progress::More(builder) => builder,
        _ => panic!("the tree is not complete"),
    };
    let builder = match builder.accept(&text("1")) {
        Progress::More(builder) => builder,
        _ => panic!("the tree is not complete"),
    };
    assert!(matches!(
        TreeBuilder::new().accept(&plain(XmlToken::End, 0)),
        Progress::Failed(ParseFailure::StructuralError { fault: StructuralFault::UnmatchedEnd })
    ));
    let builder = match builder.accept(&plain(XmlToken::End, 0)) {
        Progress::More(builder) => builder,
        _ => panic!("the tree is not complete"),
    };
    match builder.accept(&plain(XmlToken::Eof, 0)) {
        Progress::Finished(document) => {
            assert_eq!(document.elements.len(), 1);
            assert_eq!(document.elements[0].value.as_deref(), Some("1"));
        }
        _ => panic!("the tree is complete"),
    }
    assert!(TreeBuilder::new().finish().unwrap().elements.is_empty());
}

#[test]
fn odd_pieces_of_markup_are_read_or_refused() {
    let refused = [
        "<a", "<!", "<!-", "<!--", "<!-->", "<!--->", "<!-- x ->", "<![", "<![CDATA[",
        "<![CDATA[]>", "<![]]>", "<!D", "<!D>", "<!DOCTYPE>", "<!DOCTYPE  >", "<!x>", "<?", "<?>",
        "<?x", "<a b='>", "<a b=\">", "</a>", "<a></b>", "<a></a></a>", "<a x></a>",
        "<a =></a>", "<a x=></a>", "<a x=1></a>", "<a><!DOCTYPE></a>", "<??>", "</a", "</",
        "</>", "<a/", "<a /",
    ];
    for content in refused {
        assert!(
            matches!(parse_dynamic_xbrl(content), Err(ParseFailure::ParseError { .. })),
            "{:?}",
            content
        );
    }
    let unclosed = ["<a>", "<>", "< >", "<a><b></b>", "<a b='>'>", "<a><!---->", "<a>text"];
    for content in unclosed {
        assert_eq!(
            parse_dynamic_xbrl(content).unwrap_err(),
            ParseFailure::StructuralError { fault: StructuralFault::UnclosedElement },
            "{:?}",
            content
        );
    }
    let read = [
        ("", 0),
        ("<", 0),
        ("text", 0),
        ("<a/>", 1),
        ("<a><b/><c /></a>", 3),
        ("\u{feff}<a></a>", 1),
        ("<!---->", 0),
        ("<!-- a -- b -->", 0),
        ("<![CDATA[]]>", 0),
        ("<![CDATA[<a>]]>", 0),
        ("<!DOCTYPE a [<!ENTITY b 'c'>]>", 0),
        ("<?xml version='1.0'?>", 0),
        ("<?a?>", 0),
        ("<></>", 1),
        ("<a></a >", 1),
        ("<a ></a>", 1),
        ("<a\n></a\n>", 1),
        ("<a x='1' y=\"2\"></a>", 1),
        ("<a x = '1'></a>", 1),
        ("<a></a", 1),
    ];
    for (content, elements) in read {
        match parse_dynamic_xbrl(content) {
            Ok(document) => assert_eq!(count(&document.elements), elements, "{:?}", content),
            Err(failure) => panic!("{:?}: {:?}", content, failure),
        }
    }
}

#[test]
fn every_short_input_is_read_or_refused() {
    let alphabet = ['<', '>', '/', '!', '?', '-', '[', ']', 'a', ' ', '=', '"', 'D'];
    let mut frontier = vec![String::new()];
    let mut inputs = 0;
    let mut documents = 0;
    for _ in 0..4 {
        let mut next = Vec::new();
        for shorter in &frontier {
            for letter in alphabet {
                let mut content = shorter.clone();
                content.push(letter);
                if let Ok(document) = parse_dynamic_xbrl(&content) {
                    let start_tags = content.matches('<').count()
                        - content.matches("</").count()
                        - content.matches("<!").count()
                        - content.matches("<?").count();
                    assert!(count(&document.elements) <= start_tags, "{:?}", content);
                    documents += 1;
                }
                inputs += 1;
                next.push(content);
            }
        }
        frontier = next;
    }
    assert_eq!(inputs, 13 + 169 + 2197 + 28561);
    assert!(documents > 0);
}

use pi_build::markup::{nodes_at, nodes_of, HtmlDocument, HtmlNode, MarkupError, Selected};

const PAGE: &str = r#"<!DOCTYPE html>
<html>
  <head><title>Downloads</title></head>
  <body>
    <div class="list" id="main">
      <a href="/files/tool-1.0.tar.gz" class="file">tool <b>1.0</b></a>
      <a href="/files/tool-1.1.tar.gz" class="file">tool <b>1.1</b></a>
      <a href="/about">About</a>
    </div>
    <div class="footer"><a href="/contact" class="file">Contact</a></div>
  </body>
</html>"#;

fn page() -> HtmlDocument {
    HtmlDocument::new(PAGE.to_string())
}

#[test]
fn the_document_is_asked_as_a_whole() {
    let doc = page();
    let root = doc.root();
    assert_eq!(root, HtmlNode { index: 0 });
    let links = doc.select(root, "a.file").unwrap();
    assert_eq!(links.len(), 3);
    let hrefs: Vec<Option<String>> =
        links.iter().map(|n| doc.attribute(*n, "href").unwrap()).collect();
    assert_eq!(
        hrefs,
        vec![
            Some("/files/tool-1.0.tar.gz".to_string()),
            Some("/files/tool-1.1.tar.gz".to_string()),
            Some("/contact".to_string()),
        ]
    );
    assert_eq!(doc.text(links[0]).unwrap(), "tool 1.0");
    assert_eq!(doc.tag(links[0]).unwrap(), "a");
    assert!(doc.select(root, "table").unwrap().is_empty());
}

#[test]
fn an_element_is_asked_for_what_is_below_it() {
    let doc = page();
    let list = doc.select_one(doc.root(), "div.list").unwrap().unwrap();
    assert_eq!(doc.tag(list).unwrap(), "div");
    assert_eq!(doc.attribute(list, "id").unwrap().as_deref(), Some("main"));
    assert_eq!(doc.attribute(list, "title").unwrap(), None);
    let links = doc.select(list, "a").unwrap();
    assert_eq!(links.len(), 3);
    assert_eq!(doc.text(links[2]).unwrap(), "About");
    let files = doc.select(list, "a.file").unwrap();
    assert_eq!(files.len(), 2);
    let bold = doc.select_one(files[1], "b").unwrap().unwrap();
    assert_eq!(doc.text(bold).unwrap(), "1.1");
    // An element does not match below itself.
    assert!(doc.select(list, "div").unwrap().is_empty());
    assert!(doc.select_one(bold, "a").unwrap().is_none());
}

#[test]
fn a_selector_that_does_not_parse_is_refused() {
    let doc = page();
    let root = doc.root();
    assert_eq!(doc.select(root, "a[").unwrap_err(), MarkupError::InvalidSelector);
    assert_eq!(doc.select_one(root, "").unwrap_err(), MarkupError::InvalidSelector);
    let list = doc.select_one(root, "div").unwrap().unwrap();
    assert_eq!(doc.select(list, "a[").unwrap_err(), MarkupError::InvalidSelector);
    // The selector is looked at before the node.
    assert_eq!(
        doc.select(HtmlNode { index: 100_000 }, "a[").unwrap_err(),
        MarkupError::InvalidSelector
    );
}

#[test]
fn only_elements_have_a_name_attributes_and_text() {
    let doc = page();
    let root = doc.root();
    assert_eq!(doc.tag(root).unwrap_err(), MarkupError::NotAnElement);
    assert_eq!(doc.text(root).unwrap_err(), MarkupError::NotAnElement);
    assert_eq!(doc.attribute(root, "href").unwrap_err(), MarkupError::NotAnElement);
    let nowhere = HtmlNode { index: 100_000 };
    assert_eq!(doc.tag(nowhere).unwrap_err(), MarkupError::NodeNotFound);
    assert_eq!(doc.text(nowhere).unwrap_err(), MarkupError::NodeNotFound);
    assert_eq!(doc.attribute(nowhere, "href").unwrap_err(), MarkupError::NodeNotFound);
    assert_eq!(doc.select(nowhere, "a").unwrap_err(), MarkupError::NodeNotFound);
}

#[test]
fn a_node_that_is_no_element_has_nothing_below_it() {
    let doc = page();
    // The node after the document itself is the document type.
    let doctype = HtmlNode { index: 1 };
    assert_eq!(doc.tag(doctype).unwrap_err(), MarkupError::NotAnElement);
    assert!(doc.select(doctype, "a").unwrap().is_empty());
    assert!(doc.select_one(doctype, "a").unwrap().is_none());
}

#[test]
fn answers_to_a_selection() {
    assert_eq!(nodes_at(&vec![4, 2, 9]), vec![
        HtmlNode { index: 4 },
        HtmlNode { index: 2 },
        HtmlNode { index: 9 },
    ]);
    assert_eq!(nodes_of(&Selected::BadSelector).unwrap_err(), MarkupError::InvalidSelector);
    assert_eq!(nodes_of(&Selected::NoNode).unwrap_err(), MarkupError::NodeNotFound);
    assert!(nodes_of(&Selected::NoElement).unwrap().is_empty());
    assert_eq!(nodes_of(&Selected::Found(vec![7])).unwrap(), vec![HtmlNode { index: 7 }]);
}

use pi_build::documents::{DataError, DataIndex, DataNode, DataValue, XmlChild, XmlNode};
use pi_build::textmap::TextMap;

fn leaf(value: DataValue, rendered: &str) -> DataNode {
    DataNode { value, rendered: rendered.to_string() }
}

fn text(s: &str) -> DataNode {
    leaf(DataValue::Text(s.to_string()), &format!("\"{}\"", s))
}

fn number(n: &str) -> DataNode {
    leaf(DataValue::Number(n.to_string()), n)
}

fn document() -> DataNode {
    let versions = leaf(
        DataValue::Array(vec![text("1.0"), text("2.0"), number("3")]),
        "[\"1.0\",\"2.0\",3]",
    );
    leaf(
        DataValue::Object(vec![
            ("name".to_string(), text("rust")),
            ("stars".to_string(), number("42")),
            ("stable".to_string(), leaf(DataValue::Bool(true), "true")),
            ("nothing".to_string(), leaf(DataValue::Null, "null")),
            ("versions".to_string(), versions),
            ("name".to_string(), text("shadowed")),
        ]),
        "{...}",
    )
}

#[test]
fn members_of_an_object() {
    let d = document();
    assert_eq!(d.get("name").unwrap().text(), "rust");
    assert!(d.get("missing").is_none());
    assert!(text("x").get("name").is_none());
    assert_eq!(d.attribute("name").as_deref(), Some("rust"));
    assert_eq!(d.attribute("stars").as_deref(), Some("42"));
    assert_eq!(d.attribute("stable").as_deref(), Some("true"));
    assert_eq!(d.attribute("versions").as_deref(), Some("[\"1.0\",\"2.0\",3]"));
    assert_eq!(d.attribute("missing"), None);
    assert_eq!(number("1").attribute("x"), None);
}

#[test]
fn text_of_nodes() {
    assert_eq!(text("héllo").text(), "héllo");
    assert_eq!(number("1.50").text(), "1.50");
    assert_eq!(leaf(DataValue::Bool(false), "false").text(), "false");
    assert_eq!(leaf(DataValue::Null, "null").text(), "null");
    assert_eq!(document().get("versions").unwrap().text(), "[\"1.0\",\"2.0\",3]");
}

#[test]
fn lengths_of_nodes() {
    let d = document();
    assert_eq!(d.length(), 6);
    assert_eq!(d.get("versions").unwrap().length(), 3);
    assert_eq!(text("héllo").length(), 6);
    assert_eq!(number("12345").length(), 0);
    assert_eq!(leaf(DataValue::Null, "null").length(), 0);
}

#[test]
fn stepping_into_nodes() {
    let d = document();
    let versions = d.at(&DataIndex::Key("versions".to_string())).unwrap();
    assert_eq!(versions.at(&DataIndex::Position(1)).unwrap().text(), "2.0");
    assert_eq!(versions.at(&DataIndex::Position(3)).unwrap_err(), DataError::OutOfBounds);
    assert_eq!(versions.at(&DataIndex::Position(-1)).unwrap_err(), DataError::OutOfBounds);
    assert_eq!(versions.at(&DataIndex::Key("x".to_string())).unwrap_err(), DataError::WrongIndex);
    assert_eq!(d.at(&DataIndex::Position(0)).unwrap_err(), DataError::WrongIndex);
    assert_eq!(d.at(&DataIndex::Key("x".to_string())).unwrap_err(), DataError::KeyNotFound);
    assert_eq!(text("x").at(&DataIndex::Position(0)).unwrap_err(), DataError::NotIndexable);
    assert_eq!(
        d.keys().unwrap(),
        vec!["name", "stars", "stable", "nothing", "versions", "name"]
    );
    assert_eq!(versions.keys().unwrap_err(), DataError::NotIterable);
}

fn element(name: &str, attributes: &[(&str, &str)], children: Vec<XmlChild>) -> XmlNode {
    let mut map = TextMap::new();
    for (k, v) in attributes {
        map.insert(k.to_string(), v.to_string());
    }
    XmlNode { name: name.to_string(), attributes: map, children }
}

fn feed() -> XmlNode {
    element(
        "feed",
        &[("lang", "en"), ("version", "2")],
        vec![
            XmlChild::Text("a".to_string()),
            XmlChild::Element(element("entry", &[("id", "1")], vec![XmlChild::Text("one".to_string())])),
            XmlChild::Other,
            XmlChild::Element(element("title", &[], vec![])),
            XmlChild::Text("b".to_string()),
            XmlChild::Element(element("entry", &[("id", "2")], vec![])),
        ],
    )
}

#[test]
fn xml_is_walked_by_element_name() {
    let f = feed();
    assert_eq!(f.tag(), "feed");
    assert_eq!(f.attribute("lang").as_deref(), Some("en"));
    assert_eq!(f.attribute("missing"), None);
    assert_eq!(f.text(), "ab");
    let entries = f.select("entry");
    assert_eq!(entries.len(), 2);
    assert_eq!(entries[0].attribute("id").as_deref(), Some("1"));
    assert_eq!(entries[1].attribute("id").as_deref(), Some("2"));
    assert_eq!(entries[0].text(), "one");
    assert_eq!(entries[1].text(), "");
    assert_eq!(f.select_one("entry").unwrap().attribute("id").as_deref(), Some("1"));
    assert_eq!(f.select_one("title").unwrap().tag(), "title");
    assert!(f.select_one("feed").is_none());
    assert!(f.select("missing").is_empty());
}

#[test]
fn an_empty_text_is_an_empty_object() {
    let blank = pi_build::documents::blank_document("").unwrap();
    assert!(matches!(&blank.value, DataValue::Object(m) if m.is_empty()));
    assert_eq!(blank.rendered, "{}");
    assert_eq!(blank.length(), 0);
    assert!(pi_build::documents::blank_document(" ").is_none());
    assert!(pi_build::documents::blank_document("{}").is_none());
}

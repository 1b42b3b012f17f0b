use pi_build::documents::{DataError, DataNode, DataValue};
use pi_build::query::{Located, PathStep};

fn node_of(value: &serde_json::Value) -> DataNode {
    let inner = match value {
        serde_json::Value::Null => DataValue::Null,
        serde_json::Value::Bool(b) => DataValue::Bool(*b),
        serde_json::Value::Number(n) => DataValue::Number(n.to_string()),
        serde_json::Value::String(s) => DataValue::Text(s.clone()),
        serde_json::Value::Array(a) => DataValue::Array(a.iter().map(node_of).collect()),
        serde_json::Value::Object(m) => {
            DataValue::Object(m.iter().map(|(k, v)| (k.clone(), node_of(v))).collect())
        }
    };
    DataNode { value: inner, rendered: value.to_string() }
}

fn parse(text: &str) -> DataNode {
    let value: serde_json::Value = serde_json::from_str(text).unwrap();
    node_of(&value)
}

const RELEASES: &str = r#"{
    "name": "tool",
    "releases": [
        {"tag": "v1.0.0", "assets": [{"name": "a.tar.gz", "size": 10}]},
        {"tag": "v1.1.0", "assets": [{"name": "b.tar.gz", "size": 20}, {"name": "b.zip", "size": 30}]},
        {"tag": "v2.0.0", "assets": []}
    ]
}"#;

fn texts(found: &[&DataNode]) -> Vec<String> {
    found.iter().map(|n| n.text()).collect()
}

#[test]
fn a_query_selects_the_nodes_of_the_tree() {
    let d = parse(RELEASES);
    let tags = d.select("$.releases[*].tag").unwrap();
    assert_eq!(texts(&tags), vec!["v1.0.0", "v1.1.0", "v2.0.0"]);
    let names = d.select("$.releases[1].assets[*].name").unwrap();
    assert_eq!(texts(&names), vec!["b.tar.gz", "b.zip"]);
    let sizes = d.select("$..size").unwrap();
    assert_eq!(texts(&sizes), vec!["10", "20", "30"]);
    let big = d.select("$.releases[*].assets[?@.size > 15].name").unwrap();
    assert_eq!(texts(&big), vec!["b.tar.gz", "b.zip"]);
    let whole = d.select("$").unwrap();
    assert_eq!(whole.len(), 1);
    assert_eq!(whole[0].length(), 2);
    assert!(d.select("$.missing").unwrap().is_empty());
}

#[test]
fn a_selected_node_can_be_asked_again() {
    let d = parse(RELEASES);
    let second = d.select_one("$.releases[1]").unwrap().unwrap();
    assert_eq!(second.get("tag").unwrap().text(), "v1.1.0");
    let names = second.select("$.assets[*].name").unwrap();
    assert_eq!(texts(&names), vec!["b.tar.gz", "b.zip"]);
}

#[test]
fn the_first_match_of_a_query() {
    let d = parse(RELEASES);
    assert_eq!(d.select_one("$.releases[*].tag").unwrap().unwrap().text(), "v1.0.0");
    assert_eq!(d.select_one("$.releases[-1].tag").unwrap().unwrap().text(), "v2.0.0");
    assert!(d.select_one("$.releases[7]").unwrap().is_none());
}

#[test]
fn a_query_that_does_not_parse_is_refused() {
    let d = parse(RELEASES);
    assert_eq!(d.select("$.releases[").unwrap_err(), DataError::InvalidQuery);
    assert_eq!(d.select_one("not a query").unwrap_err(), DataError::InvalidQuery);
}

#[test]
fn a_node_without_a_readable_notation_cannot_be_queried() {
    let d = DataNode { value: DataValue::Array(vec![]), rendered: "[".to_string() };
    assert_eq!(d.select("$[*]").unwrap_err(), DataError::Unreadable);
    // The query is looked at first.
    assert_eq!(d.select("$[").unwrap_err(), DataError::InvalidQuery);
}

#[test]
fn paths_are_walked_step_by_step() {
    let d = parse(RELEASES);
    let path = vec![
        PathStep::Key("releases".to_string()),
        PathStep::Position(1),
        PathStep::Key("assets".to_string()),
        PathStep::Position(0),
        PathStep::Key("name".to_string()),
    ];
    assert_eq!(d.descend(&path).unwrap().text(), "b.tar.gz");
    assert_eq!(d.descend(&vec![]).unwrap().length(), 2);
    // A position does not lead into an object, nor a key into an array.
    assert!(d.descend(&vec![PathStep::Position(0)]).is_none());
    assert!(d
        .descend(&vec![PathStep::Key("releases".to_string()), PathStep::Key("tag".to_string())])
        .is_none());
    assert!(d
        .descend(&vec![PathStep::Key("releases".to_string()), PathStep::Position(3)])
        .is_none());
    assert!(d.step(&PathStep::Key("name".to_string())).is_some());
    assert!(d.step(&PathStep::Key("nothing".to_string())).is_none());
}

#[test]
fn places_that_lead_nowhere_are_left_out() {
    let d = parse(RELEASES);
    let located = Located::Found(vec![
        vec![PathStep::Key("name".to_string())],
        vec![PathStep::Key("gone".to_string())],
        vec![PathStep::Key("releases".to_string()), PathStep::Position(2), PathStep::Key("tag".to_string())],
    ]);
    let found = d.resolve(&located).unwrap();
    assert_eq!(texts(&found), vec!["tool", "v2.0.0"]);
    assert_eq!(d.resolve(&Located::BadQuery).unwrap_err(), DataError::InvalidQuery);
    assert_eq!(d.resolve(&Located::BadDocument).unwrap_err(), DataError::Unreadable);
}

#[test]
fn test_datanode_get_default() {
    let data = parse(r#"{ "a": 1 }"#);
    let val = data.get("b").map(|n| n.text()).unwrap_or("default_val".to_string());
    assert_eq!(val, "default_val");
    let existing = data.get("a").unwrap();
    assert!(matches!(&existing.value, DataValue::Number(n) if n == "1"));
    assert_eq!(existing.text(), "1");
}

#[test]
fn test_datanode_iteration() {
    let data = parse(r#"[{ "v": "1.0" }, { "v": "2.0" }]"#);
    let items = match data.iterate().unwrap() {
        pi_build::documents::Iterated::Elements(items) => items,
        other => panic!("unexpected result: {:?}", other),
    };
    let mut count = 0;
    for item in &items {
        count += 1;
        let v = item.get("v").unwrap().text();
        if count == 1 {
            assert_eq!(v, "1.0");
        }
        if count == 2 {
            assert_eq!(v, "2.0");
        }
    }
    assert_eq!(count, 2);
    assert_eq!(data.elements().unwrap().len(), 2);
}

#[test]
fn going_through_an_object_gives_its_keys() {
    let data = parse(r#"{ "b": 1, "a": [] }"#);
    match data.iterate().unwrap() {
        pi_build::documents::Iterated::Keys(keys) => assert_eq!(keys, vec!["a", "b"]),
        other => panic!("unexpected result: {:?}", other),
    }
    assert_eq!(data.elements().unwrap_err(), DataError::NotIterable);
    assert_eq!(parse("3").iterate().unwrap_err(), DataError::NotIterable);
    assert_eq!(parse("\"text\"").iterate().unwrap_err(), DataError::NotIterable);
}

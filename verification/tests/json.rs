use rodbot::json::{scalars, Json};

fn sample() -> Json {
    Json::Object(vec![
        ("n".to_string(), Json::Null),
        ("list".to_string(), Json::Array(vec![Json::Bool(true), Json::Number("1e3".to_string())])),
        (
            "inner".to_string(),
            Json::Object(vec![("text".to_string(), Json::Text("a \"b\"".to_string()))]),
        ),
        ("n".to_string(), Json::Text("again".to_string())),
    ])
}

#[test]
fn a_copy_of_a_value_is_equal_to_it() {
    let value = sample();
    assert_eq!(value.clone(), value);
    assert_eq!(Json::Null.clone(), Json::Null);
    assert_eq!(Json::Array(vec![]).clone(), Json::Array(vec![]));
}

#[test]
fn the_empty_object_has_no_members() {
    assert_eq!(Json::empty_object(), Json::Object(vec![]));
}

#[test]
fn scalars_have_a_text() {
    assert_eq!(Json::Text("a b".to_string()).scalar(), Some("a b".to_string()));
    assert_eq!(Json::Text("".to_string()).scalar(), Some("".to_string()));
    assert_eq!(Json::Number("-0.5".to_string()).scalar(), Some("-0.5".to_string()));
    assert_eq!(Json::Bool(true).scalar(), Some("true".to_string()));
    assert_eq!(Json::Bool(false).scalar(), Some("false".to_string()));
}

#[test]
fn what_is_no_scalar_has_no_text() {
    assert_eq!(Json::Null.scalar(), None);
    assert_eq!(Json::Array(vec![Json::Bool(true)]).scalar(), None);
    assert_eq!(sample().scalar(), None);
}

#[test]
fn the_texts_of_scalars_keep_their_order() {
    assert_eq!(scalars(&vec![]), Vec::<String>::new());
    assert_eq!(
        scalars(&vec![
            Json::Text("b".to_string()),
            Json::Null,
            Json::Number("2".to_string()),
            sample(),
            Json::Bool(false),
            Json::Text("a".to_string()),
        ]),
        vec!["b", "2", "false", "a"]
    );
}

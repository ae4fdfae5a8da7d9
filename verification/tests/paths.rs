use rodbot::json::Json;
use rodbot::path::refuses;
use rodbot::template::{lookup, ExpressionError};
use rodbot::text::chars_of;

fn object(members: Vec<(&str, Json)>) -> Json {
    Json::Object(members.into_iter().map(|(key, value)| (key.to_string(), value)).collect())
}

fn text(value: &str) -> Json {
    Json::Text(value.to_string())
}

fn number(value: &str) -> Json {
    Json::Number(value.to_string())
}

fn documents() -> Vec<Json> {
    let leaf = object(vec![("a", text("x")), ("b", number("2")), ("c", Json::Bool(true))]);
    let list = Json::Array(vec![
        leaf.clone(),
        object(vec![("a", number("1.5")), ("b", text("x")), ("z", Json::Null)]),
        text("x"),
        number("-3"),
        Json::Array(vec![number("7"), text("y")]),
    ]);
    vec![
        object(vec![]),
        leaf.clone(),
        object(vec![("a", list.clone()), ("b", leaf.clone())]),
        object(vec![("a", object(vec![("a", list.clone()), ("b", list)]))]),
        object(vec![("b", Json::Array(vec![]))]),
    ]
}

fn steps() -> Vec<&'static str> {
    vec![
        ".a",
        ".b",
        ".*",
        "[0]",
        "[4]",
        "[1:3]",
        "[:2]",
        "[1:]",
        "[?(@.a == 'x')]",
        "[?(@.a != 'x')]",
        "[?(@.b > 1)]",
        "[?(@.b < 2)]",
        "[?(@.a > 1.25)]",
        "[?(@.a < 9.75)]",
        "[?(@.z == 'x')]",
        "[?(@.a.b == 'x')]",
        "[?(@ == 'x')]",
        "[?(@.* == 'x')]",
        "[?(@[0] > 1)]",
        "[?(@.a == 1)]",
        "[?(@.b > 999999999999999999)]",
        "[?($.a == 'x')]",
        "[?($.b != 'x')]",
        "[?($.b.a == 'x')]",
        "[?($ == 'x')]",
        "[?($.a == 1)]",
        "[?($.a > 1)]",
        "[?($.b.b < 2.5)]",
        "[?(@.a[?(@.b == 'x')] == 'x')]",
        "[?($.a[?(@.b != 'x')].a == 'x')]",
        "[?(@.b > 9999999999999999999)]",
        "[?($.zz[?($.a > 1)] == 'x')]",
        "[?($.a[?($.b > 1)].a == 'x')]",
        "[?($.b[?($.zz > 1)] != 'x')]",
    ]
}

#[test]
fn every_path_that_is_handed_on_is_answered() {
    let documents = documents();
    let steps = steps();
    let mut asked = 0;
    let mut kept = 0;
    for first in ["a", "b", "*", "a.a", "a[0]"] {
        for second in steps.iter().chain([""].iter()) {
            for third in steps.iter().chain([""].iter()) {
                for fourth in [".a", ".*", "[0]", ""] {
                    let expression = format!("{}{}{}{}", first, second, third, fourth);
                    let path = format!("$.{}", expression);
                    for document in documents.iter() {
                        let once = lookup(&expression, document);
                        assert_eq!(once, lookup(&expression, document), "{}", path);
                        if refuses(&chars_of(&path), document) {
                            assert_eq!(once, Err(ExpressionError::Unsupported(path.clone())));
                            assert!(aborts_somewhere(&path), "{}", path);
                            kept += 1;
                        } else {
                            assert!(!matches!(once, Err(ExpressionError::Unsupported(_))));
                        }
                        asked += 1;
                    }
                }
            }
        }
    }
    assert_eq!(asked, 5 * 35 * 35 * 4 * 5);
    assert!(kept > 0 && kept < asked / 4);
}

/// Whether the text of `path` holds what the engine can abort on at all: a
/// filter from the root with `<` or `>` and a number, or a filter's number
/// of 19 digits and more.
fn aborts_somewhere(path: &str) -> bool {
    let order_from_root = path.split("[?(").skip(1).any(|filter| {
        filter.starts_with('$')
            && filter
                .split(|c| c == '<' || c == '>')
                .nth(1)
                .map_or(false, |value| value.trim_start().starts_with(|c: char| c.is_ascii_digit()))
    });
    order_from_root || path.contains("9999999999999999999")
}

#[test]
fn a_filter_that_nothing_reaches_is_no_reason_to_refuse() {
    let nothing = Json::Object(vec![]);
    let plain = documents().remove(1);
    let nested = documents().remove(2);
    for expression in [
        "a[?($.b > 1)]",
        "a[?($.b < 2.5)].c",
        "a.a[?($.a > 1)]",
        "zz[?($.a > 1)][?($.b < 1)]",
        "b.*[?($.a > 1)]",
    ] {
        let path = chars_of(&format!("$.{}", expression));
        assert!(!refuses(&path, &nothing), "{}", expression);
        assert_eq!(lookup(expression, &nothing), Ok("".to_string()), "{}", expression);
    }
    // `a` is a string in this document: it has no children to ask the filter of.
    assert_eq!(lookup("a[?($.b > 1)]", &plain), Ok("".to_string()));
    // `a` is a list here, so the engine would come to the filter.
    assert_eq!(
        lookup("a[?($.b > 1)]", &nested),
        Err(ExpressionError::Unsupported("$.a[?($.b > 1)]".to_string()))
    );
    // Behind a filter that lets nothing through, the next one is not reached.
    assert_eq!(lookup("a[?(@.a == 'no')][?($.b > 1)]", &nested), Ok("".to_string()));
    assert_eq!(
        lookup("a[?(@.a == 'x')][?($.b > 1)]", &nested),
        Err(ExpressionError::Unsupported("$.a[?(@.a == 'x')][?($.b > 1)]".to_string()))
    );
}

#[test]
fn a_filter_inside_another_is_reached_through_it() {
    let nested = documents().remove(2);
    // `$.zz` finds nothing, so the engine does not come to the filter inside.
    assert_eq!(
        lookup("a[?($.zz[?($.a > 1)] == 'x')]", &nested),
        Err(ExpressionError::Ambiguous(vec!["x".to_string(), "-3".to_string()]))
    );
    assert_eq!(lookup("b[?($.zz.b[?($.a < 1.5)] != 'x')].a", &nested), Ok("".to_string()));
    // `$.a` has children, and so has what `a` finds: the engine comes to it.
    assert_eq!(
        lookup("a[?($.a[?($.b > 1)] == 'x')]", &nested),
        Err(ExpressionError::Unsupported("$.a[?($.a[?($.b > 1)] == 'x')]".to_string()))
    );
    // Nothing is asked of the filter around it.
    assert_eq!(lookup("zz[?($.a[?($.b > 1)] == 'x')]", &nested), Ok("".to_string()));
    // Inside a filter from the element no filter is evaluated.
    assert_eq!(lookup("a[?(@.a[?($.b > 1)] == 'x')]", &nested), Ok("".to_string()));
}

#[test]
fn what_the_engine_answers_is_not_refused() {
    let documents = documents();
    let many = "[?(@.a == 'x')]".repeat(65);
    let answered = [
        "a[?(@.b == 'x')].c1234567890123456789".to_string(),
        "a[?(@.b > 1)][?($.b == 'x')]".to_string(),
        "a[?($.b < 'x')]".to_string(),
        "a[?($.b > 'x')].a".to_string(),
        "a[?($ == 'a')][?(@ < 1)]".to_string(),
        "a[?($.b == 12345678901234567890.5)]".to_string(),
        "a[?(@.b > 12345678901234567890.5)]".to_string(),
        "a[?(@.b > 9223372036854775807)]".to_string(),
        "a[?(@.b > 0000000000000000000000001)]".to_string(),
        "a[?(@.b[?($.c > 1)] == 'x')]".to_string(),
        "a1234567890123456789012345[?(@.b == 1)]".to_string(),
        format!("a{}", many),
    ];
    for expression in answered.iter() {
        for document in documents.iter() {
            let path = chars_of(&format!("$.{}", expression));
            assert!(!refuses(&path, document), "{}", expression);
            assert!(
                matches!(lookup(expression, document), Ok(_) | Err(ExpressionError::Ambiguous(_))),
                "{}",
                expression
            );
        }
    }
}

#[test]
fn a_number_that_is_too_large_is_refused() {
    let documents = documents();
    for expression in [
        "a[?(@.b > 9223372036854775808)]",
        "a[?(@.b == 9223372036854775808)]",
        "a[?($.b !=   99999999999999999999)].c",
        "a[?(@.b < 00009223372036854775808)]",
        "a[?(@.b == 1)][?(@.c == 123456789012345678901234567890)]",
    ] {
        for document in documents.iter() {
            assert_eq!(
                lookup(expression, document),
                Err(ExpressionError::Unsupported(format!("$.{}", expression))),
                "{}",
                expression
            );
        }
    }
}

#[test]
fn filters_may_be_nested_deep() {
    let mut expression = "a".to_string();
    for _ in 0..64 {
        expression = format!("a[?(@.{} == 'x')]", expression);
    }
    assert_eq!(expression.matches('?').count(), 64);
    for document in documents() {
        assert_eq!(lookup(&expression, &document), Ok("".to_string()));
    }
    let deeper = format!("a[?(@.{} == 'x')]", expression);
    assert_eq!(
        lookup(&deeper, &documents()[1]),
        Err(ExpressionError::Unsupported(format!("$.{}", deeper)))
    );
}

#[test]
fn odd_characters_are_refused_by_the_engine() {
    let odd = [
        "é", "\u{0}", "\u{7f}", "😀", "a\u{301}", "\u{feff}", "'", "\"", "\\", "$", "@", "(", ")",
        "[", "]", ":", "=", "!", "<", ">", ".", "..", "-", "_", "0", " ", "\t", "\u{2028}",
        "\u{10ffff}", "[?(", ")]", "[?(@", "[?(@.a ==", "[?(@.a == '", "[-1]", "[1:", "[:", "[a]",
    ];
    let document = documents().remove(2);
    for first in odd {
        for second in odd {
            for shape in ["{}{}", "a{}{}", "a.{}{}", "a{}b{}", "a[0]{}.b{}", "{}a{}"] {
                let expression = shape.replacen("{}", first, 1).replacen("{}", second, 1);
                let path = format!("$.{}", expression.trim());
                let value = lookup(&expression, &document);
                assert_eq!(value, lookup(&expression, &document), "{:?}", path);
                if refuses(&chars_of(&path), &document) {
                    assert_eq!(value, Err(ExpressionError::Unsupported(path)));
                } else {
                    assert!(!matches!(value, Err(ExpressionError::Unsupported(_))), "{:?}", path);
                }
            }
        }
    }
}

#[test]
fn a_path_that_does_not_compile_has_the_message_of_the_engine() {
    let nested = documents().remove(2);
    for expression in [
        "a[?(@.b > 99999999999999999999)x",
        "a[?(@.b > 99999999999999999999)",
        "a[?(@.b > 99999999999999999999.)]",
        "a[?(@.b >> 99999999999999999999)]",
        "a[?($.b > 1)]x",
        "a[?($.b > 1)",
        "a[?($.b > 1)]..",
    ] {
        assert_eq!(
            lookup(expression, &nested),
            Err(ExpressionError::Compile("parsing error".to_string())),
            "{}",
            expression
        );
    }
    // An index that is too large is met before the number of the filter.
    assert!(matches!(
        lookup("a[99999999999999999999999][?(@.b > 99999999999999999999)]", &nested),
        Err(ExpressionError::Compile(_))
    ));
    // The number of the filter is met first: the engine aborts on it.
    assert_eq!(
        lookup("a[?(@.b > 99999999999999999999)][99999999999999999999999]", &nested),
        Err(ExpressionError::Unsupported(
            "$.a[?(@.b > 99999999999999999999)][99999999999999999999999]".to_string()
        ))
    );
    assert!(matches!(
        lookup("a[99999999999999999999999][?($.b > 1)]", &nested),
        Err(ExpressionError::Compile(_))
    ));
}

use serde_json::{Number, Value};
use workspace_copy::json::{Json, JsonObject};

fn to_json(v: &Value) -> Json {
    match v {
        Value::Null => Json::Null,
        Value::Bool(b) => Json::Bool(*b),
        Value::Number(n) => Json::Number(n.to_string()),
        Value::String(s) => Json::Str(s.clone()),
        Value::Array(items) => Json::Array(items.iter().map(to_json).collect()),
        Value::Object(map) => {
            let mut object = JsonObject::new();
            for (k, v) in map {
                object.insert(k.clone(), to_json(v));
            }
            Json::Object(object)
        }
    }
}

fn same(a: Option<&Json>, b: Option<&Value>) -> bool {
    match (a, b) {
        (None, None) => true,
        (Some(x), Some(y)) => describe(x) == describe_value(y),
        _ => false,
    }
}

fn describe(j: &Json) -> String {
    match j {
        Json::Null => "null".into(),
        Json::Bool(b) => format!("{b}"),
        Json::Number(n) => format!("#{n}"),
        Json::Str(s) => format!("{s:?}"),
        Json::Array(items) => format!("[{}]", items.iter().map(describe).collect::<Vec<_>>().join(",")),
        Json::Object(object) => format!(
            "{{{}}}",
            object.entries().iter().map(|(k, v)| format!("{k:?}:{}", describe(v))).collect::<Vec<_>>().join(",")
        ),
    }
}

fn describe_value(v: &Value) -> String {
    describe(&to_json(v))
}

fn sample() -> Value {
    let mut pane = serde_json::Map::new();
    pane.insert("cwd".into(), Value::String("/p".into()));
    pane.insert("focused".into(), Value::Bool(true));
    let mut odd = serde_json::Map::new();
    odd.insert("a/b".into(), Value::Number(Number::from(1)));
    odd.insert("m~n".into(), Value::Number(Number::from(2)));
    odd.insert("".into(), Value::String("empty key".into()));
    odd.insert("0".into(), Value::Null);
    let mut root = serde_json::Map::new();
    root.insert("pane".into(), Value::Object(pane.clone()));
    root.insert(
        "panes".into(),
        Value::Array(vec![Value::Object(pane), Value::Null, Value::Array(vec![Value::Bool(false)])]),
    );
    root.insert("odd".into(), Value::Object(odd));
    root.insert("n".into(), Value::Number(Number::from(7)));
    Value::Object(root)
}

#[test]
fn pointer_agrees_with_serde_json() {
    let v = sample();
    let j = to_json(&v);
    let pointers = [
        "", "/", "pane", "/pane", "/pane/cwd", "/pane/missing", "/panes/0/cwd", "/panes/00/cwd",
        "/panes/+0", "/panes/1", "/panes/2/0", "/panes/3", "/panes/-1", "/odd/a~1b", "/odd/m~0n",
        "/odd/", "/odd/0", "/n/0", "/panes/0/focused", "//", "/odd/~01", "/panes/18446744073709551616",
    ];
    for p in pointers {
        assert!(same(j.pointer(p), v.pointer(p)), "pointer {p:?}");
    }
}

#[test]
fn accessors_agree_with_serde_json() {
    let v = sample();
    let j = to_json(&v);
    for key in ["pane", "panes", "odd", "n", "nope", ""] {
        assert!(same(j.get(key), v.get(key)), "get {key:?}");
    }
    let pane = j.get("pane").unwrap();
    assert_eq!(pane.get("cwd").unwrap().as_str(), v["pane"]["cwd"].as_str());
    assert_eq!(pane.get("focused").unwrap().as_bool(), v["pane"]["focused"].as_bool());
    assert_eq!(j.get("panes").unwrap().as_array().map(|a| a.len()), v["panes"].as_array().map(|a| a.len()));
    assert!(j.get("n").unwrap().as_str().is_none());
    assert!(j.get("n").unwrap().as_array().is_none());
}

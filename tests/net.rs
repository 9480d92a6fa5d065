use ngenrs::net::{json_params, plan_get, plan_post, Method, RequestBody};

fn pairs(v: &[(&str, &str)]) -> Vec<(String, String)> {
    v.iter().map(|(k, v)| (k.to_string(), v.to_string())).collect()
}

#[test]
fn only_json_parameters_are_kept() {
    let ps = pairs(&[("a", "1"), ("b", "not json"), ("c", "{\"x\": [true]}"), ("d", "\"s\"")]);
    let kept = json_params(&ps);
    let names: Vec<&str> = kept.iter().map(|(k, _)| k.as_str()).collect();
    assert_eq!(names, vec!["a", "c", "d"]);
    assert_eq!(kept[0].1, serde_json::Value::from(1));
}

#[test]
fn post_prefers_parameters_over_body() {
    let r = plan_post(
        "http://h/".to_string(),
        pairs(&[("k", "v")]),
        Some("text".to_string()),
        Some(pairs(&[("n", "2")])),
    );
    assert_eq!(r.method, Method::Post);
    assert_eq!(r.headers, pairs(&[("k", "v")]));
    assert!(matches!(r.body, RequestBody::Json(ref f) if f.len() == 1 && f[0].0 == "n"));
    let r = plan_post("http://h/".to_string(), vec![], Some("text".to_string()), None);
    assert!(matches!(r.body, RequestBody::Text(ref t) if t == "text"));
}

#[test]
fn get_carries_optional_body() {
    let r = plan_get("http://h/".to_string(), vec![], None);
    assert_eq!(r.method, Method::Get);
    assert!(matches!(r.body, RequestBody::Empty));
    let r = plan_get("http://h/".to_string(), vec![], Some("b".to_string()));
    assert!(matches!(r.body, RequestBody::Text(ref t) if t == "b"));
}

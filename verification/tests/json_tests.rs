use constel_links::json::{json_obj_get, Json};

#[test]
fn finds_a_field_by_name() {
    let fields = vec![
        ("total".to_string(), Json::Num(Some(3))),
        ("cursor".to_string(), Json::Str("c1".to_string())),
    ];
    assert!(matches!(json_obj_get(&fields, &"total".to_string()), Some(Json::Num(Some(3)))));
    assert!(matches!(json_obj_get(&fields, &"cursor".to_string()), Some(Json::Str(_))));
    assert!(json_obj_get(&fields, &"missing".to_string()).is_none());
}

#[test]
fn first_field_of_a_name_wins() {
    let fields = vec![
        ("k".to_string(), Json::Bool(true)),
        ("k".to_string(), Json::Bool(false)),
    ];
    assert!(matches!(json_obj_get(&fields, &"k".to_string()), Some(Json::Bool(true))));
}

#[test]
fn empty_object_has_no_fields() {
    let fields: Vec<(String, Json)> = Vec::new();
    assert!(json_obj_get(&fields, &"k".to_string()).is_none());
}

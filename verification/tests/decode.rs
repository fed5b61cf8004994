use ec3api::decode::{decode_material, get_categories, get_materials, parse_tree, read_subtrees};
use ec3api::error::ApiError;
use ec3api::json::Json;
use ec3api::models::{GwpUnits, Node, Unit};

const MATERIAL: &str = r#"{
    "name": "Ready Mix",
    "gwp": "12.3 kgCO2e",
    "image": "https://example.org/a.png",
    "manufacturer": {"name": "Acme", "country": "DE"},
    "description": "A concrete",
    "category": {"description": "cd", "name": "Concrete", "display_name": "Concrete!", "id": "c1"},
    "id": "m1",
    "declared_unit": "1 m3",
    "extra": [1, 2, 3]
}"#;

fn json(text: &str) -> Json {
    Json::parse(text).unwrap()
}

fn without(field: &str) -> Json {
    match json(MATERIAL) {
        Json::Object(entries) => {
            Json::Object(entries.into_iter().filter(|(k, _)| k != field).collect())
        }
        other => other,
    }
}

fn with(field: &str, value: Json) -> Json {
    match without(field) {
        Json::Object(mut entries) => {
            entries.push((field.to_string(), value));
            Json::Object(entries)
        }
        other => other,
    }
}

#[test]
fn material_is_decoded() {
    let m = decode_material(&json(MATERIAL)).unwrap();
    assert_eq!(m.name, "Ready Mix");
    assert_eq!(m.gwp.value.parse::<f64>().unwrap(), 12.3);
    assert_eq!(m.gwp.unit, GwpUnits::KgCO2e);
    assert_eq!(m.image.as_deref(), Some("https://example.org/a.png"));
    assert_eq!(m.manufacturer.name, "Acme");
    assert_eq!(m.manufacturer.country.as_deref(), Some("DE"));
    assert_eq!(m.description, "A concrete");
    assert_eq!(m.category.description, "cd");
    assert_eq!(m.category.name, "Concrete");
    assert_eq!(m.category.display_name, "Concrete!");
    assert_eq!(m.category.id, "c1");
    assert_eq!(m.id, "m1");
    assert_eq!(m.declared_unit.value.parse::<f64>().unwrap(), 1.0);
    assert_eq!(m.declared_unit.unit, Unit::M3);
}

#[test]
fn image_and_country_may_be_left_out() {
    let m = decode_material(&without("image")).unwrap();
    assert_eq!(m.image, None);
    let m = decode_material(&with("image", Json::Null)).unwrap();
    assert_eq!(m.image, None);
    let m = decode_material(&with("manufacturer", json(r#"{"name": "Acme"}"#))).unwrap();
    assert_eq!(m.manufacturer.country, None);
    let m =
        decode_material(&with("manufacturer", json(r#"{"name": "Acme", "country": null}"#)))
            .unwrap();
    assert_eq!(m.manufacturer.country, None);
}

#[test]
fn material_without_a_field_is_malformed() {
    for field in ["name", "gwp", "manufacturer", "description", "category", "id", "declared_unit"] {
        assert!(
            matches!(decode_material(&without(field)), Err(ApiError::Deserialize(_))),
            "without {}",
            field
        );
    }
    assert!(matches!(
        decode_material(&with("category", json(r#"{"name": "Concrete"}"#))),
        Err(ApiError::Deserialize(_))
    ));
    assert!(matches!(
        decode_material(&with("manufacturer", json(r#"{"country": "DE"}"#))),
        Err(ApiError::Deserialize(_))
    ));
}

#[test]
fn material_with_a_field_of_the_wrong_kind_is_malformed() {
    assert!(matches!(
        decode_material(&with("name", json("5"))),
        Err(ApiError::Deserialize(_))
    ));
    assert!(matches!(
        decode_material(&with("image", json("5"))),
        Err(ApiError::Deserialize(_))
    ));
    assert!(matches!(
        decode_material(&with("gwp", json(r#"{"value": 1, "unit": "kgCO2e"}"#))),
        Err(ApiError::Deserialize(_))
    ));
    assert!(matches!(decode_material(&json("[]")), Err(ApiError::Deserialize(_))));
    assert!(matches!(decode_material(&json("\"text\"")), Err(ApiError::Deserialize(_))));
    assert!(matches!(decode_material(&Json::Null), Err(ApiError::Deserialize(_))));
}

#[test]
fn quantity_failures_are_told_apart() {
    assert!(matches!(
        decode_material(&with("gwp", Json::Str("bad".to_string()))),
        Err(ApiError::GwpError)
    ));
    assert!(matches!(
        decode_material(&with("declared_unit", Json::Str("bad".to_string()))),
        Err(ApiError::UnitError)
    ));
    let both = match with("gwp", Json::Str("bad".to_string())) {
        Json::Object(entries) => Json::Object(
            entries
                .into_iter()
                .map(|(k, v)| {
                    if k == "declared_unit" {
                        (k, Json::Str("bad".to_string()))
                    } else {
                        (k, v)
                    }
                })
                .collect(),
        ),
        other => other,
    };
    assert!(matches!(decode_material(&both), Err(ApiError::GwpError)));
    let m = decode_material(&with("gwp", Json::Str("12.3 xyz".to_string()))).unwrap();
    assert_eq!(m.gwp.unit, GwpUnits::Unknown);
}

#[test]
fn shape_is_checked_before_quantities() {
    let bad_gwp_and_no_id = match with("gwp", Json::Str("bad".to_string())) {
        Json::Object(entries) => {
            Json::Object(entries.into_iter().filter(|(k, _)| k != "id").collect())
        }
        other => other,
    };
    assert!(matches!(decode_material(&bad_gwp_and_no_id), Err(ApiError::Deserialize(_))));
}

#[test]
fn materials_are_decoded_in_order() {
    let second = MATERIAL.replace("\"m1\"", "\"m2\"").replace("Ready Mix", "Other Mix");
    let text = format!("[{}, {}]", MATERIAL, second);
    let materials = get_materials(json(&text)).unwrap();
    assert_eq!(materials.len(), 2);
    assert_eq!(materials[0].id, "m1");
    assert_eq!(materials[0].name, "Ready Mix");
    assert_eq!(materials[1].id, "m2");
    assert_eq!(materials[1].name, "Other Mix");
}

#[test]
fn empty_array_of_materials_is_an_error() {
    assert!(matches!(get_materials(json("[]")), Err(ApiError::EmptyArray())));
    assert!(matches!(get_materials(Json::Array(Vec::new())), Err(ApiError::EmptyArray())));
}

#[test]
fn materials_that_are_no_array_are_an_error() {
    assert!(matches!(get_materials(json("{}")), Err(ApiError::EmptyArray())));
    assert!(matches!(get_materials(json(MATERIAL)), Err(ApiError::EmptyArray())));
    assert!(matches!(get_materials(json("null")), Err(ApiError::EmptyArray())));
    assert!(matches!(get_materials(json("\"[]\"")), Err(ApiError::EmptyArray())));
    assert!(matches!(get_materials(json("3")), Err(ApiError::EmptyArray())));
}

#[test]
fn first_record_that_fails_decides_the_failure() {
    let bad_gwp = MATERIAL.replace("12.3 kgCO2e", "nogwp");
    let bad_unit = MATERIAL.replace("1 m3", "nounit");
    let text = format!("[{}, {}, {}]", MATERIAL, bad_unit, bad_gwp);
    assert!(matches!(get_materials(json(&text)), Err(ApiError::UnitError)));
    let text = format!("[{}, {}, {}]", bad_gwp, bad_unit, "{}");
    assert!(matches!(get_materials(json(&text)), Err(ApiError::GwpError)));
    let text = format!("[{}, 5]", MATERIAL);
    assert!(matches!(get_materials(json(&text)), Err(ApiError::Deserialize(_))));
}

#[test]
fn category_tree_is_decoded() {
    let root = json(
        r#"{"subcategories": [{"name": "Concrete", "id": "c1", "declared_unit": "1 m3", "subcategories": []}]}"#,
    );
    let tree = get_categories(root).unwrap();
    assert_eq!(tree.value.name, "ConstructionMaterials");
    assert_eq!(tree.value.id, "");
    let children = tree.children.as_ref().unwrap();
    assert_eq!(children.len(), 1);
    assert_eq!(children[0].value.name, "Concrete");
    assert_eq!(children[0].value.id, "c1");
    assert_eq!(children[0].value.declared_unit.unit, Unit::M3);
    assert_eq!(children[0].value.declared_unit.value.parse::<f64>().unwrap(), 1.0);
    assert_eq!(children[0].children.as_ref().unwrap().len(), 0);
}

#[test]
fn nested_categories_keep_their_order() {
    let root = json(
        r#"{"name": "root", "subcategories": [
            {"name": "A", "id": "a", "declared_unit": "1 kg", "subcategories": [
                {"name": "A1", "id": "a1", "declared_unit": "1 t", "subcategories": []},
                {"name": "A2", "id": "a2", "declared_unit": "1 sqft", "subcategories": [
                    {"name": "A2x", "id": "a2x", "declared_unit": "2 m2", "subcategories": null}
                ]}
            ]},
            {"name": "B", "id": "b", "declared_unit": "no unit", "subcategories": "none"},
            {"name": "C", "id": "c", "declared_unit": "whatever", "subcategories": 7}
        ]}"#,
    );
    let tree = get_categories(root).unwrap();
    let top = tree.children.as_ref().unwrap();
    assert_eq!(top.iter().map(|n| n.value.name.as_str()).collect::<Vec<_>>(), vec!["A", "B", "C"]);
    assert_eq!(top[0].value.declared_unit.unit, Unit::Kg);
    let below_a = top[0].children.as_ref().unwrap();
    assert_eq!(
        below_a.iter().map(|n| n.value.id.as_str()).collect::<Vec<_>>(),
        vec!["a1", "a2"]
    );
    assert_eq!(below_a[0].value.declared_unit.unit, Unit::T);
    assert_eq!(below_a[1].value.declared_unit.unit, Unit::SQFT);
    let below_a2 = below_a[1].children.as_ref().unwrap();
    assert_eq!(below_a2.len(), 1);
    assert_eq!(below_a2[0].value.name, "A2x");
    assert_eq!(below_a2[0].value.declared_unit.value, "2");
    assert_eq!(below_a2[0].value.declared_unit.unit, Unit::M2);
    assert_eq!(below_a2[0].children.as_ref().unwrap().len(), 0);
    assert_eq!(top[1].children.as_ref().unwrap().len(), 0);
    assert_eq!(top[1].value.declared_unit.unit, Unit::Unknown);
    assert_eq!(top[1].value.declared_unit.value.parse::<f64>().unwrap(), 1.0);
    assert_eq!(top[2].value.declared_unit.unit, Unit::Unknown);
    assert_eq!(top[2].value.declared_unit.value.parse::<f64>().unwrap(), 1.0);
}

#[test]
fn values_that_are_neither_object_nor_array_end_the_tree() {
    for text in ["null", "5", "\"text\"", "true", "[]"] {
        let tree = get_categories(json(text)).unwrap();
        assert_eq!(tree.children.as_ref().unwrap().len(), 0, "text {}", text);
    }
    assert_eq!(read_subtrees(&json("[]")).unwrap().len(), 0);
}

#[test]
fn category_without_a_field_is_malformed() {
    assert!(matches!(get_categories(json("{}")), Err(ApiError::Deserialize(_))));
    assert!(matches!(
        get_categories(json(r#"[{"id": "a", "declared_unit": "1 kg", "subcategories": []}]"#)),
        Err(ApiError::Deserialize(_))
    ));
    assert!(matches!(
        get_categories(json(r#"[{"name": "A", "declared_unit": "1 kg", "subcategories": []}]"#)),
        Err(ApiError::Deserialize(_))
    ));
    assert!(matches!(
        get_categories(json(r#"[{"name": "A", "id": "a", "subcategories": []}]"#)),
        Err(ApiError::Deserialize(_))
    ));
    assert!(matches!(
        get_categories(json(r#"[{"name": "A", "id": "a", "declared_unit": "1 kg"}]"#)),
        Err(ApiError::Deserialize(_))
    ));
    assert!(matches!(
        get_categories(json(r#"[{"name": 1, "id": "a", "declared_unit": "1 kg", "subcategories": []}]"#)),
        Err(ApiError::Deserialize(_))
    ));
    assert!(matches!(get_categories(json("[5]")), Err(ApiError::Deserialize(_))));
}

#[test]
fn parse_tree_appends_below_the_parent() {
    let mut parent = Node::new();
    parent.add_children(Node::new());
    let more = json(
        r#"[{"name": "A", "id": "a", "declared_unit": "1 kg", "subcategories": []},
            {"name": "B", "id": "b", "declared_unit": "1 kg", "subcategories": []}]"#,
    );
    parse_tree(&more, &mut parent).unwrap();
    let children = parent.children.as_ref().unwrap();
    assert_eq!(
        children.iter().map(|n| n.value.name.as_str()).collect::<Vec<_>>(),
        vec!["ConstructionMaterials", "A", "B"]
    );
}

#[test]
fn parse_tree_leaves_the_parent_alone_on_failure() {
    let mut parent = Node::new();
    parent.add_children(Node::new());
    let broken = json(
        r#"[{"name": "A", "id": "a", "declared_unit": "1 kg", "subcategories": []}, {"name": "B"}]"#,
    );
    assert!(matches!(parse_tree(&broken, &mut parent), Err(ApiError::Deserialize(_))));
    assert_eq!(parent.children.as_ref().unwrap().len(), 1);
}

use ec3api::decode::get_materials;
use ec3api::error::ApiError;
use ec3api::json::Json;
use ec3api::models::{
    Category, DeclaredUnit, Ec3Material, Gwp, GwpUnits, Manufacturer, Unit,
};
use ec3api::utils::{
    cache_file_name, read_cache, read_cached, read_cached_material, render_cache, to_cache_array,
    to_cache_json,
};

fn material(id: &str, name: &str) -> Ec3Material {
    Ec3Material {
        name: name.to_string(),
        gwp: Gwp { value: "12.3".to_string(), unit: GwpUnits::KgCO2e },
        image: Some("https://example.org/a.png".to_string()),
        manufacturer: Manufacturer { name: "Acme".to_string(), country: Some("DE".to_string()) },
        description: "described".to_string(),
        category: Category {
            description: "cd".to_string(),
            name: "Concrete".to_string(),
            display_name: "Concrete!".to_string(),
            id: "c1".to_string(),
        },
        id: id.to_string(),
        declared_unit: DeclaredUnit { value: "1".to_string(), unit: Unit::M3 },
    }
}

#[test]
fn cache_file_is_named_after_the_category() {
    assert_eq!(cache_file_name("Concrete"), "Concrete.json");
    assert_eq!(cache_file_name("cache"), "cache.json");
    assert_eq!(cache_file_name(""), ".json");
}

#[test]
fn cache_round_trip_keeps_ids_and_names() {
    let materials = vec![material("m1", "First"), material("m2", "Second"), material("m3", "Third")];
    let text = render_cache(&materials).unwrap();
    let back = read_cache(&text).unwrap();
    assert_eq!(back.len(), materials.len());
    for (stored, read) in materials.iter().zip(back.iter()) {
        assert_eq!(read.id, stored.id);
        assert_eq!(read.name, stored.name);
    }
}

#[test]
fn cache_round_trip_of_no_materials() {
    let text = render_cache(&Vec::new()).unwrap();
    assert_eq!(text, "[]");
    assert_eq!(read_cache(&text).unwrap().len(), 0);
}

#[test]
fn cache_round_trip_keeps_what_it_promises() {
    let stored = material("m1", "First");
    let back = read_cache(&render_cache(&vec![material("m1", "First")]).unwrap()).unwrap();
    let read = &back[0];
    assert_eq!(read.description, stored.description);
    assert_eq!(read.gwp.value.parse::<f64>().unwrap(), 12.3);
    assert_eq!(read.gwp.unit, GwpUnits::KgCO2e);
    assert_eq!(read.declared_unit.value.parse::<f64>().unwrap(), 1.0);
    assert_eq!(read.declared_unit.unit, Unit::M3);
    assert_eq!(read.manufacturer.name, "Acme");
    assert_eq!(read.manufacturer.country.as_deref(), Some("DE"));
    assert_eq!(read.category.description, "cd");
    assert_eq!(read.category.name, "Concrete");
    assert_eq!(read.category.display_name, "Concrete!");
    assert_eq!(read.category.id, "c1");
}

#[test]
fn cache_round_trip_loses_what_it_says_it_loses() {
    let mut stored = material("m1", "First");
    stored.declared_unit.unit = Unit::T;
    stored.manufacturer.country = None;
    let back = read_cache(&render_cache(&vec![stored]).unwrap()).unwrap();
    assert_eq!(back[0].image.as_deref(), Some("\"https://example.org/a.png\""));
    assert_eq!(back[0].declared_unit.unit, Unit::Unknown);
    assert_eq!(back[0].manufacturer.country.as_deref(), Some(""));
    let mut bare = material("m2", "Second");
    bare.image = None;
    let back = read_cache(&render_cache(&vec![bare]).unwrap()).unwrap();
    assert_eq!(back[0].image.as_deref(), Some("null"));
}

#[test]
fn each_unit_but_tons_comes_back() {
    for unit in [Unit::M3, Unit::M2, Unit::M, Unit::SQFT, Unit::Kg, Unit::Unknown] {
        let mut stored = material("m", "n");
        stored.declared_unit.unit = unit;
        let back = read_cached(&to_cache_array(&vec![stored])).unwrap();
        assert_eq!(back[0].declared_unit.unit, unit);
    }
    for unit in [GwpUnits::KgCO2e, GwpUnits::Unknown] {
        let mut stored = material("m", "n");
        stored.gwp.unit = unit;
        let back = read_cached(&to_cache_array(&vec![stored])).unwrap();
        assert_eq!(back[0].gwp.unit, unit);
    }
}

#[test]
fn cached_material_is_stored_with_quantities_as_objects() {
    let stored = to_cache_json(&material("m1", "First"));
    assert_eq!(stored.get("name").unwrap().as_str(), Some("First"));
    assert_eq!(stored.get("id").unwrap().as_str(), Some("m1"));
    let gwp = stored.get("gwp").unwrap();
    assert_eq!(gwp.get("value").unwrap().as_number(), Some("12.3"));
    assert_eq!(gwp.get("unit").unwrap().as_str(), Some("KgCO2e"));
    let unit = stored.get("declared_unit").unwrap();
    assert_eq!(unit.get("value").unwrap().as_number(), Some("1"));
    assert_eq!(unit.get("unit").unwrap().as_str(), Some("M3"));
    assert_eq!(
        stored.to_text().unwrap(),
        "{\"category\":{\"description\":\"cd\",\"display_name\":\"Concrete!\",\"id\":\"c1\",\"name\":\"Concrete\"},\
\"declared_unit\":{\"unit\":\"M3\",\"value\":1},\"description\":\"described\",\
\"gwp\":{\"unit\":\"KgCO2e\",\"value\":12.3},\"id\":\"m1\",\"image\":\"https://example.org/a.png\",\
\"manufacturer\":{\"country\":\"DE\",\"name\":\"Acme\"},\"name\":\"First\"}"
    );
}

#[test]
fn cached_shape_is_not_the_shape_of_an_answer() {
    let stored = to_cache_array(&vec![material("m1", "First")]);
    assert!(matches!(get_materials(stored), Err(ApiError::Deserialize(_))));
}

#[test]
fn missing_fields_read_as_their_defaults() {
    let m = read_cached_material(&Json::parse("{}").unwrap());
    assert_eq!(m.name, "");
    assert_eq!(m.id, "");
    assert_eq!(m.description, "");
    assert_eq!(m.gwp.value.parse::<f64>().unwrap(), 1.0);
    assert_eq!(m.gwp.unit, GwpUnits::Unknown);
    assert_eq!(m.declared_unit.value.parse::<f64>().unwrap(), 1.0);
    assert_eq!(m.declared_unit.unit, Unit::Unknown);
    assert_eq!(m.image.as_deref(), Some("null"));
    assert_eq!(m.manufacturer.name, "");
    assert_eq!(m.manufacturer.country.as_deref(), Some(""));
    assert_eq!(m.category.id, "");
    assert_eq!(m.category.name, "");
    assert_eq!(m.category.display_name, "");
    assert_eq!(m.category.description, "");
}

#[test]
fn fields_of_the_wrong_kind_read_as_their_defaults() {
    let m = read_cached_material(
        &Json::parse(
            r#"{"name": 5, "id": ["x"], "gwp": "12.3 kgCO2e", "declared_unit": {"value": "2", "unit": 3},
                "manufacturer": "Acme", "category": null, "image": {"a": 1}}"#,
        )
        .unwrap(),
    );
    assert_eq!(m.name, "");
    assert_eq!(m.id, "");
    assert_eq!(m.gwp.value, "1");
    assert_eq!(m.gwp.unit, GwpUnits::Unknown);
    assert_eq!(m.declared_unit.value, "1");
    assert_eq!(m.declared_unit.unit, Unit::Unknown);
    assert_eq!(m.manufacturer.name, "");
    assert_eq!(m.category.id, "");
    assert_eq!(m.image.as_deref(), Some("{\"a\":1}"));
    let odd = read_cached_material(&Json::Object(vec![(
        "gwp".to_string(),
        Json::Object(vec![("value".to_string(), Json::Number("garbage".to_string()))]),
    )]));
    assert_eq!(odd.gwp.value, "1");
    let five = read_cached_material(&Json::Number("5".to_string()));
    assert_eq!(five.name, "");
}

#[test]
fn lenient_reading_of_a_hand_written_file() {
    let back = read_cache(
        r#"[{"name": "A", "id": "a", "gwp": {"value": 2.5, "unit": "kgCO2e"},
             "declared_unit": {"value": 3, "unit": "ton"}},
            {"name": "B", "id": "b"}]"#,
    )
    .unwrap();
    assert_eq!(back.len(), 2);
    assert_eq!(back[0].gwp.value.parse::<f64>().unwrap(), 2.5);
    assert_eq!(back[0].gwp.unit, GwpUnits::KgCO2e);
    assert_eq!(back[0].declared_unit.value.parse::<f64>().unwrap(), 3.0);
    assert_eq!(back[0].declared_unit.unit, Unit::T);
    assert_eq!(back[1].name, "B");
    assert_eq!(back[1].id, "b");
}

#[test]
fn cache_that_cannot_be_read_is_a_miss() {
    assert!(matches!(read_cache("not json"), Err(ApiError::Deserialize(_))));
    assert!(matches!(read_cache(""), Err(ApiError::Deserialize(_))));
    assert!(matches!(read_cache("{}"), Err(ApiError::EmptyArray())));
    assert!(matches!(read_cache("null"), Err(ApiError::EmptyArray())));
    assert!(matches!(read_cached(&Json::Null), Err(ApiError::EmptyArray())));
}

#[test]
fn magnitudes_are_written_as_json_numbers() {
    for (magnitude, written, value) in [
        ("+5", "5", 5.0),
        (".5", "0.5", 0.5),
        ("5.", "5.0", 5.0),
        ("007", "7", 7.0),
        ("-000.250e+03", "-0.250e+03", -250.0),
        ("+.5E-1", "0.5E-1", 0.05),
        ("000", "0", 0.0),
        ("-0.", "-0.0", 0.0),
        ("12.30", "12.30", 12.3),
        ("1e5", "1e5", 100000.0),
    ] {
        let mut stored = material("m1", "First");
        stored.gwp.value = magnitude.to_string();
        stored.declared_unit.value = magnitude.to_string();
        let document = to_cache_json(&stored);
        assert_eq!(
            document.get("gwp").unwrap().get("value").unwrap().as_number(),
            Some(written),
            "{:?}",
            magnitude
        );
        let direct = read_cached(&to_cache_array(&vec![material_with(magnitude)])).unwrap();
        assert_eq!(direct[0].gwp.value, written);
        let text = render_cache(&vec![stored]).unwrap();
        let back = read_cache(&text).unwrap();
        assert_eq!(back[0].gwp.value.parse::<f64>().unwrap(), value, "{:?}", magnitude);
        assert_eq!(back[0].declared_unit.value.parse::<f64>().unwrap(), value, "{:?}", magnitude);
        assert_eq!(
            magnitude.parse::<f64>().unwrap(),
            written.parse::<f64>().unwrap(),
            "{:?}",
            magnitude
        );
    }
}

fn material_with(magnitude: &str) -> Ec3Material {
    let mut m = material("m", "n");
    m.gwp.value = magnitude.to_string();
    m
}

#[test]
fn magnitude_that_is_no_number_is_stored_as_null() {
    let mut stored = material("m1", "First");
    stored.gwp.value = "inf".to_string();
    stored.declared_unit.value = "".to_string();
    let document = to_cache_json(&stored);
    assert!(matches!(document.get("gwp").unwrap().get("value").unwrap(), Json::Null));
    let text = render_cache(&vec![stored]).unwrap();
    let back = read_cache(&text).unwrap();
    assert_eq!(back[0].gwp.value, "1");
    assert_eq!(back[0].declared_unit.value, "1");
    assert_eq!(back[0].id, "m1");
}

#[test]
fn image_that_cannot_be_written_reads_as_none() {
    let odd = Json::Object(vec![("image".to_string(), Json::Number("+1".to_string()))]);
    assert_eq!(read_cached_material(&odd).image, None);
}

#[test]
fn materials_that_cannot_be_written_have_no_cache_text() {
    let mut stored = material("m1", "First");
    stored.gwp.value = "1e999".to_string();
    assert!(matches!(render_cache(&vec![stored]), Err(ApiError::SerializationError)));
}

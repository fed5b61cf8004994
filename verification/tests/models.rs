use ec3api::error::ApiError;
use ec3api::models::{
    copy_node, Category, DeclaredUnit, Ec3Category, Gwp, GwpUnits, Manufacturer, Node, Unit,
};
use std::collections::hash_map::DefaultHasher;
use std::collections::HashSet;
use std::hash::{Hash, Hasher};

fn hash_of<T: Hash>(value: &T) -> u64 {
    let mut hasher = DefaultHasher::new();
    value.hash(&mut hasher);
    hasher.finish()
}

#[test]
fn known_unit_tokens_are_read() {
    assert_eq!(Unit::from_str("m2"), Ok(Unit::M2));
    assert_eq!(Unit::from_str("M2"), Ok(Unit::M2));
    assert_eq!(Unit::from_str("m3"), Ok(Unit::M3));
    assert_eq!(Unit::from_str("M3"), Ok(Unit::M3));
    assert_eq!(Unit::from_str("m"), Ok(Unit::M));
    assert_eq!(Unit::from_str("M"), Ok(Unit::M));
    assert_eq!(Unit::from_str("sqft"), Ok(Unit::SQFT));
    assert_eq!(Unit::from_str("SQFT"), Ok(Unit::SQFT));
    assert_eq!(Unit::from_str("ton"), Ok(Unit::T));
    assert_eq!(Unit::from_str("t"), Ok(Unit::T));
    assert_eq!(Unit::from_str("kg"), Ok(Unit::Kg));
    assert_eq!(Unit::from_str("Kg"), Ok(Unit::Kg));
    assert_eq!(Unit::from_str("KG"), Ok(Unit::Kg));
}

#[test]
fn unrecognized_unit_tokens_are_unknown() {
    for token in [
        "", " ", "xyz", "T", "TON", "Ton", "kG", "Sqft", "sqFt", "m4", "M 2", "m2 ", " m2", "mm",
        "kgs", "Unknown", "M³", "㎡",
    ] {
        assert_eq!(Unit::from_str(token), Ok(Unit::Unknown), "token {:?}", token);
    }
}

#[test]
fn unit_parses_through_the_standard_trait() {
    assert_eq!("m3".parse::<Unit>(), Ok(Unit::M3));
    assert_eq!("nonsense".parse::<Unit>(), Ok(Unit::Unknown));
    assert_eq!("kgCO2e".parse::<GwpUnits>(), Ok(GwpUnits::KgCO2e));
}

#[test]
fn gwp_unit_tokens_are_read() {
    assert_eq!(GwpUnits::from_str("KgCO2e"), Ok(GwpUnits::KgCO2e));
    assert_eq!(GwpUnits::from_str("kgCO2e"), Ok(GwpUnits::KgCO2e));
    assert_eq!(GwpUnits::from_str("kgCo2e"), Ok(GwpUnits::KgCO2e));
    for token in ["", "KGCO2E", "kgco2e", "KgCo2e", "xyz", "kg", "Unknown"] {
        assert_eq!(GwpUnits::from_str(token), Ok(GwpUnits::Unknown), "token {:?}", token);
    }
}

#[test]
fn unit_names_are_the_names_of_the_variants() {
    assert_eq!(Unit::M3.name(), "M3");
    assert_eq!(Unit::M2.name(), "M2");
    assert_eq!(Unit::M.name(), "M");
    assert_eq!(Unit::SQFT.name(), "SQFT");
    assert_eq!(Unit::Kg.name(), "Kg");
    assert_eq!(Unit::T.name(), "T");
    assert_eq!(Unit::Unknown.name(), "Unknown");
    assert_eq!(GwpUnits::KgCO2e.name(), "KgCO2e");
    assert_eq!(GwpUnits::Unknown.name(), "Unknown");
    for unit in [Unit::M3, Unit::M2, Unit::M, Unit::SQFT, Unit::Kg, Unit::T, Unit::Unknown] {
        assert_eq!(unit.name(), format!("{:?}", unit));
    }
}

#[test]
fn compound_quantity_is_parsed() {
    let gwp = Gwp::from_str("12.3 KgCO2e").unwrap();
    assert_eq!(gwp.value, "12.3");
    assert_eq!(gwp.value.parse::<f64>().unwrap(), 12.3);
    assert_eq!(gwp.unit, GwpUnits::KgCO2e);
}

#[test]
fn quantity_without_a_space_is_a_format_error() {
    assert!(matches!(Gwp::from_str("bad"), Err(ApiError::GwpError)));
    assert!(matches!(Gwp::from_str(""), Err(ApiError::GwpError)));
    assert!(matches!(Gwp::from_str("12.3KgCO2e"), Err(ApiError::GwpError)));
    assert!(matches!(DeclaredUnit::from_str("bad"), Err(ApiError::UnitError)));
    assert!(matches!(DeclaredUnit::from_str("1m3"), Err(ApiError::UnitError)));
}

#[test]
fn quantity_with_an_unknown_unit_is_no_error() {
    let gwp = Gwp::from_str("12.3 xyz").unwrap();
    assert_eq!(gwp.value.parse::<f64>().unwrap(), 12.3);
    assert_eq!(gwp.unit, GwpUnits::Unknown);
    let unit = DeclaredUnit::from_str("2 furlongs").unwrap();
    assert_eq!(unit.value, "2");
    assert_eq!(unit.unit, Unit::Unknown);
}

#[test]
fn quantity_without_a_magnitude_is_a_format_error() {
    assert!(matches!(Gwp::from_str("abc KgCO2e"), Err(ApiError::GwpError)));
    assert!(matches!(Gwp::from_str(" KgCO2e"), Err(ApiError::GwpError)));
    assert!(matches!(Gwp::from_str("1,5 KgCO2e"), Err(ApiError::GwpError)));
    assert!(matches!(DeclaredUnit::from_str("one m3"), Err(ApiError::UnitError)));
    assert!(matches!(DeclaredUnit::from_str(" m3"), Err(ApiError::UnitError)));
}

#[test]
fn quantity_that_is_not_finite_is_a_format_error() {
    for magnitude in ["inf", "-inf", "+Infinity", "INFINITY", "nan", "NaN", "-nan", "1e999", "-1e309"] {
        let gwp = format!("{} KgCO2e", magnitude);
        assert!(matches!(Gwp::from_str(&gwp), Err(ApiError::GwpError)), "{:?}", gwp);
        let unit = format!("{} m3", magnitude);
        assert!(matches!(DeclaredUnit::from_str(&unit), Err(ApiError::UnitError)), "{:?}", unit);
    }
    let largest = Gwp::from_str("1.7976931348623157e308 KgCO2e").unwrap();
    assert!(largest.value.parse::<f64>().unwrap().is_finite());
    let smallest = DeclaredUnit::from_str("1e-999 m3").unwrap();
    assert_eq!(smallest.value.parse::<f64>().unwrap(), 0.0);
}

#[test]
fn quantity_splits_at_the_first_space_only() {
    let unit = DeclaredUnit::from_str("1 m3 extra").unwrap();
    assert_eq!(unit.value, "1");
    assert_eq!(unit.unit, Unit::Unknown);
    let declared = DeclaredUnit::from_str("1.5 m3").unwrap();
    assert_eq!(declared.value.parse::<f64>().unwrap(), 1.5);
    assert_eq!(declared.unit, Unit::M3);
    let ton = DeclaredUnit::from_str("1e3 ton").unwrap();
    assert_eq!(ton.value.parse::<f64>().unwrap(), 1000.0);
    assert_eq!(ton.unit, Unit::T);
}

#[test]
fn quantities_parse_through_the_standard_trait() {
    let gwp: Gwp = "7 kgCO2e".parse().unwrap();
    assert_eq!(gwp.value, "7");
    assert_eq!(gwp.unit, GwpUnits::KgCO2e);
    let unit: DeclaredUnit = "1 sqft".parse().unwrap();
    assert_eq!(unit.unit, Unit::SQFT);
    assert!(matches!("bad".parse::<Gwp>(), Err(ApiError::GwpError)));
    assert!(matches!("bad".parse::<DeclaredUnit>(), Err(ApiError::UnitError)));
}

#[test]
fn gwp_is_written_as_magnitude_and_unit() {
    assert_eq!(Gwp::from_str("12.3 kgCO2e").unwrap().as_str(), "12.3 KgCO2e");
    assert_eq!(Gwp::from_str("5 tons").unwrap().as_str(), "5 Unknown");
    assert_eq!(Gwp::default().as_str(), "0 KgCO2e");
}

#[test]
fn default_quantities() {
    let gwp = Gwp::default();
    assert_eq!(gwp.value.parse::<f64>().unwrap(), 0.0);
    assert_eq!(gwp.unit, GwpUnits::KgCO2e);
    let unit = DeclaredUnit::default();
    assert_eq!(unit.value.parse::<f64>().unwrap(), 1.0);
    assert_eq!(unit.unit, Unit::Unknown);
}

#[test]
fn categories_are_equal_by_id() {
    let a = Category {
        description: "d1".to_string(),
        name: "n1".to_string(),
        display_name: "dn1".to_string(),
        id: "same".to_string(),
    };
    let b = Category {
        description: "d2".to_string(),
        name: "n2".to_string(),
        display_name: "dn2".to_string(),
        id: "same".to_string(),
    };
    let c = Category { id: "other".to_string(), ..a.clone() };
    assert!(a == b);
    assert!(a != c);
    assert_eq!(hash_of(&a), hash_of(&b));
    let mut set = HashSet::new();
    set.insert(a);
    set.insert(b);
    set.insert(c);
    assert_eq!(set.len(), 2);
}

#[test]
fn manufacturers_are_equal_by_name_and_country() {
    let a = Manufacturer { name: "Acme".to_string(), country: Some("DE".to_string()) };
    let b = Manufacturer { name: "Acme".to_string(), country: Some("DE".to_string()) };
    let c = Manufacturer { name: "Acme".to_string(), country: Some("US".to_string()) };
    let d = Manufacturer { name: "Acme".to_string(), country: None };
    let e = Manufacturer { name: "Other".to_string(), country: Some("DE".to_string()) };
    let f = Manufacturer { name: "Acme".to_string(), country: None };
    assert!(a == b);
    assert!(a != c);
    assert!(a != d);
    assert!(d != a);
    assert!(a != e);
    assert!(d == f);
    assert_eq!(hash_of(&a), hash_of(&b));
    assert_eq!(hash_of(&d), hash_of(&f));
}

#[test]
fn root_of_the_category_tree() {
    let root = Node::new();
    assert_eq!(root.value.name, "ConstructionMaterials");
    assert_eq!(root.value.id, "");
    assert_eq!(root.value.declared_unit.value.parse::<f64>().unwrap(), 1.0);
    assert_eq!(root.value.declared_unit.unit, Unit::Kg);
    assert_eq!(root.children.as_ref().map(|c| c.len()), Some(0));
    let by_default: Node<Ec3Category> = Node::default();
    assert_eq!(by_default.value.name, "ConstructionMaterials");
    assert_eq!(Ec3Category::default().name, "ConstructionMaterials");
}

#[test]
fn children_are_added_in_order() {
    let mut root = Node::new();
    let unit = DeclaredUnit::from_str("1 m3").unwrap();
    root.add_children(Node::with_category("Concrete", unit, "c1".to_string()));
    root.add_children(Node::with_category("Wood", DeclaredUnit::default(), "w1".to_string()));
    let children = root.children.as_ref().unwrap();
    assert_eq!(children.len(), 2);
    assert_eq!(children[0].value.name, "Concrete");
    assert_eq!(children[0].value.id, "c1");
    assert_eq!(children[0].value.declared_unit.unit, Unit::M3);
    assert_eq!(children[1].value.name, "Wood");
    assert_eq!(children[1].children.as_ref().map(|c| c.len()), Some(0));
}

#[test]
fn children_are_added_to_a_node_without_a_list() {
    let mut node = Node { children: None, value: Ec3Category::default() };
    node.add_children(Node::new());
    assert_eq!(node.children.as_ref().map(|c| c.len()), Some(1));
    let copy = node.clone();
    assert_eq!(copy.children.as_ref().map(|c| c.len()), Some(1));
    assert_eq!(copy.value.name, "ConstructionMaterials");
}

#[test]
fn clone_of_a_tree_has_its_shape_and_its_values() {
    let mut root = Node::new();
    let mut concrete =
        Node::with_category("Concrete", DeclaredUnit::from_str("1 m3").unwrap(), "c1".to_string());
    concrete.add_children(Node::with_category(
        "Ready Mix",
        DeclaredUnit::from_str("2 t").unwrap(),
        "c2".to_string(),
    ));
    concrete.add_children(Node { children: None, value: Ec3Category::default() });
    root.add_children(concrete);
    root.add_children(Node::with_category("Wood", DeclaredUnit::default(), "w1".to_string()));
    for copy in [root.clone(), copy_node(&root)] {
        assert_eq!(format!("{:?}", copy), format!("{:?}", root));
        let top = copy.children.as_ref().unwrap();
        assert_eq!(top.len(), 2);
        assert_eq!(top[0].value.name, "Concrete");
        assert_eq!(top[1].value.id, "w1");
        let below = top[0].children.as_ref().unwrap();
        assert_eq!(below.len(), 2);
        assert_eq!(below[0].value.declared_unit.unit, Unit::T);
        assert_eq!(below[0].value.declared_unit.value, "2");
        assert!(below[1].children.is_none());
        assert_eq!(top[1].children.as_ref().map(|c| c.len()), Some(0));
    }
    let mut changed = root.clone();
    changed.add_children(Node::new());
    assert_eq!(root.children.as_ref().unwrap().len(), 2);
    assert_eq!(changed.children.as_ref().unwrap().len(), 3);
    let numbers = Node { children: Some(vec![Node { children: None, value: 2u8 }]), value: 1u8 };
    let copy = numbers.clone();
    assert_eq!(copy.value, 1);
    assert_eq!(copy.children.as_ref().unwrap()[0].value, 2);
}

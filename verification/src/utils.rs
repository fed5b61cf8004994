//! The cache of materials: one file for each category, which holds a JSON
//! array of materials.
//!
//! A cached material is stored with its quantities as objects of a `value`
//! and a `unit`, not as the texts that a query answers with. It is read
//! leniently: a field that is missing or of the wrong kind reads as its
//! default, and reading one material never fails.
//!
//! # What a round trip keeps
//!
//! The laws at the end of this file speak of the document that is built
//! for the materials and of what the reader makes of that same document.
//! There, names, ids, descriptions, categories and units are kept, but
//! this is lost or changed:
//!
//! - an image comes back as the JSON text of what was stored, so a text
//!   comes back between quotes and a missing image as `null`;
//! - a manufacturer without a country comes back with an empty one;
//! - metric tons come back as an unknown unit;
//! - a magnitude comes back as the JSON number that was written for it,
//!   which is meant to denote the same number but may be another text: `+1`
//!   comes back as `1`, `.5` as `0.5`, `5.` as `5.0`, `007` as `7`.
//!
//! Between the writer and the reader stands `serde_json`, which writes the
//! document to the file and reads it from there. Of that the laws say
//! nothing, and more may be lost in it:
//!
//! - where `serde_json` refuses a magnitude as a JSON number or fails to
//!   write, no file is written at all ([`cache_text_of`] is `None`);
//! - `serde_json` prints a number in its own way, so a magnitude `12.30`
//!   is read from the file as `12.3`;
//! - that the document read from the file is the document that was
//!   written is not stated anywhere in this library.

use vstd::prelude::*;
use vstd::string::*;

use crate::decode::text_field;
use crate::error::{ApiError, ErrorKind};
use crate::json::{
    compact_text, entries_view, is_key_position, items_view, json_of_text, lemma_array_view,
    lemma_key_index_unique, lemma_object_view, stored, written, Json, JsonView,
};
use crate::models::{
    gwp_unit_of, materials_view, unit_of, Category, CategoryView, DeclaredUnit, DeclaredUnitView,
    Ec3Material, Gwp, GwpUnits, GwpView, Manufacturer, ManufacturerView, MaterialView, Unit,
};
use crate::text::{
    finite_number, float_text, is_float_text, json_number_of, lemma_digit_is_float_text,
    lemma_json_number_is_number, to_json_number,
};

verus! {

/// The name of the file that holds the materials of a category: the
/// category, then `.json`.
pub open spec fn cache_file_name_of(category: Seq<char>) -> Seq<char> {
    category + ".json"@
}

/// The name of the file that holds the materials of a category.
pub fn cache_file_name(category: &str) -> (r: String)
    ensures
        r@ == cache_file_name_of(category@),
{
    let mut name = category.to_owned();
    name.append(".json");
    name
}

/// The text under `key`, or the empty text where there is none.
pub open spec fn text_or_empty(j: JsonView, key: Seq<char>) -> Seq<char> {
    match text_field(j, key) {
        Some(t) => t,
        None => Seq::empty(),
    }
}

/// The magnitude under `value`: the text of the number there, or `1` where
/// there is no number or its text denotes no finite number.
pub open spec fn magnitude_or_one(j: JsonView) -> Seq<char> {
    match j.field("value"@).number() {
        Some(t) => if float_text(t) {
            t
        } else {
            "1"@
        },
        None => "1"@,
    }
}

/// The material that a record of the cache describes.
pub open spec fn cached_material_of(j: JsonView) -> MaterialView {
    MaterialView {
        name: text_or_empty(j, "name"@),
        gwp: GwpView {
            value: magnitude_or_one(j.field("gwp"@)),
            unit: gwp_unit_of(text_or_empty(j.field("gwp"@), "unit"@)),
        },
        image: match stored(j.field("image"@)) {
            Some(document) => Some(compact_text(document)),
            None => None,
        },
        manufacturer: ManufacturerView {
            name: text_or_empty(j.field("manufacturer"@), "name"@),
            country: Some(text_or_empty(j.field("manufacturer"@), "country"@)),
        },
        description: text_or_empty(j, "description"@),
        category: CategoryView {
            description: text_or_empty(j.field("category"@), "description"@),
            name: text_or_empty(j.field("category"@), "name"@),
            display_name: text_or_empty(j.field("category"@), "display_name"@),
            id: text_or_empty(j.field("category"@), "id"@),
        },
        id: text_or_empty(j, "id"@),
        declared_unit: DeclaredUnitView {
            value: magnitude_or_one(j.field("declared_unit"@)),
            unit: unit_of(text_or_empty(j.field("declared_unit"@), "unit"@)),
        },
    }
}

/// The materials that a document of the cache holds, in order. The
/// document has to be an array, which may be empty.
pub open spec fn cached_materials_in(j: JsonView) -> Result<Seq<MaterialView>, ErrorKind> {
    match j {
        JsonView::Array(items) => Ok(Seq::new(items.len(), |i: int| cached_material_of(items[i]))),
        _ => Err(ErrorKind::EmptyArray),
    }
}

/// The materials that the text of a cache file holds: those of the
/// document it denotes, and a failure where it denotes none.
pub open spec fn cache_contents_of(text: Seq<char>) -> Result<Seq<MaterialView>, ErrorKind> {
    match json_of_text(text) {
        Some(j) => cached_materials_in(j),
        None => Err(ErrorKind::Deserialize),
    }
}

/// The value under `key`, or null.
fn field_or_null<'a>(j: &'a Json, key: &str, null: &'a Json) -> (r: &'a Json)
    requires
        null@ == JsonView::Null,
    ensures
        r@ == j@.field(key@),
{
    match j.get(key) {
        Some(v) => v,
        None => null,
    }
}

fn read_text_or_empty(j: &Json, key: &str) -> (r: String)
    ensures
        r@ == text_or_empty(j@, key@),
{
    match j.get(key) {
        Some(v) => match v.as_str() {
            Some(t) => t.to_owned(),
            None => String::new(),
        },
        None => String::new(),
    }
}

fn read_magnitude_or_one(j: &Json) -> (r: String)
    ensures
        r@ == magnitude_or_one(j@),
        float_text(r@),
{
    let number = match j.get("value") {
        Some(v) => v.as_number(),
        None => None,
    };
    match number {
        Some(t) => {
            if is_float_text(t) {
                return t.to_owned();
            }
        },
        None => {},
    }
    proof {
        reveal_strlit("1");
        lemma_digit_is_float_text("1"@);
    }
    "1".to_owned()
}

/// Reads one record of the cache. Never fails.
pub fn read_cached_material(j: &Json) -> (r: Ec3Material)
    ensures
        r@ == cached_material_of(j@),
        r.wf(),
{
    let null = Json::Null;
    let gwp = field_or_null(j, "gwp", &null);
    let manufacturer = field_or_null(j, "manufacturer", &null);
    let category = field_or_null(j, "category", &null);
    let declared_unit = field_or_null(j, "declared_unit", &null);
    let gwp_unit = match GwpUnits::from_str(read_text_or_empty(gwp, "unit").as_str()) {
        Ok(unit) => unit,
        Err(_) => GwpUnits::Unknown,
    };
    let unit = match Unit::from_str(read_text_or_empty(declared_unit, "unit").as_str()) {
        Ok(unit) => unit,
        Err(_) => Unit::Unknown,
    };
    Ec3Material {
        name: read_text_or_empty(j, "name"),
        gwp: Gwp { value: read_magnitude_or_one(gwp), unit: gwp_unit },
        image: match field_or_null(j, "image", &null).to_text() {
            Ok(text) => Some(text),
            Err(_) => None,
        },
        manufacturer: Manufacturer {
            name: read_text_or_empty(manufacturer, "name"),
            country: Some(read_text_or_empty(manufacturer, "country")),
        },
        description: read_text_or_empty(j, "description"),
        id: read_text_or_empty(j, "id"),
        category: Category {
            description: read_text_or_empty(category, "description"),
            name: read_text_or_empty(category, "name"),
            display_name: read_text_or_empty(category, "display_name"),
            id: read_text_or_empty(category, "id"),
        },
        declared_unit: DeclaredUnit { value: read_magnitude_or_one(declared_unit), unit },
    }
}

/// Reads the materials of a document of the cache, in order. Fails only on
/// a document that is no array.
pub fn read_cached(json: &Json) -> (r: Result<Vec<Ec3Material>, ApiError>)
    ensures
        match cached_materials_in(json@) {
            Ok(ms) => r matches Ok(got) && materials_view(got@) == ms && crate::decode::all_wf(
                got@,
            ),
            Err(kind) => r matches Err(e) && e@ == kind,
        },
{
    let items = match json.as_array() {
        Some(items) => items,
        None => {
            return Err(ApiError::EmptyArray());
        },
    };
    let ghost views = items_view(items@);
    let mut out: Vec<Ec3Material> = Vec::new();
    let mut i: usize = 0;
    while i < items.len()
        invariant
            i <= items.len(),
            views == items_view(items@),
            out.len() == i,
            crate::decode::all_wf(out@),
            forall|k: int| 0 <= k < i ==> (#[trigger] out@[k])@ == cached_material_of(views[k]),
        decreases items.len() - i,
    {
        out.push(read_cached_material(&items[i]));
        i += 1;
    }
    proof {
        assert(materials_view(out@) =~= cached_materials_in(json@)->Ok_0);
    }
    Ok(out)
}

/// Reads the materials in the text of a cache file. Fails on a text that
/// is not JSON and on a document that is no array; either way the caller
/// has no cached materials and queries the catalog.
pub fn read_cache(contents: &str) -> (r: Result<Vec<Ec3Material>, ApiError>)
    ensures
        match cache_contents_of(contents@) {
            Ok(ms) => r matches Ok(got) && materials_view(got@) == ms && crate::decode::all_wf(
                got@,
            ),
            Err(kind) => r matches Err(e) && e@ == kind,
        },
{
    match Json::parse(contents) {
        Ok(json) => read_cached(&json),
        Err(e) => Err(ApiError::Deserialize(e)),
    }
}

/// A magnitude as the cache stores it: the JSON number that is written
/// for it, or null where it is no number.
pub open spec fn magnitude_json(value: Seq<char>) -> JsonView {
    match json_number_of(value) {
        Some(number) => JsonView::Number(number),
        None => JsonView::Null,
    }
}

/// A quantity as the cache stores it: an object of its `value`, a
/// number, and the name of its `unit`.
pub open spec fn quantity_json(value: Seq<char>, unit: Seq<char>) -> JsonView {
    JsonView::Object(seq![("value"@, magnitude_json(value)), ("unit"@, JsonView::Str(unit))])
}

/// A text that may be missing as the cache stores it: a string, or null.
pub open spec fn optional_text_json(t: Option<Seq<char>>) -> JsonView {
    match t {
        Some(t) => JsonView::Str(t),
        None => JsonView::Null,
    }
}

/// A manufacturer as the cache stores it.
pub open spec fn manufacturer_json(m: ManufacturerView) -> JsonView {
    JsonView::Object(
        seq![("name"@, JsonView::Str(m.name)), ("country"@, optional_text_json(m.country))],
    )
}

/// A category as the cache stores it.
pub open spec fn category_json(c: CategoryView) -> JsonView {
    JsonView::Object(
        seq![
            ("description"@, JsonView::Str(c.description)),
            ("name"@, JsonView::Str(c.name)),
            ("display_name"@, JsonView::Str(c.display_name)),
            ("id"@, JsonView::Str(c.id)),
        ],
    )
}

/// A material as the cache stores it: an object with one key for each
/// field, the quantities as objects of their own.
pub open spec fn cache_json_of(m: MaterialView) -> JsonView {
    JsonView::Object(
        seq![
            ("name"@, JsonView::Str(m.name)),
            ("gwp"@, quantity_json(m.gwp.value, m.gwp.unit.name_of())),
            ("image"@, optional_text_json(m.image)),
            ("manufacturer"@, manufacturer_json(m.manufacturer)),
            ("description"@, JsonView::Str(m.description)),
            ("category"@, category_json(m.category)),
            ("id"@, JsonView::Str(m.id)),
            ("declared_unit"@, quantity_json(m.declared_unit.value, m.declared_unit.unit.name_of())),
        ],
    )
}

/// A list of materials as the cache stores it: the array of its
/// materials, in order.
pub open spec fn cache_array_of(ms: Seq<MaterialView>) -> JsonView {
    JsonView::Array(Seq::new(ms.len(), |i: int| cache_json_of(ms[i])))
}

fn entry(key: &str, value: Json) -> (r: (String, Json))
    ensures
        r.0@ == key@,
        r.1 == value,
{
    (key.to_owned(), value)
}

fn text_json(t: &String) -> (r: Json)
    ensures
        r@ == JsonView::Str(t@),
{
    Json::Str(t.clone())
}

fn optional_json(t: &Option<String>) -> (r: Json)
    ensures
        r@ == optional_text_json(crate::models::opt_text(*t)),
{
    match t {
        Some(t) => Json::Str(t.clone()),
        None => Json::Null,
    }
}

fn quantity_to_json(value: &String, unit: &str) -> (r: Json)
    ensures
        r@ == quantity_json(value@, unit@),
{
    let magnitude = match to_json_number(value.as_str()) {
        Some(number) => Json::Number(number),
        None => Json::Null,
    };
    let mut entries: Vec<(String, Json)> = Vec::new();
    entries.push(entry("value", magnitude));
    entries.push(entry("unit", Json::Str(unit.to_owned())));
    proof {
        lemma_object_view(entries);
        assert(entries_view(entries@) =~= quantity_json(value@, unit@)->Object_0);
    }
    Json::Object(entries)
}

fn manufacturer_to_json(m: &Manufacturer) -> (r: Json)
    ensures
        r@ == manufacturer_json(m@),
{
    let mut entries: Vec<(String, Json)> = Vec::new();
    entries.push(entry("name", text_json(&m.name)));
    entries.push(entry("country", optional_json(&m.country)));
    proof {
        lemma_object_view(entries);
        assert(entries_view(entries@) =~= manufacturer_json(m@)->Object_0);
    }
    Json::Object(entries)
}

fn category_to_json(c: &Category) -> (r: Json)
    ensures
        r@ == category_json(c@),
{
    let mut entries: Vec<(String, Json)> = Vec::new();
    entries.push(entry("description", text_json(&c.description)));
    entries.push(entry("name", text_json(&c.name)));
    entries.push(entry("display_name", text_json(&c.display_name)));
    entries.push(entry("id", text_json(&c.id)));
    proof {
        lemma_object_view(entries);
        assert(entries_view(entries@) =~= category_json(c@)->Object_0);
    }
    Json::Object(entries)
}

/// The material as the cache stores it.
pub fn to_cache_json(m: &Ec3Material) -> (r: Json)
    ensures
        r@ == cache_json_of(m@),
{
    let mut entries: Vec<(String, Json)> = Vec::new();
    entries.push(entry("name", text_json(&m.name)));
    entries.push(entry("gwp", quantity_to_json(&m.gwp.value, m.gwp.unit.name())));
    entries.push(entry("image", optional_json(&m.image)));
    entries.push(entry("manufacturer", manufacturer_to_json(&m.manufacturer)));
    entries.push(entry("description", text_json(&m.description)));
    entries.push(entry("category", category_to_json(&m.category)));
    entries.push(entry("id", text_json(&m.id)));
    entries.push(
        entry(
            "declared_unit",
            quantity_to_json(&m.declared_unit.value, m.declared_unit.unit.name()),
        ),
    );
    proof {
        lemma_object_view(entries);
        assert(entries_view(entries@) =~= cache_json_of(m@)->Object_0);
    }
    Json::Object(entries)
}

/// The materials as the cache stores them.
pub fn to_cache_array(materials: &Vec<Ec3Material>) -> (r: Json)
    ensures
        r@ == cache_array_of(materials_view(materials@)),
{
    let mut items: Vec<Json> = Vec::new();
    let mut i: usize = 0;
    while i < materials.len()
        invariant
            i <= materials.len(),
            items.len() == i,
            forall|k: int| 0 <= k < i ==> (#[trigger] items@[k])@ == cache_json_of(materials@[k]@),
        decreases materials.len() - i,
    {
        items.push(to_cache_json(&materials[i]));
        i += 1;
    }
    proof {
        lemma_array_view(items);
        assert(items_view(items@) =~= cache_array_of(materials_view(materials@))->Array_0);
    }
    Json::Array(items)
}

/// The text of the cache file that holds the materials; `None` where
/// `serde_json` refuses one of their magnitudes as a JSON number or reports
/// a failure on writing.
pub open spec fn cache_text_of(ms: Seq<MaterialView>) -> Option<Seq<char>> {
    written(cache_array_of(ms))
}

/// The text of the cache file that holds the materials. Where there is
/// none, that is a failure to render.
pub fn render_cache(materials: &Vec<Ec3Material>) -> (r: Result<String, ApiError>)
    ensures
        match cache_text_of(materials_view(materials@)) {
            Some(text) => r matches Ok(got) && got@ == text,
            None => r matches Err(e) && e@ == ErrorKind::Serialization,
        },
{
    match to_cache_array(materials).to_pretty_text() {
        Ok(text) => Ok(text),
        Err(_) => Err(ApiError::SerializationError),
    }
}

/// The value under a key of an object is the value of the first entry
/// with that key.
pub proof fn lemma_field_at(entries: Seq<(Seq<char>, JsonView)>, key: Seq<char>, i: int)
    requires
        is_key_position(entries, key, i),
    ensures
        JsonView::Object(entries).field(key) == entries[i].1,
{
    lemma_key_index_unique(entries, key, i);
}

/// The magnitude that comes back for a stored magnitude: the JSON number
/// that was written for it, where that denotes a finite number, and `1`
/// otherwise.
pub open spec fn magnitude_read_back(value: Seq<char>) -> Seq<char> {
    match json_number_of(value) {
        Some(number) => if float_text(number) {
            number
        } else {
            "1"@
        },
        None => "1"@,
    }
}

/// A finite magnitude comes back as the JSON number that was written for
/// it, which is a finite magnitude too. So `1` comes back in place of a
/// magnitude only where what was stored was no finite magnitude.
pub proof fn lemma_finite_magnitude_comes_back(value: Seq<char>)
    requires
        float_text(value),
    ensures
        json_number_of(value) matches Some(number) && magnitude_read_back(value) == number
            && float_text(number),
{
    let (p, q) = choose|p: int, q: int| #[trigger] finite_number(value, p, q);
    lemma_json_number_is_number(value, p, q);
}

/// What reading finds in a stored quantity: the magnitude that comes back
/// for its magnitude, and the name of its unit.
pub proof fn lemma_quantity_fields(value: Seq<char>, unit: Seq<char>)
    ensures
        magnitude_or_one(quantity_json(value, unit)) == magnitude_read_back(value),
        text_or_empty(quantity_json(value, unit), "unit"@) == unit,
{
    reveal_strlit("value");
    reveal_strlit("unit");
    let entries = quantity_json(value, unit)->Object_0;
    assert("value"@.len() == 5 && "unit"@.len() == 4);
    lemma_field_at(entries, "value"@, 0);
    lemma_field_at(entries, "unit"@, 1);
}

/// What reading finds in a stored manufacturer: its name, and its country
/// or the empty text.
pub proof fn lemma_manufacturer_fields(m: ManufacturerView)
    ensures
        text_or_empty(manufacturer_json(m), "name"@) == m.name,
        text_or_empty(manufacturer_json(m), "country"@) == match m.country {
            Some(c) => c,
            None => Seq::empty(),
        },
{
    reveal_strlit("name");
    reveal_strlit("country");
    let entries = manufacturer_json(m)->Object_0;
    assert("name"@.len() == 4 && "country"@.len() == 7);
    lemma_field_at(entries, "name"@, 0);
    lemma_field_at(entries, "country"@, 1);
}

/// What reading finds in a stored category: each of its four texts.
pub proof fn lemma_category_fields(c: CategoryView)
    ensures
        text_or_empty(category_json(c), "description"@) == c.description,
        text_or_empty(category_json(c), "name"@) == c.name,
        text_or_empty(category_json(c), "display_name"@) == c.display_name,
        text_or_empty(category_json(c), "id"@) == c.id,
{
    reveal_strlit("description");
    reveal_strlit("name");
    reveal_strlit("display_name");
    reveal_strlit("id");
    let entries = category_json(c)->Object_0;
    assert("description"@.len() == 11 && "name"@.len() == 4 && "display_name"@.len() == 12
        && "id"@.len() == 2);
    lemma_field_at(entries, "description"@, 0);
    lemma_field_at(entries, "name"@, 1);
    lemma_field_at(entries, "display_name"@, 2);
    lemma_field_at(entries, "id"@, 3);
}

/// The unit that comes back for a stored unit: metric tons are stored
/// under a name that no token spells and come back unknown; every other
/// unit comes back as it was.
pub open spec fn unit_read_back(u: Unit) -> Unit {
    if u == Unit::T {
        Unit::Unknown
    } else {
        u
    }
}

/// Reading the name of a unit gives [`unit_read_back`] of the unit, and
/// reading the name of a greenhouse-gas unit gives the unit.
pub proof fn lemma_unit_names_read_back(u: Unit, g: GwpUnits)
    ensures
        unit_of(u.name_of()) == unit_read_back(u),
        gwp_unit_of(g.name_of()) == g,
{
    reveal_strlit("m2");
    reveal_strlit("M2");
    reveal_strlit("m3");
    reveal_strlit("M3");
    reveal_strlit("m");
    reveal_strlit("M");
    reveal_strlit("sqft");
    reveal_strlit("SQFT");
    reveal_strlit("ton");
    reveal_strlit("t");
    reveal_strlit("T");
    reveal_strlit("kg");
    reveal_strlit("Kg");
    reveal_strlit("KG");
    reveal_strlit("Unknown");
    reveal_strlit("KgCO2e");
    reveal_strlit("kgCO2e");
    reveal_strlit("kgCo2e");
    let name = u.name_of();
    match u {
        Unit::M3 => {
            assert(name[1] == '3');
        },
        Unit::M2 => {},
        Unit::M => {
            assert(name.len() == 1 && name[0] == 'M');
        },
        Unit::SQFT => {
            assert(name.len() == 4 && name[0] == 'S');
        },
        Unit::Kg => {
            assert(name.len() == 2 && name[0] == 'K' && name[1] == 'g');
        },
        Unit::T => {
            assert(name.len() == 1 && name[0] == 'T');
        },
        Unit::Unknown => {
            assert(name.len() == 7);
        },
    }
    let gname = g.name_of();
    match g {
        GwpUnits::KgCO2e => {},
        GwpUnits::Unknown => {
            assert(gname.len() == 7);
        },
    }
}

/// What a material is once the document that is stored for it was read.
/// Its name, id, description and category are kept, and so are its units
/// but for metric tons. The image comes back as the JSON text of what was
/// stored, a missing country as the empty text, and each magnitude as the
/// JSON number that was written for it.
pub open spec fn read_back(m: MaterialView) -> MaterialView {
    MaterialView {
        gwp: GwpView { value: magnitude_read_back(m.gwp.value), unit: m.gwp.unit },
        image: match stored(optional_text_json(m.image)) {
            Some(document) => Some(compact_text(document)),
            None => None,
        },
        manufacturer: ManufacturerView {
            name: m.manufacturer.name,
            country: Some(
                match m.manufacturer.country {
                    Some(c) => c,
                    None => Seq::empty(),
                },
            ),
        },
        declared_unit: DeclaredUnitView {
            value: magnitude_read_back(m.declared_unit.value),
            unit: unit_read_back(m.declared_unit.unit),
        },
        ..m
    }
}

/// Reading the document that is stored for a material gives [`read_back`]
/// of the material.
pub proof fn lemma_cache_round_trip_one(m: MaterialView)
    ensures
        cached_material_of(cache_json_of(m)) == read_back(m),
{
    lemma_stored_fields(m);
    lemma_quantity_fields(m.gwp.value, m.gwp.unit.name_of());
    lemma_quantity_fields(m.declared_unit.value, m.declared_unit.unit.name_of());
    lemma_manufacturer_fields(m.manufacturer);
    lemma_category_fields(m.category);
    lemma_unit_names_read_back(m.declared_unit.unit, m.gwp.unit);
}

/// Under each key of a stored material stands the field of that name.
pub proof fn lemma_stored_fields(m: MaterialView)
    ensures
        cache_json_of(m).field("name"@) == JsonView::Str(m.name),
        cache_json_of(m).field("gwp"@) == quantity_json(m.gwp.value, m.gwp.unit.name_of()),
        cache_json_of(m).field("image"@) == optional_text_json(m.image),
        cache_json_of(m).field("manufacturer"@) == manufacturer_json(m.manufacturer),
        cache_json_of(m).field("description"@) == JsonView::Str(m.description),
        cache_json_of(m).field("category"@) == category_json(m.category),
        cache_json_of(m).field("id"@) == JsonView::Str(m.id),
        cache_json_of(m).field("declared_unit"@) == quantity_json(
            m.declared_unit.value,
            m.declared_unit.unit.name_of(),
        ),
{
    reveal_strlit("name");
    reveal_strlit("gwp");
    reveal_strlit("image");
    reveal_strlit("manufacturer");
    reveal_strlit("description");
    reveal_strlit("category");
    reveal_strlit("id");
    reveal_strlit("declared_unit");
    let entries = cache_json_of(m)->Object_0;
    assert("name"@.len() == 4 && "gwp"@.len() == 3 && "image"@.len() == 5 && "manufacturer"@.len()
        == 12 && "description"@.len() == 11 && "category"@.len() == 8 && "id"@.len() == 2
        && "declared_unit"@.len() == 13);
    lemma_field_at(entries, "name"@, 0);
    lemma_field_at(entries, "gwp"@, 1);
    lemma_field_at(entries, "image"@, 2);
    lemma_field_at(entries, "manufacturer"@, 3);
    lemma_field_at(entries, "description"@, 4);
    lemma_field_at(entries, "category"@, 5);
    lemma_field_at(entries, "id"@, 6);
    lemma_field_at(entries, "declared_unit"@, 7);
}

/// Reading the document that is stored for materials gives as many
/// materials, in the same order, each of them [`read_back`] of the one
/// that was stored.
pub proof fn lemma_cache_round_trip(ms: Seq<MaterialView>)
    ensures
        cached_materials_in(cache_array_of(ms)) == Ok::<Seq<MaterialView>, ErrorKind>(
            Seq::new(ms.len(), |i: int| read_back(ms[i])),
        ),
{
    let stored_items = cache_array_of(ms)->Array_0;
    let back = cached_materials_in(cache_array_of(ms))->Ok_0;
    assert forall|i: int| 0 <= i < ms.len() implies back[i] == read_back(ms[i]) by {
        assert(stored_items[i] == cache_json_of(ms[i]));
        lemma_cache_round_trip_one(ms[i]);
    }
    assert(back =~= Seq::new(ms.len(), |i: int| read_back(ms[i])));
}

/// Reading the document that is stored for materials gives as many
/// materials, in the same order, each with the name and the id of the one
/// that was stored.
pub proof fn lemma_cache_keeps_names_and_ids(ms: Seq<MaterialView>)
    ensures
        cached_materials_in(cache_array_of(ms)) matches Ok(back) && back.len() == ms.len()
            && forall|i: int|
            0 <= i < ms.len() ==> (#[trigger] back[i]).id == ms[i].id && back[i].name == ms[i].name,
{
    let stored_items = cache_array_of(ms)->Array_0;
    let back = cached_materials_in(cache_array_of(ms))->Ok_0;
    assert forall|i: int| 0 <= i < ms.len() implies (#[trigger] back[i]).id == ms[i].id
        && back[i].name == ms[i].name by {
        assert(stored_items[i] == cache_json_of(ms[i]));
        lemma_stored_fields(ms[i]);
    }
}

} // verus!

//! From JSON documents to records: the materials of a query's answer and
//! the tree of categories.

use vstd::prelude::*;
use vstd::string::*;

use crate::error::{ApiError, ErrorKind};
use crate::json::{
    find_key, items_view, key_index, lemma_array_view, lemma_object_view, shape_error, Json,
    JsonView,
};
use crate::models::{
    declared_unit_of, default_declared_unit, gwp_of, materials_view, root_category, Category,
    CategoryView, DeclaredUnit, Ec3Category, Ec3CategoryView, Ec3Material, Gwp, Manufacturer,
    ManufacturerView, MaterialView, Node, TreeView,
};
use crate::models::{leaf, subtrees_of};

verus! {

/// The text under `key`, where `j` is an object that holds a string there.
pub open spec fn text_field(j: JsonView, key: Seq<char>) -> Option<Seq<char>> {
    j.field(key).text()
}

/// The text under `key` of a field that may be left out: no text where the
/// key is missing or holds null, the text where it holds a string. `None`
/// where it holds anything else.
pub open spec fn optional_text_field(j: JsonView, key: Seq<char>) -> Option<Option<Seq<char>>> {
    match j.field(key) {
        JsonView::Null => Some(None),
        JsonView::Str(t) => Some(Some(t)),
        _ => None,
    }
}

/// The manufacturer that an object with a `name` and, if it likes, a
/// `country` describes.
pub open spec fn manufacturer_of(j: JsonView) -> Option<ManufacturerView> {
    match (text_field(j, "name"@), optional_text_field(j, "country"@)) {
        (Some(name), Some(country)) => Some(ManufacturerView { name, country }),
        _ => None,
    }
}

/// The category that an object with a `description`, a `name`, a
/// `display_name` and an `id` describes.
pub open spec fn category_of(j: JsonView) -> Option<CategoryView> {
    match (
        text_field(j, "description"@),
        text_field(j, "name"@),
        text_field(j, "display_name"@),
        text_field(j, "id"@),
    ) {
        (Some(description), Some(name), Some(display_name), Some(id)) => Some(
            CategoryView { description, name, display_name, id },
        ),
        _ => None,
    }
}

/// `j` has every field of a material, each of the kind it must be:
/// strings under `name`, `gwp`, `description`, `id` and `declared_unit`, a
/// string or nothing under `image`, a manufacturer and a category.
pub open spec fn has_material_shape(j: JsonView) -> bool {
    &&& text_field(j, "name"@) is Some
    &&& text_field(j, "gwp"@) is Some
    &&& optional_text_field(j, "image"@) is Some
    &&& manufacturer_of(j.field("manufacturer"@)) is Some
    &&& text_field(j, "description"@) is Some
    &&& category_of(j.field("category"@)) is Some
    &&& text_field(j, "id"@) is Some
    &&& text_field(j, "declared_unit"@) is Some
}

/// The material that a record of a query's answer describes. A record
/// without the shape of a material fails as malformed; one with the shape
/// fails on a `gwp` that is no quantity, then on a `declared_unit` that is
/// none.
pub open spec fn material_of(j: JsonView) -> Result<MaterialView, ErrorKind> {
    if !has_material_shape(j) {
        Err(ErrorKind::Deserialize)
    } else {
        match gwp_of(text_field(j, "gwp"@)->0) {
            None => Err(ErrorKind::Gwp),
            Some(gwp) => match declared_unit_of(text_field(j, "declared_unit"@)->0) {
                None => Err(ErrorKind::Unit),
                Some(declared_unit) => Ok(
                    MaterialView {
                        name: text_field(j, "name"@)->0,
                        gwp,
                        image: optional_text_field(j, "image"@)->0,
                        manufacturer: manufacturer_of(j.field("manufacturer"@))->0,
                        description: text_field(j, "description"@)->0,
                        category: category_of(j.field("category"@))->0,
                        id: text_field(j, "id"@)->0,
                        declared_unit,
                    },
                ),
            },
        }
    }
}

fn read_text(j: &Json, key: &str) -> (r: Option<String>)
    ensures
        match r {
            Some(t) => text_field(j@, key@) == Some(t@),
            None => text_field(j@, key@) is None,
        },
{
    match j.get(key) {
        Some(v) => match v.as_str() {
            Some(t) => Some(t.to_owned()),
            None => None,
        },
        None => None,
    }
}

fn read_optional_text(j: &Json, key: &str) -> (r: Option<Option<String>>)
    ensures
        match r {
            Some(Some(t)) => optional_text_field(j@, key@) == Some(Some(t@)),
            Some(None) => optional_text_field(j@, key@) == Some(None::<Seq<char>>),
            None => optional_text_field(j@, key@) is None,
        },
{
    match j.get(key) {
        Some(v) => match v {
            Json::Null => Some(None),
            Json::Str(t) => Some(Some(t.clone())),
            _ => None,
        },
        None => Some(None),
    }
}

fn read_manufacturer(j: &Json) -> (r: Option<Manufacturer>)
    ensures
        match r {
            Some(m) => manufacturer_of(j@.field("manufacturer"@)) == Some(m@),
            None => manufacturer_of(j@.field("manufacturer"@)) is None,
        },
{
    let inner = match j.get("manufacturer") {
        Some(v) => v,
        None => {
            return None;
        },
    };
    let name = read_text(inner, "name");
    let country = read_optional_text(inner, "country");
    match (name, country) {
        (Some(name), Some(country)) => Some(Manufacturer { name, country }),
        _ => None,
    }
}

fn read_category(j: &Json) -> (r: Option<Category>)
    ensures
        match r {
            Some(c) => category_of(j@.field("category"@)) == Some(c@),
            None => category_of(j@.field("category"@)) is None,
        },
{
    let inner = match j.get("category") {
        Some(v) => v,
        None => {
            return None;
        },
    };
    let description = read_text(inner, "description");
    let name = read_text(inner, "name");
    let display_name = read_text(inner, "display_name");
    let id = read_text(inner, "id");
    match (description, name, display_name, id) {
        (Some(description), Some(name), Some(display_name), Some(id)) => Some(
            Category { description, name, display_name, id },
        ),
        _ => None,
    }
}

/// Decodes one record of a query's answer.
pub fn decode_material(j: &Json) -> (r: Result<Ec3Material, ApiError>)
    ensures
        match material_of(j@) {
            Ok(m) => r matches Ok(got) && got@ == m && got.wf(),
            Err(kind) => r matches Err(e) && e@ == kind,
        },
{
    let name = read_text(j, "name");
    let gwp = read_text(j, "gwp");
    let image = read_optional_text(j, "image");
    let manufacturer = read_manufacturer(j);
    let description = read_text(j, "description");
    let category = read_category(j);
    let id = read_text(j, "id");
    let declared_unit = read_text(j, "declared_unit");
    match (name, gwp, image, manufacturer, description, category, id, declared_unit) {
        (
            Some(name),
            Some(gwp),
            Some(image),
            Some(manufacturer),
            Some(description),
            Some(category),
            Some(id),
            Some(declared_unit),
        ) => {
            let gwp = match Gwp::from_str(gwp.as_str()) {
                Ok(gwp) => gwp,
                Err(e) => {
                    return Err(e);
                },
            };
            let declared_unit = match DeclaredUnit::from_str(declared_unit.as_str()) {
                Ok(declared_unit) => declared_unit,
                Err(e) => {
                    return Err(e);
                },
            };
            Ok(
                Ec3Material {
                    name,
                    gwp,
                    image,
                    manufacturer,
                    description,
                    category,
                    id,
                    declared_unit,
                },
            )
        },
        _ => Err(ApiError::Deserialize(shape_error("a record lacks a field of a material"))),
    }
}

/// `i` is the position of the first record that does not decode.
pub open spec fn is_first_failure(items: Seq<JsonView>, i: int) -> bool {
    &&& 0 <= i < items.len()
    &&& material_of(items[i]) is Err
    &&& forall|k: int| 0 <= k < i ==> material_of(#[trigger] items[k]) is Ok
}

/// The position of the first record that does not decode, or the number of
/// records when all of them decode.
pub open spec fn first_failure(items: Seq<JsonView>) -> int {
    if exists|i: int| is_first_failure(items, i) {
        choose|i: int| is_first_failure(items, i)
    } else {
        items.len() as int
    }
}

/// The first record that does not decode is the only position that
/// [`is_first_failure`] accepts.
pub proof fn lemma_first_failure_unique(items: Seq<JsonView>, i: int)
    requires
        is_first_failure(items, i),
    ensures
        first_failure(items) == i,
{
    let j = first_failure(items);
    assert(is_first_failure(items, j));
    if j < i {
        assert(material_of(items[j]) is Ok);
    }
    if i < j {
        assert(material_of(items[i]) is Ok);
    }
}

/// Where every record decodes, there is no first failure.
pub proof fn lemma_no_failure(items: Seq<JsonView>)
    requires
        forall|k: int| 0 <= k < items.len() ==> material_of(#[trigger] items[k]) is Ok,
    ensures
        first_failure(items) == items.len(),
{
}

/// The materials that records describe, in order; where a record does not
/// decode, the failure of the first such record.
pub open spec fn materials_of(items: Seq<JsonView>) -> Result<Seq<MaterialView>, ErrorKind> {
    let k = first_failure(items);
    if 0 <= k < items.len() {
        Err(material_of(items[k])->Err_0)
    } else {
        Ok(Seq::new(items.len(), |i: int| material_of(items[i])->Ok_0))
    }
}

/// The materials in the answer to a query. The answer has to be an array
/// that is not empty: anything else is an empty or invalid collection.
pub open spec fn materials_in(j: JsonView) -> Result<Seq<MaterialView>, ErrorKind> {
    match j {
        JsonView::Array(items) => if items.len() == 0 {
            Err(ErrorKind::EmptyArray)
        } else {
            materials_of(items)
        },
        _ => Err(ErrorKind::EmptyArray),
    }
}

/// Every material of the list has magnitudes that denote finite numbers.
pub open spec fn all_wf(ms: Seq<Ec3Material>) -> bool {
    forall|i: int| 0 <= i < ms.len() ==> (#[trigger] ms[i]).wf()
}

/// An answer never decodes to an empty list of materials: an empty array
/// is a failure, like an answer that is no array.
pub proof fn lemma_materials_never_empty(j: JsonView)
    ensures
        materials_in(j) matches Ok(ms) ==> ms.len() > 0,
        j == JsonView::Array(Seq::empty()) ==> materials_in(j) == Err::<
            Seq<MaterialView>,
            ErrorKind,
        >(ErrorKind::EmptyArray),
        j.items() is None ==> materials_in(j) == Err::<Seq<MaterialView>, ErrorKind>(
            ErrorKind::EmptyArray,
        ),
{
}

/// Decodes the materials in the answer to a query, in order. Fails on an
/// answer that is no array or an empty one, and on the first record that
/// does not decode, with that record's failure.
pub fn get_materials(json: Json) -> (r: Result<Vec<Ec3Material>, ApiError>)
    ensures
        match materials_in(json@) {
            Ok(ms) => r matches Ok(got) && materials_view(got@) == ms && all_wf(got@)
                && got.len() > 0,
            Err(kind) => r matches Err(e) && e@ == kind,
        },
{
    let items = match json.as_array() {
        Some(items) => items,
        None => {
            return Err(ApiError::EmptyArray());
        },
    };
    if items.len() == 0 {
        return Err(ApiError::EmptyArray());
    }
    let ghost views = items_view(items@);
    let mut materials: Vec<Ec3Material> = Vec::new();
    let mut i: usize = 0;
    while i < items.len()
        invariant
            i <= items.len(),
            0 < items.len(),
            views == items_view(items@),
            json@ == JsonView::Array(views),
            materials.len() == i,
            all_wf(materials@),
            forall|k: int| 0 <= k < i ==> material_of(#[trigger] views[k]) == Ok::<
                MaterialView,
                ErrorKind,
            >(materials@[k]@),
        decreases items.len() - i,
    {
        match decode_material(&items[i]) {
            Ok(material) => {
                materials.push(material);
            },
            Err(e) => {
                proof {
                    lemma_first_failure_unique(views, i as int);
                }
                return Err(e);
            },
        }
        i += 1;
    }
    proof {
        lemma_no_failure(views);
        assert(materials_view(materials@) =~= materials_of(views)->Ok_0);
    }
    Ok(materials)
}

/// `j` names a category: it holds strings under `name`, `declared_unit`
/// and `id`.
pub open spec fn has_category_shape(j: JsonView) -> bool {
    &&& text_field(j, "name"@) is Some
    &&& text_field(j, "declared_unit"@) is Some
    &&& text_field(j, "id"@) is Some
}

/// The category that `j` names. A declared unit that is no quantity reads
/// as one of an unknown unit.
pub open spec fn node_category(j: JsonView) -> Ec3CategoryView {
    Ec3CategoryView {
        name: text_field(j, "name"@)->0,
        declared_unit: match declared_unit_of(text_field(j, "declared_unit"@)->0) {
            Some(d) => d,
            None => default_declared_unit(),
        },
        id: text_field(j, "id"@)->0,
    }
}

/// Whether the categories below `j` can be read: an object has to hold
/// `subcategories`, which are read in its place; each element of an array
/// has to name a category and to be readable itself. Any other value ends
/// the tree and is readable.
pub open spec fn tree_ok(j: JsonView) -> bool
    decreases j,
{
    match j {
        JsonView::Object(entries) => {
            let i = key_index(entries, "subcategories"@);
            0 <= i < entries.len() && tree_ok(entries[i].1)
        },
        JsonView::Array(items) => forall|i: int|
            #![trigger items[i]]
            0 <= i < items.len() ==> has_category_shape(items[i]) && tree_ok(items[i]),
        _ => true,
    }
}

/// The trees below `j`, in order: those below the `subcategories` of an
/// object; for an array, one tree for each element, which holds the
/// category that the element names and, as its list of subtrees, the trees
/// below the element. Any other value has none.
pub open spec fn subtrees(j: JsonView) -> Seq<TreeView>
    decreases j,
{
    match j {
        JsonView::Object(entries) => {
            let i = key_index(entries, "subcategories"@);
            if 0 <= i < entries.len() {
                subtrees(entries[i].1)
            } else {
                Seq::empty()
            }
        },
        JsonView::Array(items) => Seq::new(
            items.len(),
            |i: int|
                if 0 <= i < items.len() {
                    TreeView { value: node_category(items[i]), children: Some(subtrees(items[i])) }
                } else {
                    TreeView { value: node_category(JsonView::Null), children: None }
                },
        ),
        _ => Seq::empty(),
    }
}

/// An array can be read when each of its elements names a category and can
/// be read.
pub proof fn lemma_tree_ok_array(items: Seq<JsonView>)
    ensures
        tree_ok(JsonView::Array(items)) <==> (forall|i: int|
            #![trigger items[i]]
            0 <= i < items.len() ==> has_category_shape(items[i]) && tree_ok(items[i])),
{
    let array = JsonView::Array(items);
    if tree_ok(array) {
        assert forall|i: int| #![trigger items[i]] 0 <= i < items.len() implies has_category_shape(
            items[i],
        ) && tree_ok(items[i]) by {
            assert(array->Array_0[i] == items[i]);
        }
    }
}

/// The views of a list of trees, in order.
pub open spec fn trees_view(nodes: Seq<Node<Ec3Category>>) -> Seq<TreeView> {
    Seq::new(nodes.len(), |i: int| nodes[i]@)
}

/// A tree holds its category and what its subtrees hold.
pub proof fn lemma_node_view(node: Node<Ec3Category>)
    ensures
        node@.value == node.value@,
        node.children matches Some(nodes) ==> node@.children == Some(trees_view(nodes@)),
        node.children is None ==> node@.children is None,
{
    match node.children {
        Some(nodes) => {
            assert(node@.children->0 =~= trees_view(nodes@));
        },
        None => {},
    }
}

/// Reads the category that an element of an array names.
fn read_category_node(j: &Json) -> (r: Option<Node<Ec3Category>>)
    ensures
        match r {
            Some(node) => has_category_shape(j@) && node@ == leaf(node_category(j@)),
            None => !has_category_shape(j@),
        },
{
    let name = read_text(j, "name");
    let declared_unit = read_text(j, "declared_unit");
    let id = read_text(j, "id");
    match (name, declared_unit, id) {
        (Some(name), Some(declared_unit), Some(id)) => {
            let declared_unit = match DeclaredUnit::from_str(declared_unit.as_str()) {
                Ok(d) => d,
                Err(_) => DeclaredUnit::default(),
            };
            Some(Node::with_category(name.as_str(), declared_unit, id))
        },
        _ => None,
    }
}

/// Reads the trees below `json`, in order.
pub fn read_subtrees(json: &Json) -> (r: Result<Vec<Node<Ec3Category>>, ApiError>)
    ensures
        match r {
            Ok(nodes) => tree_ok(json@) && trees_view(nodes@) == subtrees(json@),
            Err(e) => !tree_ok(json@) && e@ == ErrorKind::Deserialize,
        },
    decreases json,
{
    match json {
        Json::Object(entries) => {
            proof {
                lemma_object_view(*entries);
            }
            match find_key(entries, "subcategories") {
                Some(i) => read_subtrees(&entries[i].1),
                None => Err(
                    ApiError::Deserialize(shape_error("a category lacks its subcategories")),
                ),
            }
        },
        Json::Array(items) => {
            proof {
                lemma_array_view(*items);
            }
            let ghost views = items_view(items@);
            let mut nodes: Vec<Node<Ec3Category>> = Vec::new();
            let mut i: usize = 0;
            while i < items.len()
                invariant
                    i <= items.len(),
                    views == items_view(items@),
                    json@ == JsonView::Array(views),
                    *json == Json::Array(*items),
                    nodes.len() == i,
                    forall|k: int|
                        #![trigger views[k]]
                        0 <= k < i ==> has_category_shape(views[k]) && tree_ok(views[k]),
                    forall|k: int|
                        0 <= k < i ==> (#[trigger] nodes@[k])@ == (TreeView {
                            value: node_category(views[k]),
                            children: Some(subtrees(views[k])),
                        }),
                decreases items.len() - i,
            {
                let mut node = match read_category_node(&items[i]) {
                    Some(node) => node,
                    None => {
                        proof {
                            lemma_tree_ok_array(views);
                            assert(!has_category_shape(views[i as int]));
                        }
                        return Err(
                            ApiError::Deserialize(shape_error("a category lacks a field")),
                        );
                    },
                };
                let below = match read_subtrees(&items[i]) {
                    Ok(below) => below,
                    Err(e) => {
                        proof {
                            lemma_tree_ok_array(views);
                            assert(!tree_ok(views[i as int]));
                        }
                        return Err(e);
                    },
                };
                proof {
                    lemma_node_view(node);
                }
                node.children = Some(below);
                proof {
                    lemma_node_view(node);
                }
                nodes.push(node);
                i += 1;
            }
            proof {
                lemma_tree_ok_array(views);
                assert(trees_view(nodes@) =~= subtrees(json@));
            }
            Ok(nodes)
        },
        _ => Ok(Vec::new()),
    }
}

/// Reads the trees below `json` and puts them below `parent`, behind the
/// subtrees that are there. Where they cannot be read, `parent` stays as it
/// is.
pub fn parse_tree(json: &Json, parent: &mut Node<Ec3Category>) -> (r: Result<(), ApiError>)
    ensures
        match r {
            Ok(_) => tree_ok(json@) && final(parent)@ == (TreeView {
                value: old(parent)@.value,
                children: Some(subtrees_of(old(parent)@) + subtrees(json@)),
            }),
            Err(e) => !tree_ok(json@) && e@ == ErrorKind::Deserialize && *final(parent) == *old(
                parent,
            ),
        },
{
    let mut below = match read_subtrees(json) {
        Ok(below) => below,
        Err(e) => {
            return Err(e);
        },
    };
    proof {
        lemma_node_view(*parent);
    }
    let mut nodes = match parent.children.take() {
        Some(nodes) => nodes,
        None => Vec::new(),
    };
    nodes.append(&mut below);
    parent.children = Some(nodes);
    proof {
        lemma_node_view(*parent);
        assert(parent@.children->0 =~= subtrees_of(old(parent)@) + subtrees(json@));
    }
    Ok(())
}

/// Decodes the tree of categories in the answer to a query: the root
/// category, with the trees of the answer below it.
pub fn get_categories(json: Json) -> (r: Result<Node<Ec3Category>, ApiError>)
    ensures
        match r {
            Ok(root) => tree_ok(json@) && root@ == (TreeView {
                value: root_category(),
                children: Some(subtrees(json@)),
            }),
            Err(e) => !tree_ok(json@) && e@ == ErrorKind::Deserialize,
        },
{
    let mut root = Node::new();
    match parse_tree(&json, &mut root) {
        Ok(_) => {
            assert(root@.children->0 =~= subtrees(json@));
            Ok(root)
        },
        Err(e) => Err(e),
    }
}

} // verus!

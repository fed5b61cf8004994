//! The records a query returns: materials with their quantities, and the
//! tree of categories.
//!
//! A magnitude is held as the decimal text it arrived in. The library never
//! computes with magnitudes; it checks that the text denotes a finite
//! number ([`float_text`]) and carries it. A text that denotes infinity or
//! nothing at all, or a number too large for a double, is no magnitude.

use crate::error::{ApiError, ErrorKind};
use crate::text::{
    float_text, is_float_text, lemma_digit_is_float_text, split_first, split_once, str_eq,
};
use vstd::prelude::*;
use vstd::string::*;

verus! {

/// The unit a declared quantity of material is measured in.
#[derive(PartialEq, Eq, Clone, Copy, Debug, Structural)]
pub enum Unit {
    /// Cubic metre.
    M3,
    /// Square metre.
    M2,
    /// Metre.
    M,
    /// Square foot.
    SQFT,
    /// Kilogram.
    Kg,
    /// Metric ton.
    T,
    /// Any unit this library does not know.
    Unknown,
}

/// The unit a greenhouse-gas potential is measured in.
#[derive(PartialEq, Eq, Clone, Copy, Debug, Structural)]
pub enum GwpUnits {
    /// Kilogram of carbon-dioxide equivalent.
    KgCO2e,
    /// Any unit this library does not know.
    Unknown,
}

/// The unit that a token names. Thirteen tokens are known, each in the
/// casings listed; every other text names [`Unit::Unknown`].
pub open spec fn unit_of(s: Seq<char>) -> Unit {
    if s == "m2"@ || s == "M2"@ {
        Unit::M2
    } else if s == "m3"@ || s == "M3"@ {
        Unit::M3
    } else if s == "m"@ || s == "M"@ {
        Unit::M
    } else if s == "sqft"@ || s == "SQFT"@ {
        Unit::SQFT
    } else if s == "ton"@ || s == "t"@ {
        Unit::T
    } else if s == "kg"@ || s == "Kg"@ || s == "KG"@ {
        Unit::Kg
    } else {
        Unit::Unknown
    }
}

/// The tokens that name a unit other than [`Unit::Unknown`].
pub open spec fn is_unit_token(s: Seq<char>) -> bool {
    ||| s == "m2"@
    ||| s == "M2"@
    ||| s == "m3"@
    ||| s == "M3"@
    ||| s == "m"@
    ||| s == "M"@
    ||| s == "sqft"@
    ||| s == "SQFT"@
    ||| s == "ton"@
    ||| s == "t"@
    ||| s == "kg"@
    ||| s == "Kg"@
    ||| s == "KG"@
}

/// The greenhouse-gas unit that a token names: `KgCO2e`, `kgCO2e` and
/// `kgCo2e` name [`GwpUnits::KgCO2e`], every other text
/// [`GwpUnits::Unknown`].
pub open spec fn gwp_unit_of(s: Seq<char>) -> GwpUnits {
    if is_gwp_unit_token(s) {
        GwpUnits::KgCO2e
    } else {
        GwpUnits::Unknown
    }
}

/// The tokens that name [`GwpUnits::KgCO2e`].
pub open spec fn is_gwp_unit_token(s: Seq<char>) -> bool {
    s == "KgCO2e"@ || s == "kgCO2e"@ || s == "kgCo2e"@
}

/// A text outside the known tokens names the unknown unit, whatever it
/// holds; so reading a unit never fails.
pub proof fn lemma_unrecognized_unit_is_unknown(s: Seq<char>)
    requires
        !is_unit_token(s),
    ensures
        unit_of(s) == Unit::Unknown,
{
}

/// A text outside the known tokens names the unknown greenhouse-gas unit.
pub proof fn lemma_unrecognized_gwp_unit_is_unknown(s: Seq<char>)
    requires
        !is_gwp_unit_token(s),
    ensures
        gwp_unit_of(s) == GwpUnits::Unknown,
{
}

impl Unit {
    /// Reads a unit from its token. Never fails: a text that is no known
    /// token reads as [`Unit::Unknown`].
    pub fn from_str(s: &str) -> (r: Result<Unit, ()>)
        ensures
            r == Ok::<Unit, ()>(unit_of(s@)),
    {
        if str_eq(s, "m2") || str_eq(s, "M2") {
            Ok(Unit::M2)
        } else if str_eq(s, "m3") || str_eq(s, "M3") {
            Ok(Unit::M3)
        } else if str_eq(s, "m") || str_eq(s, "M") {
            Ok(Unit::M)
        } else if str_eq(s, "sqft") || str_eq(s, "SQFT") {
            Ok(Unit::SQFT)
        } else if str_eq(s, "ton") || str_eq(s, "t") {
            Ok(Unit::T)
        } else if str_eq(s, "kg") || str_eq(s, "Kg") || str_eq(s, "KG") {
            Ok(Unit::Kg)
        } else {
            Ok(Unit::Unknown)
        }
    }

    /// The name of the unit, which is the name of its variant.
    pub open spec fn name_of(self) -> Seq<char> {
        match self {
            Unit::M3 => "M3"@,
            Unit::M2 => "M2"@,
            Unit::M => "M"@,
            Unit::SQFT => "SQFT"@,
            Unit::Kg => "Kg"@,
            Unit::T => "T"@,
            Unit::Unknown => "Unknown"@,
        }
    }

    /// The name of the unit, which is the name of its variant.
    pub fn name(self) -> (r: &'static str)
        ensures
            r@ == self.name_of(),
    {
        match self {
            Unit::M3 => "M3",
            Unit::M2 => "M2",
            Unit::M => "M",
            Unit::SQFT => "SQFT",
            Unit::Kg => "Kg",
            Unit::T => "T",
            Unit::Unknown => "Unknown",
        }
    }
}

impl std::str::FromStr for Unit {
    type Err = ();

    /// Reads a unit from its token, as [`Unit::from_str`] does.
    fn from_str(s: &str) -> (r: Result<Self, Self::Err>)
        ensures
            r == Ok::<Unit, ()>(unit_of(s@)),
    {
        Unit::from_str(s)
    }
}

impl GwpUnits {
    /// Reads a greenhouse-gas unit from its token. Never fails: a text that
    /// is no known token reads as [`GwpUnits::Unknown`].
    pub fn from_str(s: &str) -> (r: Result<GwpUnits, ()>)
        ensures
            r == Ok::<GwpUnits, ()>(gwp_unit_of(s@)),
    {
        if str_eq(s, "KgCO2e") || str_eq(s, "kgCO2e") || str_eq(s, "kgCo2e") {
            Ok(GwpUnits::KgCO2e)
        } else {
            Ok(GwpUnits::Unknown)
        }
    }

    /// The name of the unit, which is the name of its variant.
    pub open spec fn name_of(self) -> Seq<char> {
        match self {
            GwpUnits::KgCO2e => "KgCO2e"@,
            GwpUnits::Unknown => "Unknown"@,
        }
    }

    /// The name of the unit, which is the name of its variant.
    pub fn name(self) -> (r: &'static str)
        ensures
            r@ == self.name_of(),
    {
        match self {
            GwpUnits::KgCO2e => "KgCO2e",
            GwpUnits::Unknown => "Unknown",
        }
    }
}

impl std::str::FromStr for GwpUnits {
    type Err = ();

    /// Reads a greenhouse-gas unit from its token, as
    /// [`GwpUnits::from_str`] does.
    fn from_str(s: &str) -> (r: Result<Self, Self::Err>)
        ensures
            r == Ok::<GwpUnits, ()>(gwp_unit_of(s@)),
    {
        GwpUnits::from_str(s)
    }
}

/// The magnitude and the unit text of a quantity written as a magnitude, a
/// space and a unit: what lies before the first space, if that denotes a
/// finite magnitude, and what lies behind it. `None` when there is no space
/// or no finite magnitude before it.
pub open spec fn quantity_parts(s: Seq<char>) -> Option<(Seq<char>, Seq<char>)> {
    match split_first(s, ' ') {
        Some((magnitude, unit)) => if float_text(magnitude) {
            Some((magnitude, unit))
        } else {
            None
        },
        None => None,
    }
}

/// Splits a quantity into its magnitude and its unit text.
fn split_quantity(s: &str) -> (r: Option<(String, String)>)
    ensures
        match r {
            Some((m, u)) => quantity_parts(s@) == Some((m@, u@)),
            None => quantity_parts(s@) is None,
        },
{
    match split_once(s, ' ') {
        Some((magnitude, unit)) => {
            if is_float_text(magnitude.as_str()) {
                Some((magnitude, unit))
            } else {
                None
            }
        },
        None => None,
    }
}

/// A greenhouse-gas potential.
#[derive(Clone, Debug)]
pub struct Gwp {
    /// The magnitude, as the decimal text it was given in.
    pub value: String,
    pub unit: GwpUnits,
}

/// What a [`Gwp`] holds.
pub struct GwpView {
    pub value: Seq<char>,
    pub unit: GwpUnits,
}

impl View for Gwp {
    type V = GwpView;

    open spec fn view(&self) -> GwpView {
        GwpView { value: self.value@, unit: self.unit }
    }
}

/// The potential that a text denotes, if it denotes one.
pub open spec fn gwp_of(s: Seq<char>) -> Option<GwpView> {
    match quantity_parts(s) {
        Some((m, u)) => Some(GwpView { value: m, unit: gwp_unit_of(u) }),
        None => None,
    }
}

impl Gwp {
    /// The magnitude denotes a finite number.
    pub open spec fn wf(&self) -> bool {
        float_text(self.value@)
    }

    /// Reads a potential written as a magnitude, a space and a unit, such
    /// as `12.3 KgCO2e`. An unknown unit is no failure; a missing space or
    /// a text before it that is no finite magnitude is, such as `inf`,
    /// `NaN` or `1e999`.
    pub fn from_str(s: &str) -> (r: Result<Gwp, ApiError>)
        ensures
            match gwp_of(s@) {
                Some(g) => r matches Ok(got) && got@ == g && got.wf(),
                None => r matches Err(e) && e@ == ErrorKind::Gwp,
            },
    {
        match split_quantity(s) {
            Some((value, unit_text)) => {
                match GwpUnits::from_str(unit_text.as_str()) {
                    Ok(unit) => Ok(Gwp { value, unit }),
                    Err(_) => Err(ApiError::GwpError),
                }
            },
            None => Err(ApiError::GwpError),
        }
    }

    /// The potential as text: its magnitude, a space and the name of its
    /// unit.
    pub fn as_str(&self) -> (r: String)
        ensures
            r@ == self.value@ + " "@ + self.unit.name_of(),
    {
        let mut text = self.value.clone();
        text.append(" ");
        text.append(self.unit.name());
        text
    }
}

impl Default for Gwp {
    /// Zero kilograms of carbon-dioxide equivalent.
    fn default() -> (r: Gwp)
        ensures
            r@ == (GwpView { value: "0"@, unit: GwpUnits::KgCO2e }),
            r.wf(),
    {
        proof {
            reveal_strlit("0");
            lemma_digit_is_float_text("0"@);
        }
        Gwp { value: "0".to_owned(), unit: GwpUnits::KgCO2e }
    }
}

impl std::str::FromStr for Gwp {
    type Err = ApiError;

    /// Reads a potential written as a magnitude, a space and a unit, as
    /// [`Gwp::from_str`] does.
    fn from_str(s: &str) -> (r: Result<Self, Self::Err>)
        ensures
            match gwp_of(s@) {
                Some(g) => r matches Ok(got) && got@ == g && got.wf(),
                None => r matches Err(e) && e@ == ErrorKind::Gwp,
            },
    {
        Gwp::from_str(s)
    }
}

/// The quantity of a material that its figures refer to.
#[derive(Clone, Debug)]
pub struct DeclaredUnit {
    /// The magnitude, as the decimal text it was given in.
    pub value: String,
    pub unit: Unit,
}

/// What a [`DeclaredUnit`] holds.
pub struct DeclaredUnitView {
    pub value: Seq<char>,
    pub unit: Unit,
}

impl View for DeclaredUnit {
    type V = DeclaredUnitView;

    open spec fn view(&self) -> DeclaredUnitView {
        DeclaredUnitView { value: self.value@, unit: self.unit }
    }
}

/// The declared unit that a text denotes, if it denotes one.
pub open spec fn declared_unit_of(s: Seq<char>) -> Option<DeclaredUnitView> {
    match quantity_parts(s) {
        Some((m, u)) => Some(DeclaredUnitView { value: m, unit: unit_of(u) }),
        None => None,
    }
}

/// One of an unknown unit: what stands in for a declared unit that cannot
/// be read.
pub open spec fn default_declared_unit() -> DeclaredUnitView {
    DeclaredUnitView { value: "1"@, unit: Unit::Unknown }
}

impl DeclaredUnit {
    /// The magnitude denotes a finite number.
    pub open spec fn wf(&self) -> bool {
        float_text(self.value@)
    }

    /// Reads a declared unit written as a magnitude, a space and a unit,
    /// such as `1 m3`. An unknown unit is no failure; a missing space or a
    /// text before it that is no finite magnitude is, such as `inf`, `NaN`
    /// or `1e999`.
    pub fn from_str(s: &str) -> (r: Result<DeclaredUnit, ApiError>)
        ensures
            match declared_unit_of(s@) {
                Some(d) => r matches Ok(got) && got@ == d && got.wf(),
                None => r matches Err(e) && e@ == ErrorKind::Unit,
            },
    {
        match split_quantity(s) {
            Some((value, unit_text)) => {
                match Unit::from_str(unit_text.as_str()) {
                    Ok(unit) => Ok(DeclaredUnit { value, unit }),
                    Err(_) => Err(ApiError::UnitError),
                }
            },
            None => Err(ApiError::UnitError),
        }
    }
}

impl Default for DeclaredUnit {
    /// One of an unknown unit.
    fn default() -> (r: DeclaredUnit)
        ensures
            r@ == default_declared_unit(),
            r.wf(),
    {
        proof {
            reveal_strlit("1");
            lemma_digit_is_float_text("1"@);
        }
        DeclaredUnit { value: "1".to_owned(), unit: Unit::Unknown }
    }
}

impl std::str::FromStr for DeclaredUnit {
    type Err = ApiError;

    /// Reads a declared unit written as a magnitude, a space and a unit,
    /// as [`DeclaredUnit::from_str`] does.
    fn from_str(s: &str) -> (r: Result<Self, Self::Err>)
        ensures
            match declared_unit_of(s@) {
                Some(d) => r matches Ok(got) && got@ == d && got.wf(),
                None => r matches Err(e) && e@ == ErrorKind::Unit,
            },
    {
        DeclaredUnit::from_str(s)
    }
}

/// The text in an optional string, if there is one.
pub open spec fn opt_text(o: Option<String>) -> Option<Seq<char>> {
    match o {
        Some(s) => Some(s@),
        None => None,
    }
}

/// The category a material is filed under. Two categories are the same
/// category when their ids are equal, whatever else they hold.
#[derive(Clone, Debug)]
pub struct Category {
    pub description: String,
    pub name: String,
    pub display_name: String,
    pub id: String,
}

/// What a [`Category`] holds.
pub struct CategoryView {
    pub description: Seq<char>,
    pub name: Seq<char>,
    pub display_name: Seq<char>,
    pub id: Seq<char>,
}

impl View for Category {
    type V = CategoryView;

    open spec fn view(&self) -> CategoryView {
        CategoryView {
            description: self.description@,
            name: self.name@,
            display_name: self.display_name@,
            id: self.id@,
        }
    }
}

impl PartialEq for Category {
    fn eq(&self, other: &Self) -> (r: bool) {
        self.id == other.id
    }
}

impl vstd::std_specs::cmp::PartialEqSpecImpl for Category {
    open spec fn obeys_eq_spec() -> bool {
        true
    }

    open spec fn eq_spec(&self, other: &Self) -> bool {
        self.id@ == other.id@
    }
}

impl Eq for Category {

}

/// `String`'s `Hash::hash`, which feeds the text to the hasher.
///
/// Trusted: nothing is claimed of what the hasher then holds.
pub assume_specification<H: std::hash::Hasher>[ <String as std::hash::Hash>::hash ](
    s: &String,
    state: &mut H,
);

/// `Option`'s `Hash::hash`, which feeds the variant and what it holds to
/// the hasher.
///
/// Trusted: nothing is claimed of what the hasher then holds.
pub assume_specification<T: std::hash::Hash, H: std::hash::Hasher>[ <Option<T> as std::hash::Hash>::hash ](
    o: &Option<T>,
    state: &mut H,
);

impl std::hash::Hash for Category {
    /// Feeds the id, and nothing else, to the hasher, so that equal
    /// categories hash alike.
    fn hash<H: std::hash::Hasher>(&self, state: &mut H) {
        self.id.hash(state);
    }
}

/// Who makes a material. Two manufacturers are the same when both their
/// names and their countries are equal.
#[derive(Clone, Debug)]
pub struct Manufacturer {
    pub name: String,
    pub country: Option<String>,
}

/// What a [`Manufacturer`] holds.
pub struct ManufacturerView {
    pub name: Seq<char>,
    pub country: Option<Seq<char>>,
}

impl View for Manufacturer {
    type V = ManufacturerView;

    open spec fn view(&self) -> ManufacturerView {
        ManufacturerView { name: self.name@, country: opt_text(self.country) }
    }
}

impl PartialEq for Manufacturer {
    fn eq(&self, other: &Self) -> (r: bool) {
        let same_country = match &self.country {
            Some(a) => match &other.country {
                Some(b) => *a == *b,
                None => false,
            },
            None => other.country.is_none(),
        };
        self.name == other.name && same_country
    }
}

impl vstd::std_specs::cmp::PartialEqSpecImpl for Manufacturer {
    open spec fn obeys_eq_spec() -> bool {
        true
    }

    open spec fn eq_spec(&self, other: &Self) -> bool {
        self@ == other@
    }
}

impl Eq for Manufacturer {

}

impl std::hash::Hash for Manufacturer {
    /// Feeds the name and the country to the hasher, so that equal
    /// manufacturers hash alike.
    fn hash<H: std::hash::Hasher>(&self, state: &mut H) {
        self.name.hash(state);
        self.country.hash(state);
    }
}

/// A building material with its environmental figures.
#[derive(Clone, Debug)]
pub struct Ec3Material {
    pub name: String,
    pub gwp: Gwp,
    pub image: Option<String>,
    pub manufacturer: Manufacturer,
    pub description: String,
    pub category: Category,
    pub id: String,
    pub declared_unit: DeclaredUnit,
}

/// What an [`Ec3Material`] holds.
pub struct MaterialView {
    pub name: Seq<char>,
    pub gwp: GwpView,
    pub image: Option<Seq<char>>,
    pub manufacturer: ManufacturerView,
    pub description: Seq<char>,
    pub category: CategoryView,
    pub id: Seq<char>,
    pub declared_unit: DeclaredUnitView,
}

impl View for Ec3Material {
    type V = MaterialView;

    open spec fn view(&self) -> MaterialView {
        MaterialView {
            name: self.name@,
            gwp: self.gwp@,
            image: opt_text(self.image),
            manufacturer: self.manufacturer@,
            description: self.description@,
            category: self.category@,
            id: self.id@,
            declared_unit: self.declared_unit@,
        }
    }
}

impl Ec3Material {
    /// Both magnitudes denote finite numbers.
    pub open spec fn wf(&self) -> bool {
        self.gwp.wf() && self.declared_unit.wf()
    }
}

/// The views of a list of materials, in order.
pub open spec fn materials_view(ms: Seq<Ec3Material>) -> Seq<MaterialView> {
    Seq::new(ms.len(), |i: int| ms[i]@)
}

/// A node of the category tree: its name, its id, and the unit its
/// materials are declared in.
#[derive(Debug, Clone)]
pub struct Ec3Category {
    pub name: String,
    pub declared_unit: DeclaredUnit,
    pub id: String,
}

/// What an [`Ec3Category`] holds.
pub struct Ec3CategoryView {
    pub name: Seq<char>,
    pub declared_unit: DeclaredUnitView,
    pub id: Seq<char>,
}

impl View for Ec3Category {
    type V = Ec3CategoryView;

    open spec fn view(&self) -> Ec3CategoryView {
        Ec3CategoryView { name: self.name@, declared_unit: self.declared_unit@, id: self.id@ }
    }
}

/// The category at the root of every tree: named `ConstructionMaterials`,
/// declared in one kilogram, with an empty id.
pub open spec fn root_category() -> Ec3CategoryView {
    Ec3CategoryView {
        name: "ConstructionMaterials"@,
        declared_unit: DeclaredUnitView { value: "1"@, unit: Unit::Kg },
        id: Seq::empty(),
    }
}

impl Default for Ec3Category {
    fn default() -> (r: Ec3Category)
        ensures
            r@ == root_category(),
            r.declared_unit.wf(),
    {
        proof {
            reveal_strlit("1");
            lemma_digit_is_float_text("1"@);
        }
        Ec3Category {
            name: "ConstructionMaterials".to_owned(),
            declared_unit: DeclaredUnit { value: "1".to_owned(), unit: Unit::Kg },
            id: String::new(),
        }
    }
}

/// A tree: a value and, in order, the subtrees below it.
#[derive(Debug)]
pub struct Node<T> {
    pub children: Option<Vec<Self>>,
    pub value: T,
}

/// `copy` has the shape of `node` and holds, at each of its places, a clone
/// of what `node` holds there.
pub open spec fn is_copy<T: Clone>(node: Node<T>, copy: Node<T>) -> bool
    decreases node,
{
    &&& cloned(node.value, copy.value)
    &&& match node.children {
        Some(nodes) => {
            &&& copy.children is Some
            &&& copy.children->0.len() == nodes.len()
            &&& forall|i: int|
                #![trigger nodes@[i]]
                0 <= i < nodes.len() ==> is_copy(nodes@[i], copy.children->0@[i])
        },
        None => copy.children is None,
    }
}

/// Copies a tree: its value with the value's own `clone`, and its subtrees
/// one by one, in order.
pub fn copy_node<T: Clone>(node: &Node<T>) -> (r: Node<T>)
    ensures
        is_copy(*node, r),
    decreases node,
{
    let value = node.value.clone();
    match &node.children {
        Some(nodes) => {
            let mut copies: Vec<Node<T>> = Vec::new();
            let mut i: usize = 0;
            while i < nodes.len()
                invariant
                    i <= nodes.len(),
                    node.children == Some(*nodes),
                    copies.len() == i,
                    forall|k: int|
                        #![trigger nodes@[k]]
                        0 <= k < i ==> is_copy(nodes@[k], copies@[k]),
                decreases nodes.len() - i,
            {
                proof {
                    assert(decreases_to!(node => node.children));
                    assert(decreases_to!(node.children => node.children->0));
                    assert(decreases_to!(*nodes => nodes@));
                    assert(decreases_to!(nodes@ => nodes@[i as int]));
                }
                let copy = copy_node(&nodes[i]);
                copies.push(copy);
                i += 1;
            }
            Node { children: Some(copies), value }
        },
        None => Node { children: None, value },
    }
}

impl<T: Clone> Clone for Node<T> {
    /// Copies the tree as [`copy_node`] does.
    fn clone(&self) -> (r: Self)
        ensures
            is_copy(*self, r),
    {
        copy_node(self)
    }
}

/// A tree of categories as a mathematical value: the category at its
/// root and its subtrees, in order, or no list of subtrees at all.
pub struct TreeView {
    pub value: Ec3CategoryView,
    pub children: Option<Seq<TreeView>>,
}

/// The subtrees of a tree, in order; none where it has no list of them.
pub open spec fn subtrees_of(tree: TreeView) -> Seq<TreeView> {
    match tree.children {
        Some(trees) => trees,
        None => Seq::empty(),
    }
}

/// The tree that holds a category and an empty list of subtrees.
pub open spec fn leaf(value: Ec3CategoryView) -> TreeView {
    TreeView { value, children: Some(Seq::empty()) }
}

/// What a tree holds: the category at the node and, where it has a list
/// of subtrees, what its subtrees hold, in order.
pub open spec fn tree_view(node: Node<Ec3Category>) -> TreeView
    decreases node,
{
    TreeView {
        value: node.value@,
        children: match node.children {
            Some(nodes) => Some(
                Seq::new(
                    nodes@.len(),
                    |i: int|
                        if 0 <= i < nodes@.len() {
                            tree_view(nodes@[i])
                        } else {
                            TreeView { value: root_category(), children: None }
                        },
                ),
            ),
            None => None,
        },
    }
}

impl View for Node<Ec3Category> {
    type V = TreeView;

    open spec fn view(&self) -> TreeView {
        tree_view(*self)
    }
}

impl Default for Node<Ec3Category> {
    fn default() -> (r: Self)
        ensures
            r@ == leaf(root_category()),
    {
        Self::new()
    }
}

impl Node<Ec3Category> {
    /// The tree that holds the root category and an empty list of
    /// subtrees.
    pub fn new() -> (r: Self)
        ensures
            r@ == leaf(root_category()),
    {
        let r = Node { children: Some(Vec::new()), value: Ec3Category::default() };
        assert(r@.children->0 =~= Seq::empty());
        r
    }

    /// The tree that holds the given category and an empty list of
    /// subtrees.
    pub fn with_category(name: &str, declared_unit: DeclaredUnit, id: String) -> (r: Self)
        ensures
            r@ == leaf(Ec3CategoryView { name: name@, declared_unit: declared_unit@, id: id@ }),
    {
        let r = Node {
            children: Some(Vec::new()),
            value: Ec3Category { name: name.to_owned(), declared_unit, id },
        };
        assert(r@.children->0 =~= Seq::empty());
        r
    }

    /// Puts `node` below this node, behind the subtrees that are there. A
    /// node that had no list of subtrees has one afterwards.
    pub fn add_children(&mut self, node: Node<Ec3Category>)
        ensures
            final(self)@ == (TreeView {
                value: old(self)@.value,
                children: Some(subtrees_of(old(self)@).push(node@)),
            }),
    {
        let mut nodes = match self.children.take() {
            Some(nodes) => nodes,
            None => Vec::new(),
        };
        nodes.push(node);
        self.children = Some(nodes);
        assert(self@.children->0 =~= subtrees_of(old(self)@).push(node@));
    }
}

} // verus!

//! Filters on materials, and the query text that states them.
//!
//! A filter names a category, holds clauses in the order they were added,
//! and carries pragmas. [`convert`] writes it in the query language of the
//! catalog:
//!
//! ```text
//! !EC3 search("<category>") WHERE
//!  <field>: <OP>("<arg>", "<arg>") AND
//!  <field>: <OP>("<arg>")
//! !pragma <name>("<arg>, <arg>"), <name>("<arg>")
//! ```

use vstd::prelude::*;
use vstd::string::*;

use crate::text::{to_uppercase, uppercase};

verus! {

/// A directive to the server, with its arguments.
#[derive(Debug)]
pub struct Pragma {
    name: String,
    args: Vec<String>,
}

/// One clause of a filter: a field, an operator in upper case, and the
/// arguments of the operator.
#[derive(Debug)]
pub struct Filter {
    field: String,
    op: String,
    arg: Vec<String>,
}

/// A filter on materials.
#[derive(Debug)]
pub struct MaterialFilter {
    pragma: Vec<Pragma>,
    category: String,
    filter: Vec<Filter>,
}

/// What a [`Pragma`] holds.
pub struct PragmaView {
    pub name: Seq<char>,
    pub args: Seq<Seq<char>>,
}

/// What a [`Filter`] holds.
pub struct FilterView {
    pub field: Seq<char>,
    pub op: Seq<char>,
    pub arg: Seq<Seq<char>>,
}

/// What a [`MaterialFilter`] holds.
pub struct MaterialFilterView {
    pub pragma: Seq<PragmaView>,
    pub category: Seq<char>,
    pub filter: Seq<FilterView>,
}

/// The texts of a list of strings, in order.
pub open spec fn texts(v: Seq<String>) -> Seq<Seq<char>> {
    Seq::new(v.len(), |i: int| v[i]@)
}

/// The texts of a list of string slices, in order.
pub open spec fn slice_texts(v: Seq<&str>) -> Seq<Seq<char>> {
    Seq::new(v.len(), |i: int| v[i]@)
}

impl View for Pragma {
    type V = PragmaView;

    closed spec fn view(&self) -> PragmaView {
        PragmaView { name: self.name@, args: texts(self.args@) }
    }
}

impl View for Filter {
    type V = FilterView;

    closed spec fn view(&self) -> FilterView {
        FilterView { field: self.field@, op: self.op@, arg: texts(self.arg@) }
    }
}

impl View for MaterialFilter {
    type V = MaterialFilterView;

    closed spec fn view(&self) -> MaterialFilterView {
        MaterialFilterView {
            pragma: Seq::new(self.pragma@.len(), |i: int| self.pragma@[i]@),
            category: self.category@,
            filter: Seq::new(self.filter@.len(), |i: int| self.filter@[i]@),
        }
    }
}

/// The pragmas of a new filter: `eMF("2.0/1")` and `lcia("EF 3.0")`.
pub open spec fn default_pragmas() -> Seq<PragmaView> {
    seq![
        PragmaView { name: "eMF"@, args: seq!["2.0/1"@] },
        PragmaView { name: "lcia"@, args: seq!["EF 3.0"@] },
    ]
}

/// The parts one behind the other, with `sep` between each two of them and
/// nowhere else.
pub open spec fn join(parts: Seq<Seq<char>>, sep: Seq<char>) -> Seq<char>
    decreases parts.len(),
{
    if parts.len() == 0 {
        Seq::empty()
    } else if parts.len() == 1 {
        parts[0]
    } else {
        join(parts.drop_last(), sep) + sep + parts.last()
    }
}

/// `s` between double quotes. Nothing in `s` is escaped.
pub open spec fn quoted(s: Seq<char>) -> Seq<char> {
    "\""@ + s + "\""@
}

/// Each argument between double quotes of its own.
pub open spec fn quote_all(args: Seq<Seq<char>>) -> Seq<Seq<char>> {
    Seq::new(args.len(), |i: int| quoted(args[i]))
}

/// The line of a clause: a line break and a space, the field, a colon, and
/// the operator applied to its arguments, each of them quoted.
pub open spec fn clause_text(f: FilterView) -> Seq<char> {
    "\n "@ + f.field + ": "@ + f.op + "("@ + join(quote_all(f.arg), ", "@) + ")"@
}

/// The text of a pragma: its name applied to its arguments, which stand
/// together between one pair of quotes.
pub open spec fn pragma_text(p: PragmaView) -> Seq<char> {
    p.name + "("@ + quoted(join(p.args, ", "@)) + ")"@
}

/// The lines of the clauses, in order.
pub open spec fn clause_texts(filter: Seq<FilterView>) -> Seq<Seq<char>> {
    Seq::new(filter.len(), |i: int| clause_text(filter[i]))
}

/// The texts of the pragmas, in order.
pub open spec fn pragma_texts(pragma: Seq<PragmaView>) -> Seq<Seq<char>> {
    Seq::new(pragma.len(), |i: int| pragma_text(pragma[i]))
}

/// The query text of a filter: the search for its category, which always
/// ends in `WHERE`; the lines of the clauses, with ` AND` at the end of
/// each line but the last; and the line of the pragmas, with a comma and a
/// space between each two of them.
pub open spec fn compiled(mf: MaterialFilterView) -> Seq<char> {
    "!EC3 search(\""@ + mf.category + "\") WHERE"@ + join(clause_texts(mf.filter), " AND"@)
        + "\n!pragma "@ + join(pragma_texts(mf.pragma), ", "@)
}

/// Joining the first `n + 1` parts is joining the first `n`, then adding
/// the separator, unless nothing stands before it, and the next part.
pub proof fn lemma_join_step(parts: Seq<Seq<char>>, sep: Seq<char>, n: int)
    requires
        0 <= n < parts.len(),
    ensures
        join(parts.take(n + 1), sep) == if n == 0 {
            parts[0]
        } else {
            join(parts.take(n), sep) + sep + parts[n]
        },
{
    let t = parts.take(n + 1);
    assert(t.last() == parts[n]);
    assert(t.drop_last() =~= parts.take(n));
    if n == 0 {
        assert(t[0] == parts[0]);
    }
}

/// Copies string slices into strings.
fn to_strings(v: &Vec<&str>) -> (r: Vec<String>)
    ensures
        texts(r@) == slice_texts(v@),
{
    let mut r: Vec<String> = Vec::new();
    let mut i: usize = 0;
    while i < v.len()
        invariant
            i <= v.len(),
            r.len() == i,
            forall|k: int| 0 <= k < i ==> r@[k]@ == v@[k]@,
        decreases v.len() - i,
    {
        r.push(v[i].to_owned());
        i += 1;
    }
    assert(texts(r@) =~= slice_texts(v@));
    r
}

/// Writes the parts one behind the other with `sep` between them.
fn join_strings(parts: &Vec<String>, sep: &str) -> (r: String)
    ensures
        r@ == join(texts(parts@), sep@),
{
    let ghost all = texts(parts@);
    let mut r = String::new();
    let mut i: usize = 0;
    while i < parts.len()
        invariant
            i <= parts.len(),
            all == texts(parts@),
            r@ == join(all.take(i as int), sep@),
        decreases parts.len() - i,
    {
        proof {
            lemma_join_step(all, sep@, i as int);
        }
        if i > 0 {
            r.append(sep);
        }
        r.append(parts[i].as_str());
        proof {
            assert(Seq::<char>::empty() + all[i as int] =~= all[i as int]);
        }
        i += 1;
    }
    proof {
        assert(all.take(parts.len() as int) =~= all);
    }
    r
}

/// Puts `s` between double quotes.
fn quote(s: &str) -> (r: String)
    ensures
        r@ == quoted(s@),
{
    let mut r = "\"".to_owned();
    r.append(s);
    r.append("\"");
    r
}

impl Filter {
    /// A clause on `field`. The operator is held in upper case from here
    /// on.
    pub fn new(field: &str, op: &str, arg: Vec<&str>) -> (r: Self)
        ensures
            r@ == (FilterView { field: field@, op: uppercase(op@), arg: slice_texts(arg@) }),
    {
        Filter { field: field.to_owned(), op: to_uppercase(op), arg: to_strings(&arg) }
    }

    /// The line of the clause.
    fn text(&self) -> (r: String)
        ensures
            r@ == clause_text(self@),
    {
        let mut quoted_args: Vec<String> = Vec::new();
        let mut i: usize = 0;
        while i < self.arg.len()
            invariant
                i <= self.arg.len(),
                quoted_args.len() == i,
                forall|k: int| 0 <= k < i ==> quoted_args@[k]@ == quoted(self.arg@[k]@),
            decreases self.arg.len() - i,
        {
            quoted_args.push(quote(self.arg[i].as_str()));
            i += 1;
        }
        proof {
            assert(texts(quoted_args@) =~= quote_all(texts(self.arg@)));
        }
        let mut r = "\n ".to_owned();
        r.append(self.field.as_str());
        r.append(": ");
        r.append(self.op.as_str());
        r.append("(");
        r.append(join_strings(&quoted_args, ", ").as_str());
        r.append(")");
        r
    }
}

impl Pragma {
    /// The text of the pragma.
    fn text(&self) -> (r: String)
        ensures
            r@ == pragma_text(self@),
    {
        let mut r = self.name.clone();
        r.append("(");
        r.append(quote(join_strings(&self.args, ", ").as_str()).as_str());
        r.append(")");
        r
    }
}

impl MaterialFilter {
    /// The category that the filter searches.
    pub fn get_category(&self) -> (r: String)
        ensures
            r@ == self@.category,
    {
        self.category.clone()
    }

    /// A filter on a category, without clauses and with the default
    /// pragmas.
    pub fn of_category(category: &str) -> (r: MaterialFilter)
        ensures
            r@ == (MaterialFilterView {
                pragma: default_pragmas(),
                category: category@,
                filter: Seq::empty(),
            }),
    {
        let mut emf_args: Vec<String> = Vec::new();
        emf_args.push("2.0/1".to_owned());
        let mut lcia_args: Vec<String> = Vec::new();
        lcia_args.push("EF 3.0".to_owned());
        let mut pragma: Vec<Pragma> = Vec::new();
        pragma.push(Pragma { name: "eMF".to_owned(), args: emf_args });
        pragma.push(Pragma { name: "lcia".to_owned(), args: lcia_args });
        let r = MaterialFilter { category: category.to_owned(), pragma, filter: Vec::new() };
        proof {
            assert(texts(emf_args@) =~= seq!["2.0/1"@]);
            assert(texts(lcia_args@) =~= seq!["EF 3.0"@]);
            assert(r@.pragma =~= default_pragmas());
            assert(r@.filter =~= Seq::empty());
        }
        r
    }

    /// Adds a clause behind the clauses that are there.
    pub fn add_filter(&mut self, field: &str, op: &str, arg: Vec<&str>)
        ensures
            final(self)@ == (MaterialFilterView {
                filter: old(self)@.filter.push(
                    FilterView { field: field@, op: uppercase(op@), arg: slice_texts(arg@) },
                ),
                ..old(self)@
            }),
    {
        let filter: Filter = Filter::new(field, op, arg);
        self.filter.push(filter);
        proof {
            assert(self@.filter =~= old(self)@.filter.push(filter@));
            assert(self@.pragma =~= old(self)@.pragma);
        }
    }
}

/// Writes a filter as query text. Never fails; nothing in the category,
/// the fields or the arguments is escaped.
pub fn convert(mf: &MaterialFilter) -> (r: String)
    ensures
        r@ == compiled(mf@),
{
    let mut clauses: Vec<String> = Vec::new();
    let mut i: usize = 0;
    while i < mf.filter.len()
        invariant
            i <= mf.filter.len(),
            clauses.len() == i,
            forall|k: int| 0 <= k < i ==> clauses@[k]@ == clause_text(mf.filter@[k]@),
        decreases mf.filter.len() - i,
    {
        clauses.push(mf.filter[i].text());
        i += 1;
    }
    let mut pragmas: Vec<String> = Vec::new();
    let mut j: usize = 0;
    while j < mf.pragma.len()
        invariant
            j <= mf.pragma.len(),
            pragmas.len() == j,
            forall|k: int| 0 <= k < j ==> pragmas@[k]@ == pragma_text(mf.pragma@[k]@),
        decreases mf.pragma.len() - j,
    {
        pragmas.push(mf.pragma[j].text());
        j += 1;
    }
    proof {
        assert(texts(clauses@) =~= clause_texts(mf@.filter));
        assert(texts(pragmas@) =~= pragma_texts(mf@.pragma));
    }
    let mut r = "!EC3 search(\"".to_owned();
    r.append(mf.category.as_str());
    r.append("\") WHERE");
    r.append(join_strings(&clauses, " AND").as_str());
    r.append("\n!pragma ");
    r.append(join_strings(&pragmas, ", ").as_str());
    r
}

/// A filter without clauses still compiles to the search line, which ends
/// in `WHERE`, followed at once by the line of the pragmas.
pub proof fn lemma_compiled_without_clauses(category: Seq<char>, pragma: Seq<PragmaView>)
    ensures
        compiled(MaterialFilterView { pragma, category, filter: Seq::empty() })
            == "!EC3 search(\""@ + category + "\") WHERE"@ + "\n!pragma "@ + join(
            pragma_texts(pragma),
            ", "@,
        ),
{
    let filter = Seq::<FilterView>::empty();
    assert(clause_texts(filter) =~= Seq::<Seq<char>>::empty());
    let head = "!EC3 search(\""@ + category + "\") WHERE"@;
    assert(head + Seq::<char>::empty() =~= head);
}

/// The text of a filter with two clauses, of two arguments and of one, and
/// two pragmas of one argument each: ` AND` stands behind the first clause
/// and nowhere else, each argument of a clause has quotes of its own, and
/// the pragmas are parted by a comma and a space.
pub proof fn lemma_compiled_two_clauses(
    category: Seq<char>,
    f1: Seq<char>,
    op1: Seq<char>,
    a1: Seq<char>,
    a2: Seq<char>,
    f2: Seq<char>,
    op2: Seq<char>,
    a3: Seq<char>,
    n1: Seq<char>,
    x: Seq<char>,
    n2: Seq<char>,
    y: Seq<char>,
)
    ensures
        compiled(
            MaterialFilterView {
                pragma: seq![
                    PragmaView { name: n1, args: seq![x] },
                    PragmaView { name: n2, args: seq![y] },
                ],
                category,
                filter: seq![
                    FilterView { field: f1, op: op1, arg: seq![a1, a2] },
                    FilterView { field: f2, op: op2, arg: seq![a3] },
                ],
            },
        ) == "!EC3 search(\""@ + category + "\") WHERE"@ + ("\n "@ + f1 + ": "@ + op1 + "("@ + (
            "\""@ + a1 + "\""@ + ", "@ + ("\""@ + a2 + "\""@)) + ")"@) + " AND"@ + ("\n "@ + f2
            + ": "@ + op2 + "("@ + ("\""@ + a3 + "\""@) + ")"@) + "\n!pragma "@ + (n1 + "("@ + (
            "\""@ + x + "\""@) + ")"@) + ", "@ + (n2 + "("@ + ("\""@ + y + "\""@) + ")"@),
{
    let c1 = FilterView { field: f1, op: op1, arg: seq![a1, a2] };
    let c2 = FilterView { field: f2, op: op2, arg: seq![a3] };
    let g1 = PragmaView { name: n1, args: seq![x] };
    let g2 = PragmaView { name: n2, args: seq![y] };
    let clauses = clause_texts(seq![c1, c2]);
    let pragmas = pragma_texts(seq![g1, g2]);

    let q12 = quote_all(seq![a1, a2]);
    assert(q12.drop_last() =~= seq![quoted(a1)]);
    assert(join(q12.drop_last(), ", "@) == quoted(a1));
    assert(join(q12, ", "@) == quoted(a1) + ", "@ + quoted(a2));
    let q3 = quote_all(seq![a3]);
    assert(join(q3, ", "@) == quoted(a3));
    assert(join(seq![x], ", "@) == x);
    assert(join(seq![y], ", "@) == y);

    assert(clauses.drop_last() =~= seq![clause_text(c1)]);
    assert(join(clauses.drop_last(), " AND"@) == clause_text(c1));
    assert(join(clauses, " AND"@) == clause_text(c1) + " AND"@ + clause_text(c2));
    assert(pragmas.drop_last() =~= seq![pragma_text(g1)]);
    assert(join(pragmas.drop_last(), ", "@) == pragma_text(g1));
    assert(join(pragmas, ", "@) == pragma_text(g1) + ", "@ + pragma_text(g2));

    let head = "!EC3 search(\""@ + category + "\") WHERE"@;
    assert(head + (clause_text(c1) + " AND"@ + clause_text(c2)) =~= head + clause_text(c1)
        + " AND"@ + clause_text(c2));
    let upto = head + clause_text(c1) + " AND"@ + clause_text(c2) + "\n!pragma "@;
    assert(upto + (pragma_text(g1) + ", "@ + pragma_text(g2)) =~= upto + pragma_text(g1) + ", "@
        + pragma_text(g2));
}

/// The parts one behind the other, with nothing between them.
pub open spec fn concat(parts: Seq<Seq<char>>) -> Seq<char>
    decreases parts.len(),
{
    if parts.len() == 0 {
        Seq::empty()
    } else {
        concat(parts.drop_last()) + parts.last()
    }
}

/// `s` ends with `suffix`.
pub open spec fn ends_with(s: Seq<char>, suffix: Seq<char>) -> bool {
    s.len() >= suffix.len() && s.subrange(s.len() - suffix.len(), s.len() as int) == suffix
}

/// Each part with what follows it in the joined text: the separator, but
/// nothing behind the last part.
pub open spec fn with_separators(parts: Seq<Seq<char>>, sep: Seq<char>) -> Seq<Seq<char>> {
    Seq::new(
        parts.len(),
        |i: int|
            if i < parts.len() - 1 {
                parts[i] + sep
            } else {
                parts[i]
            },
    )
}

/// The lines of the clauses as they stand in the query text: each line
/// ends in ` AND` but the last.
pub open spec fn clause_lines(filter: Seq<FilterView>) -> Seq<Seq<char>> {
    with_separators(clause_texts(filter), " AND"@)
}

/// Adding to the last part adds to the end of the whole.
pub proof fn lemma_concat_grows(parts: Seq<Seq<char>>, more: Seq<char>)
    requires
        parts.len() > 0,
    ensures
        concat(parts.update(parts.len() - 1, parts.last() + more)) == concat(parts) + more,
{
    let grown = parts.update(parts.len() - 1, parts.last() + more);
    assert(grown.drop_last() =~= parts.drop_last());
    assert(concat(parts.drop_last()) + (parts.last() + more) =~= concat(parts.drop_last())
        + parts.last() + more);
}

/// A joined text is its parts one behind the other, each but the last
/// followed by the separator: the separator stands between the parts and
/// nowhere else.
pub proof fn lemma_join_is_concat(parts: Seq<Seq<char>>, sep: Seq<char>)
    ensures
        join(parts, sep) == concat(with_separators(parts, sep)),
    decreases parts.len(),
{
    let lines = with_separators(parts, sep);
    if parts.len() == 0 {
    } else if parts.len() == 1 {
        assert(lines.drop_last() =~= Seq::<Seq<char>>::empty());
        assert(concat(lines.drop_last()) == Seq::<char>::empty());
        assert(Seq::<char>::empty() + parts[0] =~= parts[0]);
    } else {
        let before = parts.drop_last();
        lemma_join_is_concat(before, sep);
        let lines_before = with_separators(before, sep);
        assert(lines.drop_last() =~= lines_before.update(
            lines_before.len() - 1,
            lines_before.last() + sep,
        ));
        lemma_concat_grows(lines_before, sep);
    }
}

/// In the query text of a filter the lines of the clauses stand one
/// behind the other between `WHERE` and the line of the pragmas, each line
/// but the last ending in ` AND`.
pub proof fn lemma_compiled_is_lines(mf: MaterialFilterView)
    ensures
        compiled(mf) == "!EC3 search(\""@ + mf.category + "\") WHERE"@ + concat(
            clause_lines(mf.filter),
        ) + "\n!pragma "@ + join(pragma_texts(mf.pragma), ", "@),
{
    lemma_join_is_concat(clause_texts(mf.filter), " AND"@);
}

/// The line of a clause ends in `)`. So each line of the clauses but the
/// last ends in `) AND`, and the last ends in `)`, not in ` AND`.
pub proof fn lemma_clause_line_ends(filter: Seq<FilterView>, i: int)
    requires
        0 <= i < filter.len(),
    ensures
        ends_with(clause_text(filter[i]), ")"@),
        i < filter.len() - 1 ==> clause_lines(filter)[i] == clause_text(filter[i]) + " AND"@
            && ends_with(clause_lines(filter)[i], ") AND"@),
        i == filter.len() - 1 ==> clause_lines(filter)[i] == clause_text(filter[i]) && ends_with(
            clause_lines(filter)[i],
            ")"@,
        ) && !ends_with(clause_lines(filter)[i], " AND"@),
{
    reveal_strlit(")");
    reveal_strlit(" AND");
    reveal_strlit(") AND");
    let text = clause_text(filter[i]);
    assert(text.last() == ')');
    assert(text.subrange(text.len() - 1, text.len() as int) =~= ")"@);
    if i < filter.len() - 1 {
        let line = text + " AND"@;
        assert(line.subrange(line.len() - 5, line.len() as int) =~= ") AND"@);
    } else {
        if ends_with(text, " AND"@) {
            let tail = text.subrange(text.len() - 4, text.len() as int);
            assert(tail[3] == 'D');
        }
    }
}

/// No ` AND` stands directly before the line of the pragmas: what stands
/// there is `WHERE`, where the filter has no clause, and the last line of
/// the clauses otherwise.
pub proof fn lemma_no_trailing_and(mf: MaterialFilterView)
    ensures
        !ends_with(
            "!EC3 search(\""@ + mf.category + "\") WHERE"@ + concat(clause_lines(mf.filter)),
            " AND"@,
        ),
{
    reveal_strlit(" AND");
    reveal_strlit("\") WHERE");
    let lines = clause_lines(mf.filter);
    let text = "!EC3 search(\""@ + mf.category + "\") WHERE"@ + concat(lines);
    if mf.filter.len() == 0 {
        assert(text.last() == 'E');
    } else {
        lemma_clause_line_ends(mf.filter, mf.filter.len() - 1);
        reveal_strlit(")");
        let last = clause_text(mf.filter.last());
        assert(lines.last() == last);
        assert(last.last() == ')');
        assert(text.last() == ')');
    }
    if ends_with(text, " AND"@) {
        let tail = text.subrange(text.len() - 4, text.len() as int);
        assert(tail[3] == 'D');
    }
}

/// `pattern` stands in `text` at position `i`.
pub open spec fn occurs_at(text: Seq<char>, pattern: Seq<char>, i: int) -> bool {
    0 <= i && i + pattern.len() <= text.len() && text.subrange(i, i + pattern.len()) == pattern
}

/// `pattern` stands somewhere in `text`.
pub open spec fn contains_text(text: Seq<char>, pattern: Seq<char>) -> bool {
    exists|i: int| occurs_at(text, pattern, i)
}

/// The lines of the clauses as one text: what stands in the query text
/// between `WHERE` and the line of the pragmas.
pub open spec fn clause_block(filter: Seq<FilterView>) -> Seq<char> {
    join(clause_texts(filter), " AND"@)
}

/// The positions in the [`clause_block`] at which a line ends that is not
/// the last: one behind each clause but the last, in rising order.
pub open spec fn line_ends(filter: Seq<FilterView>) -> Seq<int>
    decreases filter.len(),
{
    if filter.len() <= 1 {
        Seq::empty()
    } else {
        line_ends(filter.drop_last()).push(clause_block(filter.drop_last()).len() as int)
    }
}

/// The block of the clauses of a filter with a clause ends in `)`.
pub proof fn lemma_clause_block_ends(filter: Seq<FilterView>)
    requires
        filter.len() > 0,
    ensures
        clause_block(filter).len() > 0,
        clause_block(filter).last() == ')',
{
    reveal_strlit(")");
    let texts = clause_texts(filter);
    let last = clause_text(filter.last());
    assert(texts.last() == last);
    assert(last.last() == ')');
    if filter.len() == 1 {
        assert(texts[0] == last);
    }
}

/// Where no line of a clause holds ` AND` by itself, ` AND` stands in the
/// block of the clauses at the ends of the lines but the last and nowhere
/// else: once behind each clause but the last, so one time less than there
/// are clauses.
///
/// The line of a clause holds ` AND` by itself where its field or its
/// operator begins with `AND`, or where they or an argument hold ` AND`.
pub proof fn lemma_and_only_between_clauses(filter: Seq<FilterView>)
    requires
        forall|i: int|
            0 <= i < filter.len() ==> !contains_text(clause_text(#[trigger] filter[i]), " AND"@),
    ensures
        line_ends(filter).len() == if filter.len() == 0 {
            0
        } else {
            filter.len() - 1
        },
        forall|pos: int|
            occurs_at(clause_block(filter), " AND"@, pos) <==> line_ends(filter).contains(pos),
        forall|a: int, b: int|
            0 <= a < b < line_ends(filter).len() ==> line_ends(filter)[a] < line_ends(filter)[b],
        forall|a: int|
            0 <= a < line_ends(filter).len() ==> 0 < #[trigger] line_ends(filter)[a]
                < clause_block(filter).len(),
    decreases filter.len(),
{
    reveal_strlit(" AND");
    let sep = " AND"@;
    let block = clause_block(filter);
    if filter.len() == 0 {
        assert(block.len() == 0);
    } else if filter.len() == 1 {
        assert(block == clause_text(filter[0]));
        assert forall|pos: int| !occurs_at(block, sep, pos) by {
            if occurs_at(block, sep, pos) {
                assert(contains_text(clause_text(filter[0]), sep));
            }
        }
    } else {
        let before = filter.drop_last();
        let last = clause_text(filter.last());
        let head = clause_block(before);
        assert forall|i: int| 0 <= i < before.len() implies !contains_text(
            clause_text(#[trigger] before[i]),
            sep,
        ) by {
            assert(before[i] == filter[i]);
        }
        lemma_and_only_between_clauses(before);
        lemma_clause_block_ends(before);
        assert(clause_texts(filter).drop_last() =~= clause_texts(before));
        assert(clause_texts(filter).last() == last);
        assert(block == head + sep + last);
        let n = head.len() as int;
        let ends = line_ends(filter);
        assert(ends == line_ends(before).push(n));
        assert forall|pos: int| occurs_at(block, sep, pos) implies ends.contains(pos) by {
            let found = block.subrange(pos, pos + 4);
            assert(found == sep);
            if pos + 4 <= n {
                assert(head.subrange(pos, pos + 4) =~= found);
                assert(occurs_at(clause_block(before), " AND"@, pos));
                assert(line_ends(before).contains(pos));
                let k = choose|k: int|
                    0 <= k < line_ends(before).len() && line_ends(before)[k] == pos;
                assert(ends[k] == pos);
            } else if pos < n {
                assert(found[n - 1 - pos] == block[n - 1]);
                assert(block[n - 1] == head[n - 1]);
                assert(false);
            } else if pos == n {
                assert(ends[ends.len() - 1] == pos);
            } else if pos < n + 4 {
                assert(found[0] == block[pos]);
                assert(block[pos] == sep[pos - n]);
                assert(false);
            } else {
                assert(last.subrange(pos - n - 4, pos - n) =~= found);
                assert(occurs_at(last, sep, pos - n - 4));
                assert(contains_text(clause_text(filter[filter.len() - 1]), sep));
                assert(false);
            }
        }
        assert forall|pos: int| ends.contains(pos) implies occurs_at(block, sep, pos) by {
            let k = choose|k: int| 0 <= k < ends.len() && ends[k] == pos;
            if k < ends.len() - 1 {
                assert(line_ends(before)[k] == pos);
                assert(line_ends(before).contains(pos));
                assert(occurs_at(clause_block(before), " AND"@, pos));
                assert(block.subrange(pos, pos + 4) =~= head.subrange(pos, pos + 4));
            } else {
                assert(pos == n);
                assert(block.subrange(n, n + 4) =~= sep);
            }
        }
    }
}

} // verus!

//! Reading the JSON that `gh project list` and `gh project item-list` print:
//! the numbers of an owner's projects, and the items of a project with their
//! field values. `serde_json` reads each JSON text; the walk through the
//! values is this module's.
use vstd::prelude::*;
use crate::issue_flow::{FieldValue, ProjectItem};
use serde_json::Value;

verus! {

// ── What serde_json reads ───────────────────────────────────────────────────

/// Of a text: nothing when it is not JSON; else the JSON text of its member
/// `key` (`Value::get`, written back with `to_string`), if it has one.
pub uninterp spec fn json_member(text: Seq<char>, key: Seq<char>) -> Option<Option<Seq<char>>>;

/// Of a text: nothing when it is not JSON; else the JSON texts of its elements
/// (`Value::as_array`), if it is an array.
pub uninterp spec fn json_elements(text: Seq<char>) -> Option<Option<Seq<Seq<char>>>>;

/// Of a text: nothing when it is not JSON; else its value as `Value::as_u64`
/// reads it.
pub uninterp spec fn json_u64(text: Seq<char>) -> Option<Option<u64>>;

/// Of a text: nothing when it is not JSON; else its string, if it is one
/// (`Value::as_str`).
pub uninterp spec fn json_str(text: Seq<char>) -> Option<Option<Seq<char>>>;

pub open spec fn opt_text(o: Option<String>) -> Option<Seq<char>> {
    match o {
        Some(s) => Some(s@),
        None => None,
    }
}

pub open spec fn opt_texts(o: Option<Vec<String>>) -> Option<Seq<Seq<char>>> {
    match o {
        Some(v) => Some(v@.map_values(|x: String| x@)),
        None => None,
    }
}

/// `serde_json::from_str`, then `get(key)` and `to_string`.
#[verifier::external_body]
fn member_text(text: &str, key: &str) -> (r: Option<Option<String>>)
    ensures
        json_member(text@, key@) == match r {
            Some(m) => Some(opt_text(m)),
            None => None,
        },
{
    let v: Value = serde_json::from_str(text).ok()?;
    Some(v.get(key).map(|m| m.to_string()))
}

/// `serde_json::from_str`, then `as_array` and `to_string` of each element.
#[verifier::external_body]
fn element_texts(text: &str) -> (r: Option<Option<Vec<String>>>)
    ensures
        json_elements(text@) == match r {
            Some(m) => Some(opt_texts(m)),
            None => None,
        },
{
    let v: Value = serde_json::from_str(text).ok()?;
    Some(v.as_array().map(|a| a.iter().map(|e| e.to_string()).collect()))
}

/// `serde_json::from_str`, then `as_u64`.
#[verifier::external_body]
fn u64_value(text: &str) -> (r: Option<Option<u64>>)
    ensures
        json_u64(text@) == r,
{
    let v: Value = serde_json::from_str(text).ok()?;
    Some(v.as_u64())
}

/// `serde_json::from_str`, then `as_str`.
#[verifier::external_body]
fn str_value(text: &str) -> (r: Option<Option<String>>)
    ensures
        json_str(text@) == match r {
            Some(m) => Some(opt_text(m)),
            None => None,
        },
{
    let v: Value = serde_json::from_str(text).ok()?;
    Some(v.as_str().map(|s| s.to_string()))
}

// ── Walking the values ──────────────────────────────────────────────────────

/// The JSON text of member `key` of `text`, when `text` is JSON and has it.
pub open spec fn member(text: Seq<char>, key: Seq<char>) -> Option<Seq<char>> {
    match json_member(text, key) {
        Some(Some(m)) => Some(m),
        _ => None,
    }
}

/// The elements of `text`, when it is a JSON array.
pub open spec fn elements(text: Seq<char>) -> Option<Seq<Seq<char>>> {
    match json_elements(text) {
        Some(Some(es)) => Some(es),
        _ => None,
    }
}

/// The elements of member `key` of `text`, when that is an array.
pub open spec fn array_at(text: Seq<char>, key: Seq<char>) -> Option<Seq<Seq<char>>> {
    match member(text, key) {
        Some(m) => elements(m),
        None => None,
    }
}

/// Member `key` of `text` as an unsigned number.
pub open spec fn u64_at(text: Seq<char>, key: Seq<char>) -> Option<u64> {
    match member(text, key) {
        Some(m) => match json_u64(m) {
            Some(n) => n,
            None => None,
        },
        None => None,
    }
}

/// Member `key` of `text` as a string.
pub open spec fn str_at(text: Seq<char>, key: Seq<char>) -> Option<Seq<char>> {
    match member(text, key) {
        Some(m) => match json_str(m) {
            Some(s) => s,
            None => None,
        },
        None => None,
    }
}

fn member_exec(text: &str, key: &str) -> (r: Option<String>)
    ensures
        opt_text(r) == member(text@, key@),
{
    match member_text(text, key) {
        Some(m) => m,
        None => None,
    }
}

fn array_at_exec(text: &str, key: &str) -> (r: Option<Vec<String>>)
    ensures
        opt_texts(r) == array_at(text@, key@),
{
    match member_exec(text, key) {
        Some(m) => match element_texts(m.as_str()) {
            Some(es) => es,
            None => None,
        },
        None => None,
    }
}

fn u64_at_exec(text: &str, key: &str) -> (r: Option<u64>)
    ensures
        r == u64_at(text@, key@),
{
    match member_exec(text, key) {
        Some(m) => match u64_value(m.as_str()) {
            Some(n) => n,
            None => None,
        },
        None => None,
    }
}

fn str_at_exec(text: &str, key: &str) -> (r: Option<String>)
    ensures
        opt_text(r) == str_at(text@, key@),
{
    match member_exec(text, key) {
        Some(m) => match str_value(m.as_str()) {
            Some(s) => s,
            None => None,
        },
        None => None,
    }
}

// ── Project numbers ─────────────────────────────────────────────────────────

/// The `number`s of the elements that have one, in order.
pub open spec fn numbers(es: Seq<Seq<char>>) -> Seq<u64>
    decreases es.len(),
{
    if es.len() == 0 {
        seq![]
    } else {
        let r = numbers(es.drop_last());
        match u64_at(es.last(), "number"@) {
            Some(n) => r.push(n),
            None => r,
        }
    }
}

/// The projects of a `gh project list` output: the numbered elements of its
/// `projects` array or, when that array is empty, of its `nodes` array; none
/// when the text is not JSON or holds no `projects` array.
pub open spec fn listed_projects(text: Seq<char>) -> Seq<u64> {
    match array_at(text, "projects"@) {
        Some(ps) => numbers(
            if ps.len() > 0 {
                ps
            } else {
                match array_at(text, "nodes"@) {
                    Some(ns) => ns,
                    None => seq![],
                }
            },
        ),
        None => seq![],
    }
}

fn numbers_exec(es: &Vec<String>) -> (r: Vec<u64>)
    ensures
        r@ == numbers(es@.map_values(|x: String| x@)),
{
    let ghost ev = es@.map_values(|x: String| x@);
    let mut out: Vec<u64> = Vec::new();
    let mut i: usize = 0;
    while i < es.len()
        invariant
            i <= es@.len(),
            ev == es@.map_values(|x: String| x@),
            out@ == numbers(ev.take(i as int)),
        decreases es@.len() - i,
    {
        proof {
            assert(ev.take(i + 1).drop_last() =~= ev.take(i as int));
            assert(ev.take(i + 1).last() == es@[i as int]@);
        }
        match u64_at_exec(es[i].as_str(), "number") {
            Some(n) => out.push(n),
            None => {},
        }
        i = i + 1;
    }
    assert(ev.take(es@.len() as int) =~= ev);
    out
}

/// The numbers of the projects that a `gh project list` output lists.
pub fn project_numbers(text: &str) -> (r: Vec<u64>)
    ensures
        r@ == listed_projects(text@),
{
    match array_at_exec(text, "projects") {
        Some(ps) => {
            if ps.len() > 0 {
                numbers_exec(&ps)
            } else {
                match array_at_exec(text, "nodes") {
                    Some(ns) => numbers_exec(&ns),
                    None => {
                        let e: Vec<String> = Vec::new();
                        assert(e@.map_values(|x: String| x@) =~= Seq::<Seq<char>>::empty());
                        numbers_exec(&e)
                    },
                }
            }
        },
        None => Vec::new(),
    }
}

// ── Project items ───────────────────────────────────────────────────────────

/// A field value as plain values: its field's name, its name, its option id.
pub type FieldView = (Option<Seq<char>>, Option<Seq<char>>, Option<Seq<char>>);

pub open spec fn field_view(f: FieldValue) -> FieldView {
    (opt_text(f.field_name), opt_text(f.name), opt_text(f.option_id))
}

/// A field value of the JSON: `field.name`, `name` and `optionId`.
pub open spec fn field_of(x: Seq<char>) -> FieldView {
    (
        match member(x, "field"@) {
            Some(f) => str_at(f, "name"@),
            None => None,
        },
        str_at(x, "name"@),
        str_at(x, "optionId"@),
    )
}

/// The field values of an item: the elements of its `fieldValues` when that is
/// an array, else of the `nodes` array under it, else none.
pub open spec fn fields_of(item: Seq<char>) -> Seq<FieldView> {
    match member(item, "fieldValues"@) {
        Some(f) => match elements(f) {
            Some(a) => a.map_values(|x: Seq<char>| field_of(x)),
            None => match array_at(f, "nodes"@) {
                Some(n) => n.map_values(|x: Seq<char>| field_of(x)),
                None => seq![],
            },
        },
        None => seq![],
    }
}

/// An item of the JSON: the number of its `content`, and its field values.
pub open spec fn item_of(item: Seq<char>) -> (Option<u64>, Seq<FieldView>) {
    (
        match member(item, "content"@) {
            Some(c) => u64_at(c, "number"@),
            None => None,
        },
        fields_of(item),
    )
}

/// The items of a `gh project item-list` output: those of its `items` array
/// or, when it has none, of its `nodes` array; nothing when the text is not
/// JSON or holds neither.
pub open spec fn listed_items(text: Seq<char>) -> Option<Seq<(Option<u64>, Seq<FieldView>)>> {
    match (if array_at(text, "items"@) is Some { array_at(text, "items"@) } else { array_at(text, "nodes"@) }) {
        Some(l) => Some(l.map_values(|x: Seq<char>| item_of(x))),
        None => None,
    }
}

pub open spec fn item_view(it: ProjectItem) -> (Option<u64>, Seq<FieldView>) {
    (it.number, it.fields@.map_values(|f: FieldValue| field_view(f)))
}

fn field_of_exec(x: &str) -> (r: FieldValue)
    ensures
        field_view(r) == field_of(x@),
{
    let field_name = match member_exec(x, "field") {
        Some(f) => str_at_exec(f.as_str(), "name"),
        None => None,
    };
    FieldValue { field_name, name: str_at_exec(x, "name"), option_id: str_at_exec(x, "optionId") }
}

fn fields_from(es: &Vec<String>) -> (r: Vec<FieldValue>)
    ensures
        r@.map_values(|f: FieldValue| field_view(f)) == es@.map_values(|x: String| x@).map_values(
            |x: Seq<char>| field_of(x),
        ),
{
    let ghost want = es@.map_values(|x: String| x@).map_values(|x: Seq<char>| field_of(x));
    let mut out: Vec<FieldValue> = Vec::new();
    let mut i: usize = 0;
    while i < es.len()
        invariant
            i <= es@.len(),
            out@.len() == i,
            want == es@.map_values(|x: String| x@).map_values(|x: Seq<char>| field_of(x)),
            forall|k: int| 0 <= k < i ==> field_view(#[trigger] out@[k]) == want[k],
        decreases es@.len() - i,
    {
        let f = field_of_exec(es[i].as_str());
        out.push(f);
        i = i + 1;
    }
    assert(out@.map_values(|f: FieldValue| field_view(f)) =~= want);
    out
}

fn fields_of_exec(item: &str) -> (r: Vec<FieldValue>)
    ensures
        r@.map_values(|f: FieldValue| field_view(f)) == fields_of(item@),
{
    match member_exec(item, "fieldValues") {
        Some(f) => match element_texts(f.as_str()) {
            Some(Some(a)) => fields_from(&a),
            _ => match array_at_exec(f.as_str(), "nodes") {
                Some(n) => fields_from(&n),
                None => {
                    let e: Vec<FieldValue> = Vec::new();
                    assert(e@.map_values(|f: FieldValue| field_view(f)) =~= Seq::<FieldView>::empty());
                    e
                },
            },
        },
        None => {
            let e: Vec<FieldValue> = Vec::new();
            assert(e@.map_values(|f: FieldValue| field_view(f)) =~= Seq::<FieldView>::empty());
            e
        },
    }
}

fn items_from(es: &Vec<String>) -> (r: Vec<ProjectItem>)
    ensures
        r@.map_values(|it: ProjectItem| item_view(it)) == es@.map_values(|x: String| x@).map_values(
            |x: Seq<char>| item_of(x),
        ),
{
    let ghost want = es@.map_values(|x: String| x@).map_values(|x: Seq<char>| item_of(x));
    let mut out: Vec<ProjectItem> = Vec::new();
    let mut i: usize = 0;
    while i < es.len()
        invariant
            i <= es@.len(),
            out@.len() == i,
            want == es@.map_values(|x: String| x@).map_values(|x: Seq<char>| item_of(x)),
            forall|k: int| 0 <= k < i ==> item_view(#[trigger] out@[k]) == want[k],
        decreases es@.len() - i,
    {
        let x = es[i].as_str();
        let number = match member_exec(x, "content") {
            Some(c) => u64_at_exec(c.as_str(), "number"),
            None => None,
        };
        let fields = fields_of_exec(x);
        out.push(ProjectItem { number, fields });
        i = i + 1;
    }
    assert(out@.map_values(|it: ProjectItem| item_view(it)) =~= want);
    out
}

/// The items of a project, as a `gh project item-list` output lists them.
pub fn project_items(text: &str) -> (r: Option<Vec<ProjectItem>>)
    ensures
        match r {
            Some(v) => listed_items(text@) == Some(v@.map_values(|it: ProjectItem| item_view(it))),
            None => listed_items(text@) is None,
        },
{
    let chosen = match array_at_exec(text, "items") {
        Some(l) => Some(l),
        None => array_at_exec(text, "nodes"),
    };
    match chosen {
        Some(l) => Some(items_from(&l)),
        None => None,
    }
}

} // verus!

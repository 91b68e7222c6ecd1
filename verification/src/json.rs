//! JSON values: what the library reads of a document and what it writes.

use vstd::prelude::*;
use crate::digits;
use crate::text;

verus! {

broadcast use {vstd::seq::group_seq_axioms, vstd::string::group_string_axioms};

/// A JSON value. A number is kept as it is written.
pub enum Json {
    Null,
    Bool(bool),
    Num(String),
    Str(String),
    Arr(Vec<Json>),
    Obj(Vec<(String, Json)>),
}

pub enum JsonView {
    Null,
    Bool(bool),
    Num(Seq<char>),
    Str(Seq<char>),
    Arr(Seq<JsonView>),
    Obj(Seq<(Seq<char>, JsonView)>),
}

pub open spec fn value(j: Json) -> JsonView
    decreases j,
{
    match j {
        Json::Null => JsonView::Null,
        Json::Bool(b) => JsonView::Bool(b),
        Json::Num(s) => JsonView::Num(s@),
        Json::Str(s) => JsonView::Str(s@),
        Json::Arr(v) => JsonView::Arr(values(v@)),
        Json::Obj(v) => JsonView::Obj(fields(v@)),
    }
}

pub open spec fn values(v: Seq<Json>) -> Seq<JsonView>
    decreases v,
{
    if v.len() == 0 {
        Seq::empty()
    } else {
        values(v.drop_last()).push(value(v.last()))
    }
}

pub open spec fn fields(v: Seq<(String, Json)>) -> Seq<(Seq<char>, JsonView)>
    decreases v,
{
    if v.len() == 0 {
        Seq::empty()
    } else {
        fields(v.drop_last()).push((v.last().0@, value(v.last().1)))
    }
}

impl View for Json {
    type V = JsonView;

    open spec fn view(&self) -> JsonView {
        value(*self)
    }
}

pub proof fn values_index(v: Seq<Json>)
    ensures
        values(v).len() == v.len(),
        forall|i: int| 0 <= i < v.len() ==> (#[trigger] values(v)[i]) == value(v[i]),
    decreases v.len(),
{
    if v.len() > 0 {
        values_index(v.drop_last());
        assert forall|i: int| 0 <= i < v.len() implies (#[trigger] values(v)[i]) == value(v[i]) by {
            if i < v.len() - 1 {
                assert(v.drop_last()[i] == v[i]);
                assert(values(v)[i] == values(v.drop_last())[i]);
            }
        }
    }
}

pub proof fn fields_index(v: Seq<(String, Json)>)
    ensures
        fields(v).len() == v.len(),
        forall|i: int| 0 <= i < v.len() ==> (#[trigger] fields(v)[i]) == (v[i].0@, value(v[i].1)),
    decreases v.len(),
{
    if v.len() > 0 {
        fields_index(v.drop_last());
        assert forall|i: int| 0 <= i < v.len() implies (#[trigger] fields(v)[i]) == (v[i].0@, value(
            v[i].1,
        )) by {
            if i < v.len() - 1 {
                assert(v.drop_last()[i] == v[i]);
                assert(fields(v)[i] == fields(v.drop_last())[i]);
            }
        }
    }
}

pub broadcast proof fn values_push(v: Seq<Json>, j: Json)
    ensures
        #[trigger] values(v.push(j)) == values(v).push(value(j)),
{
    assert(v.push(j).drop_last() =~= v);
}

pub broadcast proof fn fields_push(v: Seq<(String, Json)>, k: String, j: Json)
    ensures
        #[trigger] fields(v.push((k, j))) == fields(v).push((k@, value(j))),
{
    assert(v.push((k, j)).drop_last() =~= v);
}

pub broadcast proof fn values_empty()
    ensures
        #[trigger] values(Seq::<Json>::empty()) == Seq::<JsonView>::empty(),
{
}

pub broadcast proof fn fields_empty()
    ensures
        #[trigger] fields(Seq::<(String, Json)>::empty()) == Seq::<(Seq<char>, JsonView)>::empty(),
{
}

pub broadcast group group_json {
    values_push,
    fields_push,
    values_empty,
    fields_empty,
}

// ---- reading -----------------------------------------------------------------

/// The first field of that name.
pub open spec fn field_in(f: Seq<(Seq<char>, JsonView)>, key: Seq<char>) -> Option<JsonView>
    decreases f.len(),
{
    if f.len() == 0 {
        None
    } else if f[0].0 == key {
        Some(f[0].1)
    } else {
        field_in(f.skip(1), key)
    }
}

/// The field of an object; nothing else has fields.
pub open spec fn field(j: JsonView, key: Seq<char>) -> Option<JsonView> {
    match j {
        JsonView::Obj(f) => field_in(f, key),
        _ => None,
    }
}

/// The field of a value that may not be there.
pub open spec fn opt_field(j: Option<JsonView>, key: Seq<char>) -> Option<JsonView> {
    match j {
        Some(v) => field(v, key),
        None => None,
    }
}

/// The text of a string value.
pub open spec fn as_text(j: Option<JsonView>) -> Option<Seq<char>> {
    match j {
        Some(JsonView::Str(s)) => Some(s),
        _ => None,
    }
}

/// The text of a string value, empty for anything else.
pub open spec fn text_or_empty(j: Option<JsonView>) -> Seq<char> {
    match j {
        Some(JsonView::Str(s)) => s,
        _ => Seq::empty(),
    }
}

/// The text of a string field, empty where there is none.
pub open spec fn text_field(j: JsonView, key: Seq<char>) -> Seq<char> {
    text_or_empty(field(j, key))
}

/// The value of a number that is an integer of 64 bits.
pub open spec fn as_int(j: Option<JsonView>) -> Option<int> {
    match j {
        Some(JsonView::Num(s)) => digits::parse_i64(s),
        _ => None,
    }
}

/// The items of an array; nothing else has items.
pub open spec fn items(j: Option<JsonView>) -> Seq<JsonView> {
    match j {
        Some(JsonView::Arr(v)) => v,
        _ => Seq::empty(),
    }
}

/// The fields of an object; nothing else has fields.
pub open spec fn entries(j: Option<JsonView>) -> Seq<(Seq<char>, JsonView)> {
    match j {
        Some(JsonView::Obj(f)) => f,
        _ => Seq::empty(),
    }
}

pub open spec fn opt_value(o: Option<&Json>) -> Option<JsonView> {
    match o {
        Some(j) => Some(j@),
        None => None,
    }
}

impl Json {
    /// The field of an object.
    pub fn get(&self, key: &str) -> (r: Option<&Json>)
        ensures
            opt_value(r) == field(self@, key@),
    {
        match self {
            Json::Obj(f) => {
                let ghost all = fields(f@);
                proof {
                    fields_index(f@);
                }
                let mut i: usize = 0;
                assert(all.skip(0) =~= all);
                while i < f.len()
                    invariant
                        i <= f@.len(),
                        self@ == JsonView::Obj(all),
                        all == fields(f@),
                        all.len() == f@.len(),
                        forall|k: int|
                            0 <= k < f@.len() ==> (#[trigger] all[k]) == (f@[k].0@, value(f@[k].1)),
                        field_in(all, key@) == field_in(all.skip(i as int), key@),
                    decreases f@.len() - i,
                {
                    proof {
                        assert(all.skip(i as int)[0] == all[i as int]);
                        assert(all.skip(i as int).skip(1) =~= all.skip(i as int + 1));
                    }
                    if text::str_eq(&f[i].0, key) {
                        return Some(&f[i].1);
                    }
                    i += 1;
                }
                None
            },
            _ => None,
        }
    }

    /// The text of a string field, empty where there is none.
    pub fn get_text(&self, key: &str) -> (r: String)
        ensures
            r@ == text_field(self@, key@),
    {
        opt_text_or_empty(self.get(key))
    }
}

/// The text of a string value.
pub fn opt_text(o: Option<&Json>) -> (r: Option<String>)
    ensures
        text::opt_view(r) == as_text(opt_value(o)),
{
    match o {
        Some(Json::Str(s)) => Some(s.clone()),
        _ => None,
    }
}

/// The text of a string value, empty for anything else.
pub fn opt_text_or_empty(o: Option<&Json>) -> (r: String)
    ensures
        r@ == text_or_empty(opt_value(o)),
{
    match o {
        Some(Json::Str(s)) => s.clone(),
        _ => String::new(),
    }
}

/// The value of a number that is an integer of 64 bits.
pub fn opt_int(o: Option<&Json>) -> (r: Option<i64>)
    ensures
        match r {
            Some(n) => as_int(opt_value(o)) == Some(n as int),
            None => as_int(opt_value(o)) is None,
        },
{
    match o {
        Some(Json::Num(s)) => digits::str_to_i64(s),
        _ => None,
    }
}

/// The field of a value that may not be there.
pub fn opt_get<'a>(o: Option<&'a Json>, key: &str) -> (r: Option<&'a Json>)
    ensures
        opt_value(r) == opt_field(opt_value(o), key@),
{
    match o {
        Some(j) => j.get(key),
        None => None,
    }
}

/// The entries of an object that may not be there.
pub fn opt_entries<'a>(o: Option<&'a Json>) -> (r: Option<&'a Vec<(String, Json)>>)
    ensures
        r is Some <==> (opt_value(o) matches Some(j) && j is Obj),
        entries(opt_value(o)) == match r {
            Some(v) => fields(v@),
            None => Seq::empty(),
        },
{
    match o {
        Some(Json::Obj(v)) => Some(v),
        _ => None,
    }
}

/// The items of a list that may not be there.
pub fn opt_items<'a>(o: Option<&'a Json>) -> (r: Option<&'a Vec<Json>>)
    ensures
        r is Some <==> (opt_value(o) matches Some(j) && j is Arr),
        items(opt_value(o)) == match r {
            Some(v) => values(v@),
            None => Seq::empty(),
        },
{
    match o {
        Some(Json::Arr(v)) => Some(v),
        _ => None,
    }
}

// ---- documents -----------------------------------------------------------------

/// A JSON value of `serde_json`.
#[verifier::external_type_specification]
#[verifier::external_body]
pub struct ExValue(serde_json::Value);

/// What a value of `serde_json` holds.
pub uninterp spec fn held(v: serde_json::Value) -> JsonView;

/// What `serde_json::from_str` reads a text as; nothing where the text is no
/// JSON document.
pub uninterp spec fn parsed(s: Seq<char>) -> Option<JsonView>;

/// A value of `serde_json` with its parts one level down.
pub enum Node<'a> {
    Null,
    Bool(bool),
    Num(String),
    Str(String),
    Arr(Vec<&'a serde_json::Value>),
    Obj(Vec<(String, &'a serde_json::Value)>),
}

pub open spec fn node_value(n: Node) -> JsonView {
    match n {
        Node::Null => JsonView::Null,
        Node::Bool(b) => JsonView::Bool(b),
        Node::Num(s) => JsonView::Num(s@),
        Node::Str(s) => JsonView::Str(s@),
        Node::Arr(v) => JsonView::Arr(v@.map_values(|x: &serde_json::Value| held(*x))),
        Node::Obj(v) => JsonView::Obj(
            v@.map_values(|p: (String, &serde_json::Value)| (p.0@, held(*p.1))),
        ),
    }
}

/// Calls `serde_json::from_str` for a value. Which texts are documents, and
/// what they hold, is only named.
#[verifier::external_body]
fn read_value(s: &str) -> (r: Option<serde_json::Value>)
    ensures
        match r {
            Some(v) => parsed(s@) == Some(held(v)),
            None => parsed(s@) is None,
        },
{
    serde_json::from_str::<serde_json::Value>(s).ok()
}

/// Tells the variants of `serde_json::Value` apart. An object hands out its
/// entries in the order in which it iterates over them, and a number the text
/// that it displays.
#[verifier::external_body]
fn open_value(v: &serde_json::Value) -> (r: Node<'_>)
    ensures
        node_value(r) == held(*v),
{
    match v {
        serde_json::Value::Null => Node::Null,
        serde_json::Value::Bool(b) => Node::Bool(*b),
        serde_json::Value::Number(n) => Node::Num(n.to_string()),
        serde_json::Value::String(s) => Node::Str(s.clone()),
        serde_json::Value::Array(a) => Node::Arr(a.iter().collect()),
        serde_json::Value::Object(o) => Node::Obj(o.iter().map(|(k, x)| (k.clone(), x)).collect()),
    }
}

fn json_of(v: &serde_json::Value) -> (r: Json)
    ensures
        r@ == held(*v),
    decreases held(*v),
{
    broadcast use group_json;

    match open_value(v) {
        Node::Null => Json::Null,
        Node::Bool(b) => Json::Bool(b),
        Node::Num(s) => Json::Num(s),
        Node::Str(s) => Json::Str(s),
        Node::Arr(a) => {
            let ghost want = a@.map_values(|x: &serde_json::Value| held(*x));
            let mut out: Vec<Json> = Vec::new();
            let mut i: usize = 0;
            assert(want.take(0) =~= Seq::empty());
            while i < a.len()
                invariant
                    i <= a@.len(),
                    want == a@.map_values(|x: &serde_json::Value| held(*x)),
                    held(*v) == JsonView::Arr(want),
                    values(out@) == want.take(i as int),
                decreases a@.len() - i,
            {
                proof {
                    let w = held(*v)->Arr_0;
                    assert(w[i as int] == held(*a@[i as int]));
                    assert(decreases_to!(held(*v) => held(*v)->Arr_0));
                    assert(decreases_to!(w => w[i as int]));
                }
                let j = json_of(a[i]);
                proof {
                    values_push(out@, j);
                }
                out.push(j);
                assert(want.take(i as int + 1) =~= want.take(i as int).push(want[i as int]));
                i += 1;
            }
            assert(want.take(want.len() as int) =~= want);
            Json::Arr(out)
        },
        Node::Obj(o) => {
            let ghost want = o@.map_values(|p: (String, &serde_json::Value)| (p.0@, held(*p.1)));
            let mut out: Vec<(String, Json)> = Vec::new();
            let mut i: usize = 0;
            assert(want.take(0) =~= Seq::empty());
            while i < o.len()
                invariant
                    i <= o@.len(),
                    want == o@.map_values(|p: (String, &serde_json::Value)| (p.0@, held(*p.1))),
                    held(*v) == JsonView::Obj(want),
                    fields(out@) == want.take(i as int),
                decreases o@.len() - i,
            {
                proof {
                    let w = held(*v)->Obj_0;
                    assert(w[i as int] == (o@[i as int].0@, held(*o@[i as int].1)));
                    assert(decreases_to!(held(*v) => held(*v)->Obj_0));
                    assert(decreases_to!(w => w[i as int]));
                    assert(decreases_to!(w[i as int] => w[i as int].1));
                }
                let j = json_of(o[i].1);
                let k = o[i].0.clone();
                proof {
                    fields_push(out@, k, j);
                }
                out.push((k, j));
                assert(want.take(i as int + 1) =~= want.take(i as int).push(want[i as int]));
                i += 1;
            }
            assert(want.take(want.len() as int) =~= want);
            Json::Obj(out)
        },
    }
}

/// The value that a JSON document holds.
pub fn parse(s: &str) -> (r: Option<Json>)
    ensures
        match r {
            Some(j) => parsed(s@) == Some(j@),
            None => parsed(s@) is None,
        },
{
    match read_value(s) {
        Some(v) => Some(json_of(&v)),
        None => None,
    }
}

/// The parts that a value of `serde_json` is made of.
pub enum Part {
    Null,
    Bool(bool),
    Num(String),
    Str(String),
    Arr(Vec<serde_json::Value>),
    Obj(Vec<(String, serde_json::Value)>),
}

pub open spec fn part_value(p: Part) -> JsonView {
    match p {
        Part::Null => JsonView::Null,
        Part::Bool(b) => JsonView::Bool(b),
        Part::Num(s) => JsonView::Num(s@),
        Part::Str(s) => JsonView::Str(s@),
        Part::Arr(v) => JsonView::Arr(v@.map_values(|x: serde_json::Value| held(x))),
        Part::Obj(v) => JsonView::Obj(
            v@.map_values(|p: (String, serde_json::Value)| (p.0@, held(p.1))),
        ),
    }
}

/// What a value of `serde_json` holds that is made of these parts: an object
/// keeps one entry for a key and has an order of its own, and a number is read
/// from its text.
pub uninterp spec fn built(parts: JsonView) -> JsonView;

/// Makes a `serde_json::Value`: an object by collecting its entries into a
/// `serde_json::Map`, a number with `serde_json::from_str`. Anything but an
/// object or a number holds what it is made of.
#[verifier::external_body]
fn close_value(p: Part) -> (r: serde_json::Value)
    ensures
        held(r) == built(part_value(p)),
        p is Null || p is Bool || p is Str || p is Arr ==> held(r) == part_value(p),
{
    match p {
        Part::Null => serde_json::Value::Null,
        Part::Bool(b) => serde_json::Value::Bool(b),
        Part::Num(s) => serde_json::from_str(&s).unwrap_or(serde_json::Value::Null),
        Part::Str(s) => serde_json::Value::String(s),
        Part::Arr(a) => serde_json::Value::Array(a),
        Part::Obj(o) => serde_json::Value::Object(o.into_iter().collect()),
    }
}

/// What `serde_json::to_string` writes of a value.
pub uninterp spec fn compact_text(j: JsonView) -> Seq<char>;

/// Calls `serde_json::to_string`. The text is only named.
#[verifier::external_body]
fn value_to_string(v: &serde_json::Value) -> (r: String)
    ensures
        r@ == compact_text(held(*v)),
{
    serde_json::to_string(v).unwrap_or_default()
}

/// What `serde_json::to_string_pretty` writes of a value.
pub uninterp spec fn pretty_text(j: JsonView) -> Seq<char>;

/// Calls `serde_json::to_string_pretty`. The text is only named.
#[verifier::external_body]
fn value_to_string_pretty(v: &serde_json::Value) -> (r: String)
    ensures
        r@ == pretty_text(held(*v)),
{
    serde_json::to_string_pretty(v).unwrap_or_default()
}

/// A value as `serde_json` holds it, its parts first.
pub open spec fn normal(j: JsonView) -> JsonView
    decreases j,
{
    match j {
        JsonView::Arr(v) => built(JsonView::Arr(normal_items(v))),
        JsonView::Obj(f) => built(JsonView::Obj(normal_fields(f))),
        _ => built(j),
    }
}

pub open spec fn normal_items(v: Seq<JsonView>) -> Seq<JsonView>
    decreases v,
{
    if v.len() == 0 {
        Seq::empty()
    } else {
        normal_items(v.drop_last()).push(normal(v.last()))
    }
}

pub open spec fn normal_fields(f: Seq<(Seq<char>, JsonView)>) -> Seq<(Seq<char>, JsonView)>
    decreases f,
{
    if f.len() == 0 {
        Seq::empty()
    } else {
        normal_fields(f.drop_last()).push((f.last().0, normal(f.last().1)))
    }
}

fn write_value(j: &Json) -> (r: serde_json::Value)
    ensures
        held(r) == normal(j@),
    decreases j@,
{
    match j {
        Json::Null => close_value(Part::Null),
        Json::Bool(b) => close_value(Part::Bool(*b)),
        Json::Num(s) => close_value(Part::Num(s.clone())),
        Json::Str(s) => close_value(Part::Str(s.clone())),
        Json::Arr(a) => {
            let mut out: Vec<serde_json::Value> = Vec::new();
            let ghost all = values(a@);
            proof {
                values_index(a@);
            }
            let mut i: usize = 0;
            assert(all.take(0) =~= Seq::empty());
            assert(out@.map_values(|x: serde_json::Value| held(x)) =~= Seq::empty());
            while i < a.len()
                invariant
                    i <= a@.len(),
                    j == Json::Arr(*a),
                    all == values(a@),
                    all.len() == a@.len(),
                    forall|k: int| 0 <= k < a@.len() ==> (#[trigger] all[k]) == value(a@[k]),
                    out@.map_values(|x: serde_json::Value| held(x)) == normal_items(all.take(i as int)),
                decreases a@.len() - i,
            {
                proof {
                    let w = j@->Arr_0;
                    assert(w[i as int] == all[i as int]);
                    assert(decreases_to!(j@ => j@->Arr_0));
                    assert(decreases_to!(w => w[i as int]));
                }
                let v = write_value(&a[i]);
                let ghost before = out@;
                out.push(v);
                proof {
                    assert(all.take(i as int + 1).drop_last() =~= all.take(i as int));
                    assert(out@.map_values(|x: serde_json::Value| held(x)) =~= before.map_values(
                        |x: serde_json::Value| held(x),
                    ).push(held(v)));
                }
                i += 1;
            }
            assert(all.take(all.len() as int) =~= all);
            close_value(Part::Arr(out))
        },
        Json::Obj(o) => {
            let mut out: Vec<(String, serde_json::Value)> = Vec::new();
            let ghost all = fields(o@);
            proof {
                fields_index(o@);
            }
            let mut i: usize = 0;
            assert(all.take(0) =~= Seq::empty());
            assert(out@.map_values(|p: (String, serde_json::Value)| (p.0@, held(p.1))) =~= Seq::empty());
            while i < o.len()
                invariant
                    i <= o@.len(),
                    j == Json::Obj(*o),
                    all == fields(o@),
                    all.len() == o@.len(),
                    forall|k: int| 0 <= k < o@.len() ==> (#[trigger] all[k]) == (o@[k].0@, value(o@[k].1)),
                    out@.map_values(|p: (String, serde_json::Value)| (p.0@, held(p.1)))
                        == normal_fields(all.take(i as int)),
                decreases o@.len() - i,
            {
                proof {
                    let w = j@->Obj_0;
                    assert(w[i as int] == all[i as int]);
                    assert(decreases_to!(j@ => j@->Obj_0));
                    assert(decreases_to!(w => w[i as int]));
                    assert(decreases_to!(w[i as int] => w[i as int].1));
                }
                let v = write_value(&o[i].1);
                let ghost before = out@;
                let k = o[i].0.clone();
                out.push((k, v));
                proof {
                    assert(all.take(i as int + 1).drop_last() =~= all.take(i as int));
                    assert(out@.map_values(|p: (String, serde_json::Value)| (p.0@, held(p.1)))
                        =~= before.map_values(|p: (String, serde_json::Value)| (p.0@, held(p.1))).push(
                        (k@, held(v)),
                    ));
                }
                i += 1;
            }
            assert(all.take(all.len() as int) =~= all);
            close_value(Part::Obj(out))
        },
    }
}

/// The document on one line.
pub fn to_text(j: &Json) -> (r: String)
    ensures
        r@ == compact_text(normal(j@)),
{
    let v = write_value(j);
    value_to_string(&v)
}

/// The document on indented lines.
pub fn to_pretty_text(j: &Json) -> (r: String)
    ensures
        r@ == pretty_text(normal(j@)),
{
    let v = write_value(j);
    value_to_string_pretty(&v)
}

// ---- making documents ------------------------------------------------------------

/// The entries of an object to begin with.
pub open spec fn no_entries() -> Seq<(Seq<char>, JsonView)> {
    Seq::empty()
}

/// A whole number as a value.
pub open spec fn number(n: nat) -> JsonView {
    JsonView::Num(digits::dec(n))
}

/// A text as a value; null where there is none.
pub open spec fn text_or_null(o: Option<Seq<char>>) -> JsonView {
    match o {
        Some(t) => JsonView::Str(t),
        None => JsonView::Null,
    }
}

/// Texts as a list.
pub open spec fn text_list(v: Seq<Seq<char>>) -> JsonView {
    JsonView::Arr(v.map_values(|t: Seq<char>| JsonView::Str(t)))
}

/// Adds an entry to the entries of an object.
pub fn put(o: &mut Vec<(String, Json)>, key: &str, j: Json)
    ensures
        fields(final(o)@) == fields(old(o)@).push((key@, j@)),
{
    let k = key.to_owned();
    proof {
        fields_push(o@, k, j);
    }
    o.push((k, j));
}

/// Adds a text to the entries of an object.
pub fn put_text(o: &mut Vec<(String, Json)>, key: &str, t: &str)
    ensures
        fields(final(o)@) == fields(old(o)@).push((key@, JsonView::Str(t@))),
{
    put(o, key, Json::Str(t.to_owned()));
}

/// Adds a whole number to the entries of an object.
pub fn put_number(o: &mut Vec<(String, Json)>, key: &str, n: u64)
    ensures
        fields(final(o)@) == fields(old(o)@).push((key@, number(n as nat))),
{
    put(o, key, Json::Num(digits::u64_to_string(n)));
}

/// Adds a text that may be missing to the entries of an object.
pub fn put_opt(o: &mut Vec<(String, Json)>, key: &str, t: &Option<String>)
    ensures
        fields(final(o)@) == fields(old(o)@).push((key@, text_or_null(text::opt_view(*t)))),
{
    match t {
        Some(s) => put_text(o, key, s),
        None => put(o, key, Json::Null),
    }
}

/// Texts as a list.
pub fn list_of_texts(v: &Vec<String>) -> (r: Json)
    ensures
        r@ == text_list(text::views(v@)),
{
    let ghost want = text::views(v@).map_values(|t: Seq<char>| JsonView::Str(t));
    let mut out: Vec<Json> = Vec::new();
    assert(want.take(0) =~= Seq::empty());
    let mut i: usize = 0;
    while i < v.len()
        invariant
            i <= v@.len(),
            want == text::views(v@).map_values(|t: Seq<char>| JsonView::Str(t)),
            values(out@) == want.take(i as int),
        decreases v@.len() - i,
    {
        let j = Json::Str(v[i].clone());
        proof {
            values_push(out@, j);
            assert(text::views(v@)[i as int] == v@[i as int]@);
            assert(want.take(i + 1) =~= want.take(i as int).push(want[i as int]));
        }
        out.push(j);
        i += 1;
    }
    assert(want.take(want.len() as int) =~= want);
    Json::Arr(out)
}

/// No entries yet.
pub fn no_fields() -> (r: Vec<(String, Json)>)
    ensures
        fields(r@) == no_entries(),
{
    Vec::new()
}

} // verus!

//! A tagged JSON value, its mathematical model, and the queries the
//! rendering pipeline makes of it.

use vstd::prelude::*;

verus! {

/// A JSON value. Object members keep the order in which they were read.
#[derive(Debug)]
pub enum Json {
    Null,
    Bool(bool),
    /// A number, held as its canonical decimal text.
    Number(String),
    Str(String),
    Array(Vec<Json>),
    Object(Vec<(String, Json)>),
}

/// The model of a `Json` value.
pub enum JsonV {
    Null,
    Bool(bool),
    Number(Seq<char>),
    Str(Seq<char>),
    Array(Seq<JsonV>),
    Object(Seq<(Seq<char>, JsonV)>),
}

pub open spec fn items_view(items: Vec<Json>, n: nat) -> Seq<JsonV>
    decreases items, n,
{
    if n == 0 || n > items.len() {
        Seq::empty()
    } else {
        items_view(items, (n - 1) as nat).push(items[n - 1].view_of())
    }
}

pub open spec fn members_view(members: Vec<(String, Json)>, n: nat) -> Seq<(Seq<char>, JsonV)>
    decreases members, n,
{
    if n == 0 || n > members.len() {
        Seq::empty()
    } else {
        members_view(members, (n - 1) as nat).push(
            (members[n - 1].0@, members[n - 1].1.view_of()),
        )
    }
}

impl Json {
    pub open spec fn view_of(self) -> JsonV
        decreases self, 0nat,
    {
        match self {
            Json::Null => JsonV::Null,
            Json::Bool(b) => JsonV::Bool(b),
            Json::Number(n) => JsonV::Number(n@),
            Json::Str(s) => JsonV::Str(s@),
            Json::Array(items) => JsonV::Array(items_view(items, items.len() as nat)),
            Json::Object(members) => JsonV::Object(members_view(members, members.len() as nat)),
        }
    }
}

impl View for Json {
    type V = JsonV;

    open spec fn view(&self) -> JsonV {
        self.view_of()
    }
}


/// The value under the first member named `k`, among the first `n` members.
pub open spec fn lookup_upto(m: Seq<(Seq<char>, JsonV)>, k: Seq<char>, n: nat) -> Option<JsonV>
    decreases n,
{
    if n == 0 || n > m.len() {
        None
    } else {
        match lookup_upto(m, k, (n - 1) as nat) {
            Some(x) => Some(x),
            None => if m[n - 1].0 == k {
                Some(m[n - 1].1)
            } else {
                None
            },
        }
    }
}

/// The value under the first member named `k`.
pub open spec fn lookup(m: Seq<(Seq<char>, JsonV)>, k: Seq<char>) -> Option<JsonV> {
    lookup_upto(m, k, m.len())
}

/// The member `k` of an object; nothing for any other value.
pub open spec fn field(v: JsonV, k: Seq<char>) -> Option<JsonV> {
    match v {
        JsonV::Object(m) => lookup(m, k),
        _ => None,
    }
}

pub open spec fn opt_view(r: Option<&Json>) -> Option<JsonV> {
    match r {
        Some(x) => Some(x@),
        None => None,
    }
}

pub proof fn lemma_items_view(items: Vec<Json>, n: nat)
    requires
        n <= items.len(),
    ensures
        items_view(items, n).len() == n,
        forall|j: int| 0 <= j < n ==> #[trigger] items_view(items, n)[j] == items[j]@,
    decreases n,
{
    if n > 0 {
        lemma_items_view(items, (n - 1) as nat);
    }
}

pub proof fn lemma_members_view(members: Vec<(String, Json)>, n: nat)
    requires
        n <= members.len(),
    ensures
        members_view(members, n).len() == n,
        forall|j: int|
            0 <= j < n ==> #[trigger] members_view(members, n)[j] == (
                members[j].0@,
                members[j].1@,
            ),
    decreases n,
{
    if n > 0 {
        lemma_members_view(members, (n - 1) as nat);
    }
}

/// The model of an object is the sequence of its members' models.
pub proof fn lemma_object_view(members: Vec<(String, Json)>)
    ensures
        Json::Object(members)@ == JsonV::Object(
            members@.map_values(|e: (String, Json)| (e.0@, e.1@)),
        ),
{
    lemma_members_view(members, members.len() as nat);
    assert(members_view(members, members.len() as nat) =~= members@.map_values(
        |e: (String, Json)| (e.0@, e.1@),
    ));
}

/// The model of an array is the sequence of its items' models.
pub proof fn lemma_array_view(items: Vec<Json>)
    ensures
        Json::Array(items)@ == JsonV::Array(items@.map_values(|e: Json| e@)),
{
    lemma_items_view(items, items.len() as nat);
    assert(items_view(items, items.len() as nat) =~= items@.map_values(|e: Json| e@));
}

pub proof fn lemma_lookup_found(m: Seq<(Seq<char>, JsonV)>, k: Seq<char>, i: nat, n: nat)
    requires
        i < n <= m.len(),
        lookup_upto(m, k, i) is None,
        m[i as int].0 == k,
    ensures
        lookup_upto(m, k, n) == Some(m[i as int].1),
    decreases n,
{
    if n > i + 1 {
        lemma_lookup_found(m, k, i, (n - 1) as nat);
    }
}

/// Relies on `str == str` of std: equality of the characters.
#[verifier::external_body]
pub(crate) fn str_eq(a: &str, b: &str) -> (r: bool)
    ensures
        r == (a@ == b@),
{
    a == b
}

impl Json {
    /// The member `key` of an object (the first one, should the name repeat);
    /// `None` for a value that is not an object.
    pub fn get(&self, key: &str) -> (r: Option<&Json>)
        ensures
            opt_view(r) == field(self@, key@),
    {
        match self {
            Json::Object(members) => {
                proof {
                    lemma_members_view(*members, members.len() as nat);
                }
                let ghost mv = members_view(*members, members.len() as nat);
                let mut i: usize = 0;
                while i < members.len()
                    invariant
                        i <= members.len(),
                        mv == members_view(*members, members.len() as nat),
                        mv.len() == members.len(),
                        forall|j: int| 0 <= j < members.len() ==> #[trigger] mv[j] == (members[j].0@, members[j].1@),
                        lookup_upto(mv, key@, i as nat) is None,
                        *self == Json::Object(*members),
                    decreases members.len() - i,
                {
                    if str_eq(members[i].0.as_str(), key) {
                        proof {
                            lemma_lookup_found(mv, key@, i as nat, mv.len());
                        }
                        return Some(&members[i].1);
                    }
                    i = i + 1;
                }
                None
            },
            _ => None,
        }
    }
}


/// A hexadecimal digit, in lower case.
pub open spec fn hex_digit(d: int) -> char {
    if d == 0 { '0' } else if d == 1 { '1' } else if d == 2 { '2' } else if d == 3 { '3' }
    else if d == 4 { '4' } else if d == 5 { '5' } else if d == 6 { '6' } else if d == 7 { '7' }
    else if d == 8 { '8' } else if d == 9 { '9' } else if d == 10 { 'a' } else if d == 11 { 'b' }
    else if d == 12 { 'c' } else if d == 13 { 'd' } else if d == 14 { 'e' } else { 'f' }
}

/// How one character stands in a JSON string literal: the quote and the
/// backslash escaped, the five named control characters as `\b \t \n \f \r`,
/// the other control characters as `\u00xx`, and anything else as itself.
pub open spec fn json_escape_char(c: char) -> Seq<char> {
    let x = c as int;
    if c == '"' {
        seq!['\\', '"']
    } else if c == '\\' {
        seq!['\\', '\\']
    } else if x == 8 {
        seq!['\\', 'b']
    } else if x == 9 {
        seq!['\\', 't']
    } else if x == 10 {
        seq!['\\', 'n']
    } else if x == 12 {
        seq!['\\', 'f']
    } else if x == 13 {
        seq!['\\', 'r']
    } else if x < 32 {
        seq!['\\', 'u', '0', '0', hex_digit(x / 16), hex_digit(x % 16)]
    } else {
        seq![c]
    }
}

/// The escaped characters of `s`.
pub open spec fn json_escaped(s: Seq<char>) -> Seq<char>
    decreases s.len(),
{
    if s.len() == 0 {
        Seq::empty()
    } else {
        json_escaped(s.drop_last()) + json_escape_char(s.last())
    }
}

/// The JSON string literal for the characters `s`: quotes and escapes included.
pub open spec fn json_quoted(s: Seq<char>) -> Seq<char> {
    seq!['"'] + json_escaped(s) + seq!['"']
}

/// Relies on `serde_json::to_string` on a string slice, which writes the
/// literal with the escapes of its table (`ser.rs`, `format_escaped_str`)
/// and cannot fail on a `str`.
#[verifier::external_body]
fn quote_json_string(s: &str) -> (r: String)
    ensures
        r@ == json_quoted(s@),
{
    serde_json::to_string(s).unwrap_or_default()
}

/// The compact JSON text of a value: no whitespace, members in their order.
pub open spec fn json_text(v: JsonV) -> Seq<char>
    decreases v, 0nat,
{
    match v {
        JsonV::Null => "null"@,
        JsonV::Bool(b) => bool_text(b),
        JsonV::Number(n) => n,
        JsonV::Str(s) => json_quoted(s),
        JsonV::Array(items) => "["@ + items_text(items, items.len()) + "]"@,
        JsonV::Object(m) => "{"@ + members_text(m, m.len()) + "}"@,
    }
}

/// The texts of the first `n` items, separated by commas.
pub open spec fn items_text(items: Seq<JsonV>, n: nat) -> Seq<char>
    decreases items, n,
{
    if n == 0 || n > items.len() {
        Seq::empty()
    } else if n == 1 {
        json_text(items[0])
    } else {
        items_text(items, (n - 1) as nat) + ","@ + json_text(items[n - 1])
    }
}

/// The first `n` members as `"name":value`, separated by commas.
pub open spec fn members_text(m: Seq<(Seq<char>, JsonV)>, n: nat) -> Seq<char>
    decreases m, n,
{
    if n == 0 || n > m.len() {
        Seq::empty()
    } else if n == 1 {
        member_text(m[0].0, m[0].1)
    } else {
        members_text(m, (n - 1) as nat) + ","@ + member_text(m[n - 1].0, m[n - 1].1)
    }
}

pub open spec fn member_text(k: Seq<char>, v: JsonV) -> Seq<char>
    decreases v, 1nat,
{
    json_quoted(k) + ":"@ + json_text(v)
}

pub open spec fn bool_text(b: bool) -> Seq<char> {
    if b {
        "true"@
    } else {
        "false"@
    }
}

/// The display form of a value: a string without quotes, a boolean or a
/// number as written, `null`, and the JSON text of an array or an object.
pub open spec fn display(v: JsonV) -> Seq<char> {
    match v {
        JsonV::Str(s) => s,
        _ => json_text(v),
    }
}

impl Json {
    /// A copy of the value.
    pub fn duplicate(&self) -> (r: Json)
        ensures
            r@ == self@,
        decreases self,
    {
        match self {
            Json::Null => Json::Null,
            Json::Bool(b) => Json::Bool(*b),
            Json::Number(n) => Json::Number(n.clone()),
            Json::Str(s) => Json::Str(s.clone()),
            Json::Array(items) => {
                let mut out: Vec<Json> = Vec::new();
                let mut i: usize = 0;
                while i < items.len()
                    invariant
                        i <= items.len(),
                        out.len() == i,
                        *self == Json::Array(*items),
                        forall|j: int| 0 <= j < i ==> #[trigger] out[j]@ == items[j]@,
                    decreases items.len() - i,
                {
                    proof {
                        vstd::std_specs::vec::axiom_vec_index_decreases(*items, i as int);
                        assert(decreases_to!(*self => (*self)->Array_0));
                        assert(decreases_to!(*items => items[i as int]));
                    }
                    let c = items[i].duplicate();
                    out.push(c);
                    i = i + 1;
                }
                proof {
                    lemma_items_view(*items, items.len() as nat);
                    lemma_items_view(out, out.len() as nat);
                    assert(items_view(out, out.len() as nat) =~= items_view(*items, items.len() as nat));
                }
                Json::Array(out)
            },
            Json::Object(members) => {
                let mut out: Vec<(String, Json)> = Vec::new();
                let mut i: usize = 0;
                while i < members.len()
                    invariant
                        i <= members.len(),
                        out.len() == i,
                        *self == Json::Object(*members),
                        forall|j: int| 0 <= j < i ==> #[trigger] out[j].0@ == members[j].0@ && out[j].1@ == members[j].1@,
                    decreases members.len() - i,
                {
                    proof {
                        vstd::std_specs::vec::axiom_vec_index_decreases(*members, i as int);
                        assert(decreases_to!(*self => (*self)->Object_0));
                        assert(decreases_to!(*members => members[i as int]));
                        assert(decreases_to!(members[i as int] => members[i as int].1));
                    }
                    let c = members[i].1.duplicate();
                    out.push((members[i].0.clone(), c));
                    i = i + 1;
                }
                proof {
                    lemma_members_view(*members, members.len() as nat);
                    lemma_members_view(out, out.len() as nat);
                    assert(members_view(out, out.len() as nat) =~= members_view(*members, members.len() as nat));
                }
                Json::Object(out)
            },
        }
    }

    /// The compact JSON text of the value.
    pub fn to_json_text(&self) -> (r: String)
        ensures
            r@ == json_text(self@),
        decreases self,
    {
        match self {
            Json::Null => "null".to_string(),
            Json::Bool(b) => bool_string(*b),
            Json::Number(n) => n.clone(),
            Json::Str(s) => quote_json_string(s.as_str()),
            Json::Array(items) => {
                proof {
                    lemma_items_view(*items, items.len() as nat);
                }
                let ghost iv = items_view(*items, items.len() as nat);
                let mut out = "[".to_string();
                let mut i: usize = 0;
                while i < items.len()
                    invariant
                        i <= items.len(),
                        iv.len() == items.len(),
                        *self == Json::Array(*items),
                        forall|j: int| 0 <= j < items.len() ==> #[trigger] iv[j] == items[j]@,
                        out@ == "["@ + items_text(iv, i as nat),
                    decreases items.len() - i,
                {
                    proof {
                        vstd::std_specs::vec::axiom_vec_index_decreases(*items, i as int);
                        assert(decreases_to!(*self => (*self)->Array_0));
                        assert(decreases_to!(*items => items[i as int]));
                    }
                    if i > 0 {
                        out.append(",");
                    }
                    let t = items[i].to_json_text();
                    out.append(t.as_str());
                    proof {
                        assert(iv[i as int] == items[i as int]@);
                        if i == 0 {
                            assert(out@ =~= "["@ + items_text(iv, 1));
                        } else {
                            assert(out@ =~= "["@ + items_text(iv, (i + 1) as nat));
                        }
                    }
                    i = i + 1;
                }
                out.append("]");
                out
            },
            Json::Object(members) => {
                proof {
                    lemma_members_view(*members, members.len() as nat);
                }
                let ghost mv = members_view(*members, members.len() as nat);
                let mut out = "{".to_string();
                let mut i: usize = 0;
                while i < members.len()
                    invariant
                        i <= members.len(),
                        mv.len() == members.len(),
                        *self == Json::Object(*members),
                        forall|j: int| 0 <= j < members.len() ==> #[trigger] mv[j] == (members[j].0@, members[j].1@),
                        out@ == "{"@ + members_text(mv, i as nat),
                    decreases members.len() - i,
                {
                    proof {
                        vstd::std_specs::vec::axiom_vec_index_decreases(*members, i as int);
                        assert(decreases_to!(*self => (*self)->Object_0));
                        assert(decreases_to!(*members => members[i as int]));
                        assert(decreases_to!(members[i as int] => members[i as int].1));
                    }
                    if i > 0 {
                        out.append(",");
                    }
                    let k = quote_json_string(members[i].0.as_str());
                    out.append(k.as_str());
                    out.append(":");
                    let t = members[i].1.to_json_text();
                    out.append(t.as_str());
                    proof {
                        assert(mv[i as int] == (members[i as int].0@, members[i as int].1@));
                        if i == 0 {
                            assert(members_text(mv, 1) == member_text(mv[0].0, mv[0].1));
                            assert(members_text(mv, 0) =~= Seq::<char>::empty());
                            assert(out@ =~= "{"@ + members_text(mv, 1));
                        } else {
                            assert(members_text(mv, (i + 1) as nat) == members_text(mv, i as nat) + ","@ + member_text(mv[i as int].0, mv[i as int].1));
                            assert(out@ =~= "{"@ + members_text(mv, (i + 1) as nat));
                        }
                    }
                    i = i + 1;
                }
                out.append("}");
                out
            },
        }
    }

    /// The display form of the value (see `display`).
    pub fn display_string(&self) -> (r: String)
        ensures
            r@ == display(self@),
    {
        match self {
            Json::Str(s) => s.clone(),
            _ => self.to_json_text(),
        }
    }
}

pub fn bool_string(b: bool) -> (r: String)
    ensures
        r@ == bool_text(b),
{
    if b {
        "true".to_string()
    } else {
        "false".to_string()
    }
}

} // verus!

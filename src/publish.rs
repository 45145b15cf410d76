//! The publish protocol: an idempotent create-or-update of a page by title
//! in a remote document store. This module decides; the caller performs
//! each remote call that it asks for and hands back what came of it.

use vstd::prelude::*;
use crate::json::{field, items_view, lemma_array_view, lemma_items_view, lemma_object_view, opt_view, Json, JsonV};
use crate::text::{chars_of, decimal, push_decimal_u64};

verus! {

/// The store connection settings as they are kept per server.
#[derive(Debug)]
pub struct DbConfluenceConfig {
    pub base_url: String,
    pub username: String,
    pub api_token: String,
    pub space_key: String,
    pub parent_page: String,
}

/// The settings of the document store: where it is, who signs in, the
/// space pages go to, and the title of the default parent page (empty for
/// none).
#[derive(Debug)]
pub struct ConfluenceConfig {
    pub base_url: String,
    pub email: String,
    pub api_token: String,
    pub space_key: String,
    pub parent_page: String,
}

impl ConfluenceConfig {
    /// The settings from a stored configuration: the user name signs in.
    pub fn from_db(db_config: DbConfluenceConfig) -> (r: Self)
        ensures
            r.base_url@ == db_config.base_url@,
            r.email@ == db_config.username@,
            r.api_token@ == db_config.api_token@,
            r.space_key@ == db_config.space_key@,
            r.parent_page@ == db_config.parent_page@,
    {
        ConfluenceConfig {
            base_url: db_config.base_url,
            email: db_config.username,
            api_token: db_config.api_token,
            space_key: db_config.space_key,
            parent_page: db_config.parent_page,
        }
    }
}

/// `s` without the slashes at its end.
pub open spec fn trim_slashes(s: Seq<char>) -> Seq<char>
    decreases s.len(),
{
    if s.len() > 0 && s.last() == '/' {
        trim_slashes(s.drop_last())
    } else {
        s
    }
}

/// `s` without the slashes at its end.
pub fn trim_trailing_slashes(s: &str) -> (r: String)
    ensures
        r@ == trim_slashes(s@),
{
    let cs = chars_of(s);
    let mut n: usize = cs.len();
    assert(cs@.subrange(0, cs.len() as int) =~= cs@);
    while n > 0 && cs[n - 1] == '/'
        invariant
            n <= cs.len(),
            cs@ == s@,
            trim_slashes(s@) == trim_slashes(cs@.subrange(0, n as int)),
        decreases n,
    {
        assert(cs@.subrange(0, n as int).drop_last() =~= cs@.subrange(0, n - 1));
        n = n - 1;
    }
    let mut out = String::new();
    let mut i: usize = 0;
    while i < n
        invariant
            i <= n <= cs.len(),
            out@ == cs@.subrange(0, i as int),
        decreases n - i,
    {
        crate::text::push_char(&mut out, cs[i]);
        assert(out@ =~= cs@.subrange(0, i + 1));
        i = i + 1;
    }
    assert(n == 0 || cs@.subrange(0, n as int).last() != '/');
    out
}

/// The address of the content collection of the store.
pub open spec fn content_url_text(base: Seq<char>) -> Seq<char> {
    trim_slashes(base) + "/wiki/rest/api/content"@
}

/// The value of a numeral of decimal digits.
pub open spec fn digits_value(s: Seq<char>) -> nat
    decreases s.len(),
{
    if s.len() == 0 {
        0
    } else {
        digits_value(s.drop_last()) * 10 + digit_value(s.last())
    }
}

pub open spec fn is_digit(c: char) -> bool {
    '0' <= c && c <= '9'
}

pub open spec fn digit_value(c: char) -> nat {
    (c as u32 - '0' as u32) as nat
}

/// The unsigned 64-bit integer that a JSON number denotes, if it is one:
/// digits only, and no larger than `u64::MAX`.
pub open spec fn u64_of(v: JsonV) -> Option<u64> {
    match v {
        JsonV::Number(t) => if t.len() > 0 && (forall|i: int| 0 <= i < t.len() ==> is_digit(#[trigger] t[i]))
            && digits_value(t) <= u64::MAX {
            Some(digits_value(t) as u64)
        } else {
            None
        },
        _ => None,
    }
}

/// The unsigned 64-bit integer that a JSON number denotes, if it is one.
pub fn read_u64(v: &Json) -> (r: Option<u64>)
    ensures
        r == u64_of(v@),
{
    let text = match v {
        Json::Number(t) => t,
        _ => return None,
    };
    let cs = chars_of(text.as_str());
    if cs.len() == 0 {
        return None;
    }
    let mut value: u64 = 0;
    let mut i: usize = 0;
    while i < cs.len()
        invariant
            i <= cs.len(),
            cs@ == text@,
            *v == Json::Number(*text),
            forall|j: int| 0 <= j < i ==> is_digit(#[trigger] cs@[j]),
            value as nat == digits_value(cs@.subrange(0, i as int)),
        decreases cs.len() - i,
    {
        let c = cs[i];
        if !('0' <= c && c <= '9') {
            assert(!is_digit(text@[i as int]));
            return None;
        }
        let d = (c as u32 - '0' as u32) as u64;
        assert(cs@.subrange(0, i + 1).drop_last() =~= cs@.subrange(0, i as int));
        assert(cs@.subrange(0, i + 1).last() == c);
        assert(digits_value(cs@.subrange(0, i + 1)) == value * 10 + d);
        if value > (u64::MAX - d) / 10 {
            proof {
                let m = u64::MAX as int;
                let vi = value as int;
                let di = d as int;
                assert(vi * 10 + di > m) by (nonlinear_arith)
                    requires
                        vi > (m - di) / 10,
                        0 <= di <= 9,
                        m == 0xffff_ffff_ffff_ffffint,
                ;
                lemma_digits_grow(cs@, (i + 1) as nat);
            }
            return None;
        }
        value = value * 10 + d;
        i = i + 1;
    }
    assert(cs@.subrange(0, cs.len() as int) =~= cs@);
    Some(value)
}

/// A longer prefix of digits never denotes less.
proof fn lemma_digits_grow(s: Seq<char>, n: nat)
    requires
        n <= s.len(),
    ensures
        digits_value(s.subrange(0, n as int)) <= digits_value(s),
    decreases s.len() - n,
{
    if n < s.len() {
        lemma_digits_grow(s, n + 1);
        assert(s.subrange(0, (n + 1) as int).drop_last() =~= s.subrange(0, n as int));
    } else {
        assert(s.subrange(0, n as int) =~= s);
    }
}


/// The body member of a page payload, in the storage (XHTML) format that
/// the renderers produce.
pub open spec fn storage_body_v(body: Seq<char>) -> JsonV {
    JsonV::Object(
        seq![
            (
                "storage"@,
                JsonV::Object(
                    seq![("value"@, JsonV::Str(body)), ("representation"@, JsonV::Str("storage"@))],
                ),
            ),
        ],
    )
}

/// The payload that creates a page, under `ancestor` where one is given.
pub open spec fn create_payload_v(
    title: Seq<char>,
    space: Seq<char>,
    body: Seq<char>,
    ancestor: Option<Seq<char>>,
) -> JsonV {
    let base = seq![
        ("type"@, JsonV::Str("page"@)),
        ("title"@, JsonV::Str(title)),
        ("space"@, JsonV::Object(seq![("key"@, JsonV::Str(space))])),
        ("body"@, storage_body_v(body)),
    ];
    match ancestor {
        Some(id) => JsonV::Object(
            base.push(
                (
                    "ancestors"@,
                    JsonV::Array(seq![JsonV::Object(seq![("id"@, JsonV::Str(id))])]),
                ),
            ),
        ),
        None => JsonV::Object(base),
    }
}

/// The payload that sets a page's content and version.
pub open spec fn update_payload_v(title: Seq<char>, version: u64, body: Seq<char>) -> JsonV {
    JsonV::Object(
        seq![
            ("type"@, JsonV::Str("page"@)),
            ("title"@, JsonV::Str(title)),
            ("version"@, JsonV::Object(seq![("number"@, JsonV::Number(decimal(version as nat)))])),
            ("body"@, storage_body_v(body)),
        ],
    )
}

fn text(s: &str) -> (r: Json)
    ensures
        r@ == JsonV::Str(s@),
{
    Json::Str(s.to_owned())
}

fn object1(k: &str, v: Json) -> (r: Json)
    ensures
        r@ == JsonV::Object(seq![(k@, v@)]),
{
    let members = vec![(k.to_owned(), v)];
    proof {
        lemma_object_view(members);
        assert(members@.map_values(|e: (String, Json)| (e.0@, e.1@)) =~= seq![(k@, v@)]);
    }
    Json::Object(members)
}

fn storage_body(body: &str) -> (r: Json)
    ensures
        r@ == storage_body_v(body@),
{
    let members = vec![("value".to_owned(), text(body)), ("representation".to_owned(), text("storage"))];
    proof {
        lemma_object_view(members);
        assert(members@.map_values(|e: (String, Json)| (e.0@, e.1@)) =~= seq![
            ("value"@, JsonV::Str(body@)),
            ("representation"@, JsonV::Str("storage"@)),
        ]);
    }
    let inner = Json::Object(members);
    object1("storage", inner)
}

/// The payload that creates the page `title` with `body` in `space_key`,
/// as a child of the page `ancestor` where one is given.
pub fn create_payload(title: &str, space_key: &str, body: &str, ancestor: Option<&str>) -> (r: Json)
    ensures
        r@ == create_payload_v(
            title@,
            space_key@,
            body@,
            match ancestor {
                Some(a) => Some(a@),
                None => None,
            },
        ),
{
    let mut members = vec![
        ("type".to_owned(), text("page")),
        ("title".to_owned(), text(title)),
        ("space".to_owned(), object1("key", text(space_key))),
        ("body".to_owned(), storage_body(body)),
    ];
    let ghost base = members@.map_values(|e: (String, Json)| (e.0@, e.1@));
    match ancestor {
        Some(id) => {
            let items = vec![object1("id", text(id))];
            proof {
                lemma_array_view(items);
                assert(items@.map_values(|e: Json| e@) =~= seq![JsonV::Object(seq![("id"@, JsonV::Str(id@))])]);
            }
            members.push(("ancestors".to_owned(), Json::Array(items)));
        },
        None => {},
    }
    proof {
        lemma_object_view(members);
        assert(members@.map_values(|e: (String, Json)| (e.0@, e.1@)) =~= create_payload_v(
            title@,
            space_key@,
            body@,
            match ancestor {
                Some(a) => Some(a@),
                None => None,
            },
        )->Object_0);
    }
    Json::Object(members)
}

/// The payload that sets the page `title` to `body` at `version`.
pub fn update_payload(title: &str, version: u64, body: &str) -> (r: Json)
    ensures
        r@ == update_payload_v(title@, version, body@),
{
    let mut number = String::new();
    push_decimal_u64(&mut number, version);
    let members = vec![
        ("type".to_owned(), text("page")),
        ("title".to_owned(), text(title)),
        ("version".to_owned(), object1("number", Json::Number(number))),
        ("body".to_owned(), storage_body(body)),
    ];
    proof {
        lemma_object_view(members);
        assert(members@.map_values(|e: (String, Json)| (e.0@, e.1@)) =~= update_payload_v(
            title@,
            version,
            body@,
        )->Object_0);
    }
    Json::Object(members)
}


/// The remote call that an answer or an error belongs to.
#[derive(Clone, Copy, Debug, PartialEq, Eq, Structural)]
pub enum Call {
    Search,
    Create,
    Update,
}

/// Why a publish failed.
#[derive(Debug)]
pub enum PublishError {
    /// The store answered with a status outside the success range.
    Remote { call: Call, status: u16, body: String },
    /// The store's answer did not have the expected shape.
    Decode(Call),
    /// The call could not be made or its answer not read.
    Transport { call: Call, message: String },
    /// The parent page named by title does not exist in the space.
    ParentNotFound { parent: String, space: String },
    /// The page already has the largest version there is.
    VersionOverflow,
    /// An answer came that the protocol was not waiting for.
    UnexpectedAnswer,
}

/// What came of one remote call: the status, the body as text and, where
/// the text is JSON, as a value; or the reason it could not be made.
#[derive(Debug)]
pub enum Answer {
    Received { status: u16, text: String, body: Option<Json> },
    Unreachable(String),
}

/// What a successful creation or update returns: the page identifier and
/// the path of its web page relative to the wiki, where the store gives one.
#[derive(Debug)]
pub struct PageInfo {
    pub id: String,
    pub webui: Option<String>,
}

/// The outcome of a publish.
#[derive(Debug)]
pub struct PublishResult {
    pub page_id: String,
    pub web_url: String,
    pub version: u64,
}

pub open spec fn is_success(status: u16) -> bool {
    200 <= status <= 299
}

/// An optional string member: `Some(None)` where it is missing or null,
/// `None` where it is something else than a string.
pub open spec fn opt_string(v: Option<JsonV>) -> Option<Option<Seq<char>>> {
    match v {
        None => Some(None),
        Some(JsonV::Null) => Some(None),
        Some(JsonV::Str(s)) => Some(Some(s)),
        _ => None,
    }
}

/// The version of a search result: `Some(None)` where it is missing or
/// null, `None` where it is malformed.
pub open spec fn version_of(r: JsonV) -> Option<Option<u64>> {
    match field(r, "version"@) {
        None => Some(None),
        Some(JsonV::Null) => Some(None),
        Some(o) => match field(o, "number"@) {
            Some(n) => match u64_of(n) {
                Some(x) => Some(Some(x)),
                None => None,
            },
            None => None,
        },
    }
}

/// A well-formed search result: an object with a string `id` and a
/// well-formed version.
pub open spec fn result_ok(r: JsonV) -> bool {
    &&& field(r, "id"@) matches Some(JsonV::Str(_))
    &&& version_of(r) is Some
}

/// What a search answer's body says: the first page found, with its
/// version (1 where it has none), or none; `None` where it is malformed.
pub open spec fn search_results(body: JsonV) -> Option<Option<(Seq<char>, u64)>> {
    match field(body, "results"@) {
        Some(JsonV::Array(rs)) => if forall|i: int| 0 <= i < rs.len() ==> #[trigger] result_ok(rs[i]) {
            if rs.len() == 0 {
                Some(None)
            } else {
                Some(
                    Some(
                        (
                            field(rs[0], "id"@)->0->Str_0,
                            match version_of(rs[0])->0 {
                                Some(v) => v,
                                None => 1u64,
                            },
                        ),
                    ),
                )
            }
        } else {
            None
        },
        _ => None,
    }
}

/// What a creation or update answer's body says; `None` where it is malformed.
pub open spec fn page_info_of(body: JsonV) -> Option<(Seq<char>, Option<Seq<char>>)> {
    match field(body, "id"@) {
        Some(JsonV::Str(id)) => {
            let links = field(body, "_links"@);
            match links {
                None => Some((id, None)),
                Some(JsonV::Null) => Some((id, None)),
                Some(JsonV::Object(_)) => match opt_string(field(links->0, "webui"@)) {
                    Some(w) => Some((id, w)),
                    None => None,
                },
                _ => None,
            }
        },
        _ => None,
    }
}

fn read_opt_string(v: Option<&Json>) -> (r: Result<Option<String>, ()>)
    ensures
        match r {
            Ok(Some(s)) => opt_string(opt_view(v)) == Some(Some(s@)),
            Ok(None) => opt_string(opt_view(v)) == Some(None::<Seq<char>>),
            Err(_) => opt_string(opt_view(v)) is None,
        },
{
    match v {
        None => Ok(None),
        Some(Json::Null) => Ok(None),
        Some(Json::Str(s)) => Ok(Some(s.clone())),
        _ => Err(()),
    }
}

fn read_version(r: &Json) -> (v: Result<Option<u64>, ()>)
    ensures
        match v {
            Ok(x) => version_of(r@) == Some(x),
            Err(_) => version_of(r@) is None,
        },
{
    match r.get("version") {
        None => Ok(None),
        Some(Json::Null) => Ok(None),
        Some(o) => match o.get("number") {
            Some(n) => match read_u64(n) {
                Some(x) => Ok(Some(x)),
                None => Err(()),
            },
            None => Err(()),
        },
    }
}

/// Reads the body of a search answer, as `search_results` states it.
pub fn read_search_results(body: &Json) -> (r: Option<Option<(String, u64)>>)
    ensures
        match r {
            Some(Some((id, v))) => search_results(body@) == Some(Some((id@, v))),
            Some(None) => search_results(body@) == Some(None::<(Seq<char>, u64)>),
            None => search_results(body@) is None,
        },
{
    let rs = match body.get("results") {
        Some(Json::Array(rs)) => rs,
        _ => return None,
    };
    proof {
        lemma_items_view(*rs, rs.len() as nat);
    }
    let ghost rv = items_view(*rs, rs.len() as nat);
    let mut first: Option<(String, u64)> = None;
    let mut i: usize = 0;
    while i < rs.len()
        invariant
            i <= rs.len(),
            rv.len() == rs.len(),
            field(body@, "results"@) == Some(JsonV::Array(rv)),
            forall|j: int| 0 <= j < rs.len() ==> #[trigger] rv[j] == rs[j]@,
            forall|j: int| 0 <= j < i ==> #[trigger] result_ok(rv[j]),
            i == 0 ==> first is None,
            i > 0 ==> (first matches Some((id, v)) && field(rv[0], "id"@) == Some(JsonV::Str(id@))
                && v == match version_of(rv[0])->0 {
                Some(x) => x,
                None => 1u64,
            }),
        decreases rs.len() - i,
    {
        assert(rv[i as int] == rs[i as int]@);
        let id = match rs[i].get("id") {
            Some(Json::Str(s)) => s,
            _ => {
                assert(!result_ok(rv[i as int]));
                return None;
            },
        };
        let version = match read_version(&rs[i]) {
            Ok(v) => v,
            Err(_) => {
                assert(!result_ok(rv[i as int]));
                return None;
            },
        };
        if i == 0 {
            let v = match version {
                Some(x) => x,
                None => 1,
            };
            first = Some((id.clone(), v));
        }
        i = i + 1;
    }
    Some(first)
}

/// Reads the body of a creation or update answer, as `page_info_of` states it.
pub fn read_page_info(body: &Json) -> (r: Option<PageInfo>)
    ensures
        match r {
            Some(info) => page_info_of(body@) == Some(
                (
                    info.id@,
                    match info.webui {
                        Some(w) => Some(w@),
                        None => None,
                    },
                ),
            ),
            None => page_info_of(body@) is None,
        },
{
    let id = match body.get("id") {
        Some(Json::Str(s)) => s.clone(),
        _ => return None,
    };
    let webui = match body.get("_links") {
        None => None,
        Some(Json::Null) => None,
        Some(links) => match links {
            Json::Object(_) => match read_opt_string(links.get("webui")) {
                Ok(w) => w,
                Err(_) => return None,
            },
            _ => return None,
        },
    };
    Some(PageInfo { id, webui })
}

/// The result of a search call: the first page found and its version,
/// none where the store answers "not found" or finds nothing.
pub open spec fn search_outcome(a: Answer) -> Option<Option<(Seq<char>, u64)>> {
    match a {
        Answer::Received { status, text, body } => if status == 404 {
            Some(None)
        } else if !is_success(status) {
            None
        } else {
            match body {
                Some(b) => search_results(b@),
                None => None,
            }
        },
        Answer::Unreachable(_) => None,
    }
}

/// Reads the answer of a search. A "not found" status is no error; any
/// other status outside the success range is a remote error carrying the
/// status and the text; a body that does not read is a decode error.
pub fn interpret_search(answer: Answer) -> (r: Result<Option<(String, u64)>, PublishError>)
    ensures
        match answer {
            Answer::Unreachable(m) => r == Err::<Option<(String, u64)>, PublishError>(
                PublishError::Transport { call: Call::Search, message: m },
            ),
            Answer::Received { status, text, body } => if status != 404 && !is_success(status) {
                r == Err::<Option<(String, u64)>, PublishError>(
                    PublishError::Remote { call: Call::Search, status, body: text },
                )
            } else {
                match r {
                    Ok(Some((id, v))) => search_outcome(answer) == Some(Some((id@, v))),
                    Ok(None) => search_outcome(answer) == Some(None::<(Seq<char>, u64)>),
                    Err(e) => search_outcome(answer) is None && e == PublishError::Decode(
                        Call::Search,
                    ),
                }
            },
        },
{
    match answer {
        Answer::Unreachable(m) => Err(PublishError::Transport { call: Call::Search, message: m }),
        Answer::Received { status, text, body } => {
            if status == 404 {
                return Ok(None);
            }
            if !(200 <= status && status <= 299) {
                return Err(PublishError::Remote { call: Call::Search, status, body: text });
            }
            match body {
                Some(b) => match read_search_results(&b) {
                    Some(found) => Ok(found),
                    None => Err(PublishError::Decode(Call::Search)),
                },
                None => Err(PublishError::Decode(Call::Search)),
            }
        },
    }
}

/// What a creation or update answer says; `None` where it is an error.
pub open spec fn write_outcome(a: Answer) -> Option<(Seq<char>, Option<Seq<char>>)> {
    match a {
        Answer::Received { status, text, body } => if !is_success(status) {
            None
        } else {
            match body {
                Some(b) => page_info_of(b@),
                None => None,
            }
        },
        Answer::Unreachable(_) => None,
    }
}

/// Reads the answer of a creation or an update (`call`). A status outside
/// the success range is a remote error carrying the status and the text; a
/// body that does not read is a decode error.
pub fn interpret_write(answer: Answer, call: Call) -> (r: Result<PageInfo, PublishError>)
    ensures
        match answer {
            Answer::Unreachable(m) => r == Err::<PageInfo, PublishError>(
                PublishError::Transport { call, message: m },
            ),
            Answer::Received { status, text, body } => if !is_success(status) {
                r == Err::<PageInfo, PublishError>(PublishError::Remote { call, status, body: text })
            } else {
                match r {
                    Ok(info) => write_outcome(answer) == Some(
                        (
                            info.id@,
                            match info.webui {
                                Some(w) => Some(w@),
                                None => None,
                            },
                        ),
                    ),
                    Err(e) => write_outcome(answer) is None && e == PublishError::Decode(call),
                }
            },
        },
{
    match answer {
        Answer::Unreachable(m) => Err(PublishError::Transport { call, message: m }),
        Answer::Received { status, text, body } => {
            if !(200 <= status && status <= 299) {
                return Err(PublishError::Remote { call, status, body: text });
            }
            match body {
                Some(b) => match read_page_info(&b) {
                    Some(info) => Ok(info),
                    None => Err(PublishError::Decode(call)),
                },
                None => Err(PublishError::Decode(call)),
            }
        },
    }
}

/// The address of a page: the store's own path under the wiki where it
/// gives one, else the page's place in its space.
pub open spec fn web_url_text(base: Seq<char>, space: Seq<char>, id: Seq<char>, webui: Option<Seq<char>>) -> Seq<char> {
    match webui {
        Some(path) => trim_slashes(base) + "/wiki"@ + path,
        None => trim_slashes(base) + "/wiki/spaces/"@ + space + "/pages/"@ + id,
    }
}

/// The address of a page, as `web_url_text` states it.
pub fn build_web_url(base_url: &str, space_key: &str, info: &PageInfo) -> (r: String)
    ensures
        r@ == web_url_text(
            base_url@,
            space_key@,
            info.id@,
            match info.webui {
                Some(w) => Some(w@),
                None => None,
            },
        ),
{
    let mut out = trim_trailing_slashes(base_url);
    match &info.webui {
        Some(path) => {
            out.append("/wiki");
            out.append(path.as_str());
        },
        None => {
            out.append("/wiki/spaces/");
            out.append(space_key);
            out.append("/pages/");
            out.append(info.id.as_str());
        },
    }
    out
}


/// The page a new page goes under: none, one named by title (looked up
/// in the space first), or one given by identifier.
#[derive(Debug)]
pub enum ParentRef {
    NoParent,
    Title(String),
    Id(String),
}

pub enum ParentV {
    NoParent,
    Title(Seq<char>),
    Id(Seq<char>),
}

impl View for ParentRef {
    type V = ParentV;

    open spec fn view(&self) -> ParentV {
        match self {
            ParentRef::NoParent => ParentV::NoParent,
            ParentRef::Title(t) => ParentV::Title(t@),
            ParentRef::Id(i) => ParentV::Id(i@),
        }
    }
}

/// Where a publish stands: which answer it waits for.
#[derive(Clone, Copy, Debug, PartialEq, Eq, Structural)]
pub enum Phase {
    /// Waiting for the search of the page's own title.
    FindPage,
    /// Waiting for the search of the parent's title.
    FindParent,
    /// Waiting for the creation.
    Create,
    /// Waiting for the update to `version`.
    Update { version: u64 },
    /// Finished or failed.
    Done,
}

/// One publish of a page: what to publish, where, and how far it has come.
#[derive(Debug)]
pub struct PublishSession {
    pub title: String,
    pub body: String,
    pub parent: ParentRef,
    pub base_url: String,
    pub space_key: String,
    pub phase: Phase,
}

/// What the caller is to do next.
#[derive(Debug)]
pub enum Action {
    /// Look up a page by title: a GET of `url` with `query`.
    Search { url: String, query: Vec<(String, String)>, title: String },
    /// Create a page: a POST of `payload` to `url`.
    Create { url: String, payload: Json, ancestor: Option<String> },
    /// Update a page: a PUT of `payload` to `url`.
    Update { url: String, payload: Json, page_id: String, version: u64 },
    /// The page is published.
    Finish(PublishResult),
    /// The publish failed.
    Fail(PublishError),
}

/// The decision an action stands for.
pub enum Step {
    Search(Seq<char>),
    Create(Option<Seq<char>>),
    Update(Seq<char>, u64),
    Finish(Seq<char>, Seq<char>, u64),
    Fail,
}

pub open spec fn opt_text(o: Option<String>) -> Option<Seq<char>> {
    match o {
        Some(s) => Some(s@),
        None => None,
    }
}

pub open spec fn search_query(title: Seq<char>, space: Seq<char>) -> Seq<(Seq<char>, Seq<char>)> {
    seq![("title"@, title), ("spaceKey"@, space), ("expand"@, "version"@)]
}

impl Action {
    pub open spec fn step(self) -> Step {
        match self {
            Action::Search { url, query, title } => Step::Search(title@),
            Action::Create { url, payload, ancestor } => Step::Create(opt_text(ancestor)),
            Action::Update { url, payload, page_id, version } => Step::Update(page_id@, version),
            Action::Finish(r) => Step::Finish(r.page_id@, r.web_url@, r.version),
            Action::Fail(_) => Step::Fail,
        }
    }

    /// The action's address and payload are those of the session's page.
    pub open spec fn fits(self, s: PublishSession) -> bool {
        match self {
            Action::Search { url, query, title } => url@ == content_url_text(s.base_url@)
                && query@.map_values(|q: (String, String)| (q.0@, q.1@)) == search_query(
                title@,
                s.space_key@,
            ),
            Action::Create { url, payload, ancestor } => url@ == content_url_text(s.base_url@)
                && payload@ == create_payload_v(s.title@, s.space_key@, s.body@, opt_text(ancestor)),
            Action::Update { url, payload, page_id, version } => url@ == content_url_text(
                s.base_url@,
            ) + "/"@ + page_id@ && payload@ == update_payload_v(s.title@, version, s.body@),
            _ => true,
        }
    }
}

pub open spec fn found_view(f: Option<(String, u64)>) -> Option<(Seq<char>, u64)> {
    match f {
        Some((id, v)) => Some((id@, v)),
        None => None,
    }
}

/// After the search of the page's own title: update a page that exists
/// to the next version; otherwise create it, after looking up a parent
/// named by title.
pub open spec fn after_page_search(found: Option<(Seq<char>, u64)>, parent: ParentV) -> Step {
    match found {
        Some((id, v)) => if v < u64::MAX {
            Step::Update(id, (v + 1) as u64)
        } else {
            Step::Fail
        },
        None => match parent {
            ParentV::NoParent => Step::Create(None),
            ParentV::Id(p) => Step::Create(Some(p)),
            ParentV::Title(t) => Step::Search(t),
        },
    }
}

/// After the search of the parent's title: create the page under it, or
/// fail where there is no such parent.
pub open spec fn after_parent_search(found: Option<(Seq<char>, u64)>) -> Step {
    match found {
        Some((id, _)) => Step::Create(Some(id)),
        None => Step::Fail,
    }
}

/// The phase that waits for the answer to a step.
pub open spec fn phase_after(step: Step) -> Phase {
    match step {
        Step::Search(_) => Phase::FindParent,
        Step::Create(_) => Phase::Create,
        Step::Update(_, v) => Phase::Update { version: v },
        _ => Phase::Done,
    }
}

impl PublishSession {
    /// A session waits for a parent search only where the parent is named
    /// by title.
    pub open spec fn wf(self) -> bool {
        self.phase == Phase::FindParent ==> self.parent@ is Title
    }

    /// The session's page and destination are those of `other`.
    pub open spec fn same_page(self, other: PublishSession) -> bool {
        &&& self.title@ == other.title@
        &&& self.body@ == other.body@
        &&& self.parent@ == other.parent@
        &&& self.base_url@ == other.base_url@
        &&& self.space_key@ == other.space_key@
    }

    /// A publish of `title` with `body` into the configured space, under
    /// `parent`.
    pub fn new(config: &ConfluenceConfig, title: &str, body: &str, parent: ParentRef) -> (r: Self)
        ensures
            r.title@ == title@,
            r.body@ == body@,
            r.parent@ == parent@,
            r.base_url@ == config.base_url@,
            r.space_key@ == config.space_key@,
            r.phase == Phase::FindPage,
            r.wf(),
    {
        PublishSession {
            title: title.to_owned(),
            body: body.to_owned(),
            parent,
            base_url: config.base_url.clone(),
            space_key: config.space_key.clone(),
            phase: Phase::FindPage,
        }
    }

    /// A publish under the configured parent page, or under none where the
    /// configuration names none.
    pub fn under_configured_parent(config: &ConfluenceConfig, title: &str, body: &str) -> (r: Self)
        ensures
            r.title@ == title@,
            r.body@ == body@,
            r.parent@ == if config.parent_page@.len() == 0 {
                ParentV::NoParent
            } else {
                ParentV::Title(config.parent_page@)
            },
            r.base_url@ == config.base_url@,
            r.space_key@ == config.space_key@,
            r.phase == Phase::FindPage,
            r.wf(),
    {
        let parent = if config.parent_page.as_str().unicode_len() == 0 {
            ParentRef::NoParent
        } else {
            ParentRef::Title(config.parent_page.clone())
        };
        PublishSession::new(config, title, body, parent)
    }

    fn search_action(&self, title: &str) -> (a: Action)
        ensures
            a.step() == Step::Search(title@),
            a.fits(*self),
    {
        let query = vec![
            ("title".to_owned(), title.to_owned()),
            ("spaceKey".to_owned(), self.space_key.clone()),
            ("expand".to_owned(), "version".to_owned()),
        ];
        assert(query@.map_values(|q: (String, String)| (q.0@, q.1@)) =~= search_query(
            title@,
            self.space_key@,
        ));
        Action::Search {
            url: content_url(self.base_url.as_str()),
            query,
            title: title.to_owned(),
        }
    }

    fn create_action(&self, ancestor: Option<String>) -> (a: Action)
        ensures
            a.step() == Step::Create(opt_text(ancestor)),
            a.fits(*self),
    {
        let payload = match &ancestor {
            Some(id) => create_payload(self.title.as_str(), self.space_key.as_str(), self.body.as_str(), Some(id.as_str())),
            None => create_payload(self.title.as_str(), self.space_key.as_str(), self.body.as_str(), None),
        };
        Action::Create { url: content_url(self.base_url.as_str()), payload, ancestor }
    }

    /// The first action of a publish: the search of the page's title.
    pub fn start(&self) -> (a: Action)
        ensures
            a.step() == Step::Search(self.title@),
            a.fits(*self),
    {
        self.search_action(self.title.as_str())
    }

    /// Takes the result of the search that the session waits for and says
    /// what to do next.
    pub fn on_search(&mut self, found: Result<Option<(String, u64)>, PublishError>) -> (a: Action)
        requires
            old(self).wf(),
        ensures
            final(self).wf(),
            final(self).same_page(*old(self)),
            a.fits(*final(self)),
            match (old(self).phase, found) {
                (Phase::FindPage, Ok(f)) => {
                    &&& a.step() == after_page_search(found_view(f), old(self).parent@)
                    &&& final(self).phase == phase_after(a.step())
                    &&& (f matches Some((_, v)) && v == u64::MAX) ==> a matches Action::Fail(
                        PublishError::VersionOverflow,
                    )
                },
                (Phase::FindParent, Ok(f)) => {
                    &&& a.step() == after_parent_search(found_view(f))
                    &&& final(self).phase == phase_after(a.step())
                    &&& f is None ==> (a matches Action::Fail(
                        PublishError::ParentNotFound { parent, space },
                    ) && old(self).parent@ == ParentV::Title(parent@) && space@
                        == old(self).space_key@)
                },
                (Phase::FindPage, Err(e)) => a == Action::Fail(e) && final(self).phase == Phase::Done,
                (Phase::FindParent, Err(e)) => a == Action::Fail(e) && final(self).phase
                    == Phase::Done,
                _ => a matches Action::Fail(PublishError::UnexpectedAnswer) && final(self).phase
                    == Phase::Done,
            },
    {
        let phase = self.phase;
        match phase {
            Phase::FindPage => {},
            Phase::FindParent => {},
            _ => {
                self.phase = Phase::Done;
                return Action::Fail(PublishError::UnexpectedAnswer);
            },
        }
        let f = match found {
            Ok(f) => f,
            Err(e) => {
                self.phase = Phase::Done;
                return Action::Fail(e);
            },
        };
        match phase {
            Phase::FindPage => match f {
                Some((id, v)) => {
                    if v == u64::MAX {
                        self.phase = Phase::Done;
                        return Action::Fail(PublishError::VersionOverflow);
                    }
                    let version = v + 1;
                    self.phase = Phase::Update { version };
                    let payload = update_payload(self.title.as_str(), version, self.body.as_str());
                    let url = page_url(self.base_url.as_str(), id.as_str());
                    Action::Update { url, payload, page_id: id, version }
                },
                None => {
                    let ancestor = match &self.parent {
                        ParentRef::NoParent => None,
                        ParentRef::Id(p) => Some(p.clone()),
                        ParentRef::Title(t) => {
                            self.phase = Phase::FindParent;
                            let t2 = t.clone();
                            return self.search_action(t2.as_str());
                        },
                    };
                    self.phase = Phase::Create;
                    self.create_action(ancestor)
                },
            },
            _ => match f {
                Some((id, _)) => {
                    self.phase = Phase::Create;
                    self.create_action(Some(id))
                },
                None => {
                    self.phase = Phase::Done;
                    let parent = match &self.parent {
                        ParentRef::Title(t) => t.clone(),
                        ParentRef::Id(i) => i.clone(),
                        ParentRef::NoParent => String::new(),
                    };
                    Action::Fail(PublishError::ParentNotFound { parent, space: self.space_key.clone() })
                },
            },
        }
    }

    /// Takes the result of the creation or update that the session waits
    /// for and says what to do next: report the page, or fail.
    pub fn on_write(&mut self, written: Result<PageInfo, PublishError>) -> (a: Action)
        ensures
            final(self).wf(),
            final(self).same_page(*old(self)),
            final(self).phase == Phase::Done,
            match (old(self).phase, written) {
                (Phase::Create, Ok(info)) => a.step() == Step::Finish(
                    info.id@,
                    web_url_text(old(self).base_url@, old(self).space_key@, info.id@, opt_text(info.webui)),
                    1,
                ),
                (Phase::Update { version }, Ok(info)) => a.step() == Step::Finish(
                    info.id@,
                    web_url_text(old(self).base_url@, old(self).space_key@, info.id@, opt_text(info.webui)),
                    version,
                ),
                (Phase::Create, Err(e)) => a == Action::Fail(e),
                (Phase::Update { version }, Err(e)) => a == Action::Fail(e),
                _ => a matches Action::Fail(PublishError::UnexpectedAnswer),
            },
    {
        let phase = self.phase;
        self.phase = Phase::Done;
        let version = match phase {
            Phase::Create => 1,
            Phase::Update { version } => version,
            _ => return Action::Fail(PublishError::UnexpectedAnswer),
        };
        match written {
            Ok(info) => {
                let web_url = build_web_url(self.base_url.as_str(), self.space_key.as_str(), &info);
                Action::Finish(PublishResult { page_id: info.id, web_url, version })
            },
            Err(e) => Action::Fail(e),
        }
    }
}

/// The address of the content collection: searches and creations go there.
pub fn content_url(base_url: &str) -> (r: String)
    ensures
        r@ == content_url_text(base_url@),
{
    let mut out = trim_trailing_slashes(base_url);
    out.append("/wiki/rest/api/content");
    out
}

/// The address of one page: updates go there.
pub fn page_url(base_url: &str, page_id: &str) -> (r: String)
    ensures
        r@ == content_url_text(base_url@) + "/"@ + page_id@,
{
    let mut out = content_url(base_url);
    out.append("/");
    out.append(page_id);
    out
}

/// A page of the store's space, as a value.
pub struct PageV {
    pub title: Seq<char>,
    pub id: Seq<char>,
    pub version: u64,
    pub body: Seq<char>,
}

/// The index of the first of the first `n` pages titled `title`.
pub open spec fn first_titled(pages: Seq<PageV>, title: Seq<char>, n: nat) -> Option<int>
    decreases n,
{
    if n == 0 || n > pages.len() {
        None
    } else {
        match first_titled(pages, title, (n - 1) as nat) {
            Some(i) => Some(i),
            None => if pages[n - 1].title == title {
                Some(n - 1)
            } else {
                None
            },
        }
    }
}

/// What a search of `title` answers: the first page with that title and
/// its version.
pub open spec fn search_space(pages: Seq<PageV>, title: Seq<char>) -> Option<(Seq<char>, u64)> {
    match first_titled(pages, title, pages.len()) {
        Some(i) => Some((pages[i].id, pages[i].version)),
        None => None,
    }
}

/// The space after the store carried out `step` for the page `title` with
/// `body`: a creation adds a page with the identifier `fresh` at version 1;
/// an update sets the version and body of the page with its identifier.
pub open spec fn apply_step(
    pages: Seq<PageV>,
    title: Seq<char>,
    body: Seq<char>,
    step: Step,
    fresh: Seq<char>,
) -> Seq<PageV> {
    match step {
        Step::Create(_) => pages.push(PageV { title, id: fresh, version: 1, body }),
        Step::Update(id, v) => pages.map_values(
            |p: PageV|
                if p.id == id {
                    PageV { title: p.title, id: p.id, version: v, body }
                } else {
                    p
                },
        ),
        _ => pages,
    }
}

/// The space after one publish of `title` with `body` and no parent: the
/// search answers from the space, the step is the one `on_search` takes on
/// that answer (`after_page_search`), and the store carries it out.
pub open spec fn publish_effect(
    pages: Seq<PageV>,
    title: Seq<char>,
    body: Seq<char>,
    fresh: Seq<char>,
) -> Seq<PageV> {
    apply_step(pages, title, body, after_page_search(search_space(pages, title), ParentV::NoParent), fresh)
}

/// No page of the space has the identifier `id`.
pub open spec fn id_unused(pages: Seq<PageV>, id: Seq<char>) -> bool {
    forall|i: int| 0 <= i < pages.len() ==> #[trigger] pages[i].id != id
}

/// No page of the space has the title `title`.
pub open spec fn title_unused(pages: Seq<PageV>, title: Seq<char>) -> bool {
    forall|i: int| 0 <= i < pages.len() ==> #[trigger] pages[i].title != title
}

/// Exactly one page of the space, the one at `i`, has the title `title`.
pub open spec fn only_page_titled(pages: Seq<PageV>, title: Seq<char>, i: int) -> bool {
    &&& 0 <= i < pages.len()
    &&& pages[i].title == title
    &&& forall|j: int| 0 <= j < pages.len() && #[trigger] pages[j].title == title ==> j == i
}

proof fn lemma_first_titled_none(pages: Seq<PageV>, title: Seq<char>, n: nat)
    requires
        n <= pages.len(),
        title_unused(pages, title),
    ensures
        first_titled(pages, title, n) is None,
    decreases n,
{
    if n > 0 {
        lemma_first_titled_none(pages, title, (n - 1) as nat);
    }
}

proof fn lemma_first_titled_only(pages: Seq<PageV>, title: Seq<char>, i: int, n: nat)
    requires
        only_page_titled(pages, title, i),
        i < n <= pages.len(),
    ensures
        first_titled(pages, title, n) == Some(i),
    decreases n,
{
    if n > i + 1 {
        lemma_first_titled_only(pages, title, i, (n - 1) as nat);
    } else {
        lemma_first_titled_none_below(pages, title, i, i as nat);
    }
}

proof fn lemma_first_titled_none_below(pages: Seq<PageV>, title: Seq<char>, i: int, n: nat)
    requires
        only_page_titled(pages, title, i),
        n <= i,
    ensures
        first_titled(pages, title, n) is None,
    decreases n,
{
    if n > 0 {
        lemma_first_titled_none_below(pages, title, i, (n - 1) as nat);
    }
}

/// Publishing a new title, and then the same title again, leaves exactly
/// one page with that title: the first publish creates it at version 1,
/// the second keeps its identifier, raises its version by one and sets
/// its body, and adds no page.
pub proof fn lemma_publish_twice(
    pages: Seq<PageV>,
    title: Seq<char>,
    body1: Seq<char>,
    body2: Seq<char>,
    fresh1: Seq<char>,
    fresh2: Seq<char>,
)
    requires
        title_unused(pages, title),
        id_unused(pages, fresh1),
    ensures
        ({
            let once = publish_effect(pages, title, body1, fresh1);
            let twice = publish_effect(once, title, body2, fresh2);
            let i = pages.len() as int;
            &&& only_page_titled(once, title, i)
            &&& once[i] == PageV { title, id: fresh1, version: 1, body: body1 }
            &&& twice.len() == once.len()
            &&& only_page_titled(twice, title, i)
            &&& twice[i] == PageV { title, id: fresh1, version: 2, body: body2 }
        }),
{
    let i = pages.len() as int;
    lemma_first_titled_none(pages, title, pages.len());
    let once = publish_effect(pages, title, body1, fresh1);
    assert(once == pages.push(PageV { title, id: fresh1, version: 1, body: body1 }));
    assert forall|j: int| 0 <= j < once.len() && #[trigger] once[j].title == title implies j == i by {
        if j < i {
            assert(once[j] == pages[j]);
        }
    }
    lemma_first_titled_only(once, title, i, once.len());
    assert(search_space(once, title) == Some((fresh1, 1u64)));
    let twice = publish_effect(once, title, body2, fresh2);
    assert forall|j: int| 0 <= j < twice.len() && #[trigger] twice[j].title == title implies j == i by {
        if j < i {
            assert(once[j] == pages[j]);
            assert(pages[j].id != fresh1);
            assert(twice[j] == once[j]);
        }
    }
}

/// Publishing two different new titles, the store giving each new page an
/// identifier that no page has yet, gives two distinct pages: one per
/// title, with distinct identifiers.
pub proof fn lemma_distinct_titles(
    pages: Seq<PageV>,
    title1: Seq<char>,
    title2: Seq<char>,
    body1: Seq<char>,
    body2: Seq<char>,
    fresh1: Seq<char>,
    fresh2: Seq<char>,
)
    requires
        title1 != title2,
        title_unused(pages, title1),
        title_unused(pages, title2),
        id_unused(pages, fresh1),
        id_unused(publish_effect(pages, title1, body1, fresh1), fresh2),
    ensures
        ({
            let after = publish_effect(
                publish_effect(pages, title1, body1, fresh1),
                title2,
                body2,
                fresh2,
            );
            let i = pages.len() as int;
            &&& after.len() == pages.len() + 2
            &&& only_page_titled(after, title1, i)
            &&& only_page_titled(after, title2, i + 1)
            &&& after[i].id == fresh1
            &&& after[i + 1].id == fresh2
            &&& fresh1 != fresh2
        }),
{
    let i = pages.len() as int;
    lemma_first_titled_none(pages, title1, pages.len());
    let once = publish_effect(pages, title1, body1, fresh1);
    assert(once == pages.push(PageV { title: title1, id: fresh1, version: 1, body: body1 }));
    assert(title_unused(once, title2)) by {
        assert forall|j: int| 0 <= j < once.len() implies #[trigger] once[j].title != title2 by {
            if j < i {
                assert(once[j] == pages[j]);
            }
        }
    }
    lemma_first_titled_none(once, title2, once.len());
    let after = publish_effect(once, title2, body2, fresh2);
    assert(after == once.push(PageV { title: title2, id: fresh2, version: 1, body: body2 }));
    assert(once[i].id == fresh1);
    assert forall|j: int| 0 <= j < after.len() && #[trigger] after[j].title == title1 implies j == i by {
        if j < i {
            assert(after[j] == pages[j]);
        }
    }
    assert forall|j: int| 0 <= j < after.len() && #[trigger] after[j].title == title2 implies j == i + 1 by {
        if j < i {
            assert(after[j] == pages[j]);
        }
    }
}

} // verus!

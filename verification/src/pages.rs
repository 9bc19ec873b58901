//! The typed wire contract of the remote page listing: what a response body
//! must hold, and the decoder from a JSON text to the typed records.
//!
//! A page carries its id, title and owning user always; every other field
//! is optional on the wire and decodes to an absence value, never an error,
//! when missing or null. A present field of the wrong shape is an error:
//! the body is then incompatible with the contract.

use vstd::prelude::*;
use crate::json::{JVal, JsonValue, jobj, jseq, jview, parse_json, sp_json};
use crate::text::str_chars;

verus! {

/// One page of the remote project, as the wire carries it.
#[derive(Clone, PartialEq, Eq, Debug)]
pub struct Page {
    pub id: String,
    pub title: String,
    pub image: Option<String>,
    pub descriptions: Option<Vec<String>>,
    pub user_id: String,
    pub last_editor_id: Option<String>,
    pub pin: Option<i64>,
    pub views: Option<i64>,
    pub linked: Option<i64>,
    pub created: Option<i64>,
    pub updated: Option<i64>,
    pub accessed: Option<i64>,
    pub lines_count: Option<i64>,
    pub chars_count: Option<i64>,
    pub helpfeels: Option<Vec<String>>,
}

/// The mathematical shape of a page.
pub struct PageV {
    pub id: Seq<char>,
    pub title: Seq<char>,
    pub image: Option<Seq<char>>,
    pub descriptions: Option<Seq<Seq<char>>>,
    pub user_id: Seq<char>,
    pub last_editor_id: Option<Seq<char>>,
    pub pin: Option<i64>,
    pub views: Option<i64>,
    pub linked: Option<i64>,
    pub created: Option<i64>,
    pub updated: Option<i64>,
    pub accessed: Option<i64>,
    pub lines_count: Option<i64>,
    pub chars_count: Option<i64>,
    pub helpfeels: Option<Seq<Seq<char>>>,
}

impl DeepView for Page {
    type V = PageV;

    open spec fn deep_view(&self) -> PageV {
        PageV {
            id: self.id@,
            title: self.title@,
            image: self.image.deep_view(),
            descriptions: self.descriptions.deep_view(),
            user_id: self.user_id@,
            last_editor_id: self.last_editor_id.deep_view(),
            pin: self.pin,
            views: self.views,
            linked: self.linked,
            created: self.created,
            updated: self.updated,
            accessed: self.accessed,
            lines_count: self.lines_count,
            chars_count: self.chars_count,
            helpfeels: self.helpfeels.deep_view(),
        }
    }
}

/// One decoded page listing: the project, the pagination window, the total
/// count, and the pages in the order the wire gave them.
#[derive(Clone, PartialEq, Eq, Debug)]
pub struct ExternalPageSet {
    pub project_name: String,
    pub skip: i64,
    pub limit: i64,
    pub count: i64,
    pub pages: Vec<Page>,
}

/// The mathematical shape of a page listing.
pub struct PageSetV {
    pub project_name: Seq<char>,
    pub skip: i64,
    pub limit: i64,
    pub count: i64,
    pub pages: Seq<PageV>,
}

impl DeepView for ExternalPageSet {
    type V = PageSetV;

    open spec fn deep_view(&self) -> PageSetV {
        PageSetV {
            project_name: self.project_name@,
            skip: self.skip,
            limit: self.limit,
            count: self.count,
            pages: self.pages.deep_view(),
        }
    }
}

/// The first member named `k`, if any.
pub open spec fn sp_get(o: Seq<(Seq<char>, JVal)>, k: Seq<char>) -> Option<JVal>
    decreases o.len(),
{
    if o.len() == 0 {
        None
    } else if o[0].0 == k {
        Some(o[0].1)
    } else {
        sp_get(o.drop_first(), k)
    }
}

/// A required text member: its text, or `None` when it is missing or not
/// text.
pub open spec fn sp_req_text(o: Seq<(Seq<char>, JVal)>, k: Seq<char>) -> Option<Seq<char>> {
    match sp_get(o, k) {
        Some(JVal::Text(t)) => Some(t),
        _ => None,
    }
}

/// A required integer member.
pub open spec fn sp_req_int(o: Seq<(Seq<char>, JVal)>, k: Seq<char>) -> Option<i64> {
    match sp_get(o, k) {
        Some(JVal::Int(n)) => Some(n),
        _ => None,
    }
}

/// An optional text member: absent or null is `Some(None)`; a present
/// non-text value is an error.
pub open spec fn sp_opt_text(o: Seq<(Seq<char>, JVal)>, k: Seq<char>) -> Option<
    Option<Seq<char>>,
> {
    match sp_get(o, k) {
        None => Some(None),
        Some(JVal::Null) => Some(None),
        Some(JVal::Text(t)) => Some(Some(t)),
        Some(_) => None,
    }
}

/// An optional integer member: absent or null is `Some(None)`.
pub open spec fn sp_opt_int(o: Seq<(Seq<char>, JVal)>, k: Seq<char>) -> Option<Option<i64>> {
    match sp_get(o, k) {
        None => Some(None),
        Some(JVal::Null) => Some(None),
        Some(JVal::Int(n)) => Some(Some(n)),
        Some(_) => None,
    }
}

/// All elements as texts, in order; `None` when one is not text.
pub open spec fn sp_text_items(a: Seq<JVal>) -> Option<Seq<Seq<char>>>
    decreases a.len(),
{
    if a.len() == 0 {
        Some(Seq::empty())
    } else {
        match (sp_text_items(a.drop_last()), a.last()) {
            (Some(init), JVal::Text(t)) => Some(init.push(t)),
            _ => None,
        }
    }
}

/// An optional list-of-texts member: absent or null is `Some(None)`.
pub open spec fn sp_opt_text_list(o: Seq<(Seq<char>, JVal)>, k: Seq<char>) -> Option<
    Option<Seq<Seq<char>>>,
> {
    match sp_get(o, k) {
        None => Some(None),
        Some(JVal::Null) => Some(None),
        Some(JVal::Arr(a)) => match sp_text_items(a) {
            Some(ts) => Some(Some(ts)),
            None => None,
        },
        Some(_) => None,
    }
}

/// A required user reference: the `id` text of the member's object.
pub open spec fn sp_req_user_id(o: Seq<(Seq<char>, JVal)>, k: Seq<char>) -> Option<Seq<char>> {
    match sp_get(o, k) {
        Some(JVal::Obj(u)) => sp_req_text(u, "id"@),
        _ => None,
    }
}

/// An optional user reference: absent or null is `Some(None)`; a present
/// object must carry an `id` text.
pub open spec fn sp_opt_user_id(o: Seq<(Seq<char>, JVal)>, k: Seq<char>) -> Option<
    Option<Seq<char>>,
> {
    match sp_get(o, k) {
        None => Some(None),
        Some(JVal::Null) => Some(None),
        Some(JVal::Obj(u)) => match sp_req_text(u, "id"@) {
            Some(t) => Some(Some(t)),
            None => None,
        },
        Some(_) => None,
    }
}

/// A page from a decoded value: an object with `id`, `title` and a `user`
/// reference, every other field tolerant of absence.
pub open spec fn sp_page(v: JVal) -> Option<PageV> {
    match v {
        JVal::Obj(o) => {
            let id = sp_req_text(o, "id"@);
            let title = sp_req_text(o, "title"@);
            let user_id = sp_req_user_id(o, "user"@);
            let image = sp_opt_text(o, "image"@);
            let descriptions = sp_opt_text_list(o, "descriptions"@);
            let last_editor_id = sp_opt_user_id(o, "lastUpdateUser"@);
            let pin = sp_opt_int(o, "pin"@);
            let views = sp_opt_int(o, "views"@);
            let linked = sp_opt_int(o, "linked"@);
            let created = sp_opt_int(o, "created"@);
            let updated = sp_opt_int(o, "updated"@);
            let accessed = sp_opt_int(o, "accessed"@);
            let lines_count = sp_opt_int(o, "linesCount"@);
            let chars_count = sp_opt_int(o, "charsCount"@);
            let helpfeels = sp_opt_text_list(o, "helpfeels"@);
            if id is None || title is None || user_id is None || image is None || descriptions
                is None || last_editor_id is None || pin is None || views is None || linked
                is None || created is None || updated is None || accessed is None || lines_count
                is None || chars_count is None || helpfeels is None {
                None
            } else {
                Some(
                    PageV {
                        id: id->0,
                        title: title->0,
                        image: image->0,
                        descriptions: descriptions->0,
                        user_id: user_id->0,
                        last_editor_id: last_editor_id->0,
                        pin: pin->0,
                        views: views->0,
                        linked: linked->0,
                        created: created->0,
                        updated: updated->0,
                        accessed: accessed->0,
                        lines_count: lines_count->0,
                        chars_count: chars_count->0,
                        helpfeels: helpfeels->0,
                    },
                )
            }
        },
        _ => None,
    }
}

/// All elements as pages, in order; `None` when one is not a page.
pub open spec fn sp_pages_items(a: Seq<JVal>) -> Option<Seq<PageV>>
    decreases a.len(),
{
    if a.len() == 0 {
        Some(Seq::empty())
    } else {
        match (sp_pages_items(a.drop_last()), sp_page(a.last())) {
            (Some(init), Some(p)) => Some(init.push(p)),
            _ => None,
        }
    }
}

/// A page listing from a decoded value: an object whose `projectName`,
/// `skip`, `limit`, `count` and `pages` members are all present and well
/// shaped.
pub open spec fn sp_page_set(v: JVal) -> Option<PageSetV> {
    match v {
        JVal::Obj(o) => {
            let name = sp_req_text(o, "projectName"@);
            let skip = sp_req_int(o, "skip"@);
            let limit = sp_req_int(o, "limit"@);
            let count = sp_req_int(o, "count"@);
            let pages = match sp_get(o, "pages"@) {
                Some(JVal::Arr(a)) => sp_pages_items(a),
                _ => None,
            };
            if name is None || skip is None || limit is None || count is None || pages is None {
                None
            } else {
                Some(
                    PageSetV {
                        project_name: name->0,
                        skip: skip->0,
                        limit: limit->0,
                        count: count->0,
                        pages: pages->0,
                    },
                )
            }
        },
        _ => None,
    }
}

/// What a response body denotes: a page listing exactly when the body is
/// one well-formed JSON value of the listing's shape.
pub open spec fn sp_decode_page_set(s: Seq<char>) -> Option<PageSetV> {
    match sp_json(s) {
        Some(v) => sp_page_set(v),
        None => None,
    }
}

/// The first member named `k`, mirroring `sp_get`.
fn obj_get<'a>(m: &'a Vec<(String, JsonValue)>, k: &str) -> (r: Option<&'a JsonValue>)
    ensures
        match r {
            Some(v) => sp_get(jobj(m@), k@) == Some(jview(*v)),
            None => sp_get(jobj(m@), k@) is None,
        },
{
    let ko: String = k.to_owned();
    let n = m.len();
    let mut i: usize = 0;
    proof {
        assert(jobj(m@).skip(0) =~= jobj(m@));
    }
    while i < n
        invariant
            i <= n,
            n == m@.len(),
            ko@ == k@,
            sp_get(jobj(m@), k@) == sp_get(jobj(m@).skip(i as int), k@),
        decreases n - i,
    {
        proof {
            assert(jobj(m@).skip(i as int)[0] == jobj(m@)[i as int]);
        }
        if m[i].0 == ko {
            return Some(&m[i].1);
        }
        proof {
            assert(jobj(m@).skip(i as int).drop_first() =~= jobj(m@).skip(i as int + 1));
        }
        i += 1;
    }
    proof {
        assert(jobj(m@).skip(n as int) =~= Seq::<(Seq<char>, JVal)>::empty());
    }
    None
}

/// The value as text, if it is text.
fn as_text(v: &JsonValue) -> (r: Option<&String>)
    ensures
        match r {
            Some(t) => jview(*v) == JVal::Text(t@),
            None => !(jview(*v) is Text),
        },
{
    match v {
        JsonValue::Text(t) => Some(t),
        JsonValue::Null => None,
        JsonValue::Bool(_) => None,
        JsonValue::Int(_) => None,
        JsonValue::NonInt => None,
        JsonValue::Array(_) => None,
        JsonValue::Object(_) => None,
    }
}

/// A required text member, mirroring `sp_req_text`.
fn req_text(m: &Vec<(String, JsonValue)>, k: &str) -> (r: Option<String>)
    ensures
        match r {
            Some(t) => sp_req_text(jobj(m@), k@) == Some(t@),
            None => sp_req_text(jobj(m@), k@) is None,
        },
{
    match obj_get(m, k) {
        Some(v) => match as_text(v) {
            Some(t) => Some(t.clone()),
            None => None,
        },
        None => None,
    }
}

/// A required integer member, mirroring `sp_req_int`.
fn req_int(m: &Vec<(String, JsonValue)>, k: &str) -> (r: Option<i64>)
    ensures
        match r {
            Some(n) => sp_req_int(jobj(m@), k@) == Some(n),
            None => sp_req_int(jobj(m@), k@) is None,
        },
{
    match obj_get(m, k) {
        Some(v) => match v {
            JsonValue::Int(n) => Some(*n),
            JsonValue::Null => None,
            JsonValue::Bool(_) => None,
            JsonValue::NonInt => None,
            JsonValue::Text(_) => None,
            JsonValue::Array(_) => None,
            JsonValue::Object(_) => None,
        },
        None => None,
    }
}

/// An optional text member, mirroring `sp_opt_text`.
fn opt_text(m: &Vec<(String, JsonValue)>, k: &str) -> (r: Option<Option<String>>)
    ensures
        match r {
            Some(o) => sp_opt_text(jobj(m@), k@) == Some(o.deep_view()),
            None => sp_opt_text(jobj(m@), k@) is None,
        },
{
    match obj_get(m, k) {
        None => Some(None),
        Some(v) => match v {
            JsonValue::Null => Some(None),
            JsonValue::Text(t) => Some(Some(t.clone())),
            JsonValue::Bool(_) => None,
            JsonValue::Int(_) => None,
            JsonValue::NonInt => None,
            JsonValue::Array(_) => None,
            JsonValue::Object(_) => None,
        },
    }
}

/// An optional integer member, mirroring `sp_opt_int`.
fn opt_int(m: &Vec<(String, JsonValue)>, k: &str) -> (r: Option<Option<i64>>)
    ensures
        match r {
            Some(o) => sp_opt_int(jobj(m@), k@) == Some(o),
            None => sp_opt_int(jobj(m@), k@) is None,
        },
{
    match obj_get(m, k) {
        None => Some(None),
        Some(v) => match v {
            JsonValue::Null => Some(None),
            JsonValue::Int(n) => Some(Some(*n)),
            JsonValue::Bool(_) => None,
            JsonValue::NonInt => None,
            JsonValue::Text(_) => None,
            JsonValue::Array(_) => None,
            JsonValue::Object(_) => None,
        },
    }
}

/// When an element is not text, the whole list is an error.
proof fn lemma_text_items_none(a: Seq<JVal>, k: int)
    requires
        0 <= k < a.len(),
        !(a[k] is Text),
    ensures
        sp_text_items(a) is None,
    decreases a.len(),
{
    if k == a.len() - 1 {
    } else {
        lemma_text_items_none(a.drop_last(), k);
    }
}

/// All elements as texts, mirroring `sp_text_items`.
fn text_items(a: &Vec<JsonValue>) -> (r: Option<Vec<String>>)
    ensures
        match r {
            Some(ts) => sp_text_items(jseq(a@)) == Some(ts.deep_view()),
            None => sp_text_items(jseq(a@)) is None,
        },
{
    let n = a.len();
    let mut out: Vec<String> = Vec::new();
    let mut i: usize = 0;
    while i < n
        invariant
            i <= n,
            n == a@.len(),
            sp_text_items(jseq(a@).take(i as int)) == Some(out.deep_view()),
        decreases n - i,
    {
        proof {
            assert(jseq(a@)[i as int] == jview(a@[i as int]));
        }
        match as_text(&a[i]) {
            Some(t) => {
                let ghost out0 = out.deep_view();
                out.push(t.clone());
                proof {
                    assert(jseq(a@).take(i as int + 1).drop_last() =~= jseq(a@).take(i as int));
                    assert(jseq(a@).take(i as int + 1).last() == jseq(a@)[i as int]);
                    assert(out.deep_view() =~= out0.push(t@));
                }
                i += 1;
            },
            None => {
                proof {
                    lemma_text_items_none(jseq(a@), i as int);
                }
                return None;
            },
        }
    }
    proof {
        assert(jseq(a@).take(n as int) =~= jseq(a@));
    }
    Some(out)
}

/// An optional list-of-texts member, mirroring `sp_opt_text_list`.
fn opt_text_list(m: &Vec<(String, JsonValue)>, k: &str) -> (r: Option<Option<Vec<String>>>)
    ensures
        match r {
            Some(o) => sp_opt_text_list(jobj(m@), k@) == Some(o.deep_view()),
            None => sp_opt_text_list(jobj(m@), k@) is None,
        },
{
    match obj_get(m, k) {
        None => Some(None),
        Some(v) => match v {
            JsonValue::Null => Some(None),
            JsonValue::Array(a) => match text_items(a) {
                Some(ts) => Some(Some(ts)),
                None => None,
            },
            JsonValue::Bool(_) => None,
            JsonValue::Int(_) => None,
            JsonValue::NonInt => None,
            JsonValue::Text(_) => None,
            JsonValue::Object(_) => None,
        },
    }
}

/// A required user reference, mirroring `sp_req_user_id`.
fn req_user_id(m: &Vec<(String, JsonValue)>, k: &str) -> (r: Option<String>)
    ensures
        match r {
            Some(t) => sp_req_user_id(jobj(m@), k@) == Some(t@),
            None => sp_req_user_id(jobj(m@), k@) is None,
        },
{
    match obj_get(m, k) {
        Some(v) => match v {
            JsonValue::Object(u) => req_text(u, "id"),
            JsonValue::Null => None,
            JsonValue::Bool(_) => None,
            JsonValue::Int(_) => None,
            JsonValue::NonInt => None,
            JsonValue::Text(_) => None,
            JsonValue::Array(_) => None,
        },
        None => None,
    }
}

/// An optional user reference, mirroring `sp_opt_user_id`.
fn opt_user_id(m: &Vec<(String, JsonValue)>, k: &str) -> (r: Option<Option<String>>)
    ensures
        match r {
            Some(o) => sp_opt_user_id(jobj(m@), k@) == Some(o.deep_view()),
            None => sp_opt_user_id(jobj(m@), k@) is None,
        },
{
    match obj_get(m, k) {
        None => Some(None),
        Some(v) => match v {
            JsonValue::Null => Some(None),
            JsonValue::Object(u) => match req_text(u, "id") {
                Some(t) => Some(Some(t)),
                None => None,
            },
            JsonValue::Bool(_) => None,
            JsonValue::Int(_) => None,
            JsonValue::NonInt => None,
            JsonValue::Text(_) => None,
            JsonValue::Array(_) => None,
        },
    }
}

/// A page from a decoded value, mirroring `sp_page`.
fn page_from(v: &JsonValue) -> (r: Option<Page>)
    ensures
        match r {
            Some(p) => sp_page(jview(*v)) == Some(p.deep_view()),
            None => sp_page(jview(*v)) is None,
        },
{
    match v {
        JsonValue::Object(m) => {
            let id = match req_text(m, "id") {
                Some(t) => t,
                None => {
                    return None;
                },
            };
            let title = match req_text(m, "title") {
                Some(t) => t,
                None => {
                    return None;
                },
            };
            let user_id = match req_user_id(m, "user") {
                Some(t) => t,
                None => {
                    return None;
                },
            };
            let image = match opt_text(m, "image") {
                Some(o) => o,
                None => {
                    return None;
                },
            };
            let descriptions = match opt_text_list(m, "descriptions") {
                Some(o) => o,
                None => {
                    return None;
                },
            };
            let last_editor_id = match opt_user_id(m, "lastUpdateUser") {
                Some(o) => o,
                None => {
                    return None;
                },
            };
            let pin = match opt_int(m, "pin") {
                Some(o) => o,
                None => {
                    return None;
                },
            };
            let views = match opt_int(m, "views") {
                Some(o) => o,
                None => {
                    return None;
                },
            };
            let linked = match opt_int(m, "linked") {
                Some(o) => o,
                None => {
                    return None;
                },
            };
            let created = match opt_int(m, "created") {
                Some(o) => o,
                None => {
                    return None;
                },
            };
            let updated = match opt_int(m, "updated") {
                Some(o) => o,
                None => {
                    return None;
                },
            };
            let accessed = match opt_int(m, "accessed") {
                Some(o) => o,
                None => {
                    return None;
                },
            };
            let lines_count = match opt_int(m, "linesCount") {
                Some(o) => o,
                None => {
                    return None;
                },
            };
            let chars_count = match opt_int(m, "charsCount") {
                Some(o) => o,
                None => {
                    return None;
                },
            };
            let helpfeels = match opt_text_list(m, "helpfeels") {
                Some(o) => o,
                None => {
                    return None;
                },
            };
            Some(
                Page {
                    id,
                    title,
                    image,
                    descriptions,
                    user_id,
                    last_editor_id,
                    pin,
                    views,
                    linked,
                    created,
                    updated,
                    accessed,
                    lines_count,
                    chars_count,
                    helpfeels,
                },
            )
        },
        JsonValue::Null => None,
        JsonValue::Bool(_) => None,
        JsonValue::Int(_) => None,
        JsonValue::NonInt => None,
        JsonValue::Text(_) => None,
        JsonValue::Array(_) => None,
    }
}

/// When an element is not a page, the whole list is an error.
proof fn lemma_pages_items_none(a: Seq<JVal>, k: int)
    requires
        0 <= k < a.len(),
        sp_page(a[k]) is None,
    ensures
        sp_pages_items(a) is None,
    decreases a.len(),
{
    if k == a.len() - 1 {
    } else {
        lemma_pages_items_none(a.drop_last(), k);
    }
}

/// All elements as pages, mirroring `sp_pages_items`.
fn pages_items(a: &Vec<JsonValue>) -> (r: Option<Vec<Page>>)
    ensures
        match r {
            Some(ps) => sp_pages_items(jseq(a@)) == Some(ps.deep_view()),
            None => sp_pages_items(jseq(a@)) is None,
        },
{
    let n = a.len();
    let mut out: Vec<Page> = Vec::new();
    let mut i: usize = 0;
    while i < n
        invariant
            i <= n,
            n == a@.len(),
            sp_pages_items(jseq(a@).take(i as int)) == Some(out.deep_view()),
        decreases n - i,
    {
        proof {
            assert(jseq(a@)[i as int] == jview(a@[i as int]));
        }
        match page_from(&a[i]) {
            Some(p) => {
                let ghost out0 = out.deep_view();
                let ghost pv = p.deep_view();
                out.push(p);
                proof {
                    assert(jseq(a@).take(i as int + 1).drop_last() =~= jseq(a@).take(i as int));
                    assert(jseq(a@).take(i as int + 1).last() == jseq(a@)[i as int]);
                    assert(out.deep_view() =~= out0.push(pv));
                }
                i += 1;
            },
            None => {
                proof {
                    lemma_pages_items_none(jseq(a@), i as int);
                }
                return None;
            },
        }
    }
    proof {
        assert(jseq(a@).take(n as int) =~= jseq(a@));
    }
    Some(out)
}

/// A page listing from a decoded value, mirroring `sp_page_set`.
fn page_set_from(v: &JsonValue) -> (r: Option<ExternalPageSet>)
    ensures
        match r {
            Some(ps) => sp_page_set(jview(*v)) == Some(ps.deep_view()),
            None => sp_page_set(jview(*v)) is None,
        },
{
    match v {
        JsonValue::Object(m) => {
            let project_name = match req_text(m, "projectName") {
                Some(t) => t,
                None => {
                    return None;
                },
            };
            let skip = match req_int(m, "skip") {
                Some(n) => n,
                None => {
                    return None;
                },
            };
            let limit = match req_int(m, "limit") {
                Some(n) => n,
                None => {
                    return None;
                },
            };
            let count = match req_int(m, "count") {
                Some(n) => n,
                None => {
                    return None;
                },
            };
            let pages = match obj_get(m, "pages") {
                Some(pv) => match pv {
                    JsonValue::Array(a) => match pages_items(a) {
                        Some(ps) => ps,
                        None => {
                            return None;
                        },
                    },
                    JsonValue::Null => {
                        return None;
                    },
                    JsonValue::Bool(_) => {
                        return None;
                    },
                    JsonValue::Int(_) => {
                        return None;
                    },
                    JsonValue::NonInt => {
                        return None;
                    },
                    JsonValue::Text(_) => {
                        return None;
                    },
                    JsonValue::Object(_) => {
                        return None;
                    },
                },
                None => {
                    return None;
                },
            };
            Some(ExternalPageSet { project_name, skip, limit, count, pages })
        },
        JsonValue::Null => None,
        JsonValue::Bool(_) => None,
        JsonValue::Int(_) => None,
        JsonValue::NonInt => None,
        JsonValue::Text(_) => None,
        JsonValue::Array(_) => None,
    }
}

/// Decode a response body, mirroring `sp_decode_page_set`.
pub fn decode_page_set(body: &str) -> (r: Option<ExternalPageSet>)
    ensures
        match r {
            Some(ps) => sp_decode_page_set(body@) == Some(ps.deep_view()),
            None => sp_decode_page_set(body@) is None,
        },
{
    let chars = str_chars(body);
    match parse_json(&chars) {
        Some(v) => page_set_from(&v),
        None => None,
    }
}

} // verus!

//! The messages that frames carry, and their encoding in tagged fields:
//!
//! - `Project { 1: name: string; 2: path: string }`
//! - `Request { oneof payload { 1: ListProjects {} } }`
//! - `Response { 1: status: enum; 2: error: string;
//!               oneof body { 10: ListProjects { 1: projects: repeated Project } } }`
//! - `Update {}`
//!
//! Fields with unknown tags are skipped on decode. Empty strings and a zero
//! status are left out on encode.

use vstd::prelude::*;
use vstd::utf8::{decode_utf8, encode_utf8, valid_utf8};
use crate::wire::{
    field_at, lemma_parse_varint, lemma_parse_varint32, parse_varint32, tag_at, varint_bytes,
    FieldRead,
};

verus! {

/// Field 1, length-delimited, of `Project`: the name.
pub const TAG_PROJECT_NAME: u64 = 10;
/// Field 2, length-delimited, of `Project`: the path.
pub const TAG_PROJECT_PATH: u64 = 18;
/// Field 1, length-delimited, of `ListProjects`: one project.
pub const TAG_LIST_PROJECT: u64 = 10;
/// Field 1, varint, of `Response`: the status.
pub const TAG_RESPONSE_STATUS: u64 = 8;
/// Field 2, length-delimited, of `Response`: the error text.
pub const TAG_RESPONSE_ERROR: u64 = 18;
/// Field 10, length-delimited, of `Response`: the `ListProjects` body.
pub const TAG_RESPONSE_LIST: u64 = 82;
/// Field 1, length-delimited, of `Request`: the `ListProjects` payload.
pub const TAG_REQUEST_LIST: u64 = 10;

/// A project as it travels: a name and a path.
#[derive(PartialEq, Eq, Debug, Clone)]
pub struct WireProject {
    pub name: String,
    pub path: String,
}

/// What a `WireProject` holds.
pub struct ProjectModel {
    pub name: Seq<char>,
    pub path: Seq<char>,
}

impl View for WireProject {
    type V = ProjectModel;

    open spec fn view(&self) -> ProjectModel {
        ProjectModel { name: self.name@, path: self.path@ }
    }
}

/// The status of a response.
#[derive(PartialEq, Eq, Structural, Debug, Clone, Copy)]
pub enum Status {
    Success,
    InternalError,
    NotImplemented,
    /// A value that this side does not know, kept as it came.
    Unknown(u64),
}

pub open spec fn status_code(s: Status) -> u64 {
    match s {
        Status::Success => 0,
        Status::InternalError => 1,
        Status::NotImplemented => 2,
        Status::Unknown(v) => v,
    }
}

pub open spec fn status_of(v: u64) -> Status {
    if v == 0 {
        Status::Success
    } else if v == 1 {
        Status::InternalError
    } else if v == 2 {
        Status::NotImplemented
    } else {
        Status::Unknown(v)
    }
}

/// A status that decoding can give: `Unknown` only holds values beyond the known ones.
pub open spec fn status_wf(s: Status) -> bool {
    s matches Status::Unknown(v) ==> v > 2
}

impl Status {
    pub fn code(&self) -> (r: u64)
        ensures
            r == status_code(*self),
    {
        match self {
            Status::Success => 0,
            Status::InternalError => 1,
            Status::NotImplemented => 2,
            Status::Unknown(v) => *v,
        }
    }

    pub fn from_code(v: u64) -> (r: Status)
        ensures
            r == status_of(v),
    {
        if v == 0 {
            Status::Success
        } else if v == 1 {
            Status::InternalError
        } else if v == 2 {
            Status::NotImplemented
        } else {
            Status::Unknown(v)
        }
    }
}

/// The kinds of request.
#[derive(PartialEq, Eq, Structural, Debug, Clone, Copy)]
pub enum RequestKind {
    ListProjects,
}

/// A request; its payload may be absent, or of a kind this side does not know.
#[derive(PartialEq, Eq, Structural, Debug, Clone, Copy)]
pub struct Request {
    pub payload: Option<RequestKind>,
}

/// A one-way notification; it holds nothing yet.
#[derive(PartialEq, Eq, Structural, Debug, Clone, Copy)]
pub struct Update {}

/// A response: a status, an error text, and the body of a `ListProjects` answer if any.
#[derive(PartialEq, Eq, Debug, Clone)]
pub struct Response {
    pub status: Status,
    pub error: String,
    pub list_projects: Option<Vec<WireProject>>,
}

/// What a `Response` holds.
pub struct ResponseModel {
    pub status: Status,
    pub error: Seq<char>,
    pub list_projects: Option<Seq<ProjectModel>>,
}

pub open spec fn projects_view(v: Seq<WireProject>) -> Seq<ProjectModel> {
    v.map_values(|p: WireProject| p@)
}

impl View for Response {
    type V = ResponseModel;

    open spec fn view(&self) -> ResponseModel {
        ResponseModel {
            status: self.status,
            error: self.error@,
            list_projects: match self.list_projects {
                Some(v) => Some(projects_view(v@)),
                None => None,
            },
        }
    }
}

// ---------------------------------------------------------------- encoding

/// A length-delimited field.
pub open spec fn len_field(tag: u64, m: Seq<u8>) -> Seq<u8> {
    varint_bytes(tag as nat) + varint_bytes(m.len()) + m
}

/// A string field; left out when the string is empty.
pub open spec fn str_field(tag: u64, s: Seq<char>) -> Seq<u8> {
    if s.len() == 0 {
        seq![]
    } else {
        len_field(tag, encode_utf8(s))
    }
}

pub open spec fn project_bytes(p: ProjectModel) -> Seq<u8> {
    str_field(TAG_PROJECT_NAME, p.name) + str_field(TAG_PROJECT_PATH, p.path)
}

/// The fields of a `ListProjects` body: one per project, in order.
pub open spec fn list_bytes(ps: Seq<ProjectModel>) -> Seq<u8>
    decreases ps.len(),
{
    if ps.len() == 0 {
        seq![]
    } else {
        len_field(TAG_LIST_PROJECT, project_bytes(ps[0])) + list_bytes(ps.drop_first())
    }
}

pub open spec fn status_bytes(s: Status) -> Seq<u8> {
    if status_code(s) == 0 {
        seq![]
    } else {
        varint_bytes(TAG_RESPONSE_STATUS as nat) + varint_bytes(status_code(s) as nat)
    }
}

pub open spec fn response_bytes(r: ResponseModel) -> Seq<u8> {
    status_bytes(r.status) + str_field(TAG_RESPONSE_ERROR, r.error) + match r.list_projects {
        Some(ps) => len_field(TAG_RESPONSE_LIST, list_bytes(ps)),
        None => seq![],
    }
}

pub open spec fn request_bytes(r: Request) -> Seq<u8> {
    match r.payload {
        Some(RequestKind::ListProjects) => len_field(TAG_REQUEST_LIST, seq![]),
        None => seq![],
    }
}

pub open spec fn update_bytes(u: Update) -> Seq<u8> {
    seq![]
}

// ---------------------------------------------------------------- decoding

/// The text held by `b[s..e]`, if it is valid UTF-8.
pub open spec fn utf8_at(b: Seq<u8>, s: int, e: int) -> Option<Seq<char>> {
    if valid_utf8(b.subrange(s, e)) {
        Some(decode_utf8(b.subrange(s, e)))
    } else {
        None
    }
}

pub open spec fn empty_project() -> ProjectModel {
    ProjectModel { name: seq![], path: seq![] }
}

pub open spec fn empty_response() -> ResponseModel {
    ResponseModel { status: Status::Success, error: seq![], list_projects: None }
}

/// The fields of `b[i..end]` read into a project that starts as `acc`.
pub open spec fn project_fields(b: Seq<u8>, i: int, end: int, acc: ProjectModel) -> Option<
    ProjectModel,
>
    decreases end - i,
{
    if i >= end {
        Some(acc)
    } else {
        match field_at(b, i, end) {
            None => None,
            Some(f) => if f.next <= i || f.next > end {
                None
            } else if f.tag == TAG_PROJECT_NAME {
                match utf8_at(b, f.start as int, f.next as int) {
                    Some(s) => project_fields(b, f.next as int, end, ProjectModel { name: s, ..acc }),
                    None => None,
                }
            } else if f.tag == TAG_PROJECT_PATH {
                match utf8_at(b, f.start as int, f.next as int) {
                    Some(s) => project_fields(b, f.next as int, end, ProjectModel { path: s, ..acc }),
                    None => None,
                }
            } else {
                project_fields(b, f.next as int, end, acc)
            },
        }
    }
}

/// The fields of `b[i..end]` read into a list of projects that starts as `acc`.
pub open spec fn list_fields(b: Seq<u8>, i: int, end: int, acc: Seq<ProjectModel>) -> Option<
    Seq<ProjectModel>,
>
    decreases end - i,
{
    if i >= end {
        Some(acc)
    } else {
        match field_at(b, i, end) {
            None => None,
            Some(f) => if f.next <= i || f.next > end {
                None
            } else if f.tag == TAG_LIST_PROJECT {
                match project_fields(b, f.start as int, f.next as int, empty_project()) {
                    Some(p) => list_fields(b, f.next as int, end, acc.push(p)),
                    None => None,
                }
            } else {
                list_fields(b, f.next as int, end, acc)
            },
        }
    }
}

/// Whether `b[i..end]` is a well-formed run of fields, all of them ignored.
pub open spec fn skip_fields(b: Seq<u8>, i: int, end: int) -> bool
    decreases end - i,
{
    if i >= end {
        true
    } else {
        match field_at(b, i, end) {
            None => false,
            Some(f) => f.next > i && f.next <= end && skip_fields(b, f.next as int, end),
        }
    }
}

/// The fields of `b[i..end]` read into a response that starts as `acc`.
pub open spec fn response_fields(b: Seq<u8>, i: int, end: int, acc: ResponseModel) -> Option<
    ResponseModel,
>
    decreases end - i,
{
    if i >= end {
        Some(acc)
    } else {
        match field_at(b, i, end) {
            None => None,
            Some(f) => if f.next <= i || f.next > end {
                None
            } else if f.tag == TAG_RESPONSE_STATUS {
                response_fields(
                    b,
                    f.next as int,
                    end,
                    ResponseModel { status: status_of(f.value), ..acc },
                )
            } else if f.tag == TAG_RESPONSE_ERROR {
                match utf8_at(b, f.start as int, f.next as int) {
                    Some(s) => response_fields(
                        b,
                        f.next as int,
                        end,
                        ResponseModel { error: s, ..acc },
                    ),
                    None => None,
                }
            } else if f.tag == TAG_RESPONSE_LIST {
                match list_fields(b, f.start as int, f.next as int, seq![]) {
                    Some(ps) => response_fields(
                        b,
                        f.next as int,
                        end,
                        ResponseModel { list_projects: Some(ps), ..acc },
                    ),
                    None => None,
                }
            } else {
                response_fields(b, f.next as int, end, acc)
            },
        }
    }
}

/// The fields of `b[i..end]` read into a request that starts as `acc`.
pub open spec fn request_fields(b: Seq<u8>, i: int, end: int, acc: Request) -> Option<Request>
    decreases end - i,
{
    if i >= end {
        Some(acc)
    } else {
        match field_at(b, i, end) {
            None => None,
            Some(f) => if f.next <= i || f.next > end {
                None
            } else if f.tag == TAG_REQUEST_LIST {
                if skip_fields(b, f.start as int, f.next as int) {
                    request_fields(
                        b,
                        f.next as int,
                        end,
                        Request { payload: Some(RequestKind::ListProjects) },
                    )
                } else {
                    None
                }
            } else {
                request_fields(b, f.next as int, end, acc)
            },
        }
    }
}

pub open spec fn parse_project(b: Seq<u8>) -> Option<ProjectModel> {
    project_fields(b, 0, b.len() as int, empty_project())
}

pub open spec fn parse_response(b: Seq<u8>) -> Option<ResponseModel> {
    response_fields(b, 0, b.len() as int, empty_response())
}

pub open spec fn parse_request(b: Seq<u8>) -> Option<Request> {
    request_fields(b, 0, b.len() as int, Request { payload: None })
}

pub open spec fn parse_update(b: Seq<u8>) -> Option<Update> {
    if skip_fields(b, 0, b.len() as int) {
        Some(Update {})
    } else {
        None
    }
}

// ---------------------------------------------------------------- laws

/// Appending a project to a list appends its field to the list's bytes.
pub proof fn lemma_list_bytes_push(ps: Seq<ProjectModel>, p: ProjectModel)
    ensures
        list_bytes(ps.push(p)) == list_bytes(ps) + len_field(TAG_LIST_PROJECT, project_bytes(p)),
    decreases ps.len(),
{
    assert(ps.push(p)[0] == if ps.len() == 0 { p } else { ps[0] });
    if ps.len() == 0 {
        assert(ps.push(p).drop_first() =~= seq![]);
        assert(list_bytes(ps.push(p).drop_first()) == Seq::<u8>::empty());
        assert(list_bytes(ps) == Seq::<u8>::empty());
        assert(list_bytes(ps.push(p)) =~= list_bytes(ps) + len_field(TAG_LIST_PROJECT, project_bytes(p)));
    } else {
        assert(ps.push(p).drop_first() =~= ps.drop_first().push(p));
        lemma_list_bytes_push(ps.drop_first(), p);
        assert(list_bytes(ps.push(p)) =~= list_bytes(ps) + len_field(TAG_LIST_PROJECT, project_bytes(p)));
    }
}

proof fn lemma_split(b: Seq<u8>, i: int, j: int, k: int, x: Seq<u8>, y: Seq<u8>)
    requires
        0 <= i <= k <= b.len(),
        b.subrange(i, k) == x + y,
        j == i + x.len(),
    ensures
        b.subrange(i, j) == x,
        b.subrange(j, k) == y,
        i <= j <= k,
{
    assert(b.subrange(i, k).len() == k - i);
    assert(b.subrange(i, j) =~= b.subrange(i, k).subrange(0, x.len() as int));
    assert((x + y).subrange(0, x.len() as int) =~= x);
    assert(b.subrange(j, k) =~= b.subrange(i, k).subrange(x.len() as int, (k - i)));
    assert((x + y).subrange(x.len() as int, (k - i)) =~= y);
}

/// A length-delimited field, found at `i`, reads back with its tag and content.
proof fn lemma_len_field_at(b: Seq<u8>, i: int, limit: int, tag: u64, m: Seq<u8>)
    requires
        tag % 8 == 2,
        tag / 8 >= 1,
        tag <= u32::MAX,
        0 <= i,
        i + len_field(tag, m).len() <= limit <= b.len(),
        limit <= u32::MAX,
        b.subrange(i, i + len_field(tag, m).len()) == len_field(tag, m),
    ensures
        ({
            let q = i + varint_bytes(tag as nat).len() + varint_bytes(m.len()).len();
            &&& field_at(b, i, limit) == Some(
                FieldRead {
                    tag,
                    value: m.len() as u64,
                    start: q as usize,
                    next: (q + m.len()) as usize,
                },
            )
            &&& b.subrange(q, q + m.len()) == m
            &&& q + m.len() == i + len_field(tag, m).len()
        }),
{
    let vt = varint_bytes(tag as nat);
    let vl = varint_bytes(m.len());
    let p = i + vt.len();
    let q = p + vl.len();
    let e = i + len_field(tag, m).len();
    assert(len_field(tag, m) == vt + (vl + m)) by {
        assert(len_field(tag, m) =~= vt + (vl + m));
    }
    lemma_split(b, i, p, e, vt, vl + m);
    lemma_split(b, p, q, e, vl, m);
    lemma_parse_varint32(b, i, tag as u32);
    lemma_parse_varint32(b, p, m.len() as u32);
    assert(tag_at(b, i, limit) == Some((tag, p)));
}

/// A non-empty string field, found at `i`, reads back as its text.
proof fn lemma_str_field_at(b: Seq<u8>, i: int, limit: int, tag: u64, s: Seq<char>)
    requires
        tag % 8 == 2,
        tag / 8 >= 1,
        tag <= u32::MAX,
        s.len() > 0,
        0 <= i,
        i + str_field(tag, s).len() <= limit <= b.len(),
        limit <= u32::MAX,
        b.subrange(i, i + str_field(tag, s).len()) == str_field(tag, s),
    ensures
        field_at(b, i, limit) matches Some(f) && f.tag == tag && f.next == i + str_field(
            tag,
            s,
        ).len() && f.next > i && f.start <= f.next && utf8_at(b, f.start as int, f.next as int)
            == Some(s),
{
    let m = encode_utf8(s);
    lemma_len_field_at(b, i, limit, tag, m);
    vstd::utf8::encode_utf8_valid_utf8(s);
    vstd::utf8::encode_utf8_decode_utf8(s);
    crate::wire::lemma_varint_len_u64(tag);
}

proof fn lemma_project_path(b: Seq<u8>, i: int, end: int, acc: ProjectModel, path: Seq<char>)
    requires
        0 <= i <= end <= b.len(),
        end <= u32::MAX,
        b.subrange(i, end) == str_field(TAG_PROJECT_PATH, path),
    ensures
        project_fields(b, i, end, acc) == Some(ProjectModel { path: if path.len() == 0 { acc.path } else { path }, ..acc }),
{
    if path.len() == 0 {
        assert(end == i) by {
            assert(b.subrange(i, end).len() == 0);
        }
        assert(acc == ProjectModel { path: acc.path, ..acc });
    } else {
        lemma_str_field_at(b, i, end, TAG_PROJECT_PATH, path);
        let f = field_at(b, i, end)->Some_0;
        assert(project_fields(b, f.next as int, end, ProjectModel { path, ..acc }) == Some(
            ProjectModel { path, ..acc },
        ));
    }
}

/// A project's bytes, found between `i` and `end`, read back as the project.
pub proof fn lemma_project_fields(b: Seq<u8>, i: int, end: int, p: ProjectModel)
    requires
        0 <= i <= end <= b.len(),
        end <= u32::MAX,
        b.subrange(i, end) == project_bytes(p),
    ensures
        project_fields(b, i, end, empty_project()) == Some(p),
{
    let n = str_field(TAG_PROJECT_NAME, p.name);
    let t = str_field(TAG_PROJECT_PATH, p.path);
    let j = i + n.len();
    lemma_split(b, i, j, end, n, t);
    if p.path.len() == 0 {
        assert(p.path =~= empty_project().path);
    }
    if p.name.len() == 0 {
        assert(j == i);
        assert(p.name =~= empty_project().name);
        lemma_project_path(b, i, end, empty_project(), p.path);
    } else {
        lemma_str_field_at(b, i, end, TAG_PROJECT_NAME, p.name);
        let acc = ProjectModel { name: p.name, ..empty_project() };
        lemma_project_path(b, j, end, acc, p.path);
    }
}

/// A list's bytes, found between `i` and `end`, read back as `acc` followed by the list.
pub proof fn lemma_list_fields(
    b: Seq<u8>,
    i: int,
    end: int,
    ps: Seq<ProjectModel>,
    acc: Seq<ProjectModel>,
)
    requires
        0 <= i <= end <= b.len(),
        end <= u32::MAX,
        b.subrange(i, end) == list_bytes(ps),
    ensures
        list_fields(b, i, end, acc) == Some(acc + ps),
    decreases ps.len(),
{
    if ps.len() == 0 {
        assert(b.subrange(i, end).len() == 0);
        assert(acc + ps =~= acc);
    } else {
        let m = project_bytes(ps[0]);
        let x = len_field(TAG_LIST_PROJECT, m);
        let j = i + x.len();
        lemma_split(b, i, j, end, x, list_bytes(ps.drop_first()));
        lemma_len_field_at(b, i, end, TAG_LIST_PROJECT, m);
        let f = field_at(b, i, end)->Some_0;
        crate::wire::lemma_varint_len_u64(TAG_LIST_PROJECT);
        lemma_project_fields(b, f.start as int, f.next as int, ps[0]);
        lemma_list_fields(b, j, end, ps.drop_first(), acc.push(ps[0]));
        assert(acc.push(ps[0]) + ps.drop_first() =~= acc + ps);
    }
}

proof fn lemma_response_list(b: Seq<u8>, i: int, end: int, acc: ResponseModel, r: ResponseModel)
    requires
        acc.list_projects is None,
        0 <= i <= end <= b.len(),
        end <= u32::MAX,
        b.subrange(i, end) == match r.list_projects {
            Some(ps) => len_field(TAG_RESPONSE_LIST, list_bytes(ps)),
            None => seq![],
        },
    ensures
        response_fields(b, i, end, acc) == Some(ResponseModel { list_projects: r.list_projects, ..acc }),
{
    match r.list_projects {
        Some(ps) => {
            let m = list_bytes(ps);
            lemma_len_field_at(b, i, end, TAG_RESPONSE_LIST, m);
            let f = field_at(b, i, end)->Some_0;
            crate::wire::lemma_varint_len_u64(TAG_RESPONSE_LIST);
            assert(b.subrange(i, end).len() == end - i);
            assert(f.next as int == end);
            lemma_list_fields(b, f.start as int, f.next as int, ps, seq![]);
            assert(seq![] + ps =~= ps);
            assert(response_fields(b, end, end, ResponseModel { list_projects: Some(ps), ..acc })
                == Some(ResponseModel { list_projects: Some(ps), ..acc }));
        },
        None => {
            assert(b.subrange(i, end).len() == 0);
        },
    }
}

proof fn lemma_response_error(b: Seq<u8>, i: int, end: int, acc: ResponseModel, r: ResponseModel)
    requires
        0 <= i <= end <= b.len(),
        end <= u32::MAX,
        acc.error.len() == 0,
        acc.list_projects is None,
        b.subrange(i, end) == str_field(TAG_RESPONSE_ERROR, r.error) + match r.list_projects {
            Some(ps) => len_field(TAG_RESPONSE_LIST, list_bytes(ps)),
            None => seq![],
        },
    ensures
        response_fields(b, i, end, acc) == Some(ResponseModel { error: r.error, list_projects: r.list_projects, ..acc }),
{
    let x = str_field(TAG_RESPONSE_ERROR, r.error);
    let j = i + x.len();
    let y = match r.list_projects {
        Some(ps) => len_field(TAG_RESPONSE_LIST, list_bytes(ps)),
        None => seq![],
    };
    lemma_split(b, i, j, end, x, y);
    if r.error.len() == 0 {
        assert(acc.error =~= r.error);
        lemma_response_list(b, i, end, acc, r);
    } else {
        lemma_str_field_at(b, i, end, TAG_RESPONSE_ERROR, r.error);
        lemma_response_list(b, j, end, ResponseModel { error: r.error, ..acc }, r);
    }
}

/// A response, encoded and decoded again, is the response itself: its status,
/// its error text and every project of its body, field for field.
pub proof fn lemma_response_round_trip(r: ResponseModel)
    requires
        status_wf(r.status),
        response_bytes(r).len() <= u32::MAX,
    ensures
        parse_response(response_bytes(r)) == Some(r),
{
    let b = response_bytes(r);
    let end = b.len() as int;
    let sb = status_bytes(r.status);
    let rest = str_field(TAG_RESPONSE_ERROR, r.error) + match r.list_projects {
        Some(ps) => len_field(TAG_RESPONSE_LIST, list_bytes(ps)),
        None => seq![],
    };
    assert(b =~= sb + rest);
    assert(b.subrange(0, end) =~= b);
    lemma_split(b, 0, sb.len() as int, end, sb, rest);
    if status_code(r.status) == 0 {
        assert(r.status == Status::Success);
        lemma_response_error(b, 0, end, empty_response(), r);
    } else {
        let code = status_code(r.status);
        let vt = varint_bytes(TAG_RESPONSE_STATUS as nat);
        let vc = varint_bytes(code as nat);
        let p = vt.len() as int;
        let q = p + vc.len();
        lemma_split(b, 0, p, q, vt, vc);
        lemma_parse_varint32(b, 0, TAG_RESPONSE_STATUS as u32);
        lemma_parse_varint(b, p, code);
        assert(tag_at(b, 0, end) == Some((TAG_RESPONSE_STATUS, p)));
        assert(status_of(code) == r.status);
        lemma_response_error(b, q, end, ResponseModel { status: r.status, ..empty_response() }, r);
    }
}

/// A request, encoded and decoded again, is the request itself.
pub proof fn lemma_request_round_trip(r: Request)
    ensures
        parse_request(request_bytes(r)) == Some(r),
{
    let b = request_bytes(r);
    if r.payload is Some {
        let k = r.payload->Some_0;
        assert(k == RequestKind::ListProjects);
        assert(r == Request { payload: Some(RequestKind::ListProjects) });
        assert(b.subrange(0, b.len() as int) =~= b);
        crate::wire::lemma_varint_len_u64(TAG_REQUEST_LIST);
        crate::wire::lemma_varint_len_u64(0);
        lemma_len_field_at(b, 0, b.len() as int, TAG_REQUEST_LIST, seq![]);
        let f = field_at(b, 0, b.len() as int)->Some_0;
        assert(f.next as int == b.len());
        assert(skip_fields(b, f.start as int, f.next as int));
        assert(request_fields(b, b.len() as int, b.len() as int, r) == Some(r));
    }
}

/// An update, encoded and decoded again, is the update itself.
pub proof fn lemma_update_round_trip(u: Update)
    ensures
        parse_update(update_bytes(u)) == Some(u),
{
}

} // verus!

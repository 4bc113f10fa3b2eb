//! Encoding and decoding of the schema's messages.

use vstd::prelude::*;
use vstd::utf8::{decode_utf8, encode_utf8, valid_utf8};
use crate::schema::{
    len_field, list_bytes, project_bytes, request_bytes, response_bytes, status_bytes, str_field,
    update_bytes, empty_project, list_fields, parse_request, parse_response, parse_update, project_fields,
    projects_view, request_fields, response_fields, skip_fields, utf8_at, Request, RequestKind,
    Response, Status, Update, WireProject, TAG_LIST_PROJECT, TAG_PROJECT_NAME, TAG_PROJECT_PATH,
    TAG_REQUEST_LIST, TAG_RESPONSE_ERROR, TAG_RESPONSE_LIST, TAG_RESPONSE_STATUS,
};
use crate::wire::{read_field, write_bytes, write_varint};

verus! {

/// Relies on `std::str::from_utf8`: `Ok` exactly when the bytes are valid
/// UTF-8, and then the text that they encode.
#[verifier::external_body]
fn text_from_utf8(b: &[u8]) -> (r: Option<String>)
    ensures
        r is Some <==> valid_utf8(b@),
        r matches Some(s) ==> s@ == decode_utf8(b@),
{
    match std::str::from_utf8(b) {
        Ok(s) => Some(s.to_string()),
        Err(_) => None,
    }
}

fn string_at(b: &[u8], s: usize, e: usize) -> (r: Option<String>)
    requires
        s <= e <= b@.len(),
    ensures
        match utf8_at(b@, s as int, e as int) {
            Some(t) => r matches Some(x) && x@ == t,
            None => r is None,
        },
{
    text_from_utf8(&b[s..e])
}

/// Reads the project held by `b[start..end]`.
pub fn decode_project_in(b: &[u8], start: usize, end: usize) -> (r: Option<WireProject>)
    requires
        start <= end <= b@.len(),
    ensures
        match project_fields(b@, start as int, end as int, empty_project()) {
            Some(p) => r matches Some(x) && x@ == p,
            None => r is None,
        },
{
    let mut cur = WireProject { name: String::new(), path: String::new() };
    let mut i = start;
    while i < end
        invariant
            start <= i <= end <= b@.len(),
            project_fields(b@, i as int, end as int, cur@) == project_fields(
                b@,
                start as int,
                end as int,
                empty_project(),
            ),
        decreases end - i,
    {
        let f = match read_field(b, i, end) {
            Some(f) => f,
            None => return None,
        };
        if f.tag == TAG_PROJECT_NAME {
            match string_at(b, f.start, f.next) {
                Some(s) => {
                    cur.name = s;
                },
                None => return None,
            }
        } else if f.tag == TAG_PROJECT_PATH {
            match string_at(b, f.start, f.next) {
                Some(s) => {
                    cur.path = s;
                },
                None => return None,
            }
        }
        i = f.next;
    }
    Some(cur)
}

/// Reads the list of projects held by `b[start..end]`.
pub fn decode_list_in(b: &[u8], start: usize, end: usize) -> (r: Option<Vec<WireProject>>)
    requires
        start <= end <= b@.len(),
    ensures
        match list_fields(b@, start as int, end as int, seq![]) {
            Some(ps) => r matches Some(x) && projects_view(x@) == ps,
            None => r is None,
        },
{
    let mut cur: Vec<WireProject> = Vec::new();
    let mut i = start;
    assert(projects_view(cur@) =~= seq![]);
    while i < end
        invariant
            start <= i <= end <= b@.len(),
            list_fields(b@, i as int, end as int, projects_view(cur@)) == list_fields(
                b@,
                start as int,
                end as int,
                seq![],
            ),
        decreases end - i,
    {
        let f = match read_field(b, i, end) {
            Some(f) => f,
            None => return None,
        };
        if f.tag == TAG_LIST_PROJECT {
            match decode_project_in(b, f.start, f.next) {
                Some(p) => {
                    let ghost old_cur = cur@;
                    cur.push(p);
                    assert(projects_view(cur@) =~= projects_view(old_cur).push(p@));
                },
                None => return None,
            }
        }
        i = f.next;
    }
    Some(cur)
}

/// Whether `b[start..end]` is a well-formed run of fields.
pub fn check_fields_in(b: &[u8], start: usize, end: usize) -> (r: bool)
    requires
        start <= end <= b@.len(),
    ensures
        r == skip_fields(b@, start as int, end as int),
{
    let mut i = start;
    while i < end
        invariant
            start <= i <= end <= b@.len(),
            skip_fields(b@, i as int, end as int) == skip_fields(b@, start as int, end as int),
        decreases end - i,
    {
        match read_field(b, i, end) {
            Some(f) => {
                i = f.next;
            },
            None => return false,
        }
    }
    true
}

impl Response {
    /// Reads a response from its encoded bytes.
    pub fn decode(b: &[u8]) -> (r: Option<Response>)
        ensures
            match parse_response(b@) {
                Some(m) => r matches Some(x) && x@ == m,
                None => r is None,
            },
    {
        let mut cur = Response { status: Status::Success, error: String::new(), list_projects: None };
        let end = b.len();
        let mut i: usize = 0;
        while i < end
            invariant
                i <= end == b@.len(),
                response_fields(b@, i as int, end as int, cur@) == parse_response(b@),
            decreases end - i,
        {
            let f = match read_field(b, i, end) {
                Some(f) => f,
                None => return None,
            };
            if f.tag == TAG_RESPONSE_STATUS {
                cur.status = Status::from_code(f.value);
            } else if f.tag == TAG_RESPONSE_ERROR {
                match string_at(b, f.start, f.next) {
                    Some(s) => {
                        cur.error = s;
                    },
                    None => return None,
                }
            } else if f.tag == TAG_RESPONSE_LIST {
                match decode_list_in(b, f.start, f.next) {
                    Some(ps) => {
                        cur.list_projects = Some(ps);
                    },
                    None => return None,
                }
            }
            i = f.next;
        }
        Some(cur)
    }
}

impl Request {
    /// Reads a request from its encoded bytes.
    pub fn decode(b: &[u8]) -> (r: Option<Request>)
        ensures
            r == parse_request(b@),
    {
        let mut cur = Request { payload: None };
        let end = b.len();
        let mut i: usize = 0;
        while i < end
            invariant
                i <= end == b@.len(),
                request_fields(b@, i as int, end as int, cur) == parse_request(b@),
            decreases end - i,
        {
            let f = match read_field(b, i, end) {
                Some(f) => f,
                None => return None,
            };
            if f.tag == TAG_REQUEST_LIST {
                if check_fields_in(b, f.start, f.next) {
                    cur = Request { payload: Some(RequestKind::ListProjects) };
                } else {
                    return None;
                }
            }
            i = f.next;
        }
        Some(cur)
    }
}

impl Update {
    /// Reads an update from its encoded bytes.
    pub fn decode(b: &[u8]) -> (r: Option<Update>)
        ensures
            r == parse_update(b@),
    {
        if check_fields_in(b, 0, b.len()) {
            Some(Update {})
        } else {
            None
        }
    }
}

// ---------------------------------------------------------------- encoding

/// Appends a length-delimited field.
fn write_len_field(out: &mut Vec<u8>, tag: u64, m: &[u8])
    ensures
        final(out)@ == old(out)@ + len_field(tag, m@),
{
    write_varint(out, tag);
    write_varint(out, m.len() as u64);
    write_bytes(out, m);
    assert(final(out)@ =~= old(out)@ + len_field(tag, m@));
}

/// Appends a string field, or nothing for an empty string.
fn write_str_field(out: &mut Vec<u8>, tag: u64, s: &String)
    ensures
        final(out)@ == old(out)@ + str_field(tag, s@),
{
    let bytes = s.as_str().as_bytes();
    if bytes.len() == 0 {
        proof {
            if s@.len() != 0 {
                assert(encode_utf8(s@).len() > 0);
            }
        }
        assert(final(out)@ =~= old(out)@ + str_field(tag, s@));
    } else {
        write_len_field(out, tag, bytes);
    }
}

impl WireProject {
    /// The project's encoded bytes.
    pub fn encode(&self) -> (r: Vec<u8>)
        ensures
            r@ == project_bytes(self@),
    {
        let mut out: Vec<u8> = Vec::new();
        write_str_field(&mut out, TAG_PROJECT_NAME, &self.name);
        write_str_field(&mut out, TAG_PROJECT_PATH, &self.path);
        assert(out@ =~= project_bytes(self@));
        out
    }
}

/// The fields of a `ListProjects` body holding `ps`.
pub fn encode_list(ps: &Vec<WireProject>) -> (r: Vec<u8>)
    ensures
        r@ == list_bytes(projects_view(ps@)),
{
    let mut out: Vec<u8> = Vec::new();
    let mut i: usize = 0;
    assert(projects_view(ps@.subrange(0, 0)) =~= seq![]);
    while i < ps.len()
        invariant
            i <= ps@.len(),
            out@ == list_bytes(projects_view(ps@.subrange(0, i as int))),
        decreases ps@.len() - i,
    {
        let p = ps[i].encode();
        write_len_field(&mut out, TAG_LIST_PROJECT, p.as_slice());
        i = i + 1;
        proof {
            let v = projects_view(ps@.subrange(0, i as int));
            assert(v =~= projects_view(ps@.subrange(0, i - 1)).push(ps@[i - 1]@));
            crate::schema::lemma_list_bytes_push(projects_view(ps@.subrange(0, i - 1)), ps@[i - 1]@);
        }
    }
    assert(ps@.subrange(0, ps@.len() as int) =~= ps@);
    out
}

impl Response {
    /// The response's encoded bytes.
    pub fn encode(&self) -> (r: Vec<u8>)
        ensures
            r@ == response_bytes(self@),
    {
        let mut out: Vec<u8> = Vec::new();
        let code = self.status.code();
        if code != 0 {
            write_varint(&mut out, TAG_RESPONSE_STATUS);
            write_varint(&mut out, code);
        }
        assert(out@ =~= status_bytes(self.status));
        write_str_field(&mut out, TAG_RESPONSE_ERROR, &self.error);
        match &self.list_projects {
            Some(ps) => {
                let body = encode_list(ps);
                write_len_field(&mut out, TAG_RESPONSE_LIST, body.as_slice());
            },
            None => {},
        }
        assert(out@ =~= response_bytes(self@));
        out
    }
}

impl Request {
    /// The request's encoded bytes.
    pub fn encode(&self) -> (r: Vec<u8>)
        ensures
            r@ == request_bytes(*self),
    {
        let mut out: Vec<u8> = Vec::new();
        match self.payload {
            Some(RequestKind::ListProjects) => {
                let empty: Vec<u8> = Vec::new();
                write_len_field(&mut out, TAG_REQUEST_LIST, empty.as_slice());
            },
            None => {},
        }
        assert(out@ =~= request_bytes(*self));
        out
    }
}

impl Update {
    /// The update's encoded bytes.
    pub fn encode(&self) -> (r: Vec<u8>)
        ensures
            r@ == update_bytes(*self),
    {
        let out: Vec<u8> = Vec::new();
        assert(out@ =~= update_bytes(*self));
        out
    }
}

} // verus!

//! The client and server ends of a session: what each answers to a request,
//! and what a client reads out of a response.

use vstd::prelude::*;
use vstd::string::StringExecFns;
use crate::error::ProtocolError;
use crate::project::{
    project_of_wire, projects_from_wire, projects_of, projects_to_wire, wire_of_project, Project,
    ProjectView,
};
use crate::schema::{
    lemma_response_round_trip, parse_response, projects_view, response_bytes, ProjectModel,
    Request, RequestKind, Response, ResponseModel, Status,
};

verus! {

/// The text of the error for a request that a side does not handle.
pub open spec fn not_implemented_text() -> Seq<char> {
    "Not implemented yet"@
}

/// The wire forms of the projects, in order.
pub open spec fn wire_list(ps: Seq<ProjectView>) -> Seq<ProjectModel> {
    ps.map_values(|p: ProjectView| wire_of_project(p))
}

/// The answer to `ListProjects`: success, no error text, and the projects.
pub open spec fn list_response(ps: Seq<ProjectView>) -> ResponseModel {
    ResponseModel { status: Status::Success, error: seq![], list_projects: Some(wire_list(ps)) }
}

/// The server end: it answers `ListProjects` with the projects it holds.
pub struct Server {
    projects: Vec<Project>,
}

impl Server {
    /// The projects the server holds.
    pub closed spec fn projects(&self) -> Seq<ProjectView> {
        projects_of(self.projects@)
    }

    pub fn new(projects: Vec<Project>) -> (r: Server)
        ensures
            r.projects() == projects_of(projects@),
    {
        Server { projects }
    }

    fn list_response(&self) -> (r: Response)
        ensures
            r@ == list_response(self.projects()),
    {
        let ws = projects_to_wire(&self.projects);
        let r = Response { status: Status::Success, error: String::new(), list_projects: Some(ws) };
        assert(projects_view(ws@) =~= wire_list(self.projects()));
        assert(r@.error =~= Seq::<char>::empty());
        r
    }

    /// The encoded answer to `ListProjects`.
    pub fn list_projects(&self) -> (r: Result<Vec<u8>, ProtocolError>)
        ensures
            r matches Ok(b) && b@ == response_bytes(list_response(self.projects())),
    {
        Ok(self.list_response().encode())
    }

    /// The answer to a request: the projects for `ListProjects`, a
    /// `NotImplemented` response for any other request.
    pub fn on_request(&self, req: &Request) -> (r: Result<Response, String>)
        ensures
            req.payload == Some(RequestKind::ListProjects) ==> (r matches Ok(rsp) && rsp@
                == list_response(self.projects())),
            req.payload != Some(RequestKind::ListProjects) ==> (r matches Ok(rsp) && rsp@
                == not_implemented_response()),
    {
        match req.payload {
            Some(RequestKind::ListProjects) => {
                assert(req.payload->Some_0 == RequestKind::ListProjects);
                Ok(self.list_response())
            },
            None => Ok(not_implemented()),
        }
    }
}

/// The response to a request that a side does not handle.
pub open spec fn not_implemented_response() -> ResponseModel {
    ResponseModel {
        status: Status::NotImplemented,
        error: not_implemented_text(),
        list_projects: None,
    }
}

fn not_implemented() -> (r: Response)
    ensures
        r@ == not_implemented_response(),
{
    Response {
        status: Status::NotImplemented,
        error: String::from_str("Not implemented yet"),
        list_projects: None,
    }
}

/// The client end: it handles no request.
pub struct Client {}

impl Client {
    pub fn new() -> (r: Client) {
        Client {}
    }

    /// The answer to a request: always a `NotImplemented` response.
    pub fn on_request(&self, req: &Request) -> (r: Result<Response, String>)
        ensures
            r matches Ok(rsp) && rsp@ == not_implemented_response(),
    {
        Ok(not_implemented())
    }
}

/// What a client reads out of the response to `ListProjects`.
pub open spec fn projects_in(payload: Seq<u8>) -> Result<Seq<ProjectView>, ProtocolError> {
    match parse_response(payload) {
        None => Err(ProtocolError::DecodeFailure),
        Some(r) => match r.list_projects {
            None => Err(ProtocolError::MissingBody),
            Some(ws) => Ok(ws.map_values(|w: ProjectModel| project_of_wire(w))),
        },
    }
}

/// Issues requests on a client's behalf.
pub struct ClientRequester {}

impl ClientRequester {
    pub fn new() -> (r: ClientRequester) {
        ClientRequester {}
    }

    /// The request that asks for the list of projects.
    pub fn list_projects_request(&self) -> (r: Request)
        ensures
            r == (Request { payload: Some(RequestKind::ListProjects) }),
    {
        Request { payload: Some(RequestKind::ListProjects) }
    }

    /// The projects held by the response to `ListProjects`: a payload that is
    /// not a response fails with `DecodeFailure`, a response without the
    /// projects' body with `MissingBody`.
    pub fn list_projects(&self, payload: &[u8]) -> (r: Result<Vec<Project>, ProtocolError>)
        ensures
            match projects_in(payload@) {
                Ok(ps) => r matches Ok(v) && projects_of(v@) == ps,
                Err(e) => r == Err::<Vec<Project>, ProtocolError>(e),
            },
    {
        match Response::decode(payload) {
            None => Err(ProtocolError::DecodeFailure),
            Some(rsp) => match rsp.list_projects {
                None => Err(ProtocolError::MissingBody),
                Some(ws) => {
                    let ghost wv = projects_view(ws@);
                    let ps = projects_from_wire(ws);
                    assert(projects_of(ps@) =~= wv.map_values(|w: ProjectModel| project_of_wire(w)));
                    Ok(ps)
                },
            },
        }
    }
}

/// The server's answer to `ListProjects`, encoded and read back by a client,
/// gives the server's projects again, name and path for name and path.
pub proof fn lemma_list_projects_round_trip(ps: Seq<ProjectView>)
    requires
        response_bytes(list_response(ps)).len() <= u32::MAX,
    ensures
        parse_response(response_bytes(list_response(ps))) == Some(list_response(ps)),
        projects_in(response_bytes(list_response(ps))) matches Ok(qs) && qs.len() == ps.len()
            && forall|i: int|
            0 <= i < ps.len() ==> #[trigger] wire_of_project(qs[i]) == wire_of_project(ps[i]),
{
    lemma_response_round_trip(list_response(ps));
}

} // verus!

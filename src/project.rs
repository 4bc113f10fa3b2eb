//! Projects of the registry: a name, a path, the session file they were
//! read from, and whether the path was found on disk.

use vstd::prelude::*;
use vstd::utf8::encode_utf8;
use crate::paths::{file_name, last_component, session_path, widthdraw_path_from_session_name};
use crate::schema::{ProjectModel, WireProject};

verus! {

/// A project.
#[derive(PartialEq, Eq, Debug, Clone)]
pub struct Project {
    pub name: String,
    pub path: String,
    pub session_file: Option<String>,
    pub exists: bool,
}

/// What a `Project` holds.
pub struct ProjectView {
    pub name: Seq<char>,
    pub path: Seq<char>,
    pub session_file: Option<Seq<char>>,
    pub exists: bool,
}

impl View for Project {
    type V = ProjectView;

    open spec fn view(&self) -> ProjectView {
        ProjectView {
            name: self.name@,
            path: self.path@,
            session_file: match self.session_file {
                Some(s) => Some(s@),
                None => None,
            },
            exists: self.exists,
        }
    }
}

/// The project that a wire project stands for: found on disk, with no session file.
pub open spec fn project_of_wire(w: ProjectModel) -> ProjectView {
    ProjectView { name: w.name, path: w.path, session_file: None, exists: true }
}

/// The wire form of a project: its name and path.
pub open spec fn wire_of_project(p: ProjectView) -> ProjectModel {
    ProjectModel { name: p.name, path: p.path }
}

pub open spec fn projects_of(v: Seq<Project>) -> Seq<ProjectView> {
    v.map_values(|p: Project| p@)
}

/// The path that a session file stands for, read from its last component.
pub open spec fn session_file_path(session_file: Seq<char>) -> Seq<char> {
    session_path(file_name(session_file)->0)
}

/// Whether a project can be read from this session file: it has a last
/// component, and the path that stands for has one too.
pub open spec fn readable_session_file(session_file: Seq<char>) -> bool {
    &&& file_name(session_file) is Some
    &&& file_name(session_file_path(session_file)) is Some
}

/// Number of bytes of a text in UTF-8.
pub open spec fn byte_len(s: Seq<char>) -> nat {
    encode_utf8(s).len()
}

/// The largest byte length of a name among the first `n` projects (0 for none).
pub open spec fn max_name_len(v: Seq<ProjectView>) -> nat
    decreases v.len(),
{
    if v.len() == 0 {
        0
    } else {
        let m = max_name_len(v.drop_last());
        let l = byte_len(v.last().name);
        if m < l {
            l
        } else {
            m
        }
    }
}

/// The largest byte length of a path among the projects (0 for none).
pub open spec fn max_path_len(v: Seq<ProjectView>) -> nat
    decreases v.len(),
{
    if v.len() == 0 {
        0
    } else {
        let m = max_path_len(v.drop_last());
        let l = byte_len(v.last().path);
        if m < l {
            l
        } else {
            m
        }
    }
}

/// The path that a session file stands for: its last component read as a
/// session name.
pub fn widthdraw_path_from_session(path: &str) -> (r: String)
    requires
        file_name(path@) is Some,
    ensures
        r@ == session_file_path(path@),
{
    let name = last_component(path).unwrap();
    widthdraw_path_from_session_name(name.as_str())
}

impl Project {
    /// Whether `from_session_file` can read a project from this session file.
    pub fn readable(session_file: &str) -> (r: bool)
        ensures
            r == readable_session_file(session_file@),
    {
        match last_component(session_file) {
            None => false,
            Some(_) => {
                let path = widthdraw_path_from_session(session_file);
                last_component(path.as_str()).is_some()
            },
        }
    }

    /// The project that a session file stands for. Its path is read from the
    /// file's name and has not been looked up on disk yet (see `resolve`).
    pub fn from_session_file(session_file: &str) -> (r: Project)
        requires
            readable_session_file(session_file@),
        ensures
            r@ == (ProjectView {
                name: file_name(session_file_path(session_file@))->0,
                path: session_file_path(session_file@),
                session_file: Some(session_file@),
                exists: true,
            }),
    {
        let path = widthdraw_path_from_session(session_file);
        let name = last_component(path.as_str()).unwrap();
        Project { name, path, session_file: Some(session_file.to_owned()), exists: true }
    }

    /// The project at a path given by hand; it has no session file.
    pub fn from_path(path: &str) -> (r: Project)
        requires
            file_name(path@) is Some,
        ensures
            r@ == (ProjectView {
                name: file_name(path@)->0,
                path: path@,
                session_file: None,
                exists: true,
            }),
    {
        let name = last_component(path).unwrap();
        Project { name, path: path.to_owned(), session_file: None, exists: true }
    }

    /// The project once its path has been looked up on disk: `canonical` is
    /// the path as the disk resolves it, or none where it is not there. A found
    /// path replaces the old one and gives the name; a missing one marks the
    /// project as not existing.
    pub fn resolve(self, canonical: Option<String>) -> (r: Project)
        requires
            canonical matches Some(c) ==> file_name(c@) is Some,
        ensures
            match canonical {
                Some(c) => r@ == (ProjectView {
                    name: file_name(c@)->0,
                    path: c@,
                    exists: true,
                    ..self@
                }),
                None => r@ == (ProjectView { exists: false, ..self@ }),
            },
    {
        match canonical {
            Some(c) => {
                let name = last_component(c.as_str()).unwrap();
                Project { name, path: c, session_file: self.session_file, exists: true }
            },
            None => Project { exists: false, ..self },
        }
    }

    /// A copy of the project.
    pub fn cloned(&self) -> (r: Project)
        ensures
            r@ == self@,
    {
        let session_file = match &self.session_file {
            Some(s) => Some(s.clone()),
            None => None,
        };
        Project { name: self.name.clone(), path: self.path.clone(), session_file, exists: self.exists }
    }

    pub fn get_path(&self) -> (r: &str)
        ensures
            r@ == self.path@,
    {
        self.path.as_str()
    }

    /// The project that a wire project stands for.
    pub fn from_wire(w: WireProject) -> (r: Project)
        ensures
            r@ == project_of_wire(w@),
    {
        Project { name: w.name, path: w.path, session_file: None, exists: true }
    }

    /// The wire form of the project: its name and path.
    pub fn to_wire(&self) -> (r: WireProject)
        ensures
            r@ == wire_of_project(self@),
    {
        WireProject { name: self.name.clone(), path: self.path.clone() }
    }

    /// The largest byte length of a project's name (0 for none).
    pub fn max_name_length(items: &Vec<Project>) -> (r: usize)
        ensures
            r == max_name_len(projects_of(items@)),
    {
        let ghost v = projects_of(items@);
        let mut max_len: usize = 0;
        let mut i: usize = 0;
        assert(v.subrange(0, 0) =~= Seq::<ProjectView>::empty());
        while i < items.len()
            invariant
                i <= items@.len(),
                v == projects_of(items@),
                max_len == max_name_len(v.subrange(0, i as int)),
            decreases items@.len() - i,
        {
            let l = items[i].name.as_str().as_bytes().len();
            assert(l == byte_len(v[i as int].name));
            if max_len < l {
                max_len = l;
            }
            i = i + 1;
            assert(v.subrange(0, i as int).drop_last() =~= v.subrange(0, i - 1));
            assert(v.subrange(0, i as int).last() == v[i - 1]);
        }
        assert(v.subrange(0, items@.len() as int) =~= v);
        max_len
    }

    /// The largest byte length of a project's path (0 for none).
    pub fn max_path_length(items: &Vec<Project>) -> (r: usize)
        ensures
            r == max_path_len(projects_of(items@)),
    {
        let ghost v = projects_of(items@);
        let mut max_len: usize = 0;
        let mut i: usize = 0;
        assert(v.subrange(0, 0) =~= Seq::<ProjectView>::empty());
        while i < items.len()
            invariant
                i <= items@.len(),
                v == projects_of(items@),
                max_len == max_path_len(v.subrange(0, i as int)),
            decreases items@.len() - i,
        {
            let l = items[i].path.as_str().as_bytes().len();
            assert(l == byte_len(v[i as int].path));
            if max_len < l {
                max_len = l;
            }
            i = i + 1;
            assert(v.subrange(0, i as int).drop_last() =~= v.subrange(0, i - 1));
            assert(v.subrange(0, i as int).last() == v[i - 1]);
        }
        assert(v.subrange(0, items@.len() as int) =~= v);
        max_len
    }
}

/// The projects that a list of wire projects stands for, in order.
pub fn projects_from_wire(ws: Vec<WireProject>) -> (r: Vec<Project>)
    ensures
        r@.len() == ws@.len(),
        forall|i: int| 0 <= i < ws@.len() ==> #[trigger] r@[i]@ == project_of_wire(ws@[i]@),
{
    let mut out: Vec<Project> = Vec::new();
    let mut i: usize = 0;
    while i < ws.len()
        invariant
            i <= ws@.len(),
            out@.len() == i,
            forall|k: int| 0 <= k < i ==> #[trigger] out@[k]@ == project_of_wire(ws@[k]@),
        decreases ws@.len() - i,
    {
        let w = WireProject { name: ws[i].name.clone(), path: ws[i].path.clone() };
        out.push(Project::from_wire(w));
        i = i + 1;
    }
    out
}

/// The wire forms of a list of projects, in order.
pub fn projects_to_wire(ps: &Vec<Project>) -> (r: Vec<WireProject>)
    ensures
        r@.len() == ps@.len(),
        forall|i: int| 0 <= i < ps@.len() ==> #[trigger] r@[i]@ == wire_of_project(ps@[i]@),
{
    let mut out: Vec<WireProject> = Vec::new();
    let mut i: usize = 0;
    while i < ps.len()
        invariant
            i <= ps@.len(),
            out@.len() == i,
            forall|k: int| 0 <= k < i ==> #[trigger] out@[k]@ == wire_of_project(ps@[k]@),
        decreases ps@.len() - i,
    {
        out.push(ps[i].to_wire());
        i = i + 1;
    }
    out
}

/// A wire project read into the registry and written back keeps its name and path.
pub proof fn lemma_wire_project_round_trip(w: ProjectModel)
    ensures
        wire_of_project(project_of_wire(w)) == w,
{
}

} // verus!

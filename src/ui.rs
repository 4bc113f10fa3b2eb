//! The project pickers: which one to use, and the choices that the
//! interactive one makes from what the user answered.

use vstd::prelude::*;
use vstd::string::StringExecFns;
use crate::answer::{answer_text, Answer, AnswerModel};
use crate::numtext::{decimal, push_decimal};
use crate::paths::file_name;
use crate::project::{projects_of, Project, ProjectView};
use crate::text::{chars_of, string_of};

verus! {

/// A picker: it shows the projects and returns the one chosen, if any.
pub trait Ui {
    fn run(&mut self) -> Option<Project>;
}

/// The graphical picker.
#[derive(PartialEq, Eq, Structural, Debug, Clone, Copy)]
pub struct GtkFactory {}

/// The picker that lists the projects and leaves.
#[derive(PartialEq, Eq, Structural, Debug, Clone, Copy)]
pub struct StdoutFactory {}

/// The interactive picker on standard input and output.
#[derive(PartialEq, Eq, Structural, Debug, Clone, Copy)]
pub struct StdioFactory {}

/// A picker to run.
#[derive(PartialEq, Eq, Structural, Debug, Clone, Copy)]
pub enum UiFactory {
    Gtk(GtkFactory),
    Stdout(StdoutFactory),
    Stdio(StdioFactory),
}

/// The picker that a name selects, if any.
pub open spec fn ui_named(name: Seq<char>) -> Option<UiFactory> {
    if name == "Gtk"@ {
        Some(UiFactory::Gtk(GtkFactory {}))
    } else if name == "Stdout"@ {
        Some(UiFactory::Stdout(StdoutFactory {}))
    } else if name == "Stdio"@ {
        Some(UiFactory::Stdio(StdioFactory {}))
    } else {
        None
    }
}

/// The editor that a picker asks for, if any.
pub open spec fn preferred_editor_of(u: UiFactory) -> Option<Seq<char>> {
    match u {
        UiFactory::Gtk(_) => Some("neovide"@),
        _ => None,
    }
}

/// Whether two texts are equal.
pub fn same_text(a: &str, b: &str) -> (r: bool)
    ensures
        r == (a@ == b@),
{
    let x = chars_of(a);
    let y = chars_of(b);
    if x.len() != y.len() {
        return false;
    }
    let mut i: usize = 0;
    while i < x.len()
        invariant
            i <= x@.len() == y@.len(),
            x@ == a@,
            y@ == b@,
            forall|k: int| 0 <= k < i ==> x@[k] == y@[k],
        decreases x@.len() - i,
    {
        if x[i] != y[i] {
            assert(x@[i as int] != y@[i as int]);
            assert(a@ != b@) by {
                if a@ == b@ {
                    assert(x@[i as int] == y@[i as int]);
                }
            }
            return false;
        }
        i = i + 1;
    }
    assert(x@ =~= y@);
    true
}

impl UiFactory {
    pub fn preferred_editor(&self) -> (r: Option<String>)
        ensures
            match preferred_editor_of(*self) {
                Some(e) => r matches Some(s) && s@ == e,
                None => r is None,
            },
    {
        match self {
            UiFactory::Gtk(_) => Some(String::from_str("neovide")),
            _ => None,
        }
    }
}

/// The picker used when none is named.
pub fn new() -> (r: UiFactory)
    ensures
        r == UiFactory::Gtk(GtkFactory {}),
{
    UiFactory::Gtk(GtkFactory {})
}

/// The picker named "Gtk", "Stdout" or "Stdio".
pub fn from(name: &str) -> (r: Option<UiFactory>)
    ensures
        r == ui_named(name@),
{
    if same_text(name, "Gtk") {
        Some(UiFactory::Gtk(GtkFactory {}))
    } else if same_text(name, "Stdout") {
        Some(UiFactory::Stdout(StdoutFactory {}))
    } else if same_text(name, "Stdio") {
        Some(UiFactory::Stdio(StdioFactory {}))
    } else {
        None
    }
}

/// The picker that lists the projects.
pub struct Stdout {
    projects: Vec<Project>,
}

impl Stdout {
    pub closed spec fn projects(&self) -> Seq<ProjectView> {
        projects_of(self.projects@)
    }

    pub fn new(projects: Vec<Project>) -> (r: Stdout)
        ensures
            r.projects() == projects_of(projects@),
    {
        Stdout { projects }
    }

    /// The projects to list.
    pub fn projects_ref(&self) -> (r: &Vec<Project>)
        ensures
            projects_of(r@) == self.projects(),
    {
        &self.projects
    }
}

/// The first index from `i` on where a project has this name.
pub open spec fn find_name(ps: Seq<ProjectView>, name: Seq<char>, i: int) -> Option<int>
    decreases ps.len() - i,
{
    if i < 0 || i >= ps.len() {
        None
    } else if ps[i].name == name {
        Some(i)
    } else {
        find_name(ps, name, i + 1)
    }
}

/// The first index from `i` on where a project has this path.
pub open spec fn find_path(ps: Seq<ProjectView>, path: Seq<char>, i: int) -> Option<int>
    decreases ps.len() - i,
{
    if i < 0 || i >= ps.len() {
        None
    } else if ps[i].path == path {
        Some(i)
    } else {
        find_path(ps, path, i + 1)
    }
}

/// A choice over plain values: an index, or the text of why there is none.
pub open spec fn choice_model(r: Result<usize, String>) -> Result<int, Seq<char>> {
    match r {
        Ok(i) => Ok(i as int),
        Err(e) => Err(e@),
    }
}

/// The choice of a project by its number, counted from 1.
pub open spec fn index_choice(ps: Seq<ProjectView>, index: nat) -> Result<int, Seq<char>> {
    if 1 <= index <= ps.len() {
        Ok(index - 1)
    } else {
        Err("No such index: "@ + decimal(index))
    }
}

/// The choice of a project by its name.
pub open spec fn name_choice(ps: Seq<ProjectView>, name: Seq<char>) -> Result<int, Seq<char>> {
    match find_name(ps, name, 0) {
        Some(i) => Ok(i),
        None => Err("No projects with name "@ + name + " found"@),
    }
}

/// The choice of a project by its path, and the projects after it: a path
/// that no project has is added as a new project where `allow_create` holds.
pub open spec fn path_choice(ps: Seq<ProjectView>, path: Seq<char>, allow_create: bool) -> (
    Result<int, Seq<char>>,
    Seq<ProjectView>,
) {
    match find_path(ps, path, 0) {
        Some(i) => (Ok(i), ps),
        None => if !allow_create {
            (Err("No projects at '"@ + path + "' exists"@), ps)
        } else if file_name(path) is None {
            (Err("Invalid project path '"@ + path + "'"@), ps)
        } else {
            (
                Ok(ps.len() as int),
                ps.push(
                    ProjectView {
                        name: file_name(path)->0,
                        path,
                        session_file: None,
                        exists: true,
                    },
                ),
            )
        },
    }
}

/// The choice that an answer makes, and the projects after it.
pub open spec fn answer_choice(ps: Seq<ProjectView>, a: AnswerModel, allow_create: bool) -> (
    Result<int, Seq<char>>,
    Seq<ProjectView>,
) {
    match a {
        AnswerModel::Index(i) => (index_choice(ps, i), ps),
        AnswerModel::Name(n) => (name_choice(ps, n), ps),
        AnswerModel::Path(p) => path_choice(ps, p, allow_create),
        _ => (Err(answer_text(a)), ps),
    }
}

/// What the interactive picker does after an answer.
pub enum Outcome {
    /// Stop without a project.
    Leave,
    /// Open the project at this index.
    Chosen(usize),
    /// Remove the session file of the project at this index, then drop it
    /// (see `Stdio::remove`).
    Remove(usize),
    /// Ask again; the text says why, where it is not empty.
    Retry(String),
}

/// The interactive picker's list of projects.
pub struct Stdio {
    projects: Vec<Project>,
}

impl Stdio {
    pub closed spec fn projects(&self) -> Seq<ProjectView> {
        projects_of(self.projects@)
    }

    pub fn new(projects: Vec<Project>) -> (r: Stdio)
        ensures
            r.projects() == projects_of(projects@),
    {
        Stdio { projects }
    }

    /// The projects to list.
    pub fn projects_ref(&self) -> (r: &Vec<Project>)
        ensures
            projects_of(r@) == self.projects(),
    {
        &self.projects
    }

    /// The width of the widest project number: the digits of the count.
    pub fn number_width(&self) -> (r: usize)
        ensures
            r == decimal(self.projects().len()).len(),
    {
        let mut c: Vec<char> = Vec::new();
        push_decimal(&mut c, self.projects.len());
        assert(c@ =~= decimal(self.projects@.len() as nat));
        c.len()
    }

    /// Whether some project's path was not found on disk.
    pub fn any_missing(&self) -> (r: bool)
        ensures
            r == exists|i: int| 0 <= i < self.projects().len() && !self.projects()[i].exists,
    {
        let mut i: usize = 0;
        while i < self.projects.len()
            invariant
                i <= self.projects@.len(),
                forall|k: int| 0 <= k < i ==> self.projects()[k].exists,
            decreases self.projects@.len() - i,
        {
            if !self.projects[i].exists {
                assert(!self.projects()[i as int].exists);
                return true;
            }
            i = i + 1;
        }
        false
    }

    /// The project at `index`, counted from 1.
    pub fn from_index(&self, index: usize) -> (r: Result<usize, String>)
        ensures
            choice_model(r) == index_choice(self.projects(), index as nat),
    {
        if index >= 1 && index <= self.projects.len() {
            Ok(index - 1)
        } else {
            let mut c = chars_of("No such index: ");
            push_decimal(&mut c, index);
            assert(c@ =~= "No such index: "@ + decimal(index as nat));
            Err(string_of(&c))
        }
    }

    /// The project at `index` (counted from 0).
    pub fn project(&self, index: usize) -> (r: Project)
        requires
            index < self.projects().len(),
        ensures
            r@ == self.projects()[index as int],
    {
        self.projects[index].cloned()
    }

    /// The project with this name that comes first.
    pub fn from_name(&self, name: &str) -> (r: Result<usize, String>)
        ensures
            choice_model(r) == name_choice(self.projects(), name@),
    {
        let ghost ps = self.projects();
        let mut i: usize = 0;
        while i < self.projects.len()
            invariant
                i <= self.projects@.len(),
                ps == self.projects(),
                find_name(ps, name@, 0) == find_name(ps, name@, i as int),
            decreases self.projects@.len() - i,
        {
            if same_text(self.projects[i].name.as_str(), name) {
                return Ok(i);
            }
            i = i + 1;
        }
        let msg = String::from_str("No projects with name ").concat(name).concat(" found");
        Err(msg)
    }

    fn position_of_path(&self, path: &str) -> (r: Option<usize>)
        ensures
            r matches Some(i) ==> find_path(self.projects(), path@, 0) == Some(i as int),
            r is None ==> find_path(self.projects(), path@, 0) is None,
    {
        let ghost ps = self.projects();
        let mut i: usize = 0;
        while i < self.projects.len()
            invariant
                i <= self.projects@.len(),
                ps == self.projects(),
                find_path(ps, path@, 0) == find_path(ps, path@, i as int),
            decreases self.projects@.len() - i,
        {
            if same_text(self.projects[i].path.as_str(), path) {
                return Some(i);
            }
            i = i + 1;
        }
        None
    }

    /// The project at this path; where none is there and `allow_create`
    /// holds, a new project for the path, added at the end.
    pub fn from_path(&mut self, path: &str, allow_create: bool) -> (r: Result<usize, String>)
        ensures
            (choice_model(r), final(self).projects()) == path_choice(
                old(self).projects(),
                path@,
                allow_create,
            ),
    {
        match self.position_of_path(path) {
            Some(i) => {
                Ok(i)
            },
            None => {
                if !allow_create {
                    return Err(String::from_str("No projects at '").concat(path).concat("' exists"));
                }
                if crate::paths::last_component(path).is_none() {
                    return Err(String::from_str("Invalid project path '").concat(path).concat("'"));
                }
                let p = Project::from_path(path);
                let ghost old_v = self.projects@;
                self.projects.push(p);
                assert(self.projects() =~= projects_of(old_v).push(p@));
                let r = self.projects.len() - 1;
                assert(path_choice(projects_of(old_v), path@, allow_create) == (
                    Ok::<int, Seq<char>>(r as int),
                    self.projects(),
                ));
                Ok(r)
            },
        }
    }

    /// Drops the project at `index` once its session file is gone:
    /// `removed` is how removing the file went. Returns the text to show,
    /// empty on success.
    pub fn remove(&mut self, index: usize, removed: Result<(), String>) -> (r: String)
        requires
            index < old(self).projects().len(),
        ensures
            match removed {
                Ok(_) => r@ == Seq::<char>::empty() && final(self).projects() == old(
                    self,
                ).projects().remove(index as int),
                Err(what) => r@ == "Failed to remove project "@ + old(self).projects()[index as int].name
                    + ": "@ + what@ && final(self).projects() == old(self).projects(),
            },
    {
        match removed {
            Err(what) => {
                let name = self.projects[index].name.clone();
                String::from_str("Failed to remove project ").concat(name.as_str()).concat(
                    ": ",
                ).concat(what.as_str())
            },
            Ok(_) => {
                let ghost old_v = self.projects@;
                let _ = self.projects.remove(index);
                assert(self.projects() =~= projects_of(old_v).remove(index as int));
                String::new()
            },
        }
    }

    /// The project that an answer picks: by number, by name, or by path (a
    /// new one where `allow_create` holds); any other answer gives its text
    /// as the error.
    pub fn from_answer(&mut self, ans: &Answer, allow_create: bool) -> (r: Result<usize, String>)
        ensures
            (choice_model(r), final(self).projects()) == answer_choice(
                old(self).projects(),
                ans@,
                allow_create,
            ),
    {
        match ans {
            Answer::Index(i) => self.from_index(*i),
            Answer::Name(name) => self.from_name(name.as_str()),
            Answer::Path(path) => self.from_path(path.as_str(), allow_create),
            _ => Err(ans.to_string()),
        }
    }

    /// What to do after an answer: leave on `Exit`; for `Remove`, find the
    /// project that its inner answer names (never adding one); for any other
    /// answer, pick the project it names, adding one for a new path.
    pub fn decide(&mut self, ans: &Answer) -> (r: Outcome)
        ensures
            match ans@ {
                AnswerModel::Exit => r is Leave && final(self).projects() == old(self).projects(),
                AnswerModel::Remove(b) => {
                    let (c, ps) = answer_choice(old(self).projects(), *b, false);
                    &&& final(self).projects() == ps
                    &&& match c {
                        Ok(i) => r == Outcome::Remove(i as usize),
                        Err(e) => r matches Outcome::Retry(m) && m@ == e,
                    }
                },
                _ => {
                    let (c, ps) = answer_choice(old(self).projects(), ans@, true);
                    &&& final(self).projects() == ps
                    &&& match c {
                        Ok(i) => r == Outcome::Chosen(i as usize),
                        Err(e) => r matches Outcome::Retry(m) && m@ == e,
                    }
                },
            },
    {
        match ans {
            Answer::Exit => Outcome::Leave,
            Answer::Remove(inner) => match self.from_answer(inner, false) {
                Ok(i) => Outcome::Remove(i),
                Err(what) => Outcome::Retry(what),
            },
            _ => match self.from_answer(ans, true) {
                Ok(i) => Outcome::Chosen(i),
                Err(what) => Outcome::Retry(what),
            },
        }
    }
}

} // verus!

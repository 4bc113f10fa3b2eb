//! Where the session files are, which editor opens a project, and which
//! picker chooses it.

use vstd::prelude::*;
use vstd::string::StringExecFns;
use crate::paths::{file_name, path_push, push_path};
use crate::project::{projects_of, readable_session_file, Project, ProjectView};
use crate::text::{chars_of, string_of};
use crate::ui::{from, new, preferred_editor_of, same_text, ui_named, UiFactory};

verus! {

/// Where session files are kept, under the home directory.
pub open spec fn sessions_under(home: Seq<char>) -> Seq<char> {
    path_push(home, ".local/share/nvim/sessions"@)
}

/// The settings of a run.
pub struct Config {
    sessions_folder: String,
    editor: String,
    ui: UiFactory,
}

impl Config {
    pub closed spec fn folder(&self) -> Seq<char> {
        self.sessions_folder@
    }

    pub closed spec fn editor_name(&self) -> Seq<char> {
        self.editor@
    }

    pub closed spec fn picker(&self) -> UiFactory {
        self.ui
    }

    /// The settings from the home directory (else "."), the editor asked for
    /// (else "vim") and the name of a picker (else the graphical one). A
    /// picker's own editor, where it has one, wins. An unknown picker name is
    /// refused.
    pub fn new(home: Option<String>, editor: Option<String>, ui_name: Option<String>) -> (r: Result<
        Config,
        String,
    >)
        ensures
            match ui_name {
                Some(n) => ui_named(n@) is None <==> r is Err,
                None => r is Ok,
            },
            r matches Err(e) ==> ui_name matches Some(n) && e@ == "No '"@ + n@ + "' UI available"@,
            r matches Ok(c) ==> {
                &&& c.folder() == sessions_under(
                    match home {
                        Some(h) => h@,
                        None => "."@,
                    },
                )
                &&& c.picker() == match ui_name {
                    Some(n) => ui_named(n@)->0,
                    None => UiFactory::Gtk(crate::ui::GtkFactory {}),
                }
                &&& c.editor_name() == match preferred_editor_of(c.picker()) {
                    Some(e) => e,
                    None => match editor {
                        Some(e) => e@,
                        None => "vim"@,
                    },
                }
            },
    {
        let ui = match ui_name {
            Some(n) => match from(n.as_str()) {
                Some(u) => u,
                None => {
                    return Err(String::from_str("No '").concat(n.as_str()).concat("' UI available"));
                },
            },
            None => new(),
        };
        let mut editor = match editor {
            Some(e) => e,
            None => String::from_str("vim"),
        };
        match ui.preferred_editor() {
            Some(e) => {
                editor = e;
            },
            None => {},
        }
        let mut path = match home {
            Some(h) => chars_of(h.as_str()),
            None => chars_of("."),
        };
        let tail = chars_of(".local/share/nvim/sessions");
        push_path(&mut path, &tail);
        Ok(Config { sessions_folder: string_of(&path), editor, ui })
    }

    pub fn set_folder(&mut self, path: &str)
        ensures
            final(self).folder() == path@,
            final(self).editor_name() == old(self).editor_name(),
            final(self).picker() == old(self).picker(),
    {
        self.sessions_folder = path.to_owned();
    }

    /// The session file of this name in the sessions folder.
    pub fn session_file(&self, name: &str) -> (r: String)
        ensures
            r@ == path_push(self.folder(), name@),
    {
        let mut concrete = chars_of(self.sessions_folder.as_str());
        push_path(&mut concrete, &chars_of(name));
        string_of(&concrete)
    }

    /// Whether `create_project` can read a project from the session file of this name.
    pub fn can_create(&self, name: &str) -> (r: bool)
        ensures
            r == readable_session_file(path_push(self.folder(), name@)),
    {
        let f = self.session_file(name);
        Project::readable(f.as_str())
    }

    /// The project that the session file of this name stands for.
    pub fn create_project(&self, name: &str) -> (r: Project)
        requires
            readable_session_file(path_push(self.folder(), name@)),
        ensures
            r@ == (ProjectView {
                name: file_name(crate::project::session_file_path(path_push(self.folder(), name@)))->0,
                path: crate::project::session_file_path(path_push(self.folder(), name@)),
                session_file: Some(path_push(self.folder(), name@)),
                exists: true,
            }),
    {
        let f = self.session_file(name);
        Project::from_session_file(f.as_str())
    }

    /// The project to open for a name given on the command line: the first
    /// known project of that name, else the project at that path; none where
    /// the name is neither and has no last component.
    pub fn exec_from(&self, projects: &Vec<Project>, proj_name: &str) -> (r: Option<Project>)
        ensures
            match crate::ui::find_name(projects_of(projects@), proj_name@, 0) {
                Some(i) => r matches Some(p) && p@ == projects_of(projects@)[i],
                None => match file_name(proj_name@) {
                    Some(n) => r matches Some(p) && p@ == (ProjectView {
                        name: n,
                        path: proj_name@,
                        session_file: None,
                        exists: true,
                    }),
                    None => r is None,
                },
            },
    {
        let ghost ps = projects_of(projects@);
        let mut i: usize = 0;
        while i < projects.len()
            invariant
                i <= projects@.len(),
                ps == projects_of(projects@),
                crate::ui::find_name(ps, proj_name@, 0) == crate::ui::find_name(
                    ps,
                    proj_name@,
                    i as int,
                ),
            decreases projects@.len() - i,
        {
            if same_text(projects[i].name.as_str(), proj_name) {
                return Some(projects[i].cloned());
            }
            i = i + 1;
        }
        if crate::paths::last_component(proj_name).is_none() {
            return None;
        }
        Some(Project::from_path(proj_name))
    }

    /// The editor to run.
    pub fn editor(&self) -> (r: &str)
        ensures
            r@ == self.editor_name(),
    {
        self.editor.as_str()
    }

    /// The picker to run.
    pub fn ui(&self) -> (r: UiFactory)
        ensures
            r == self.picker(),
    {
        self.ui
    }

    /// The folder of the session files.
    pub fn sessions_folder(&self) -> (r: &str)
        ensures
            r@ == self.folder(),
    {
        self.sessions_folder.as_str()
    }
}

} // verus!

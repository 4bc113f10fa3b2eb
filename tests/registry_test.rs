use ide::answer::Answer;
use ide::paths::{last_component, widthdraw_path_from_session_name};
use ide::project::widthdraw_path_from_session;
use ide::ui::{Outcome, Stdio, UiFactory};
use ide::{Config, Project};

fn project(name: &str, path: &str) -> Project {
    Project {
        name: String::from(name),
        path: String::from(path),
        session_file: None,
        exists: true,
    }
}

#[test]
fn check_config() {
    let mut cfg = Config::new(Some(String::from("/home/user")), None, None).unwrap();
    cfg.set_folder("/");
    let prj = cfg.create_project("__tmp__test1__test2");
    assert_eq!(prj.get_path(), "/tmp/test1/test2")
}

#[test]
fn check_widthdraw_path_from_session_name() {
    assert_eq!(
        widthdraw_path_from_session_name("__tmp__test1__test2"),
        String::from("/tmp/test1/test2")
    )
}

#[test]
fn check_widthdraw_path_from_session() {
    assert_eq!(
        widthdraw_path_from_session("~/.local//sessions/__tmp__test1__test2"),
        String::from("/tmp/test1/test2")
    )
}

#[test]
fn check_exit() {
    let a = Answer::from("");
    assert!(matches!(a, Answer::Exit));
    assert_eq!(a.to_string(), "Exit");
}

#[test]
fn check_index() {
    let a = Answer::from("325");
    assert!(matches!(a, Answer::Index(325)));
    assert_eq!(a.to_string(), "325");
}

#[test]
fn check_wrong() {
    let a = Answer::from("-325");
    assert!(matches!(a, Answer::Wrong(_)));
}

#[test]
fn check_name() {
    let a = Answer::from("name");
    assert!(matches!(a, Answer::Name(_)));
    assert_eq!(a.to_string(), "name");
}

#[test]
fn check_short_name() {
    let a = Answer::from("n");
    assert!(matches!(a, Answer::Name(_)));
    assert_eq!(a.to_string(), "n");
}

#[test]
fn check_path() {
    let a = Answer::from("path/name");
    assert!(matches!(a, Answer::Path(_)));
    assert_eq!(a.to_string(), "path/name");
}

#[test]
fn check_rm() {
    let a = Answer::from("rm path/name");
    assert!(matches!(a, Answer::Remove(_)));
    assert_eq!(a.to_string(), "Remove path/name");
}

#[test]
fn check_rm_rm() {
    let a = Answer::from("rm rm path/name");
    assert!(matches!(a, Answer::Wrong(_)));
    assert_eq!(a.to_string(), "rm rm?? Wot??");
}

#[test]
fn answer_trims_white_space() {
    let a = Answer::from("  \t name \n");
    assert!(matches!(a, Answer::Name(_)));
    assert_eq!(a.to_string(), "name");
    let b = Answer::from(" 7\n");
    assert!(matches!(b, Answer::Index(7)));
}

#[test]
fn answer_zero_and_rm_alone() {
    assert_eq!(
        Answer::from("0").to_string(),
        "Invalid index, shoud be greater then zero"
    );
    assert!(matches!(Answer::from("rm  "), Answer::Name(_)));
    assert_eq!(
        Answer::from("rmx").to_string(),
        "Please consider to specify project"
    );
    assert_eq!(Answer::from("rm x ").to_string(), "Remove x");
    assert_eq!(Answer::from("rm 12").to_string(), "Remove 12");
    assert_eq!(Answer::from("+12").to_string(), "12");
    assert!(matches!(Answer::from("99999999999"), Answer::Name(_)));
}

#[test]
fn session_name_with_odd_separators() {
    assert_eq!(widthdraw_path_from_session_name("a____b"), "/a/b");
    assert_eq!(widthdraw_path_from_session_name("a___b"), "/a/_b");
    assert_eq!(widthdraw_path_from_session_name("tmp"), "/tmp");
}

#[test]
fn last_component_rules() {
    assert_eq!(last_component("/a/b/"), Some(String::from("b")));
    assert_eq!(last_component("/a/b/."), Some(String::from("b")));
    assert_eq!(last_component("/a/.."), None);
    assert_eq!(last_component("/"), None);
    assert_eq!(last_component("."), None);
    assert_eq!(last_component("name"), Some(String::from("name")));
}

#[test]
fn project_from_session_file_and_resolve() {
    let p = Project::from_session_file("/s/__home__me__proj");
    assert_eq!(p.name, "proj");
    assert_eq!(p.path, "/home/me/proj");
    assert_eq!(p.session_file, Some(String::from("/s/__home__me__proj")));
    assert!(p.exists);
    let missing = p.clone().resolve(None);
    assert!(!missing.exists);
    assert_eq!(missing.path, "/home/me/proj");
    let found = p.resolve(Some(String::from("/real/place")));
    assert!(found.exists);
    assert_eq!(found.name, "place");
    assert_eq!(found.path, "/real/place");
    assert!(!Project::readable("/s/__"));
    assert!(Project::readable("/s/__a"));
}

#[test]
fn project_max_lengths() {
    let ps = vec![project("ab", "/x"), project("abcd", "/y/z"), project("é", "/")];
    assert_eq!(Project::max_name_length(&ps), 4);
    assert_eq!(Project::max_path_length(&ps), 4);
    assert_eq!(Project::max_name_length(&Vec::new()), 0);
}

#[test]
fn config_defaults_and_pickers() {
    let c = Config::new(None, None, None).unwrap();
    assert_eq!(c.sessions_folder(), "./.local/share/nvim/sessions");
    assert_eq!(c.editor(), "neovide");
    let c = Config::new(Some(String::from("/h/")), Some(String::from("emacs")), Some(String::from("Stdio")))
        .unwrap();
    assert_eq!(c.sessions_folder(), "/h/.local/share/nvim/sessions");
    assert_eq!(c.editor(), "emacs");
    assert!(matches!(c.ui(), UiFactory::Stdio(_)));
    let c = Config::new(None, None, Some(String::from("Stdout"))).unwrap();
    assert_eq!(c.editor(), "vim");
    let e = Config::new(None, None, Some(String::from("Qt"))).err().unwrap();
    assert_eq!(e, "No 'Qt' UI available");
}

#[test]
fn config_exec_from() {
    let c = Config::new(None, None, Some(String::from("Stdout"))).unwrap();
    let ps = vec![project("a", "/a/a/a"), project("b", "/b/b/b")];
    assert_eq!(c.exec_from(&ps, "b").unwrap().path, "/b/b/b");
    let other = c.exec_from(&ps, "/some/where").unwrap();
    assert_eq!(other.name, "where");
    assert!(c.exec_from(&ps, "/").is_none());
}

#[test]
fn stdio_choices() {
    let mut ui = Stdio::new(vec![project("a", "/a/a/a"), project("b", "/b/b/b")]);
    assert_eq!(ui.from_index(2), Ok(1));
    assert_eq!(ui.from_index(3), Err(String::from("No such index: 3")));
    assert_eq!(ui.from_index(0), Err(String::from("No such index: 0")));
    assert_eq!(ui.from_name("a"), Ok(0));
    assert_eq!(ui.from_name("c"), Err(String::from("No projects with name c found")));
    assert_eq!(ui.from_path("/b/b/b", false), Ok(1));
    assert_eq!(ui.from_path("/c/c", false), Err(String::from("No projects at '/c/c' exists")));
    assert_eq!(ui.from_path("/c/c", true), Ok(2));
    assert_eq!(ui.project(2).name, "c");
    assert_eq!(ui.number_width(), 1);
    assert!(!ui.any_missing());
    let a = Answer::from("rm 1");
    assert_eq!(ui.from_answer(&a, false), Err(String::from("Remove 1")));
    assert_eq!(ui.remove(0, Err(String::from("denied"))), "Failed to remove project a: denied");
    assert_eq!(ui.remove(0, Ok(())), "");
    assert_eq!(ui.project(0).name, "b");
    assert_eq!(ui.from_answer(&Answer::from("c"), false), Ok(1));
}

#[test]
fn stdio_decisions() {
    let mut ui = Stdio::new(vec![project("a", "/a/a/a"), project("b", "/b/b/b")]);
    assert!(matches!(ui.decide(&Answer::from("")), Outcome::Leave));
    assert!(matches!(ui.decide(&Answer::from("2")), Outcome::Chosen(1)));
    assert!(matches!(ui.decide(&Answer::from("rm a")), Outcome::Remove(0)));
    match ui.decide(&Answer::from("rm /new/place")) {
        Outcome::Retry(why) => assert_eq!(why, "No projects at '/new/place' exists"),
        _ => panic!("a retry was expected"),
    }
    assert!(matches!(ui.decide(&Answer::from("/new/place")), Outcome::Chosen(2)));
    match ui.decide(&Answer::from("-1")) {
        Outcome::Retry(why) => assert_eq!(why, "Invalid index, shoud be greater then zero"),
        _ => panic!("a retry was expected"),
    }
}

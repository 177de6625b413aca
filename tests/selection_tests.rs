use focus::selection::{
    add, pop_layers, push_layers, remove, Project, ProjectCatalog, Selection, SelectionError,
};

fn s(x: &str) -> String {
    x.to_string()
}

fn catalog() -> ProjectCatalog {
    ProjectCatalog {
        optional_projects: vec![
            Project { name: s("web"), targets: vec![s("//web:app"), s("//lib:core")] },
            Project { name: s("api"), targets: vec![s("//api:server"), s("//lib:core")] },
        ],
    }
}

#[test]
fn add_twice_reports_change_once() {
    let cat = catalog();
    let mut sel = Selection::new();
    assert_eq!(add(&mut sel, &cat, &vec![s("x")]), Ok(true));
    assert_eq!(add(&mut sel, &cat, &vec![s("x")]), Ok(false));
    assert_eq!(sel.targets, vec![s("x")]);
    assert!(sel.projects.is_empty());
}

#[test]
fn remove_twice_reports_change_once() {
    let cat = catalog();
    let mut sel = Selection::new();
    add(&mut sel, &cat, &vec![s("x"), s("web")]).unwrap();
    assert_eq!(remove(&mut sel, &cat, &vec![s("x")]), Ok(true));
    assert_eq!(remove(&mut sel, &cat, &vec![s("x")]), Ok(false));
    assert_eq!(sel.projects, vec![s("web")]);
    assert!(sel.targets.is_empty());
}

#[test]
fn add_sorts_layers_from_targets() {
    let cat = catalog();
    let mut sel = Selection::new();
    assert_eq!(add(&mut sel, &cat, &vec![s("api"), s("//x:y"), s("web"), s("api")]), Ok(true));
    assert_eq!(sel.projects, vec![s("api"), s("web")]);
    assert_eq!(sel.targets, vec![s("//x:y")]);
}

#[test]
fn empty_name_applies_nothing() {
    let cat = catalog();
    let mut sel = Selection::new();
    assert_eq!(add(&mut sel, &cat, &vec![s("web"), s("")]), Err(SelectionError::EmptyName));
    assert!(sel.projects.is_empty());
    assert!(sel.targets.is_empty());
}

#[test]
fn push_unknown_layer_fails() {
    let cat = catalog();
    let mut sel = Selection::new();
    assert_eq!(
        push_layers(&mut sel, &cat, &vec![s("web"), s("nope")]),
        Err(SelectionError::UnknownProject(s("nope")))
    );
    assert!(sel.projects.is_empty());
    assert_eq!(push_layers(&mut sel, &cat, &vec![s("web"), s("api")]), Ok(true));
    assert_eq!(sel.projects, vec![s("web"), s("api")]);
}

#[test]
fn pop_more_than_selected_is_invalid() {
    let cat = catalog();
    let mut sel = Selection::new();
    push_layers(&mut sel, &cat, &vec![s("web"), s("api")]).unwrap();
    assert_eq!(pop_layers(&mut sel, 3), Err(SelectionError::InvalidArgument));
    assert_eq!(sel.projects.len(), 2);
    assert_eq!(pop_layers(&mut sel, 1), Ok(()));
    assert_eq!(sel.projects, vec![s("web")]);
    assert_eq!(pop_layers(&mut sel, 1), Ok(()));
    assert!(sel.projects.is_empty());
}

#[test]
fn find_locates_layer() {
    let cat = catalog();
    assert_eq!(cat.find(&s("api")), Some(1));
    assert_eq!(cat.find(&s("other")), None);
}

#[test]
fn entries_round_trip() {
    let cat = catalog();
    let mut sel = Selection::new();
    add(&mut sel, &cat, &vec![s("api"), s("//x:y"), s("web")]).unwrap();
    let lines = sel.to_entries();
    assert_eq!(lines, vec![s("layer api"), s("layer web"), s("target //x:y")]);
    let back = Selection::from_entries(&lines).unwrap();
    assert_eq!(back.projects, sel.projects);
    assert_eq!(back.targets, sel.targets);
}

#[test]
fn entries_reject_bad_lines() {
    let ok = Selection::from_entries(&vec![s(""), s("target a"), s("layer b")]).unwrap();
    assert_eq!(ok.projects, vec![s("b")]);
    assert_eq!(ok.targets, vec![s("a")]);
    assert_eq!(
        Selection::from_entries(&vec![s("layer a"), s("layer a")]).err(),
        Some(SelectionError::DuplicateEntry(s("layer a")))
    );
    assert_eq!(
        Selection::from_entries(&vec![s("layers a")]).err(),
        Some(SelectionError::MalformedEntry(s("layers a")))
    );
}

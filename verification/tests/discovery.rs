use applauncher::discover::{classify, is_entry_file_name, Scan, Visit};
use applauncher::program::ProgramResult;
use applauncher::entry::{
    build_actions, list_action_ids, parse_program, program_from_fields, read_fields, ActionFields,
    EntryError, EntryFields,
};

const NORMAL: &[u8] = b"[Desktop Entry]\nName=Editor\nComment=Edits text\nExec=edit %F\nIcon=edit\nVersion=1.0\nCategories=GTK;Utility;\n";

const HIDDEN: &[u8] = b"[Desktop Entry]\nName=Ghost\nExec=ghost\nNoDisplay=true\n";

fn blank() -> EntryFields {
    EntryFields {
        no_display: None,
        hidden: None,
        actions: Vec::new(),
        command: None,
        name: None,
        comment: None,
        categories: None,
        version: None,
        icon: None,
    }
}

#[test]
fn normal_entry_makes_a_record() {
    let p = parse_program(NORMAL.to_vec()).unwrap().unwrap();
    assert_eq!(p.name(), "Editor");
    assert_eq!(p.description(), "Edits text");
    assert_eq!(p.category(), "UTILITY");
    assert_eq!(p.command(), "edit ");
    assert_eq!(p.icon(), Some("edit"));
    assert_eq!(p.version(), Some("1.0"));
    assert!(p.actions().is_none());
}

#[test]
fn defaults_fill_what_is_missing() {
    let p = parse_program(b"[Desktop Entry]\nExec=run\n".to_vec()).unwrap().unwrap();
    assert_eq!(p.name(), "Unnamed Application");
    assert_eq!(p.description(), "");
    assert_eq!(p.category(), "APPLICATION");
    assert_eq!(p.command(), "run");
    assert!(p.icon().is_none());
    assert!(p.version().is_none());
}

#[test]
fn hidden_entries_make_no_record() {
    assert!(parse_program(HIDDEN.to_vec()).unwrap().is_none());
    let hidden = b"[Desktop Entry]\nName=Ghost\nExec=ghost\nHidden=true\n";
    assert!(parse_program(hidden.to_vec()).unwrap().is_none());
    let odd = b"[Desktop Entry]\nName=Ghost\nExec=ghost\nHidden=yes\n";
    assert!(parse_program(odd.to_vec()).unwrap().is_none());
    let shown = b"[Desktop Entry]\nName=Seen\nExec=seen\nHidden=false\nNoDisplay=false\n";
    assert!(parse_program(shown.to_vec()).unwrap().is_some());
}

#[test]
fn entry_without_command_makes_no_record() {
    let bytes = b"[Desktop Entry]\nName=Nothing\n";
    assert!(parse_program(bytes.to_vec()).unwrap().is_none());
}

#[test]
fn actions_are_read_from_their_sections() {
    let bytes = b"[Desktop Entry]\nName=Fox\nExec=fox %u\nActions=new-window;;private;\n\n[Desktop Action new-window]\nName=New Window\nExec=fox --new %u\n\n[Desktop Action private]\nExec=fox --private\n";
    let p = parse_program(bytes.to_vec()).unwrap().unwrap();
    let actions = p.actions().unwrap();
    assert_eq!(actions.len(), 2);
    assert_eq!(actions[0].name, "New Window");
    assert_eq!(actions[0].command, "fox --new %u");
    assert_eq!(actions[1].name, "Unnamed Action");
    assert_eq!(actions[1].command, "fox --private");
}

#[test]
fn action_without_command_is_an_error() {
    let bytes = b"[Desktop Entry]\nName=Fox\nExec=fox\nActions=open;edit\n\n[Desktop Action open]\nName=Open\n\n[Desktop Action edit]\nName=Edit\nExec=fox --edit\n";
    assert_eq!(parse_program(bytes.to_vec()).unwrap_err(), EntryError::ActionWithoutExec);
    let missing = b"[Desktop Entry]\nName=Fox\nExec=fox\nActions=open\n";
    assert_eq!(parse_program(missing.to_vec()).unwrap_err(), EntryError::ActionWithoutExec);
}

#[test]
fn malformed_bytes_are_an_error() {
    assert_eq!(parse_program(b"no section here".to_vec()).unwrap_err(), EntryError::Malformed);
    assert_eq!(parse_program(b"[Desktop Entry".to_vec()).unwrap_err(), EntryError::Malformed);
    assert_eq!(
        parse_program(b"[Desktop Entry]\nName=\xff\xfe\n".to_vec()).unwrap_err(),
        EntryError::Malformed
    );
}

#[test]
fn category_beyond_ascii_makes_a_record() {
    let bytes = "[Desktop Entry]\nName=Fox\nExec=fox\nCategories=B\u{fc}ro;\n".as_bytes().to_vec();
    let p = parse_program(bytes).unwrap().unwrap();
    assert_eq!(p.category(), "B\u{dc}RO");
    let odd = "[Desktop Entry]\nName=Fox\nExec=fox\nCategories=a\u{e9}Bc;\n".as_bytes().to_vec();
    assert_eq!(parse_program(odd).unwrap().unwrap().category(), "A\u{c9}BC");
}

#[test]
fn category_of_a_record_is_never_empty() {
    let bytes = b"[Desktop Entry]\nName=Fox\nExec=fox\nCategories=-;\n".to_vec();
    let p = parse_program(bytes).unwrap().unwrap();
    assert_eq!(p.category(), "APPLICATION");
}

#[test]
fn localized_values_are_not_the_plain_value() {
    let bytes = "[Desktop Entry]\nName[de]=Fuchs\nExec=fox\n".as_bytes().to_vec();
    let p = parse_program(bytes).unwrap().unwrap();
    assert_eq!(p.name(), "Unnamed Application");
}

#[test]
fn last_value_of_a_key_wins() {
    let bytes = b"[Desktop Entry]\nName=First\nName=Second\nExec=fox\n".to_vec();
    let p = parse_program(bytes).unwrap().unwrap();
    assert_eq!(p.name(), "Second");
}

#[test]
fn fields_are_read_as_the_file_gives_them() {
    let entry = freedesktop_entry_parser::Entry::parse(NORMAL.to_vec()).unwrap();
    let f = read_fields(&entry);
    assert_eq!(f.name.as_deref(), Some("Editor"));
    assert_eq!(f.command.as_deref(), Some("edit %F"));
    assert_eq!(f.categories.as_deref(), Some("GTK;Utility;"));
    assert_eq!(f.no_display, None);
    assert_eq!(f.hidden, None);
    assert!(f.actions.is_empty());
}

#[test]
fn fields_decide_the_record() {
    let mut f = blank();
    assert!(program_from_fields(&f).unwrap().is_none());
    f.command = Some("run %f".to_string());
    let p = program_from_fields(&f).unwrap().unwrap();
    assert_eq!(p.name(), "Unnamed Application");
    assert_eq!(p.command(), "run ");
    f.no_display = Some("true".to_string());
    assert!(program_from_fields(&f).unwrap().is_none());
    f.actions.push(ActionFields { name: Some("Open".to_string()), command: None });
    assert_eq!(program_from_fields(&f).unwrap_err(), EntryError::ActionWithoutExec);
}

#[test]
fn action_error_comes_before_everything_else() {
    let mut f = blank();
    f.actions.push(ActionFields { name: None, command: None });
    assert_eq!(program_from_fields(&f).unwrap_err(), EntryError::ActionWithoutExec);
    assert!(build_actions(&f.actions).is_none());
}

#[test]
fn build_actions_names_the_unnamed() {
    let fields = vec![
        ActionFields { name: None, command: Some("a".to_string()) },
        ActionFields { name: Some("B".to_string()), command: Some("b".to_string()) },
    ];
    let actions = build_actions(&fields).unwrap();
    assert_eq!(actions.len(), 2);
    assert_eq!(actions[0].name, "Unnamed Action");
    assert_eq!(actions[0].command, "a");
    assert_eq!(actions[1].name, "B");
    assert!(build_actions(&Vec::new()).unwrap().is_empty());
}

#[test]
fn action_identifiers_skip_empty_pieces() {
    assert_eq!(
        list_action_ids(&Some(";open;;edit;".to_string())),
        vec!["open".to_string(), "edit".to_string()]
    );
    assert!(list_action_ids(&Some(String::new())).is_empty());
    assert!(list_action_ids(&None).is_empty());
}

#[test]
fn entry_file_names() {
    assert!(is_entry_file_name("firefox.desktop"));
    assert!(is_entry_file_name("a.desktop"));
    assert!(is_entry_file_name("..desktop"));
    assert!(!is_entry_file_name(".desktop"));
    assert!(!is_entry_file_name("desktop"));
    assert!(!is_entry_file_name("firefox.desktop.bak"));
    assert!(!is_entry_file_name("firefox.Desktop"));
    assert!(!is_entry_file_name(""));
}

#[test]
fn children_are_classified() {
    assert_eq!(classify("apps", true), Visit::Descend);
    assert_eq!(classify("apps.desktop", true), Visit::Descend);
    assert_eq!(classify("fox.desktop", false), Visit::Read);
    assert_eq!(classify("fox.png", false), Visit::Skip);
}

#[test]
fn one_hidden_and_one_normal_entry_give_one_record() {
    let mut scan = Scan::new(vec!["/apps".to_string()]);
    assert_eq!(scan.next_directory(), Some("/apps".to_string()));
    assert_eq!(scan.add_entry(HIDDEN.to_vec()), Ok(false));
    assert_eq!(scan.add_entry(NORMAL.to_vec()), Ok(true));
    assert!(scan.is_finished());
    let found = scan.into_results();
    assert_eq!(found.len(), 1);
    assert_eq!(found[0].name(), "Editor");
}

#[test]
fn bad_file_does_not_end_the_scan() {
    let mut scan = Scan::new(vec!["/apps".to_string()]);
    assert_eq!(scan.next_directory(), Some("/apps".to_string()));
    assert_eq!(scan.add_entry(b"garbage".to_vec()), Err(EntryError::Malformed));
    let broken = b"[Desktop Entry]\nExec=x\nActions=open;edit\n[Desktop Action edit]\nExec=x -e\n";
    assert_eq!(scan.add_entry(broken.to_vec()), Err(EntryError::ActionWithoutExec));
    assert_eq!(scan.add_entry(NORMAL.to_vec()), Ok(true));
    assert_eq!(scan.into_results().len(), 1);
}

fn entry_named(name: &str) -> Vec<u8> {
    format!("[Desktop Entry]\nName={}\nExec={}\n", name, name).into_bytes()
}

fn children(dir: &str) -> Vec<(&'static str, bool)> {
    match dir {
        "/r" => vec![("one.desktop", false), ("a", true), ("notes.txt", false)],
        "/r/a" => vec![("two.desktop", false), ("b", true)],
        "/r/a/b" => vec![("three.desktop", false), ("c", true)],
        "/r/a/b/c" => vec![("four.desktop", false)],
        _ => Vec::new(),
    }
}

#[test]
fn entries_are_found_at_every_depth() {
    let mut scan = Scan::new(vec!["/r".to_string(), "/missing".to_string()]);
    let mut steps = 0;
    while let Some(dir) = scan.next_directory() {
        steps += 1;
        assert!(steps < 100);
        for (name, is_dir) in children(&dir) {
            match classify(name, is_dir) {
                Visit::Descend => scan.add_directory(format!("{}/{}", dir, name)),
                Visit::Read => {
                    let stem = name.trim_end_matches(".desktop");
                    assert_eq!(scan.add_entry(entry_named(stem)), Ok(true));
                }
                Visit::Skip => {}
            }
        }
    }
    assert!(scan.is_finished());
    let mut names: Vec<String> = scan.into_results().iter().map(|p| p.name().to_string()).collect();
    names.sort();
    assert_eq!(names, vec!["four", "one", "three", "two"]);
}

#[test]
fn directories_leave_last_in_first_out() {
    let mut scan = Scan::new(vec!["a".to_string(), "b".to_string()]);
    assert!(!scan.is_finished());
    assert_eq!(scan.next_directory(), Some("b".to_string()));
    scan.add_directory("c".to_string());
    assert_eq!(scan.next_directory(), Some("c".to_string()));
    assert_eq!(scan.next_directory(), Some("a".to_string()));
    assert_eq!(scan.next_directory(), None);
    assert!(scan.is_finished());
    assert!(scan.into_results().is_empty());
}

#[test]
fn find_all_passes_over_what_makes_no_record() {
    let files = vec![
        HIDDEN.to_vec(),
        NORMAL.to_vec(),
        b"garbage".to_vec(),
        entry_named("last"),
        b"[Desktop Entry]\nName=NoCommand\n".to_vec(),
    ];
    let d = ProgramResult::find_all(files);
    assert_eq!(d.programs.len(), 2);
    assert_eq!(d.programs[0].name(), "Editor");
    assert_eq!(d.programs[1].name(), "last");
    assert_eq!(d.errors, vec![(2, EntryError::Malformed)]);
    let none = ProgramResult::find_all(Vec::new());
    assert!(none.programs.is_empty());
    assert!(none.errors.is_empty());
}

#[test]
fn find_all_reports_an_action_without_command() {
    let broken = b"[Desktop Entry]\nName=X\nExec=x\nActions=open;edit\n\n[Desktop Action edit]\nName=Edit\nExec=x --edit\n";
    let d = ProgramResult::find_all(vec![NORMAL.to_vec(), broken.to_vec(), b"[".to_vec()]);
    assert_eq!(d.programs.len(), 1);
    assert_eq!(d.programs[0].name(), "Editor");
    assert_eq!(
        d.errors,
        vec![(1, EntryError::ActionWithoutExec), (2, EntryError::Malformed)]
    );
    for p in &d.programs {
        if let Some(actions) = p.actions() {
            for a in actions {
                assert!(!a.command.is_empty());
            }
        }
    }
}

#[test]
fn directories_may_be_named_by_any_type() {
    let mut scan: Scan<u32> = Scan::new(vec![1, 2]);
    assert_eq!(scan.next_directory(), Some(2));
    scan.add_directory(7);
    assert_eq!(scan.next_directory(), Some(7));
    assert_eq!(scan.next_directory(), Some(1));
    assert!(scan.is_finished());
}

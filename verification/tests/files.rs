use riggen_app::example::Example;
use riggen_app::file_io::{extension_of, file_name, import_status, install_dropped, open_mesh_warning, plan_dropped, replaces_document, report, warnings_status, DroppedSet, Files, ReadError};
use riggen_app::file_menu::{document_label, opens_document, save_path, window_title, Confirm, PendingAction};

fn drop(files: &[(&str, &[u8])]) -> Vec<(String, Vec<u8>)> {
    files.iter().map(|(p, b)| (p.to_string(), b.to_vec())).collect()
}

#[test]
fn a_dropped_file_is_found_by_its_name_and_the_later_one_wins() {
    let set = DroppedSet::new(drop(&[("meshes/base.stl", b"one"), ("arm.riggen", b"doc"), ("other/base.stl", b"two")]));
    assert_eq!(set.len(), 2);
    assert_eq!(set.read("../base.stl").unwrap(), b"two".to_vec());
    assert_eq!(set.read("/anywhere/arm.riggen").unwrap(), b"doc".to_vec());
    assert!(set.contains("base.stl"));
    assert!(!set.contains("fore.stl"));
    assert_eq!(
        set.read("x/fore.stl").unwrap_err(),
        ReadError::NotFound("fore.stl was not among the dropped files".to_string())
    );
    assert_eq!(DroppedSet::path_of("meshes/base.stl"), "/dropped/base.stl");
}

#[test]
fn a_document_gesture_replaces_the_set_and_meshes_add_to_it() {
    let files = install_dropped(Files::Disk, drop(&[("a.stl", b"a")]), false);
    let files = install_dropped(files, drop(&[("b.stl", b"b")]), false);
    let Files::Dropped(set) = &files else { panic!("dropped") };
    assert!(set.contains("a.stl") && set.contains("b.stl"));
    let files = install_dropped(files, drop(&[("r.riggen", b"{}")]), true);
    let Files::Dropped(set) = &files else { panic!("dropped") };
    assert!(set.contains("r.riggen") && !set.contains("a.stl"));
}

#[test]
fn a_gesture_with_a_document_opens_only_its_documents() {
    let paths: Vec<String> = ["base.stl", "arm.URDF", "fore.stl"].iter().map(|s| s.to_string()).collect();
    let (replaces, to_open) = plan_dropped(&paths);
    assert!(replaces);
    assert_eq!(to_open, vec!["arm.URDF".to_string()]);
    let meshes: Vec<String> = ["base.stl", "fore.obj"].iter().map(|s| s.to_string()).collect();
    let (replaces, to_open) = plan_dropped(&meshes);
    assert!(!replaces);
    assert_eq!(to_open, meshes);
}

#[test]
fn extensions_are_lower_case_and_decide_what_replaces() {
    assert_eq!(extension_of("dir/Arm.RIGGEN"), "riggen");
    assert_eq!(extension_of("a.tar.GZ"), "gz");
    assert_eq!(extension_of(".hidden"), "");
    assert_eq!(extension_of("noext"), "");
    assert!(replaces_document("x/robot.riggen"));
    assert!(replaces_document("model.XML"));
    assert!(replaces_document("arm.urdf"));
    assert!(!replaces_document("part.stl"));
    assert_eq!(file_name("a/b/c.stl").as_deref(), Some("c.stl"));
    assert_eq!(file_name("a/.."), None);
}

#[test]
fn the_batch_report() {
    assert_eq!(report(2, 3, Some("x.ply: unsupported".into()), None).as_deref(), Some("opened 2 of 3 files; first error: x.ply: unsupported"));
    assert_eq!(report(0, 1, Some("gone".into()), Some("w".into())).as_deref(), Some("gone"));
    assert_eq!(report(1, 1, None, Some("w".into())).as_deref(), Some("w"));
    assert_eq!(report(1, 1, None, None).as_deref(), Some("opened 1 file"));
    assert_eq!(report(12, 12, None, None).as_deref(), Some("opened 12 files"));
    assert_eq!(open_mesh_warning("/m/shell.stl"), "shell.stl: mesh is not closed, so its mass properties cannot be computed");
}

#[test]
fn import_and_warning_lines() {
    assert_eq!(import_status("arm.urdf", &vec![]), "imported arm.urdf");
    assert_eq!(import_status("arm.urdf", &vec!["no mesh".into()]), "imported arm.urdf: no mesh");
    assert_eq!(import_status("arm.urdf", &vec!["no mesh".into(), "b".into(), "c".into()]), "imported arm.urdf: no mesh (+2 more warnings)");
    assert_eq!(warnings_status(&vec![]), None);
    assert_eq!(warnings_status(&vec!["changed".into()]).as_deref(), Some("changed"));
    assert_eq!(warnings_status(&vec!["changed".into(), "gone".into()]).as_deref(), Some("changed (+1 more warnings)"));
}

#[test]
fn a_clean_document_never_asks_and_a_dirty_one_always_does() {
    let mut confirm = Confirm::new();
    assert_eq!(confirm.request(PendingAction::New, false), Some(PendingAction::New));
    assert_eq!(confirm.pending, None);
    assert_eq!(confirm.request(PendingAction::Open(None), true), None);
    assert_eq!(confirm.pending, Some(PendingAction::Open(None)));
    confirm.answer_cancel();
    assert_eq!(confirm.pending, None);
    assert!(!confirm.quit_confirmed);
    assert_eq!(confirm.request(PendingAction::Quit, true), None);
    assert_eq!(confirm.answer_discard(), Some(PendingAction::Quit));
    assert!(confirm.quit_confirmed);
    // Once agreed, a close goes through.
    assert!(!confirm.close_requested(true, true));
}

#[test]
fn a_failed_save_runs_nothing_and_forgets_the_action() {
    let mut confirm = Confirm::new();
    assert!(confirm.close_requested(true, true));
    assert_eq!(confirm.pending, Some(PendingAction::Quit));
    let taken = confirm.begin_save().unwrap();
    assert_eq!(confirm.pending, None);
    assert_eq!(confirm.finish_save(taken.clone(), false), None);
    assert!(!confirm.quit_confirmed);
    assert_eq!(confirm.finish_save(taken, true), Some(PendingAction::Quit));
    assert!(confirm.quit_confirmed);
    let mut idle = Confirm::new();
    assert_eq!(idle.begin_save(), None);
    assert!(!idle.close_requested(true, false));
}

#[test]
fn titles_labels_and_save_paths() {
    assert_eq!(window_title("pendulum.riggen", true), "pendulum.riggen* — riggen");
    assert_eq!(window_title("untitled", false), "untitled — riggen");
    assert_eq!(document_label(Some("/robots/arm.riggen")), "arm.riggen");
    assert_eq!(document_label(None), "untitled");
    assert_eq!(save_path("/r/arm.riggen"), "/r/arm.riggen");
    assert_eq!(save_path("/r/arm"), "/r/arm.riggen");
    assert_eq!(save_path("/r/arm.json"), "/r/arm.riggen");
    let stl: Vec<String> = vec!["a.stl".into(), "b.obj".into()];
    assert!(!opens_document(&stl));
    let doc: Vec<String> = vec!["a.stl".into(), "B.Riggen".into()];
    assert!(opens_document(&doc));
    let urdf: Vec<String> = vec!["a.stl".into(), "robot.urdf".into()];
    assert!(opens_document(&urdf));
    let mjcf: Vec<String> = vec!["scene.XML".into()];
    assert!(opens_document(&mjcf));
}

#[test]
fn the_example_is_five_files_document_first() {
    assert_eq!(Example::from_name("arm"), Some(Example::Arm));
    assert_eq!(Example::from_name("spaceship"), None);
    assert_eq!(Example::Arm.files(), vec!["arm.riggen", "base.stl", "shoulder.stl", "upper.stl", "fore.stl"]);
    assert_eq!(Example::Arm.document(), "arm.riggen");
    assert_eq!(Example::Arm.name(), "arm");
    assert_eq!(Example::NAMES, ["arm"]);
}

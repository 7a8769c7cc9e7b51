use loco_mcp::field::BindingError;
use loco_mcp::project::{
    is_in_loco_project, project_name, validate_loco_project, DatabaseProbe, LocoProjectInfo,
    ProjectProbe,
};

fn all(exists: bool, cargo: bool, src: bool, main: bool) -> ProjectProbe {
    ProjectProbe { exists, has_cargo_toml: cargo, has_src: src, has_main_rs: main }
}

fn text(e: BindingError) -> String {
    match e {
        BindingError::Validation(m) => m,
    }
}

#[test]
fn detect_lays_out_project_paths() {
    let info = LocoProjectInfo::detect("/work/blog", &all(true, true, true, true)).unwrap();
    assert_eq!(info.root_path, "/work/blog");
    assert_eq!(info.src_path, "/work/blog/src");
    assert_eq!(info.src_models_path, "/work/blog/src/models");
    assert_eq!(info.src_controllers_path, "/work/blog/src/controllers");
    assert_eq!(info.src_views_path, "/work/blog/src/views");
    assert_eq!(info.src_routes_path, "/work/blog/src/routes");
    assert_eq!(info.migration_src_path, "/work/blog/migration/src");
    let info = LocoProjectInfo::detect("blog/", &all(true, true, true, true)).unwrap();
    assert_eq!(info.src_path, "blog/src");
}

#[test]
fn detect_reports_the_first_missing_part() {
    assert_eq!(
        text(LocoProjectInfo::detect("x", &all(false, false, false, false)).unwrap_err()),
        "Directory does not exist: x"
    );
    assert_eq!(
        text(LocoProjectInfo::detect("x", &all(true, false, true, true)).unwrap_err()),
        "Not a valid loco-rs project directory: x (Cargo.toml not found)"
    );
    assert_eq!(
        text(LocoProjectInfo::detect("x", &all(true, true, false, false)).unwrap_err()),
        "Invalid loco-rs project: src directory not found in x"
    );
    assert_eq!(
        text(LocoProjectInfo::detect("x", &all(true, true, true, false)).unwrap_err()),
        "Invalid loco-rs project: src/main.rs not found in x"
    );
}

#[test]
fn database_support_and_validation() {
    let ok = all(true, true, true, true);
    let info = LocoProjectInfo::detect("p", &ok).unwrap();
    let none = DatabaseProbe { migration_src_exists: false, models_exist: false };
    let models = DatabaseProbe { migration_src_exists: false, models_exist: true };
    assert!(!info.has_database_support(&none));
    assert!(info.has_database_support(&models));
    assert!(validate_loco_project("p", &ok, &models).is_ok());
    assert!(text(validate_loco_project("p", &ok, &none).unwrap_err()).contains("with-db"));
}

#[test]
fn project_found_in_some_ancestor() {
    assert!(!is_in_loco_project(&vec![]));
    assert!(is_in_loco_project(&vec![all(true, false, false, false), all(true, true, true, true)]));
    assert!(!is_in_loco_project(&vec![all(true, true, true, false)]));
}

#[test]
fn manifest_names() {
    let manifest = "[package]\n  name = \"blog_app\"\nversion = \"0.1.0\"\n";
    assert_eq!(project_name(manifest).unwrap(), "blog_app");
    assert_eq!(project_name("[package]\r\nname = \"win\"\r\n").unwrap(), "win");
    assert_eq!(
        text(project_name("[package]\nversion = \"1\"\n").unwrap_err()),
        "Project name not found in Cargo.toml"
    );
    assert_eq!(project_name("name = plain").unwrap(), "plain");
}

#[test]
fn validation_passes_detection_errors_on() {
    let none = DatabaseProbe { migration_src_exists: true, models_exist: false };
    assert_eq!(
        text(validate_loco_project("q", &all(true, true, false, false), &none).unwrap_err()),
        "Invalid loco-rs project: src directory not found in q"
    );
}

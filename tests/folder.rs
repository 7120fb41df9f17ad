use local_llm::folder::{needs_folder, reveal_command, Platform};

#[test]
fn linux_path_without_comma_goes_over_the_bus() {
    assert!(!needs_folder(Platform::Linux, "/m/a.bin"));
    let c = reveal_command(Platform::Linux, "/m/a.bin", None);
    assert_eq!(c.program, "dbus-send");
    assert_eq!(c.args.len(), 7);
    assert_eq!(c.args[5], "array:string:\"file:///m/a.bin\"");
    assert_eq!(c.args[6], "string:\"\"");
}

#[test]
fn linux_path_with_comma_opens_the_folder() {
    assert!(needs_folder(Platform::Linux, "/m/a,b.bin"));
    let c = reveal_command(Platform::Linux, "/m/a,b.bin", Some("/m".to_string()));
    assert_eq!(c.program, "xdg-open");
    assert_eq!(c.args, vec!["/m".to_string()]);
}

#[test]
fn other_platforms() {
    assert!(!needs_folder(Platform::Windows, "C:\\a,b"));
    let c = reveal_command(Platform::Windows, "C:\\a,b", None);
    assert_eq!(c.program, "explorer");
    assert_eq!(c.args, vec!["/select,".to_string(), "C:\\a,b".to_string()]);
    let c = reveal_command(Platform::MacOs, "/m/a.bin", None);
    assert_eq!(c.program, "open");
    assert_eq!(c.args, vec!["-R".to_string(), "/m/a.bin".to_string()]);
}

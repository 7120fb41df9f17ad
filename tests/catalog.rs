use local_llm::catalog::{
    is_system_file, is_system_key, list_language_models, order_by_keys, reconcile_models,
    ConfigLanguageModel, LanguageModel,
};

fn entry(filename: &str, name: &str) -> ConfigLanguageModel {
    ConfigLanguageModel {
        name: name.to_string(),
        filename: filename.to_string(),
        arquitecture: "llama".to_string(),
        url: format!("https://example.org/{filename}"),
        image: "img.png".to_string(),
        prompt_template: "[[message]]".to_string(),
        size: "4GB".to_string(),
    }
}

fn names(models: &[LanguageModel]) -> Vec<String> {
    models.iter().map(|m| m.filename.clone()).collect()
}

#[test]
fn reconcile_catalog_with_disk() {
    let catalog = vec![entry("a.bin", "Model A")];
    let disk = vec!["a.bin".to_string(), "b.bin".to_string()];
    let r = reconcile_models(&disk, &catalog, "");
    assert_eq!(names(&r), vec!["a.bin", "b.bin"]);
    assert!(r[0].downloaded && r[0].has_info);
    assert_eq!(r[0].info.as_ref().unwrap().name, "Model A");
    assert!(r[1].downloaded && !r[1].has_info);
    assert!(r[1].info.is_none());
}

#[test]
fn catalog_only_entry_is_not_downloaded() {
    let catalog = vec![entry("c.bin", "Model C")];
    let disk: Vec<String> = vec![];
    let r = reconcile_models(&disk, &catalog, "c.bin");
    assert_eq!(r.len(), 1);
    assert!(!r[0].downloaded);
    assert!(r[0].has_info);
    assert!(!r[0].current);
}

#[test]
fn order_ignores_case() {
    let catalog = vec![entry("C.bin", "C")];
    let disk = vec!["b.bin".to_string(), "A.bin".to_string(), "d.bin".to_string()];
    let r = reconcile_models(&disk, &catalog, "");
    assert_eq!(names(&r), vec!["A.bin", "b.bin", "C.bin", "d.bin"]);
}

#[test]
fn system_files_are_skipped() {
    assert!(is_system_file(".DS_Store"));
    assert!(is_system_file(".ds_store.tmp"));
    assert!(!is_system_file("model.DS_Store"));
    let disk = vec![".DS_Store".to_string(), "m.bin".to_string()];
    let r = reconcile_models(&disk, &vec![], "");
    assert_eq!(names(&r), vec!["m.bin"]);
}

#[test]
fn current_model_is_marked() {
    let disk = vec!["x.bin".to_string(), "y.bin".to_string()];
    let r = reconcile_models(&disk, &vec![], "y.bin");
    assert!(!r[0].current);
    assert!(r[1].current);
}

#[test]
fn last_catalog_entry_wins() {
    let catalog = vec![entry("a.bin", "first"), entry("a.bin", "second")];
    let r = reconcile_models(&vec![], &catalog, "");
    assert_eq!(r.len(), 1);
    assert_eq!(r[0].info.as_ref().unwrap().name, "second");
}

#[test]
fn no_models_folder_gives_empty_list() {
    let catalog = vec![entry("a.bin", "A")];
    let r = list_language_models(None, &catalog, "");
    assert!(r.models.is_empty());
    let r = list_language_models(Some(vec![]), &catalog, "");
    assert_eq!(r.models.len(), 1);
}

fn texts(v: &[&str]) -> Vec<String> {
    v.iter().map(|s| s.to_string()).collect()
}

#[test]
fn order_by_keys_is_stable() {
    let (names, keys) = order_by_keys(&texts(&["b", "a", "c", "d"]), &texts(&["x", "y", "x", "a"]));
    assert_eq!(names, texts(&["d", "b", "c", "a"]));
    assert_eq!(keys, texts(&["a", "x", "x", "y"]));
}

#[test]
fn names_equal_but_for_case_keep_their_order() {
    let disk = texts(&["model.bin", "Model.bin"]);
    let r = reconcile_models(&disk, &vec![entry("MODEL.bin", "M")], "");
    assert_eq!(names(&r), vec!["model.bin", "Model.bin", "MODEL.bin"]);
    assert!(!r[2].downloaded);
}

#[test]
fn system_key_is_checked_on_lower_case() {
    assert!(is_system_key(".ds_store"));
    assert!(!is_system_key(".DS_Store"));
}

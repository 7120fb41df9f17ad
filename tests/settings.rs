use local_llm::settings::{
    chosen_directory_answer, get_current_model_filename, models_folder_answer, stored_parameters,
    CurrentLanguageModel, SettingKey,
};

#[test]
fn defaults_stand_in_for_missing_values() {
    let p = stored_parameters(None, Some("0.5".to_string()), None, None, None);
    assert_eq!(p.prompt_template, "[[message]]");
    assert_eq!(p.temperature, "0.5");
    assert_eq!(p.top_p, "0.95");
    assert_eq!(p.top_k, "40");
    assert_eq!(p.repetition_penalty, "1.3");
    assert_eq!(SettingKey::Temperature.store_key(), "temperature");
    assert_eq!(SettingKey::TopK.resolve(Some("12".to_string())), "12");
}

#[test]
fn current_filename() {
    assert_eq!(get_current_model_filename(None), "");
    let m = CurrentLanguageModel {
        name: "A".to_string(),
        filename: "a.bin".to_string(),
        arquitecture: "llama".to_string(),
        path: "/models/a.bin".to_string(),
    };
    assert_eq!(get_current_model_filename(Some(m)), "a.bin");
}

#[test]
fn folder_answers() {
    assert_eq!(models_folder_answer(Some("/m".to_string())), Ok("/m".to_string()));
    assert_eq!(models_folder_answer(None), Err("No models folder found".to_string()));
    assert_eq!(chosen_directory_answer(None), Err("No path selected".to_string()));
}

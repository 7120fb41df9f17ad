use local_llm::sampling::{
    build_parameters, read_count, read_decimal, DecimalNumber, InferenceParameters, SettingName,
};

fn params(t: &str, p: &str, k: &str, r: &str) -> InferenceParameters {
    InferenceParameters {
        prompt_template: "[[message]]".to_string(),
        temperature: t.to_string(),
        top_p: p.to_string(),
        top_k: k.to_string(),
        repetition_penalty: r.to_string(),
    }
}

#[test]
fn counts_read_like_usize() {
    assert_eq!(read_count("40"), Some(40));
    assert_eq!(read_count("+7"), Some(7));
    assert_eq!(read_count("007"), Some(7));
    assert_eq!(read_count(""), None);
    assert_eq!(read_count("+"), None);
    assert_eq!(read_count("-1"), None);
    assert_eq!(read_count("4a"), None);
    assert_eq!(read_count(" 4"), None);
    assert_eq!(read_count(&usize::MAX.to_string()), Some(usize::MAX));
    assert_eq!(read_count("99999999999999999999999999"), None);
}

#[test]
fn decimals_read_as_mantissa_and_scale() {
    assert_eq!(read_decimal("0.8"), Some(DecimalNumber { mantissa: 8, scale: 1 }));
    assert_eq!(read_decimal("1.30"), Some(DecimalNumber { mantissa: 130, scale: 2 }));
    assert_eq!(read_decimal("-2"), Some(DecimalNumber { mantissa: -2, scale: 0 }));
    assert_eq!(read_decimal("warm"), None);
}

#[test]
fn defaults_read_as_numbers() {
    let s = build_parameters(&params("0.8", "0.95", "40", "1.3")).ok().unwrap();
    assert_eq!(s.temperature, DecimalNumber { mantissa: 8, scale: 1 });
    assert_eq!(s.top_p, DecimalNumber { mantissa: 95, scale: 2 });
    assert_eq!(s.top_k, 40);
    assert_eq!(s.repeat_penalty, DecimalNumber { mantissa: 13, scale: 1 });
}

#[test]
fn malformed_temperature_is_a_configuration_error() {
    let e = build_parameters(&params("warm", "0.95", "40", "1.3")).err().unwrap();
    assert_eq!(e.setting, SettingName::Temperature);
    assert_eq!(e.text, "warm");
}

#[test]
fn each_setting_is_checked_in_order() {
    let e = build_parameters(&params("x", "y", "40", "1.3")).err().unwrap();
    assert_eq!(e.setting, SettingName::TopP);
    let e = build_parameters(&params("0.8", "0.9", "4.5", "1.3")).err().unwrap();
    assert_eq!(e.setting, SettingName::TopK);
    let e = build_parameters(&params("0.8", "0.9", "40", "")).err().unwrap();
    assert_eq!(e.setting, SettingName::RepetitionPenalty);
}

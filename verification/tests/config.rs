use redfolder::config::{build_cli_config, RedFolderConfig};
use redfolder::curfew::WeekendMode;
use redfolder::error::RedFolderError;
use redfolder::types::{Currency, FailSafeMode, Impact};

#[test]
fn test_config_defaults() {
    let cfg = RedFolderConfig::default();
    assert!(cfg.enabled);
    assert_eq!(cfg.currencies, vec!["USD"]);
    assert_eq!(cfg.impacts, vec!["High"]);
    assert_eq!(cfg.before_min, 30);
    assert_eq!(cfg.after_min, 30);
    assert!(cfg.weekend_enabled);
    assert_eq!(cfg.weekend_mode, "short");
}

#[test]
fn test_builder() {
    let cfg = RedFolderConfig::builder()
        .currencies(vec!["EUR", "USD"])
        .impacts(vec!["High"])
        .buffer_minutes(10, 10)
        .weekend_curfew(true, "19:00", "23:00", "weekend")
        .build();

    assert_eq!(cfg.currencies, vec!["EUR", "USD"]);
    assert_eq!(cfg.before_min, 10);
    assert_eq!(cfg.after_min, 10);
    assert_eq!(cfg.weekend_start, "19:00");
}

#[test]
fn test_typed_builder() {
    let cfg = RedFolderConfig::builder()
        .currency(Currency::USD)
        .currency(Currency::EUR)
        .impact(Impact::High)
        .buffer_minutes(15, 15)
        .weekend_curfew(true, "20:00", "21:00", WeekendMode::Weekend)
        .build();

    assert_eq!(cfg.currencies, vec!["USD", "EUR"]);
    assert_eq!(cfg.impacts, vec!["High"]);
    assert_eq!(cfg.weekend_mode, "weekend");
}

#[test]
fn test_semantic_validation_rejects_blank_items() {
    // Blank currency string in list must be rejected
    let bad_cur = RedFolderConfig::builder()
        .currencies(vec!["USD", "   "])
        .try_build();
    assert!(bad_cur.is_err());
    assert!(bad_cur
        .unwrap_err()
        .to_string()
        .contains("currency filter cannot contain empty or blank strings"));

    // Blank impact string in list must be rejected
    let bad_imp = RedFolderConfig::builder()
        .impacts(vec!["High", ""])
        .try_build();
    assert!(bad_imp.is_err());
    assert!(bad_imp
        .unwrap_err()
        .to_string()
        .contains("impact filter cannot contain empty or blank strings"));
}

#[test]
fn test_validate_strict() {
    // Custom currency is valid in standard mode
    let custom_cfg = RedFolderConfig::builder()
        .currencies(vec!["USD", "XAU"])
        .impacts(vec!["High"])
        .build();
    assert!(
        custom_cfg.validate().is_ok(),
        "custom currency should be allowed in default mode"
    );

    // Custom currency is rejected in strict mode
    let strict_err = custom_cfg.validate_strict();
    assert!(
        strict_err.is_err(),
        "custom currency should be rejected in strict mode"
    );
    assert!(strict_err
        .unwrap_err()
        .to_string()
        .contains("rejected in strict mode"));

    // Standard-only config passes strict validation
    let standard_cfg = RedFolderConfig::builder()
        .currencies(vec!["USD", "EUR"])
        .impacts(vec!["High", "Medium"])
        .build();
    assert!(standard_cfg.validate_strict().is_ok());
}

#[test]
fn test_builder_strict_methods() {
    let ok_cfg = RedFolderConfig::builder()
        .currencies(vec!["USD", "EUR"])
        .impacts(vec!["High"])
        .try_build_strict();
    assert!(ok_cfg.is_ok());

    let err_cfg = RedFolderConfig::builder()
        .currencies(vec!["USDD"])
        .impacts(vec!["High"])
        .try_build_strict();
    assert!(err_cfg.is_err());
    assert!(err_cfg
        .unwrap_err()
        .to_string()
        .contains("unknown non-standard currency 'USDD'"));

    let built = RedFolderConfig::builder()
        .currencies(vec!["GBP"])
        .impacts(vec!["High"])
        .build_strict();
    assert_eq!(built.currencies, vec!["GBP"]);
}

#[test]
fn test_typed_helpers() {
    let cfg = RedFolderConfig::builder()
        .currencies(vec!["USD", "EUR"])
        .impacts(vec!["High", "Medium"])
        .weekend_mode_typed(WeekendMode::Weekend)
        .build();

    assert_eq!(cfg.typed_currencies(), vec![Currency::USD, Currency::EUR]);
    assert_eq!(cfg.typed_impacts(), vec![Impact::High, Impact::Medium]);
    assert_eq!(
        cfg.typed_weekend_mode().unwrap(),
        WeekendMode::Weekend
    );
}

#[test]
fn test_weekend_validation_when_disabled() {
    // Bad weekend start time should fail even if weekend_enabled == false
    let bad_start = RedFolderConfig::builder()
        .weekend_curfew(false, "99:99", "21:00", "short")
        .try_build();
    assert!(
        bad_start.is_err(),
        "invalid start time must fail validation even when weekend_enabled is false"
    );

    // Bad weekend mode should fail even if weekend_enabled == false
    let bad_mode = RedFolderConfig::builder()
        .weekend_curfew(false, "20:00", "21:00", "bogus_mode")
        .try_build();
    assert!(
        bad_mode.is_err(),
        "invalid weekend mode must fail validation even when weekend_enabled is false"
    );

    // Bad weekend end time in short mode should fail even if weekend_enabled == false
    let bad_end = RedFolderConfig::builder()
        .weekend_curfew(false, "20:00", "25:99", "short")
        .try_build();
    assert!(
        bad_end.is_err(),
        "invalid end time must fail validation even when weekend_enabled is false"
    );
}

#[test]
fn test_fail_safe_mode_config() {
    let default_cfg = RedFolderConfig::default();
    assert_eq!(default_cfg.fail_safe_mode, FailSafeMode::FailOpen);

    let prop_firm = RedFolderConfig::prop_firm_strict();
    assert_eq!(prop_firm.fail_safe_mode, FailSafeMode::FailClosed);

    let conservative = RedFolderConfig::conservative();
    assert_eq!(conservative.fail_safe_mode, FailSafeMode::FailClosed);

    let custom = RedFolderConfig::builder()
        .fail_safe_mode(FailSafeMode::FailClosed)
        .build();
    assert_eq!(custom.fail_safe_mode, FailSafeMode::FailClosed);
}

#[test]
fn presets_hold_what_they_promise() {
    let prop = RedFolderConfig::prop_firm_strict();
    assert_eq!(prop.currencies, vec!["USD", "EUR", "GBP", "JPY", "CAD", "AUD", "NZD", "CHF"]);
    assert_eq!(prop.impacts, vec!["High"]);
    assert_eq!((prop.before_min, prop.after_min, prop.merge_threshold_min), (5, 5, 15));
    assert_eq!((prop.weekend_start.as_str(), prop.weekend_end.as_str()), ("20:00", "21:00"));
    assert_eq!(prop.weekend_mode, WeekendMode::Weekend);
    assert_eq!(prop.warning_before_min, Some(15));
    let wide = RedFolderConfig::conservative();
    assert_eq!(wide.currencies, vec!["USD", "EUR", "GBP", "JPY", "CAD", "AUD", "NZD", "CHF"]);
    assert_eq!(wide.impacts, vec!["High", "Medium"]);
    assert_eq!((wide.before_min, wide.after_min, wide.merge_threshold_min), (30, 30, 30));
    assert_eq!(wide.warning_before_min, Some(30));
    for preset in [RedFolderConfig::default(), prop, wide] {
        assert!(preset.validate().is_ok());
        assert!(preset.validate_strict().is_ok());
        assert_eq!(preset.clone(), preset);
        assert!(!preset.include_all_day && !preset.include_tentative);
    }
}

fn message(cfg: RedFolderConfig) -> String {
    cfg.validate().unwrap_err().to_string()
}

#[test]
fn each_fault_has_its_message() {
    let base = RedFolderConfig::default();
    assert_eq!(
        message(RedFolderConfig { currencies: vec![], ..base.clone() }),
        "Configuration error: currencies filter cannot be empty; specify at least one currency or 'All'"
    );
    assert_eq!(
        message(RedFolderConfig { impacts: vec![], ..base.clone() }),
        "Configuration error: impacts filter cannot be empty; specify at least one impact level (e.g. 'High')"
    );
    assert_eq!(
        message(RedFolderConfig { before_min: -1, ..base.clone() }),
        "Configuration error: before_min cannot be negative (got -1)"
    );
    assert_eq!(
        message(RedFolderConfig { after_min: -20, ..base.clone() }),
        "Configuration error: after_min cannot be negative (got -20)"
    );
    assert_eq!(
        message(RedFolderConfig { merge_threshold_min: i64::MIN, ..base.clone() }),
        "Configuration error: merge_threshold_min cannot be negative (got -9223372036854775808)"
    );
    assert_eq!(
        message(RedFolderConfig { warning_before_min: Some(-7), ..base.clone() }),
        "Configuration error: warning_before_min cannot be negative (got -7)"
    );
    assert!(matches!(
        RedFolderConfig { weekend_start: "x".to_string(), ..base.clone() }.validate(),
        Err(RedFolderError::ParseTime(s)) if s == "x"
    ));
    assert!(matches!(
        RedFolderConfig { weekend_end: String::new(), ..base.clone() }.validate(),
        Err(RedFolderError::ParseTime(s)) if s.is_empty()
    ));
    // In weekend mode the end time may be empty, but not wrong.
    let weekend = RedFolderConfig { weekend_mode: WeekendMode::Weekend, ..base.clone() };
    assert!(RedFolderConfig { weekend_end: String::new(), ..weekend.clone() }.validate().is_ok());
    assert!(RedFolderConfig { weekend_end: "x".to_string(), ..weekend }.validate().is_err());
    // The first fault counts.
    assert!(message(RedFolderConfig { impacts: vec![], before_min: -1, ..base }).contains("impacts filter"));
}

#[test]
fn strict_mode_names_the_first_custom_entry() {
    let cfg = RedFolderConfig::builder()
        .currencies(vec!["USD", "XAU", "BTC"])
        .impacts(vec!["Orange"])
        .build();
    assert_eq!(
        cfg.validate_strict().unwrap_err().to_string(),
        "Configuration error: unknown non-standard currency 'XAU' rejected in strict mode"
    );
    let cfg = RedFolderConfig::builder().impacts(vec!["High", "Orange"]).build();
    assert_eq!(
        cfg.validate_strict().unwrap_err().to_string(),
        "Configuration error: unknown non-standard impact 'orange' rejected in strict mode"
    );
}

#[test]
fn a_wrong_mode_is_reported_until_it_is_set_right() {
    let wrong = RedFolderConfig::builder().weekend_curfew(true, "20:00", "21:00", "bogus");
    assert_eq!(
        wrong.try_build().unwrap_err().to_string(),
        "Curfew calculation error: Curfew calculation error: invalid weekend mode 'bogus': expected 'short' or 'weekend'"
    );
    let strict = RedFolderConfig::builder().weekend_curfew(true, "20:00", "21:00", "bogus".to_string());
    assert!(matches!(strict.try_build_strict(), Err(RedFolderError::Curfew(_))));
    let mended = RedFolderConfig::builder()
        .weekend_curfew(true, "20:00", "21:00", "bogus")
        .weekend_mode_typed(WeekendMode::Weekend)
        .try_build();
    assert_eq!(mended.unwrap().weekend_mode, WeekendMode::Weekend);
    let name = "weekend".to_string();
    let again = RedFolderConfig::builder()
        .weekend_curfew(true, "20:00", "21:00", "bogus")
        .weekend_curfew(true, "20:00", "21:00", &name)
        .build();
    assert_eq!(again.weekend_mode, WeekendMode::Weekend);
}

#[test]
fn builder_sets_every_field() {
    let cfg = RedFolderConfig::builder()
        .enabled(false)
        .currency("eur")
        .currency("XAU".to_string())
        .impact("red")
        .impact(Impact::Low)
        .merge_threshold(3)
        .merge_threshold_minutes(7)
        .warning_minutes(9)
        .include_all_day(true)
        .include_tentative(true)
        .build();
    assert!(!cfg.enabled && cfg.include_all_day && cfg.include_tentative);
    assert_eq!(cfg.currencies_as_strings(), vec!["EUR", "XAU"]);
    assert_eq!(cfg.impacts_as_strings(), vec!["High", "Low"]);
    assert_eq!(cfg.merge_threshold_min, 7);
    assert_eq!(cfg.warning_before_min, Some(9));
}

#[test]
fn command_line_filters_are_checked() {
    let cfg = build_cli_config("eur", "med").unwrap();
    assert_eq!(cfg.currencies, vec![Currency::EUR]);
    assert_eq!(cfg.impacts, vec![Impact::Medium]);
    assert_eq!(cfg.before_min, 30);
    assert!(build_cli_config(" ", "High").is_err());
    assert!(build_cli_config("USD", "").is_err());
}

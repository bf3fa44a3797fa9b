use video_frame_fuse::config::{
    find_threshold, BlackAndWhiteConfiguration, Configuration, ConfigurationHolder,
};

fn round_trip(threshold: Option<u8>) {
    let configuration = BlackAndWhiteConfiguration { threshold };
    let yaml = configuration.to_yaml().unwrap();
    let parsed_configuration = BlackAndWhiteConfiguration::from_yaml(&yaml).unwrap();
    assert_eq!(parsed_configuration, configuration);
}

#[test]
fn black_and_white_configuration_serialisation_when_threshold_is_none() {
    round_trip(None);
}

#[test]
fn black_and_white_configuration_serialisation_when_threshold_is_0() {
    round_trip(Some(0));
}

#[test]
fn black_and_white_configuration_serialisation_when_threshold_is_255() {
    round_trip(Some(255));
}

#[test]
fn black_and_white_configuration_serialisation_when_threshold_is_arbitrary() {
    round_trip(Some(117));
}

#[test]
fn to_yaml_writes_the_threshold_under_its_key() {
    let yaml = BlackAndWhiteConfiguration { threshold: Some(10) }
        .to_yaml()
        .unwrap();
    assert_eq!(yaml, "---\nthreshold: 10\n");
}

#[test]
fn to_yaml_writes_no_threshold_as_null() {
    let yaml = BlackAndWhiteConfiguration { threshold: None }
        .to_yaml()
        .unwrap();
    assert_eq!(yaml, "---\nthreshold: ~\n");
}

#[test]
fn from_yaml_reads_a_threshold() {
    assert_eq!(
        BlackAndWhiteConfiguration::from_yaml("threshold: 10"),
        Ok(BlackAndWhiteConfiguration {
            threshold: Some(10)
        })
    );
}

#[test]
fn from_yaml_reads_null_as_no_threshold() {
    assert_eq!(
        BlackAndWhiteConfiguration::from_yaml("threshold: null\n"),
        Ok(BlackAndWhiteConfiguration { threshold: None })
    );
}

#[test]
fn from_yaml_refuses_a_threshold_that_is_no_number() {
    assert!(BlackAndWhiteConfiguration::from_yaml("threshold: not-a-number").is_err());
}

#[test]
fn from_yaml_refuses_a_threshold_above_255() {
    assert!(BlackAndWhiteConfiguration::from_yaml("threshold: 256").is_err());
}

#[test]
fn from_yaml_refuses_text_that_is_no_mapping() {
    assert!(BlackAndWhiteConfiguration::from_yaml("- 1\n- 2\n").is_err());
}

#[test]
fn default_has_no_threshold() {
    assert_eq!(
        BlackAndWhiteConfiguration::default(),
        BlackAndWhiteConfiguration { threshold: None }
    );
}

#[test]
fn find_threshold_takes_the_entry_under_the_key() {
    let entries = vec![
        ("other".to_string(), Some(1)),
        ("threshold".to_string(), Some(42)),
    ];
    assert_eq!(find_threshold(&entries), Some(42));
    assert_eq!(find_threshold(&vec![("other".to_string(), Some(1))]), None);
    assert_eq!(find_threshold(&vec![]), None);
}

#[test]
fn holders_compare_by_their_parameters() {
    assert_eq!(ConfigurationHolder::Empty, ConfigurationHolder::Empty);
    assert_ne!(
        ConfigurationHolder::BlackAndWhite(BlackAndWhiteConfiguration { threshold: Some(1) }),
        ConfigurationHolder::BlackAndWhite(BlackAndWhiteConfiguration { threshold: None })
    );
}

#[test]
fn from_yaml_refuses_a_text_that_is_too_long() {
    let longest = format!("threshold: 7\n#{}", "x".repeat(1024 - 14));
    assert_eq!(longest.chars().count(), 1024);
    assert_eq!(
        BlackAndWhiteConfiguration::from_yaml(&longest),
        Ok(BlackAndWhiteConfiguration { threshold: Some(7) })
    );
    let too_long = format!("{}x", longest);
    assert_eq!(
        BlackAndWhiteConfiguration::from_yaml(&too_long),
        Err("The configuration is longer than 1024 characters".to_string())
    );
}

#[test]
fn from_yaml_refuses_a_deeply_nested_text_of_any_length() {
    let nested = format!("{}1", "- ".repeat(511));
    assert!(BlackAndWhiteConfiguration::from_yaml(&nested).is_err());
    let too_long = format!("{}1", "- ".repeat(100_000));
    assert_eq!(
        BlackAndWhiteConfiguration::from_yaml(&too_long),
        Err("The configuration is longer than 1024 characters".to_string())
    );
}

#[test]
fn from_yaml_reads_a_missing_key_as_no_threshold() {
    assert_eq!(
        BlackAndWhiteConfiguration::from_yaml("other: 3"),
        Ok(BlackAndWhiteConfiguration { threshold: None })
    );
}

#[test]
fn from_yaml_wants_small_numbers_under_every_key() {
    assert!(BlackAndWhiteConfiguration::from_yaml("threshold: 3\nother: text").is_err());
    assert!(BlackAndWhiteConfiguration::from_yaml("[10]").is_err());
}

use secret_resolution::{
    lowercase_and_add, possible_base_names, EnvSetting, NonEmptySecrets, ValidatedSecrets,
};

#[test]
fn validate_should_work_when_no_envs_are_present_and_one_secret() {
    let found_secrets = NonEmptySecrets(vec!["sample-secret".to_string()]);
    let env = EnvSetting::Unscoped;

    let actual = ValidatedSecrets::new(found_secrets, env);

    assert!(actual.is_ok());
    assert_eq!(actual.unwrap().secrets.len(), 1);
}

#[test]
fn validate_should_fail_when_no_envs_are_present_and_multiple_secrets() {
    let found_secrets =
        NonEmptySecrets(vec!["sample-secret".to_string(), "fake-secret".to_string()]);
    let env = EnvSetting::Unscoped;

    let actual = ValidatedSecrets::new(found_secrets, env);

    assert!(actual.is_err());
}

#[test]
fn validate_should_work_when_all_envs_are_present_filtering_out_unknowns() {
    let found_secrets = NonEmptySecrets(vec![
        "/prod/sample-secret".to_string(),
        "/dev/sample-secret".to_string(),
        "/fake/sample-secret".to_string(),
    ]);
    let envs = EnvSetting::Env(vec!["dev".to_string(), "prod".to_string()]);

    let actual = ValidatedSecrets::new(found_secrets, envs);

    assert!(actual.is_ok());
    assert_eq!(actual.unwrap().secrets.len(), 2);
}

#[test]
fn validate_should_fail_when_too_many_envs_are_present() {
    let found_secrets = NonEmptySecrets(vec![
        "/prod/sample-secret".to_string(),
        "/dev/sample-secret".to_string(),
        "/prod/SampleSecret".to_string(),
        "/fake/sample-secret".to_string(),
    ]);
    let envs = EnvSetting::Env(vec!["dev".to_string(), "prod".to_string()]);

    let actual = ValidatedSecrets::new(found_secrets, envs);

    assert!(actual.is_err());
}

#[test]
fn validate_should_fail_when_not_all_envs_are_present() {
    let found_secrets = NonEmptySecrets(vec!["/prod/sample-secret".to_string()]);
    let env = EnvSetting::Env(vec!["dev".to_string(), "prod".to_string()]);

    let actual = ValidatedSecrets::new(found_secrets, env);

    assert!(actual.is_err());
}

#[test]
fn get_full_and_base_secret_should_fail_when_no_multiple_matches_for_none_env() {
    let found_secrets =
        NonEmptySecrets(vec!["sample-secret".to_string(), "OtherSecret".to_string()]);
    let env = EnvSetting::Unscoped;

    let actual = ValidatedSecrets::new(found_secrets, env);

    assert!(actual.is_err());
}

#[test]
fn get_full_and_base_secret_should_get_exact_match_and_identical_base_and_full() {
    let found_secrets = NonEmptySecrets(vec!["sample-secret".to_string()]);
    let env = EnvSetting::Unscoped;

    let actual = ValidatedSecrets::new(found_secrets, env).unwrap();
    let (actual_full, actual_base) = actual.get_full_and_base_secret();

    assert_eq!(actual_full, "sample-secret");
    assert_eq!(actual_base, "sample-secret");
}

#[test]
fn get_full_and_base_secret_should_get_an_env_when_dev_is_not_available() {
    let found_secrets = NonEmptySecrets(vec![
        "/prod/sample-secret".to_string(),
        "/acc/sample-secret".to_string(),
    ]);
    let env = EnvSetting::Env(vec!["prod".to_string(), "acc".to_string()]);

    let actual = ValidatedSecrets::new(found_secrets, env).unwrap();
    let (actual_full, actual_base) = actual.get_full_and_base_secret();

    assert_eq!(actual_full, "/prod/sample-secret");
    assert_eq!(actual_base, "sample-secret");
}

#[test]
fn get_full_and_base_secret_should_by_fallback_to_first_secret() {
    let found_secrets = NonEmptySecrets(vec!["sample-secret".to_string()]);
    let env = EnvSetting::Unscoped;

    let actual = ValidatedSecrets::new(found_secrets, env).unwrap();
    let (actual_full, actual_base) = actual.get_full_and_base_secret();

    assert_eq!(actual_full, "sample-secret");
    assert_eq!(actual_base, "sample-secret");
}

#[test]
fn possible_base_names_should_create_alternative_secret_struct_names_and_add_to_the_original() {
    let actual = possible_base_names("ExampleSecret");

    assert_eq!(actual.len(), 3);
    assert_eq!(actual[0], "ExampleSecret");
    assert_eq!(actual[1], "example-secret");
    assert_eq!(actual[2], "example_secret");
}

#[test]
fn transformations_possible_base_names_should_create_alternative_secret_struct_names_and_add_to_the_original(
) {
    let actual = possible_base_names("ExampleSecret");

    assert_eq!(actual.len(), 3);
    assert_eq!(actual[0], "ExampleSecret");
    assert_eq!(actual[1], "example-secret");
    assert_eq!(actual[2], "example_secret");
}

#[test]
fn possible_base_names_should_create_alternative_secret_struct_names_and_filter_out_duplicates() {
    let actual = possible_base_names("Secret");

    assert_eq!(actual.len(), 2);
    assert_eq!(actual[0], "Secret");
    assert_eq!(actual[1], "secret");
}

#[test]
fn transformations_possible_base_names_should_create_alternative_secret_struct_names_and_filter_out_duplicates(
) {
    let actual = possible_base_names("Secret");

    assert_eq!(actual.len(), 2);
    assert_eq!(actual[0], "Secret");
    assert_eq!(actual[1], "secret");
}

#[test]
fn lowercase_and_add_should_just_lowercase_name_when_addition_adds_nothing() {
    let actual = lowercase_and_add("SecretName", None);

    assert_eq!(actual, "secretname".to_string());
}

#[test]
fn lowercase_and_add_should_lowercase_and_add_given_value_before_capital_letter_except_first() {
    let actual = lowercase_and_add("SecretSecretName", Some('*'));

    assert_eq!(actual, "secret*secret*name".to_string());
}

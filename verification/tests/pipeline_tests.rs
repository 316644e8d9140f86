use secret_resolution::{
    get_secret_value_as_map, possible_base_names, resolve_secret_names, EnvSetting,
    NonEmptySecrets, RetrievalError, ValidatedSecrets,
};

#[test]
fn candidate_count_is_three_with_internal_boundary_and_two_without() {
    let with_boundary = possible_base_names("AnotherKindOfSampleSecret");
    assert_eq!(with_boundary.len(), 3);
    assert_eq!(with_boundary[0], "AnotherKindOfSampleSecret");
    assert_eq!(with_boundary[1], "another-kind-of-sample-secret");
    assert_eq!(with_boundary[2], "another_kind_of_sample_secret");

    let without_boundary = possible_base_names("Example");
    assert_eq!(without_boundary.len(), 2);
    assert_eq!(without_boundary[0], "Example");
    assert_eq!(without_boundary[1], "example");
}

#[test]
fn resolver_prefers_the_dev_entry_when_present() {
    let found = NonEmptySecrets(vec!["/prod/x".to_string(), "/dev/x".to_string()]);
    let env = EnvSetting::Env(vec!["dev".to_string(), "prod".to_string()]);

    let validated = ValidatedSecrets::new(found, env).unwrap();
    let (full, base) = validated.get_full_and_base_secret();

    assert_eq!(full, "/dev/x");
    assert_eq!(base, "x");
}

#[test]
fn resolver_falls_back_to_the_first_entry_without_dev() {
    let found = NonEmptySecrets(vec!["/prod/x".to_string(), "/acc/x".to_string()]);
    let env = EnvSetting::Env(vec!["prod".to_string(), "acc".to_string()]);

    let validated = ValidatedSecrets::new(found, env).unwrap();
    let (full, base) = validated.get_full_and_base_secret();

    assert_eq!(full, "/prod/x");
    assert_eq!(base, "x");
}

#[test]
fn resolver_strips_every_environment_segment_from_the_base_name() {
    let found = NonEmptySecrets(vec!["/dev/a/dev/b".to_string()]);
    let env = EnvSetting::Env(vec!["dev".to_string()]);

    let validated = ValidatedSecrets::new(found, env).unwrap();
    let (full, base) = validated.get_full_and_base_secret();

    assert_eq!(full, "/dev/a/dev/b");
    assert_eq!(base, "ab");
}

#[test]
fn end_to_end_unscoped_resolution_and_decode() {
    let catalog = vec!["example-secret".to_string()];

    let resolved = resolve_secret_names(catalog, "ExampleSecret", EnvSetting::Unscoped).unwrap();
    assert_eq!(resolved.0, "example-secret");
    assert_eq!(resolved.1, "example-secret");

    let mapping = get_secret_value_as_map(Some("{\"k\":\"v\"}".to_string())).unwrap();
    assert_eq!(mapping.len(), 1);
    assert_eq!(mapping.get("k").unwrap(), &"v");
}

#[test]
fn end_to_end_env_resolution_prefers_dev_and_strips_segments() {
    let catalog = vec![
        "/dev/sample-secret".to_string(),
        "/prod/sample-secret".to_string(),
        "unrelated".to_string(),
    ];
    let env = EnvSetting::Env(vec!["dev".to_string(), "prod".to_string()]);

    let resolved = resolve_secret_names(catalog, "SampleSecret", env).unwrap();

    assert_eq!(resolved.0, "/dev/sample-secret");
    assert_eq!(resolved.1, "sample-secret");
}

#[test]
fn pipeline_reports_not_found_with_every_candidate_tried() {
    let catalog = vec!["AnotherKindOfSampleSecret".to_string()];
    let env = EnvSetting::Env(vec!["dev".to_string(), "prod".to_string()]);

    let actual = resolve_secret_names(catalog, "SampleSecret", env);

    match actual {
        Err(RetrievalError::NotFound(message)) => {
            assert_eq!(
                message,
                "Could not find secret with any of these names: SampleSecret,sample-secret,sample_secret"
            );
        }
        _ => panic!("expected a not-found error"),
    }
}

#[test]
fn pipeline_reports_missing_env_with_requested_and_matched() {
    let catalog = vec!["/prod/sample-secret".to_string()];
    let env = EnvSetting::Env(vec!["dev".to_string(), "prod".to_string()]);

    let actual = resolve_secret_names(catalog, "SampleSecret", env);

    match actual {
        Err(RetrievalError::MissingEnv(message)) => {
            assert_eq!(
                message,
                "received envs dev,prod but only matched these secrets: /prod/sample-secret"
            );
        }
        _ => panic!("expected a missing-env error"),
    }
}

#[test]
fn pipeline_reports_duplicates_when_more_match_than_environments() {
    let catalog = vec![
        "/prod/sample-secret".to_string(),
        "/dev/sample-secret".to_string(),
        "/prod/sample_secret".to_string(),
    ];
    let env = EnvSetting::Env(vec!["dev".to_string(), "prod".to_string()]);

    let actual = resolve_secret_names(catalog, "SampleSecret", env);

    match actual {
        Err(RetrievalError::DuplicateSecrets(message)) => {
            assert_eq!(
                message,
                "expected to find 2 secrets, but found more: /prod/sample-secret,/dev/sample-secret,/prod/sample_secret. Please specify an exact name"
            );
        }
        _ => panic!("expected a duplicate-secrets error"),
    }
}

#[test]
fn pipeline_reports_duplicates_for_several_exact_matches() {
    let found = NonEmptySecrets(vec!["sample-secret".to_string(), "fake-secret".to_string()]);

    let actual = ValidatedSecrets::new(found, EnvSetting::Unscoped);

    match actual {
        Err(RetrievalError::DuplicateSecrets(message)) => {
            assert_eq!(
                message,
                "expected to find an exact match, instead found multiple possible secrets: sample-secret,fake-secret. Please specify an exact name"
            );
        }
        _ => panic!("expected a duplicate-secrets error"),
    }
}

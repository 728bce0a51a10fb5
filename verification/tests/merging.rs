use context_error::{combine_error, combine_errors, BasicKind, CombineErrors, Context, CustomError};

fn sample(line_index: u32) -> CustomError {
    CustomError::new(
        BasicKind::Error,
        "Invalid number",
        "This column is not a number",
        Context::full_line(line_index, "null,80o0,YES,,67.77"),
    )
}

#[test]
fn combining_into_empty_appends() {
    let mut errors: Vec<CustomError> = Vec::new();
    combine_error(&mut errors, sample(0), ());
    assert_eq!(errors.len(), 1);
    assert_eq!(errors[0].get_contexts().len(), 1);
}

#[test]
fn combining_equal_errors_folds_contexts() {
    let mut errors: Vec<CustomError> = Vec::new();
    combine_error(&mut errors, sample(0), ());
    combine_error(&mut errors, sample(7), ());
    assert_eq!(errors.len(), 1);
    assert_eq!(errors[0].get_contexts().len(), 2);
}

#[test]
fn combining_many_identical_keeps_one_record() {
    let mut errors: Vec<CustomError> = Vec::new();
    for i in 0..5u32 {
        combine_error(&mut errors, sample(i), ());
    }
    assert_eq!(errors.len(), 1);
    assert_eq!(errors[0].get_contexts().len(), 5);
    let rendered = errors[0].to_string();
    for i in 1..=5u32 {
        assert!(rendered.contains(&format!("\n{} │ ", i)), "{}", rendered);
    }
}

#[test]
fn version_difference_keeps_records_apart() {
    let mut errors: Vec<CustomError> = Vec::new();
    combine_error(&mut errors, sample(0).version("v1"), ());
    combine_error(&mut errors, sample(1).version("v2"), ());
    assert_eq!(errors.len(), 2);
    assert_eq!(errors[0].get_contexts().len(), 1);
    assert_eq!(errors[1].get_contexts().len(), 1);
}

#[test]
fn kind_difference_keeps_records_apart() {
    let mut errors: Vec<CustomError> = Vec::new();
    combine_error(&mut errors, sample(0), ());
    let warning = CustomError::new(
        BasicKind::Warning,
        "Invalid number",
        "This column is not a number",
        Context::full_line(1, "null,80o0,YES,,67.77"),
    );
    combine_error(&mut errors, warning, ());
    assert_eq!(errors.len(), 2);
}

#[test]
fn suggestion_difference_keeps_records_apart() {
    let mut errors: Vec<CustomError> = Vec::new();
    combine_error(&mut errors, sample(0).suggestions(&vec!["80.0".to_string()]), ());
    combine_error(&mut errors, sample(1), ());
    assert_eq!(errors.len(), 2);
}

#[test]
fn combine_errors_folds_lists_in_order() {
    let mut base: Vec<CustomError> = Vec::new();
    combine_error(&mut base, sample(0), ());
    let other = CustomError::new(
        BasicKind::Error,
        "Missing column",
        "A column is missing",
        Context::full_line(2, "null,80o0"),
    );
    combine_errors(&mut base, vec![sample(3), other, sample(4)], ());
    assert_eq!(base.len(), 2);
    assert_eq!(base[0].get_contexts().len(), 3);
    assert_eq!(base[1].get_contexts().len(), 1);
    assert_eq!(base[0].get_short_description(), "Invalid number");
    assert_eq!(base[1].get_short_description(), "Missing column");
}

#[test]
fn streaming_merger_yields_values_and_collects_errors() {
    let mut merger = CombineErrors::new(());
    let fed: Vec<Result<u32, CustomError>> = vec![
        Ok(1),
        Err(sample(0)),
        Ok(2),
        Err(sample(9)),
        Err(sample(0).version("v2")),
    ];
    let mut values: Vec<u32> = Vec::new();
    for r in fed {
        if let Some(v) = merger.give(r) {
            values.push(v);
        }
    }
    assert_eq!(values, vec![1, 2]);
    assert_eq!(merger.errors().len(), 2);
    assert_eq!(merger.errors()[0].get_contexts().len(), 2);
}

#[test]
fn could_merge_ignores_contexts() {
    let a = sample(0);
    let b = sample(99);
    assert!(a.could_merge(&b));
    let c = sample(0).version("other");
    assert!(!a.could_merge(&c));
}

#[test]
fn underlying_difference_keeps_records_apart() {
    let mut errors: Vec<CustomError> = Vec::new();
    combine_error(&mut errors, sample(0), ());
    combine_error(&mut errors, sample(1).add_underlying_error(sample(2)), ());
    assert_eq!(errors.len(), 2);
}

use snapr::error::to_snapr_error;
use snapr::SnaprError;

#[test]
fn an_error_of_the_source_is_wrapped_as_it_is() {
    let error = to_snapr_error(anyhow::Error::msg("no route to host"));
    match error {
        SnaprError::Unknown(inner) => assert_eq!(inner.to_string(), "no route to host"),
        other => panic!("{:?}", other),
    }
}

#[test]
fn any_error_that_converts_is_wrapped() {
    let error = to_snapr_error(std::fmt::Error);
    match error {
        SnaprError::Unknown(inner) => assert!(inner.is::<std::fmt::Error>()),
        other => panic!("{:?}", other),
    }
}

use w2m::error::W2mError;

#[test]
fn exit_codes_follow_the_readme() {
    assert_eq!(W2mError::Http("x".into()).exit_code(), 2);
    assert_eq!(W2mError::ChromeNotFound.exit_code(), 3);
    assert_eq!(W2mError::Render("x".into()).exit_code(), 3);
    assert_eq!(W2mError::ExtractionEmpty.exit_code(), 4);
    assert_eq!(W2mError::ExtractionFailed("x".into()).exit_code(), 4);
    assert_eq!(W2mError::EmptySpaWithoutRender.exit_code(), 4);
    assert_eq!(W2mError::InvalidUrl("x".into()).exit_code(), 1);
    assert_eq!(W2mError::OutputExists("d".into()).exit_code(), 1);
    assert_eq!(W2mError::Io("x".into()).exit_code(), 1);
    assert_eq!(W2mError::UrlParse("x".into()).exit_code(), 1);
    assert_eq!(W2mError::InvalidSelector("x".into()).exit_code(), 1);
}

#[test]
fn only_extraction_empty_is_extraction_empty() {
    assert!(W2mError::ExtractionEmpty.is_extraction_empty());
    assert!(!W2mError::ExtractionFailed("x".into()).is_extraction_empty());
}

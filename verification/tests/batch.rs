use iqdb_build::inserted_count;
use iqdb_types::IqdbError;

#[test]
fn successful_insert_reports_the_batch_size() {
    assert_eq!(inserted_count(Ok(()), 3), Ok(3));
    assert_eq!(inserted_count(Ok(()), 0), Ok(0));
}

#[test]
fn failed_insert_passes_the_error_on() {
    assert_eq!(inserted_count(Err(IqdbError::Duplicate), 2), Err(IqdbError::Duplicate));
    let mismatch = IqdbError::DimensionMismatch { expected: 3, found: 2 };
    assert_eq!(inserted_count(Err(mismatch), 7), Err(mismatch));
}

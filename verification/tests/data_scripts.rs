use trellis_observatory::testkit::conformance::{ConformanceReport, ConformanceSuite};
use trellis_observatory::testkit::serialized::DataTransactionScript;

#[test]
fn data_script_steps_are_added_on_commit_only() {
    let mut script = DataTransactionScript::<u8>::new();
    script.step("first").operation(7).operation(9).commit();
    assert_eq!(script.steps().len(), 1);
    assert_eq!(script.steps()[0].name(), "first");
    assert_eq!(script.steps()[0].operations(), &[7, 9]);
    assert_eq!(script.format_version(), 2);
    {
        let _abandoned = script.step("abandoned").operation(1);
    }
    assert_eq!(script.steps().len(), 1);
    script.step("second").commit();
    assert_eq!(script.steps().len(), 2);
    assert_eq!(script.steps()[1].name(), "second");
    assert!(script.steps()[1].operations().is_empty());
    assert!(script.validate_format_version().is_ok());
}

#[test]
fn conformance_defaults_are_empty() {
    let report = ConformanceReport::default();
    assert!(report.supported_levels().is_empty());
    assert!(report.unsupported_levels().is_empty());
    let suite = ConformanceSuite::default();
    assert!(suite.required_levels().is_empty());
}

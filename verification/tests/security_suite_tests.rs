use script::runtime::async_security_tests::{
    AsyncSecurityTestSuite, SecuritySeverity, SecurityTestSummary, TestOutcome,
};

#[test]
fn test_security_suite_initialization() {
    let suite = AsyncSecurityTestSuite::new();
    assert_eq!(suite.test_count(), 0);
    assert_eq!(suite.vulnerabilities_found(), 0);
}

#[test]
fn test_security_test_execution() {
    let mut suite = AsyncSecurityTestSuite::new();

    // Test a passing test
    suite.record_result("Test Pass", SecuritySeverity::Low, TestOutcome::Passed("Test passed".to_string()));

    assert_eq!(suite.test_count(), 1);
    assert_eq!(suite.vulnerabilities_found(), 0);

    // Test a failing test
    suite.record_result("Test Fail", SecuritySeverity::High, TestOutcome::Failed("Test failed".to_string()));

    assert_eq!(suite.test_count(), 2);
    assert_eq!(suite.vulnerabilities_found(), 1);
}

#[test]
fn test_security_grade_calculation() {
    let summary = SecurityTestSummary {
        total_tests: 10,
        passed_tests: 10,
        failed_tests: 0,
        critical_failures: 0,
        high_failures: 0,
        overall_secure: true,
        results: vec![],
    };

    assert_eq!(summary.get_security_grade(), 'A');
}

#[test]
fn summary_counts_grades_and_report() {
    let mut suite = AsyncSecurityTestSuite::new();
    suite.record_result("A", SecuritySeverity::Low, TestOutcome::Passed("ok".to_string()));
    suite.record_result("B", SecuritySeverity::High, TestOutcome::Failed("bad".to_string()));
    let summary = suite.generate_summary();
    assert_eq!((summary.total_tests, summary.passed_tests, summary.failed_tests), (2, 1, 1));
    assert_eq!((summary.critical_failures, summary.high_failures), (0, 1));
    assert!(!summary.overall_secure);
    assert_eq!(summary.get_security_grade(), 'C');
    let lines = summary.report_lines();
    assert_eq!(lines[2], "Total Tests: 2");
    assert_eq!(lines[7], "\n⚠️ OVERALL SECURITY STATUS: VULNERABLE ❌");
    assert_eq!(lines[9], "\n📋 FAILED TESTS:");
    assert_eq!(lines[10], "  • B (High): bad");
    assert_eq!(lines[lines.len() - 1], "⚠️ HIGH: Security improvements recommended");

    suite.record_result("C", SecuritySeverity::Low, TestOutcome::Panicked);
    let summary = suite.generate_summary();
    assert_eq!(summary.critical_failures, 1);
    assert_eq!(summary.get_security_grade(), 'F');
    assert_eq!(summary.results[2].details, "Test caused panic");
    assert_eq!(summary.results[2].severity, SecuritySeverity::Critical);

    let mut only_low = AsyncSecurityTestSuite::new();
    only_low.record_result("L", SecuritySeverity::Low, TestOutcome::Failed("x".to_string()));
    assert_eq!(only_low.generate_summary().get_security_grade(), 'B');
    let clean = AsyncSecurityTestSuite::new().generate_summary();
    assert_eq!(clean.report_lines().len(), 11);
    assert_eq!(clean.report_lines()[10], "✅ EXCELLENT: All security tests passed");
}

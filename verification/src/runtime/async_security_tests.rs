//! Bookkeeping of the async security test suite: the results of the
//! tests, their summary, the grade and the report.
use vstd::prelude::*;
use crate::text::{append_text, copy_text, decimal, strings_view, usize_to_text};

verus! {

/// Security severity levels
#[derive(Debug, Clone, Copy, PartialEq, Eq, Structural)]
pub enum SecuritySeverity {
    Critical,
    High,
    Medium,
    Low,
    Info,
}

/// The debug name of a severity.
pub open spec fn severity_name(s: SecuritySeverity) -> Seq<char> {
    match s {
        SecuritySeverity::Critical => "Critical"@,
        SecuritySeverity::High => "High"@,
        SecuritySeverity::Medium => "Medium"@,
        SecuritySeverity::Low => "Low"@,
        SecuritySeverity::Info => "Info"@,
    }
}

impl SecuritySeverity {
    /// The debug name of this severity
    pub fn name(&self) -> (s: &'static str)
        ensures
            s@ == severity_name(*self),
    {
        match self {
            SecuritySeverity::Critical => "Critical",
            SecuritySeverity::High => "High",
            SecuritySeverity::Medium => "Medium",
            SecuritySeverity::Low => "Low",
            SecuritySeverity::Info => "Info",
        }
    }
}

/// Security test results with detailed reporting
#[derive(Debug)]
pub struct SecurityTestResult {
    pub test_name: String,
    pub passed: bool,
    pub vulnerability_detected: bool,
    pub details: String,
    pub severity: SecuritySeverity,
}

/// Two results with the same fields.
pub open spec fn same_result(a: SecurityTestResult, b: SecurityTestResult) -> bool {
    &&& a.test_name@ == b.test_name@
    &&& a.passed == b.passed
    &&& a.vulnerability_detected == b.vulnerability_detected
    &&& a.details@ == b.details@
    &&& a.severity == b.severity
}

/// Two lists of results with the same results in the same order.
pub open spec fn same_results(a: Seq<SecurityTestResult>, b: Seq<SecurityTestResult>) -> bool {
    a.len() == b.len() && forall|i: int| 0 <= i < a.len() ==> same_result(#[trigger] a[i], b[i])
}

impl SecurityTestResult {
    /// A copy of this result
    pub fn copy(&self) -> (r: Self)
        ensures
            same_result(r, *self),
    {
        SecurityTestResult {
            test_name: copy_text(self.test_name.as_str()),
            passed: self.passed,
            vulnerability_detected: self.vulnerability_detected,
            details: copy_text(self.details.as_str()),
            severity: self.severity,
        }
    }
}

/// How a test ended.
pub enum TestOutcome {
    /// It passed, with these details
    Passed(String),
    /// It failed with this error
    Failed(String),
    /// It panicked
    Panicked,
}

/// The number of failed results of a severity.
pub open spec fn failures_of(rs: Seq<SecurityTestResult>, sev: SecuritySeverity) -> nat
    decreases rs.len(),
{
    if rs.len() == 0 {
        0
    } else {
        failures_of(rs.drop_last(), sev) + if !rs.last().passed && rs.last().severity == sev {
            1nat
        } else {
            0nat
        }
    }
}

/// The number of failed results.
pub open spec fn failures(rs: Seq<SecurityTestResult>) -> nat
    decreases rs.len(),
{
    if rs.len() == 0 {
        0
    } else {
        failures(rs.drop_last()) + if !rs.last().passed {
            1nat
        } else {
            0nat
        }
    }
}

proof fn lemma_failures_bounded(rs: Seq<SecurityTestResult>)
    ensures
        failures(rs) <= rs.len(),
    decreases rs.len(),
{
    if rs.len() > 0 {
        lemma_failures_bounded(rs.drop_last());
    }
}

proof fn lemma_failures_of_bounded(rs: Seq<SecurityTestResult>, sev: SecuritySeverity)
    ensures
        failures_of(rs, sev) <= failures(rs),
    decreases rs.len(),
{
    if rs.len() > 0 {
        lemma_failures_of_bounded(rs.drop_last(), sev);
    }
}

/// Comprehensive security test suite: the results so far
pub struct AsyncSecurityTestSuite {
    results: Vec<SecurityTestResult>,
    test_count: usize,
    vulnerabilities_found: usize,
}

impl AsyncSecurityTestSuite {
    /// The results recorded, in order.
    pub closed spec fn recorded(&self) -> Seq<SecurityTestResult> {
        self.results@
    }

    /// The number of tests run and recorded.
    pub closed spec fn count(&self) -> usize {
        self.test_count
    }

    /// The number of tests that found a vulnerability.
    pub closed spec fn found(&self) -> usize {
        self.vulnerabilities_found
    }

    #[verifier::type_invariant]
    spec fn counted(&self) -> bool {
        &&& self.test_count == self.results@.len()
        &&& self.vulnerabilities_found == failures(self.results@)
    }

    /// A suite with no test run yet
    pub fn new() -> (s: Self)
        ensures
            s.recorded() == Seq::<SecurityTestResult>::empty(),
            s.count() == 0,
            s.found() == 0,
    {
        AsyncSecurityTestSuite { results: Vec::new(), test_count: 0, vulnerabilities_found: 0 }
    }

    /// The number of tests run
    pub fn test_count(&self) -> (n: usize)
        ensures
            n == self.count(),
    {
        self.test_count
    }

    /// The number of tests that found a vulnerability
    pub fn vulnerabilities_found(&self) -> (n: usize)
        ensures
            n == self.found(),
    {
        self.vulnerabilities_found
    }

    /// The results recorded, in order
    pub fn results(&self) -> (r: &Vec<SecurityTestResult>)
        ensures
            r@ == self.recorded(),
    {
        &self.results
    }

    /// Record how a test ended: a pass with its details, a failure with
    /// its error (counted as a vulnerability), or a panic (counted, and
    /// critical whatever the test's severity)
    pub fn record_result(&mut self, test_name: &str, severity: SecuritySeverity, outcome: TestOutcome)
        requires
            old(self).count() < usize::MAX,
        ensures
            final(self).count() == old(self).count() + 1,
            final(self).recorded().len() == old(self).recorded().len() + 1,
            forall|i: int| 0 <= i < old(self).recorded().len() ==> #[trigger] final(self).recorded()[i] == old(self).recorded()[i],
            ({
                let r = final(self).recorded().last();
                &&& r.test_name@ == test_name@
                &&& match outcome {
                    TestOutcome::Passed(d) => r.passed && !r.vulnerability_detected && r.details@ == d@ && r.severity
                        == severity && final(self).found() == old(self).found(),
                    TestOutcome::Failed(e) => !r.passed && r.vulnerability_detected && r.details@ == e@ && r.severity
                        == severity && final(self).found() == old(self).found() + 1,
                    TestOutcome::Panicked => !r.passed && r.vulnerability_detected && r.details@
                        == "Test caused panic"@ && r.severity == SecuritySeverity::Critical && final(self).found()
                        == old(self).found() + 1,
                }
            }),
    {
        proof {
            use_type_invariant(&*self);
            lemma_failures_bounded(self.results@);
        }
        let result = match outcome {
            TestOutcome::Passed(details) => SecurityTestResult {
                test_name: copy_text(test_name),
                passed: true,
                vulnerability_detected: false,
                details,
                severity,
            },
            TestOutcome::Failed(error) => SecurityTestResult {
                test_name: copy_text(test_name),
                passed: false,
                vulnerability_detected: true,
                details: error,
                severity,
            },
            TestOutcome::Panicked => SecurityTestResult {
                test_name: copy_text(test_name),
                passed: false,
                vulnerability_detected: true,
                details: copy_text("Test caused panic"),
                severity: SecuritySeverity::Critical,
            },
        };
        let failed = !result.passed;
        let mut current = AsyncSecurityTestSuite::new();
        std::mem::swap(&mut current, self);
        let AsyncSecurityTestSuite { results, test_count, vulnerabilities_found } = current;
        let mut results = results;
        let ghost before = results@;
        results.push(result);
        assert(results@.drop_last() =~= before);
        let count = test_count + 1;
        let found = if failed {
            vulnerabilities_found + 1
        } else {
            vulnerabilities_found
        };
        *self = AsyncSecurityTestSuite { results, test_count: count, vulnerabilities_found: found };
    }

    /// Summarize the results: counts of tests, passes, failures, critical
    /// and high-severity failures
    pub fn generate_summary(&self) -> (s: SecurityTestSummary)
        ensures
            s.total_tests == self.count(),
            s.failed_tests == self.found(),
            s.passed_tests == self.count() - self.found(),
            s.critical_failures == failures_of(self.recorded(), SecuritySeverity::Critical),
            s.high_failures == failures_of(self.recorded(), SecuritySeverity::High),
            s.overall_secure == (self.found() == 0),
            same_results(s.results@, self.recorded()),
    {
        proof {
            use_type_invariant(self);
            lemma_failures_bounded(self.results@);
        }
        let mut critical: usize = 0;
        let mut high: usize = 0;
        let mut copies: Vec<SecurityTestResult> = Vec::new();
        let mut i: usize = 0;
        while i < self.results.len()
            invariant
                i <= self.results@.len(),
                self.test_count == self.results@.len(),
                critical == failures_of(self.results@.subrange(0, i as int), SecuritySeverity::Critical),
                high == failures_of(self.results@.subrange(0, i as int), SecuritySeverity::High),
                same_results(copies@, self.results@.subrange(0, i as int)),
            decreases self.results@.len() - i,
        {
            proof {
                let sub = self.results@.subrange(0, i + 1);
                assert(sub.drop_last() =~= self.results@.subrange(0, i as int));
                lemma_failures_bounded(self.results@.subrange(0, i as int));
                lemma_failures_of_bounded(self.results@.subrange(0, i as int), SecuritySeverity::Critical);
                lemma_failures_of_bounded(self.results@.subrange(0, i as int), SecuritySeverity::High);
            }
            let r = &self.results[i];
            if !r.passed && r.severity == SecuritySeverity::Critical {
                critical = critical + 1;
            }
            if !r.passed && r.severity == SecuritySeverity::High {
                high = high + 1;
            }
            copies.push(r.copy());
            i = i + 1;
        }
        assert(self.results@.subrange(0, i as int) =~= self.results@);
        SecurityTestSummary {
            total_tests: self.test_count,
            passed_tests: self.test_count - self.vulnerabilities_found,
            failed_tests: self.vulnerabilities_found,
            critical_failures: critical,
            high_failures: high,
            overall_secure: self.vulnerabilities_found == 0,
            results: copies,
        }
    }
}

/// Summary of security test results
#[derive(Debug)]
pub struct SecurityTestSummary {
    pub total_tests: usize,
    pub passed_tests: usize,
    pub failed_tests: usize,
    pub critical_failures: usize,
    pub high_failures: usize,
    pub overall_secure: bool,
    pub results: Vec<SecurityTestResult>,
}

/// The grade of a summary: F with a critical failure, else C with a high
/// one, else B with any failure, else A.
pub open spec fn grade(s: SecurityTestSummary) -> char {
    if s.critical_failures > 0 {
        'F'
    } else if s.high_failures > 0 {
        'C'
    } else if s.failed_tests > 0 {
        'B'
    } else {
        'A'
    }
}

/// The assessment line of a report.
pub open spec fn assessment_line(s: SecurityTestSummary) -> Seq<char> {
    if s.critical_failures > 0 {
        "🚨 CRITICAL: Immediate security fixes required"@
    } else if s.high_failures > 0 {
        "⚠️ HIGH: Security improvements recommended"@
    } else if s.failed_tests > 0 {
        "ℹ️ MEDIUM: Minor security enhancements suggested"@
    } else {
        "✅ EXCELLENT: All security tests passed"@
    }
}

/// The report line of a failed test.
pub open spec fn failed_line(r: SecurityTestResult) -> Seq<char> {
    "  • "@ + r.test_name@ + " ("@ + severity_name(r.severity) + "): "@ + r.details@
}

/// The report lines of the failed tests, in order.
pub open spec fn failed_lines(rs: Seq<SecurityTestResult>) -> Seq<Seq<char>>
    decreases rs.len(),
{
    if rs.len() == 0 {
        Seq::empty()
    } else if !rs.last().passed {
        failed_lines(rs.drop_last()).push(failed_line(rs.last()))
    } else {
        failed_lines(rs.drop_last())
    }
}

/// The lines of a report: the counts, the overall status, the failed tests
/// (when there are any) and the assessment; a line that starts a section
/// starts with an empty line.
pub open spec fn report_lines(s: SecurityTestSummary) -> Seq<Seq<char>> {
    let counts = seq![
        "\n🔒 ASYNC SECURITY TEST SUMMARY"@,
        "════════════════════════════════"@,
        "Total Tests: "@ + decimal(s.total_tests as nat),
        "Passed: "@ + decimal(s.passed_tests as nat) + " ✅"@,
        "Failed: "@ + decimal(s.failed_tests as nat) + " ❌"@,
        "Critical Failures: "@ + decimal(s.critical_failures as nat) + " 🚨"@,
        "High Severity Failures: "@ + decimal(s.high_failures as nat) + " ⚠️"@,
    ];
    let status = if s.overall_secure {
        seq!["\n🎉 OVERALL SECURITY STATUS: SECURE ✅"@, "No critical security vulnerabilities detected."@]
    } else {
        seq!["\n⚠️ OVERALL SECURITY STATUS: VULNERABLE ❌"@, "Security vulnerabilities detected - immediate action required."@]
    };
    let failed = if s.failed_tests > 0 {
        seq!["\n📋 FAILED TESTS:"@] + failed_lines(s.results@)
    } else {
        Seq::empty()
    };
    counts + status + failed + seq!["\n📊 SECURITY ASSESSMENT:"@, assessment_line(s)]
}

/// A label, a count and a mark: `label count mark`.
fn count_line(label: &str, n: usize, mark: &str) -> (s: String)
    ensures
        s@ == label@ + decimal(n as nat) + mark@,
{
    let mut s = copy_text(label);
    let t = usize_to_text(n);
    append_text(&mut s, t.as_str());
    append_text(&mut s, mark);
    s
}

impl SecurityTestSummary {
    /// Get security grade
    pub fn get_security_grade(&self) -> (c: char)
        ensures
            c == grade(*self),
    {
        if self.critical_failures > 0 {
            'F'
        } else if self.high_failures > 0 {
            'C'
        } else if self.failed_tests > 0 {
            'B'
        } else {
            'A'
        }
    }

    /// The lines of a comprehensive security report
    pub fn report_lines(&self) -> (lines: Vec<String>)
        ensures
            strings_view(lines@) == report_lines(*self),
    {
        proof {
            reveal_strlit("");
        }
        let mut lines: Vec<String> = Vec::new();
        lines.push(copy_text("\n🔒 ASYNC SECURITY TEST SUMMARY"));
        lines.push(copy_text("════════════════════════════════"));
        lines.push(count_line("Total Tests: ", self.total_tests, ""));
        lines.push(count_line("Passed: ", self.passed_tests, " ✅"));
        lines.push(count_line("Failed: ", self.failed_tests, " ❌"));
        lines.push(count_line("Critical Failures: ", self.critical_failures, " 🚨"));
        lines.push(count_line("High Severity Failures: ", self.high_failures, " ⚠️"));
        if self.overall_secure {
            lines.push(copy_text("\n🎉 OVERALL SECURITY STATUS: SECURE ✅"));
            lines.push(copy_text("No critical security vulnerabilities detected."));
        } else {
            lines.push(copy_text("\n⚠️ OVERALL SECURITY STATUS: VULNERABLE ❌"));
            lines.push(copy_text("Security vulnerabilities detected - immediate action required."));
        }
        let ghost head = strings_view(lines@);
        assert(head =~= report_lines(*self).subrange(0, 9));
        if self.failed_tests > 0 {
            lines.push(copy_text("\n📋 FAILED TESTS:"));
            let ghost with_title = strings_view(lines@);
            let mut i: usize = 0;
            assert(self.results@.subrange(0, 0) =~= Seq::<SecurityTestResult>::empty());
            assert(strings_view(lines@) =~= with_title + failed_lines(self.results@.subrange(0, 0)));
            while i < self.results.len()
                invariant
                    i <= self.results@.len(),
                    strings_view(lines@) == with_title + failed_lines(self.results@.subrange(0, i as int)),
                decreases self.results@.len() - i,
            {
                let r = &self.results[i];
                let ghost before = strings_view(lines@);
                if !r.passed {
                    let mut line = copy_text("  • ");
                    append_text(&mut line, r.test_name.as_str());
                    append_text(&mut line, " (");
                    append_text(&mut line, r.severity.name());
                    append_text(&mut line, "): ");
                    append_text(&mut line, r.details.as_str());
                    lines.push(line);
                    assert(strings_view(lines@) =~= before.push(failed_line(*r)));
                }
                let ghost sub = self.results@.subrange(0, i + 1);
                assert(sub.drop_last() =~= self.results@.subrange(0, i as int));
                assert(sub.last() == *r);
                i = i + 1;
            }
            assert(self.results@.subrange(0, i as int) =~= self.results@);
        }
        let ghost before_assess = strings_view(lines@);
        assert(before_assess =~= head + (if self.failed_tests > 0 {
            seq!["\n📋 FAILED TESTS:"@] + failed_lines(self.results@)
        } else {
            Seq::<Seq<char>>::empty()
        }));
        lines.push(copy_text("\n📊 SECURITY ASSESSMENT:"));
        let assess = if self.critical_failures > 0 {
            "🚨 CRITICAL: Immediate security fixes required"
        } else if self.high_failures > 0 {
            "⚠️ HIGH: Security improvements recommended"
        } else if self.failed_tests > 0 {
            "ℹ️ MEDIUM: Minor security enhancements suggested"
        } else {
            "✅ EXCELLENT: All security tests passed"
        };
        assert(assess@ == assessment_line(*self));
        lines.push(copy_text(assess));
        assert(strings_view(lines@) =~= before_assess + seq!["\n📊 SECURITY ASSESSMENT:"@, assessment_line(*self)]);
        assert(strings_view(lines@) =~= report_lines(*self));
        lines
    }
}

} // verus!

//! Doctor checks: assemble the diagnostic report from the outcomes of the
//! environment probes. The probes themselves (spawning the engine, asking
//! git, writing a file) run outside and hand in their verdicts.

use vstd::prelude::*;

use crate::text::string_of;

verus! {

/// One diagnostic check: its name, verdict and detail text.
#[derive(Clone, Debug)]
pub struct DoctorCheck {
    pub name: &'static str,
    pub ok: bool,
    pub detail: String,
}

/// The whole diagnostic report.
#[derive(Clone, Debug)]
pub struct DoctorReport {
    pub cwd: String,
    pub ok: bool,
    pub checks: Vec<DoctorCheck>,
    pub warnings: Vec<String>,
    pub attempted_fixes: Vec<String>,
}

/// Assemble the four standard checks from the probe verdicts, in order:
/// engine availability, git repository, runtime writability, configuration.
pub fn collect_doctor_checks(
    engine: (bool, String),
    git: (bool, String),
    writable: (bool, String),
    config: (bool, String),
) -> (r: Vec<DoctorCheck>)
    ensures
        r@.len() == 4,
        r@[0].name@ == "engine_available"@ && r@[0].ok == engine.0 && r@[0].detail == engine.1,
        r@[1].name@ == "git_repository"@ && r@[1].ok == git.0 && r@[1].detail == git.1,
        r@[2].name@ == "runtime_writable"@ && r@[2].ok == writable.0 && r@[2].detail == writable.1,
        r@[3].name@ == "config_loadable"@ && r@[3].ok == config.0 && r@[3].detail == config.1,
{
    let mut checks: Vec<DoctorCheck> = Vec::new();
    checks.push(DoctorCheck { name: "engine_available", ok: engine.0, detail: engine.1 });
    checks.push(DoctorCheck { name: "git_repository", ok: git.0, detail: git.1 });
    checks.push(DoctorCheck { name: "runtime_writable", ok: writable.0, detail: writable.1 });
    checks.push(DoctorCheck { name: "config_loadable", ok: config.0, detail: config.1 });
    checks
}

/// The warnings raised for missing advisory files.
pub fn collect_doctor_warnings(forgerc_exists: bool, analyze_report_exists: bool) -> (r: Vec<
    String,
>)
    ensures
        r@.len() == (if forgerc_exists {
            0 as nat
        } else {
            1 as nat
        }) + (if analyze_report_exists {
            0 as nat
        } else {
            1 as nat
        }),
        !forgerc_exists ==> r@[0]@ == "missing .forgerc (using only env/defaults)"@,
        !analyze_report_exists ==> r@[r@.len() - 1]@
            == "no persisted analyze report yet (.forge/analyze/latest.json)"@,
{
    let mut warnings: Vec<String> = Vec::new();
    if !forgerc_exists {
        warnings.push(String::from_str("missing .forgerc (using only env/defaults)"));
    }
    if !analyze_report_exists {
        warnings.push(
            String::from_str("no persisted analyze report yet (.forge/analyze/latest.json)"),
        );
    }
    warnings
}

/// Assemble the doctor report: it passes when every check passed, and in
/// strict mode additionally when no warning was raised.
pub fn run_doctor(
    cwd: String,
    checks: Vec<DoctorCheck>,
    warnings: Vec<String>,
    attempted_fixes: Vec<String>,
    strict: bool,
) -> (r: DoctorReport)
    ensures
        r.cwd == cwd,
        r.checks == checks,
        r.warnings == warnings,
        r.attempted_fixes == attempted_fixes,
        r.ok == ((forall|i: int| 0 <= i < checks@.len() ==> (#[trigger] checks@[i]).ok) && !(strict
            && warnings@.len() > 0)),
{
    let mut all_ok = true;
    let mut i: usize = 0;
    while i < checks.len()
        invariant
            i <= checks@.len(),
            all_ok == (forall|k: int| 0 <= k < i ==> (#[trigger] checks@[k]).ok),
        decreases checks@.len() - i,
    {
        if !checks[i].ok {
            all_ok = false;
        }
        i = i + 1;
    }
    let strict_failed = strict && warnings.len() > 0;
    DoctorReport { cwd, ok: all_ok && !strict_failed, checks, warnings, attempted_fixes }
}

} // verus!

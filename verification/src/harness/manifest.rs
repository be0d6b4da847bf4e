//! The run manifest: record, do not assume.
use crate::text::same;
use vstd::prelude::*;
use vstd::string::*;

verus! {

/// What is recorded of a run and the machine it ran on.
#[derive(Debug)]
pub struct Manifest {
    pub selene_db_sha: String,
    pub harness_sha: String,
    pub rustc_version: String,
    pub cpu_model: String,
    pub physical_cores: String,
    pub logical_cores: String,
    pub ram_bytes: String,
    pub os_build: String,
    pub seed: u64,
    pub reps_per_cell: u32,
    pub samples_per_arm: u32,
}

/// What is recorded of a probe: its trimmed output, or that nothing was recorded. A probe that
/// fails or says nothing is never guessed.
pub open spec fn recorded(output: Option<Seq<char>>) -> Seq<char> {
    match output {
        Some(s) => if s.len() == 0 {
            "unrecorded"@
        } else {
            s
        },
        None => "unrecorded"@,
    }
}

/// What is recorded of a probe.
pub fn probe_record(output: &Option<String>) -> (r: String)
    ensures
        r@ == recorded(crate::text::opt_view(*output)),
{
    match output {
        Some(s) => if s.as_str().is_empty() {
            "unrecorded".to_owned()
        } else {
            s.clone()
        },
        None => "unrecorded".to_owned(),
    }
}

/// The recorded revision of a tree: marked where the tree has uncommitted changes.
pub open spec fn head_text(sha: Seq<char>, status: Seq<char>) -> Seq<char> {
    if sha == "unrecorded"@ || status == "unrecorded"@ || status.len() == 0 {
        sha
    } else {
        sha + "-dirty"@
    }
}

/// The recorded revision of a tree, from the recorded revision and the recorded status.
pub fn git_head(sha: &str, status: &str) -> (r: String)
    ensures
        r@ == head_text(sha@, status@),
{
    if same(sha, "unrecorded") || same(status, "unrecorded") || status.is_empty() {
        return sha.to_owned();
    }
    let mut s = sha.to_owned();
    s.append("-dirty");
    s
}

/// The outputs of the probes of a run, trimmed; `None` where a probe failed.
#[derive(Debug)]
pub struct Probes {
    pub selene_sha: Option<String>,
    pub selene_status: Option<String>,
    pub harness_sha: Option<String>,
    pub harness_status: Option<String>,
    pub rustc_version: Option<String>,
    pub cpu_model: Option<String>,
    pub physical_cores: Option<String>,
    pub logical_cores: Option<String>,
    pub ram_bytes: Option<String>,
    pub os_build: Option<String>,
}

impl Manifest {
    /// The manifest of a run, from the outputs of its probes.
    pub fn capture(probes: &Probes, seed: u64, reps_per_cell: u32, samples_per_arm: u32) -> (r:
        Manifest)
        ensures
            r.selene_db_sha@ == head_text(
                recorded(crate::text::opt_view(probes.selene_sha)),
                recorded(crate::text::opt_view(probes.selene_status)),
            ),
            r.harness_sha@ == head_text(
                recorded(crate::text::opt_view(probes.harness_sha)),
                recorded(crate::text::opt_view(probes.harness_status)),
            ),
            r.rustc_version@ == recorded(crate::text::opt_view(probes.rustc_version)),
            r.cpu_model@ == recorded(crate::text::opt_view(probes.cpu_model)),
            r.physical_cores@ == recorded(crate::text::opt_view(probes.physical_cores)),
            r.logical_cores@ == recorded(crate::text::opt_view(probes.logical_cores)),
            r.ram_bytes@ == recorded(crate::text::opt_view(probes.ram_bytes)),
            r.os_build@ == recorded(crate::text::opt_view(probes.os_build)),
            r.seed == seed,
            r.reps_per_cell == reps_per_cell,
            r.samples_per_arm == samples_per_arm,
    {
        Manifest {
            selene_db_sha: git_head(
                &probe_record(&probes.selene_sha),
                &probe_record(&probes.selene_status),
            ),
            harness_sha: git_head(
                &probe_record(&probes.harness_sha),
                &probe_record(&probes.harness_status),
            ),
            rustc_version: probe_record(&probes.rustc_version),
            cpu_model: probe_record(&probes.cpu_model),
            physical_cores: probe_record(&probes.physical_cores),
            logical_cores: probe_record(&probes.logical_cores),
            ram_bytes: probe_record(&probes.ram_bytes),
            os_build: probe_record(&probes.os_build),
            seed,
            reps_per_cell,
            samples_per_arm,
        }
    }
}

/// What is recorded of a probe is what it said, or that it said nothing; and a revision is marked
/// exactly where it is recorded and the recorded status tells of changes.
pub proof fn probes_are_never_guessed(output: Option<Seq<char>>, sha: Seq<char>, status: Seq<char>)
    ensures
        output is Some && output->0.len() > 0 ==> recorded(output) == output->0,
        output is None || output->0.len() == 0 ==> recorded(output) == "unrecorded"@,
        sha != "unrecorded"@ && status != "unrecorded"@ && status.len() > 0 ==> head_text(
            sha,
            status,
        ) == sha + "-dirty"@,
        sha == "unrecorded"@ || status == "unrecorded"@ || status.len() == 0 ==> head_text(
            sha,
            status,
        ) == sha,
{
}

} // verus!

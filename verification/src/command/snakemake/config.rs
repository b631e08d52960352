//! The profile that lets the workflow engine run its jobs through the queue.

use crate::util::text::concat;
use vstd::prelude::*;
use vstd::string::*;

verus! {

/// One file of the profile.
pub struct ProfileFile {
    pub name: String,
    pub contents: String,
    /// Whether the file is a script that the workflow engine calls.
    pub executable: bool,
}

/// The name of the script that cancels jobs.
pub const CANCEL_NAME: &'static str = "cancel.sh";

/// The name of the template of a job script.
pub const JOBSCRIPT_NAME: &'static str = "jobscript.sh";

/// The name of the script that tells the status of a job.
pub const STATUS_NAME: &'static str = "status.sh";

/// The name of the script that submits a job.
pub const SUBMIT_NAME: &'static str = "submit.sh";

/// The name of the settings of the profile.
pub const CONFIG_NAME: &'static str = "config.yaml";

/// The settings of the profile: which script does what.
pub open spec fn config_text() -> Seq<char> {
    "jobscript: "@ + JOBSCRIPT_NAME@ + "\ncluster: "@ + SUBMIT_NAME@ + "\ncluster-status: "@
        + STATUS_NAME@ + "\ncluster-cancel: "@ + CANCEL_NAME@
}

/// The script that hands its arguments to the subcommand `verb`.
pub open spec fn stub_text(verb: Seq<char>) -> Seq<char> {
    "#!/bin/bash\nrsrq snakemake "@ + verb + " \"$@\"\n"@
}

/// The files of the profile and what they hold.
pub open spec fn profile() -> Seq<(Seq<char>, Seq<char>, bool)> {
    seq![
        (CONFIG_NAME@, config_text(), false),
        (CANCEL_NAME@, stub_text("cancel"@), true),
        (
            JOBSCRIPT_NAME@,
            "#!/bin/bash\n# properties = {properties}\n\nset -o errexit\n{exec_job}\n"@,
            false,
        ),
        (STATUS_NAME@, stub_text("status"@), true),
        (SUBMIT_NAME@, stub_text("submit"@), true),
    ]
}

/// What a list of files holds.
pub open spec fn file_views(files: Seq<ProfileFile>) -> Seq<(Seq<char>, Seq<char>, bool)> {
    files.map_values(|f: ProfileFile| (f.name@, f.contents@, f.executable))
}

/// The script that hands its arguments to the subcommand `verb`.
fn stub(verb: &str) -> (r: String)
    ensures
        r@ == stub_text(verb@),
{
    let mut s = concat("#!/bin/bash\nrsrq snakemake ", verb);
    s.append(" \"$@\"\n");
    s
}

/// The files of the profile, in the order in which they are written: the
/// settings, then the scripts. The three scripts that the workflow engine
/// calls are executable.
pub fn snakemake_config() -> (files: Vec<ProfileFile>)
    ensures
        file_views(files@) == profile(),
{
    let mut config = concat("jobscript: ", JOBSCRIPT_NAME);
    config.append("\ncluster: ");
    config.append(SUBMIT_NAME);
    config.append("\ncluster-status: ");
    config.append(STATUS_NAME);
    config.append("\ncluster-cancel: ");
    config.append(CANCEL_NAME);
    let mut files: Vec<ProfileFile> = Vec::new();
    files.push(ProfileFile { name: CONFIG_NAME.to_owned(), contents: config, executable: false });
    files.push(
        ProfileFile { name: CANCEL_NAME.to_owned(), contents: stub("cancel"), executable: true },
    );
    files.push(
        ProfileFile {
            name: JOBSCRIPT_NAME.to_owned(),
            contents: "#!/bin/bash\n# properties = {properties}\n\nset -o errexit\n{exec_job}\n".to_owned(),
            executable: false,
        },
    );
    files.push(
        ProfileFile { name: STATUS_NAME.to_owned(), contents: stub("status"), executable: true },
    );
    files.push(
        ProfileFile { name: SUBMIT_NAME.to_owned(), contents: stub("submit"), executable: true },
    );
    assert(file_views(files@) =~= profile());
    files
}

} // verus!

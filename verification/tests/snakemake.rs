use rsrq::command::snakemake::config::snakemake_config;
use rsrq::command::snakemake::submit::{
    properties_of_line, queue_from_properties, read_properties_from_jobscript, snakemake_submit,
};
use rsrq::model::error::RsrqError;

#[test]
fn the_properties_stand_on_the_first_line_that_is_marked() {
    let script = "#!/bin/sh\n# properties = {\"rule\": \"a\"}  \n# properties = {}\nrun\n";
    assert_eq!(read_properties_from_jobscript("job.sh", script).unwrap(), "{\"rule\": \"a\"}");
    assert_eq!(properties_of_line("# properties ={}").unwrap(), "{}");
    assert_eq!(properties_of_line("# properties = \t {} \u{a0}\r").unwrap(), "{}");
    assert_eq!(properties_of_line("# properties =# properties = x").unwrap(), "x");
    assert_eq!(properties_of_line("# properties =").unwrap(), "");
    assert_eq!(properties_of_line(" # properties = {}"), None);
    assert_eq!(properties_of_line("# properties"), None);
    assert_eq!(properties_of_line(""), None);
    for line in ["# properties = {\"a\": 1} ", "# properties =  x  y  ", "# properties =# properties =# pro"] {
        let expected = line.trim_start_matches("# properties =").trim();
        assert_eq!(properties_of_line(line).unwrap(), expected);
    }
}

#[test]
fn a_job_script_without_properties_is_rejected() {
    for script in ["", "#!/bin/sh\nrun\n", " # properties = {}\n"] {
        assert!(matches!(
            read_properties_from_jobscript("job.sh", script),
            Err(RsrqError::SnakemakeInvalidJobScript(ref m))
                if m == "No properties section found in job script: job.sh"
        ));
    }
}

#[test]
fn a_job_script_runs_on_the_queue_that_its_resources_name() {
    let on = |properties: &str| snakemake_submit("job.sh", &format!("#!/bin/sh\n# properties = {}\nrun\n", properties));
    assert_eq!(on("{\"resources\": {\"queue\": \"fast\"}}").unwrap(), "fast");
    assert_eq!(on("{\"resources\": {\"queue\": \"\"}}").unwrap(), "");
    assert_eq!(on("{\"resources\": {\"mem\": 4}}").unwrap(), "default");
    assert_eq!(on("{\"resources\": {\"queue\": null}}").unwrap(), "default");
    assert_eq!(on("{\"resources\": {\"queue\": 7}}").unwrap(), "default");
    assert_eq!(on("{\"resources\": [\"queue\"]}").unwrap(), "default");
    assert_eq!(on("{}").unwrap(), "default");
    assert_eq!(on("[1, 2]").unwrap(), "default");
    assert!(matches!(on("{\"resources\": "), Err(RsrqError::InvalidJson(_))));
    assert!(matches!(on(""), Err(RsrqError::InvalidJson(_))));
    assert!(matches!(on("{properties}"), Err(RsrqError::InvalidJson(_))));
}

#[test]
fn the_queue_of_the_properties_or_the_default() {
    assert_eq!(queue_from_properties(Ok(Some("q".to_string()))).unwrap(), "q");
    assert_eq!(queue_from_properties(Ok(None)).unwrap(), "default");
    assert!(matches!(
        queue_from_properties(Err("expected value".to_string())),
        Err(RsrqError::InvalidJson(ref m)) if m == "expected value"
    ));
}

#[test]
fn the_profile_of_the_workflow_engine() {
    let files = snakemake_config();
    let found: Vec<(&str, &str, bool)> =
        files.iter().map(|f| (f.name.as_str(), f.contents.as_str(), f.executable)).collect();
    assert_eq!(
        found,
        vec![
            (
                "config.yaml",
                "jobscript: jobscript.sh\ncluster: submit.sh\ncluster-status: status.sh\ncluster-cancel: cancel.sh",
                false
            ),
            ("cancel.sh", "#!/bin/bash\nrsrq snakemake cancel \"$@\"\n", true),
            (
                "jobscript.sh",
                "#!/bin/bash\n# properties = {properties}\n\nset -o errexit\n{exec_job}\n",
                false
            ),
            ("status.sh", "#!/bin/bash\nrsrq snakemake status \"$@\"\n", true),
            ("submit.sh", "#!/bin/bash\nrsrq snakemake submit \"$@\"\n", true),
        ]
    );
}

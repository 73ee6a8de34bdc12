use romad::jobs::{Job, JobSummary, RunningStatus, StatusMap, TaskGroups};
use romad::json::{Json, Number};
use romad::decode::{
    job_from_text, jobs_from_json, jobs_from_parsed, jobs_from_text, ParseError,
};
use romad::schema::{DecodeError, DecodeErrorKind, WireInt};

const EXAMPLE: &str = r#"{
    "ID": "example",
    "ParentID": "",
    "Name": "example",
    "Namespace": "default",
    "Datacenters": ["dc1"],
    "MultiRegion": null,
    "Type": "service",
    "Priority": 50,
    "Periodic": false,
    "ParameterizedJob": false,
    "Stop": false,
    "Status": "running",
    "StatusDescription": "",
    "JobSummary": {
        "JobID": "example",
        "Namespace": "default",
        "Summary": {
            "cache": {
                "Queued": 0,
                "Complete": 0,
                "Failed": 0,
                "Running": 1,
                "Starting": 0,
                "Lost": 0
            }
        },
        "Children": {
            "Pending": 0,
            "Running": 0,
            "Dead": 0
        },
        "CreateIndex": 10,
        "ModifyIndex": 15
    },
    "CreateIndex": 10,
    "ModifyIndex": 18,
    "JobModifyIndex": 10,
    "SubmitTime": 1602674099080312000
}"#;

fn example_with(from: &str, to: &str) -> String {
    assert!(EXAMPLE.contains(from), "the example holds no {}", from);
    EXAMPLE.replacen(from, to, 1)
}

fn schema_error(text: &str) -> DecodeError {
    match job_from_text(text) {
        Err(ParseError::Schema(e)) => e,
        other => panic!("no schema error: {:?}", other),
    }
}

fn fault(kind: DecodeErrorKind, field: &str) -> DecodeError {
    DecodeError { kind, field: field.to_string() }
}

#[test]
fn test_job_from_str() {
    let job: Job = job_from_text(EXAMPLE).unwrap();

    // Test select attributes
    assert_eq!(job.ID, "example".to_string());
    assert_eq!(job.Datacenters, ["dc1".to_string()]);
    assert_eq!(job.Priority, 50);
    assert_eq!(job.ParameterizedJob, false);

    assert_eq!(
        job.JobSummary
            .Summary
            .get("cache")
            .unwrap()
            .get(&RunningStatus::Running)
            .unwrap(),
        &1
    );
}

#[test]
fn every_field_of_the_example_is_read() {
    let job = job_from_text(EXAMPLE).unwrap();
    assert_eq!(job.ID, "example");
    assert_eq!(job.ParentID, "");
    assert_eq!(job.Namespace, "default");
    assert_eq!(job.Datacenters, vec!["dc1".to_string()]);
    assert_eq!(job.MultiRegion, None);
    assert_eq!(job.Type, "service");
    assert_eq!(job.Priority, 50);
    assert!(!job.Periodic);
    assert!(!job.ParameterizedJob);
    assert!(!job.Stop);
    assert_eq!(job.Status, "running");
    assert_eq!(job.StatusDescription, "");
    assert_eq!(job.CreateIndex, 10);
    assert_eq!(job.ModifyIndex, 18);
    assert_eq!(job.JobModifyIndex, 10);
    assert_eq!(job.SubmitTime, 1602674099080312000);
    let summary = &job.JobSummary;
    assert_eq!(summary.JobID, "example");
    assert_eq!(summary.Namespace, "default");
    assert_eq!(summary.CreateIndex, 10);
    assert_eq!(summary.ModifyIndex, 15);
    assert_eq!(summary.Summary.entries().len(), 1);
    let cache = summary.Summary.get("cache").unwrap();
    assert_eq!(cache.get(&RunningStatus::Queued), Some(&0));
    assert_eq!(cache.get(&RunningStatus::Running), Some(&1));
    assert_eq!(cache.get(&RunningStatus::Lost), Some(&0));
    assert_eq!(cache.get(&RunningStatus::Pending), None);
    assert_eq!(cache.get(&RunningStatus::Dead), None);
    assert_eq!(summary.Children.get(&RunningStatus::Pending), Some(&0));
    assert_eq!(summary.Children.get(&RunningStatus::Dead), Some(&0));
    assert_eq!(summary.Children.get(&RunningStatus::Queued), None);
}

#[test]
fn a_list_of_one_job_is_read() {
    let text = format!("[{}]", EXAMPLE);
    let jobs = jobs_from_text(&text).unwrap();
    assert_eq!(jobs.len(), 1);
    assert_eq!(jobs[0].ID, "example");
    assert_eq!(jobs[0].Datacenters, vec!["dc1".to_string()]);
    assert_eq!(jobs[0].Priority, 50);
    assert!(!jobs[0].ParameterizedJob);
    assert_eq!(
        jobs[0].JobSummary.Summary.get("cache").unwrap().get(&RunningStatus::Running),
        Some(&1)
    );
}

#[test]
fn jobs_come_in_the_order_of_the_text() {
    let second = example_with("\"ID\": \"example\"", "\"ID\": \"another\"");
    let third = example_with("\"ID\": \"example\"", "\"ID\": \"a-third\"");
    let text = format!("[{}, {}, {}]", second, EXAMPLE, third);
    let jobs = jobs_from_text(&text).unwrap();
    let ids: Vec<&str> = jobs.iter().map(|j| j.ID.as_str()).collect();
    assert_eq!(ids, vec!["another", "example", "a-third"]);
}

#[test]
fn an_empty_list_holds_no_jobs() {
    assert_eq!(jobs_from_text("[]").unwrap().len(), 0);
    assert_eq!(jobs_from_text(" [ ] ").unwrap().len(), 0);
}

#[test]
fn an_unknown_status_fails_the_whole_list() {
    let bad = example_with("\"Running\": 1", "\"Unknown\": 1");
    let text = format!("[{}, {}]", EXAMPLE, bad);
    match jobs_from_text(&text) {
        Err(ParseError::Schema(e)) => {
            assert_eq!(e, fault(DecodeErrorKind::UnknownStatus, "Unknown"));
        }
        other => panic!("no schema error: {:?}", other),
    }
}

#[test]
fn an_unknown_status_among_the_children_fails() {
    let bad = example_with("\"Dead\": 0", "\"dead\": 0");
    assert_eq!(schema_error(&bad), fault(DecodeErrorKind::UnknownStatus, "dead"));
}

#[test]
fn one_element_that_is_no_job_fails_the_whole_list() {
    let text = format!("[{}, 7]", EXAMPLE);
    assert_eq!(
        jobs_from_text(&text).err(),
        Some(ParseError::Schema(fault(DecodeErrorKind::InvalidType, "")))
    );
    let text = format!("[{}, {{}}]", EXAMPLE);
    assert_eq!(
        jobs_from_text(&text).err(),
        Some(ParseError::Schema(fault(DecodeErrorKind::MissingField, "ID")))
    );
}

#[test]
fn a_document_that_is_no_list_is_refused() {
    assert_eq!(
        jobs_from_text(EXAMPLE).err(),
        Some(ParseError::Schema(fault(DecodeErrorKind::InvalidType, "")))
    );
    assert_eq!(
        jobs_from_text("null").err(),
        Some(ParseError::Schema(fault(DecodeErrorKind::InvalidType, "")))
    );
    assert_eq!(
        job_from_text("[]").err(),
        Some(ParseError::Schema(fault(DecodeErrorKind::InvalidType, "")))
    );
}

#[test]
fn a_text_that_is_no_json_gives_a_syntax_error() {
    match jobs_from_text("[{\"ID\": ") {
        Err(ParseError::Syntax(text)) => {
            assert_eq!(text, "EOF while parsing a value at line 1 column 8");
        }
        other => panic!("no syntax error: {:?}", other),
    }
    assert!(matches!(jobs_from_text(""), Err(ParseError::Syntax(_))));
    assert!(matches!(job_from_text("<html>"), Err(ParseError::Syntax(_))));
}

#[test]
fn a_missing_member_is_named() {
    let text = example_with("\"Priority\": 50,", "");
    assert_eq!(schema_error(&text), fault(DecodeErrorKind::MissingField, "Priority"));
    let text = example_with("\"JobID\": \"example\",", "");
    assert_eq!(schema_error(&text), fault(DecodeErrorKind::MissingField, "JobID"));
    let text = example_with("\"SubmitTime\": 1602674099080312000", "\"Submit\": 1");
    assert_eq!(schema_error(&text), fault(DecodeErrorKind::MissingField, "SubmitTime"));
}

#[test]
fn the_first_field_at_fault_is_reported() {
    let text = example_with("\"ParentID\": \"\",", "");
    let text = text.replacen("\"Priority\": 50", "\"Priority\": \"high\"", 1);
    assert_eq!(schema_error(&text), fault(DecodeErrorKind::MissingField, "ParentID"));
}

#[test]
fn a_member_of_another_type_is_refused() {
    let text = example_with("\"ID\": \"example\"", "\"ID\": 7");
    assert_eq!(schema_error(&text), fault(DecodeErrorKind::InvalidType, "ID"));
    let text = example_with("\"Periodic\": false", "\"Periodic\": \"false\"");
    assert_eq!(schema_error(&text), fault(DecodeErrorKind::InvalidType, "Periodic"));
    let text = example_with("\"Stop\": false", "\"Stop\": 0");
    assert_eq!(schema_error(&text), fault(DecodeErrorKind::InvalidType, "Stop"));
    let text = example_with("[\"dc1\"]", "\"dc1\"");
    assert_eq!(schema_error(&text), fault(DecodeErrorKind::InvalidType, "Datacenters"));
    let text = example_with("[\"dc1\"]", "[\"dc1\", 2]");
    assert_eq!(schema_error(&text), fault(DecodeErrorKind::InvalidType, "Datacenters"));
    let text = example_with("\"Namespace\": \"default\"", "\"Namespace\": null");
    assert_eq!(schema_error(&text), fault(DecodeErrorKind::InvalidType, "Namespace"));
    let text = example_with("\"MultiRegion\": null", "\"MultiRegion\": false");
    assert_eq!(schema_error(&text), fault(DecodeErrorKind::InvalidType, "MultiRegion"));
    let text = example_with("\"Priority\": 50", "\"Priority\": 50.0");
    assert_eq!(schema_error(&text), fault(DecodeErrorKind::InvalidType, "Priority"));
    let text = example_with("\"Priority\": 50", "\"Priority\": -0");
    assert_eq!(schema_error(&text), fault(DecodeErrorKind::InvalidType, "Priority"));
}

#[test]
fn a_summary_of_another_shape_is_refused() {
    let text = example_with("\"Children\": {", "\"Children\": [], \"Other\": {");
    assert_eq!(schema_error(&text), fault(DecodeErrorKind::InvalidType, "Children"));
    let text = example_with("\"Running\": 1", "\"Running\": true");
    assert_eq!(schema_error(&text), fault(DecodeErrorKind::InvalidType, "Running"));
    let text = example_with("\"Summary\": {", "\"Summary\": {\"web\": 3,");
    assert_eq!(schema_error(&text), fault(DecodeErrorKind::InvalidType, "web"));
}

#[test]
fn an_integer_outside_its_field_is_refused() {
    let text = example_with("\"ModifyIndex\": 18", "\"ModifyIndex\": 65536");
    assert_eq!(schema_error(&text), fault(DecodeErrorKind::OutOfRange, "ModifyIndex"));
    let text = example_with("\"ModifyIndex\": 18", "\"ModifyIndex\": -1");
    assert_eq!(schema_error(&text), fault(DecodeErrorKind::OutOfRange, "ModifyIndex"));
    let text = example_with("\"SubmitTime\": 1602674099080312000", "\"SubmitTime\": -5");
    assert_eq!(schema_error(&text), fault(DecodeErrorKind::OutOfRange, "SubmitTime"));
    let text = example_with("\"Priority\": 50", "\"Priority\": 9223372036854775808");
    assert_eq!(schema_error(&text), fault(DecodeErrorKind::OutOfRange, "Priority"));
    let text = example_with("\"Pending\": 0", "\"Pending\": 70000");
    assert_eq!(schema_error(&text), fault(DecodeErrorKind::OutOfRange, "Pending"));
}

#[test]
fn integers_are_read_up_to_the_ends_of_their_fields() {
    let text = example_with("\"ModifyIndex\": 18", "\"ModifyIndex\": 65535");
    assert_eq!(job_from_text(&text).unwrap().ModifyIndex, 65535);
    let text = example_with("\"Priority\": 50", "\"Priority\": -9223372036854775808");
    assert_eq!(job_from_text(&text).unwrap().Priority, isize::MIN);
    let text = example_with("\"Priority\": 50", "\"Priority\": 9223372036854775807");
    assert_eq!(job_from_text(&text).unwrap().Priority, isize::MAX);
    let text = example_with(
        "\"SubmitTime\": 1602674099080312000",
        "\"SubmitTime\": 340282366920938463463374607431768211455",
    );
    assert_eq!(job_from_text(&text).unwrap().SubmitTime, u128::MAX);
}

#[test]
fn a_region_is_read_where_there_is_one() {
    let text = example_with("\"MultiRegion\": null", "\"MultiRegion\": \"global\"");
    assert_eq!(job_from_text(&text).unwrap().MultiRegion, Some("global".to_string()));
    let text = example_with("\"MultiRegion\": null,", "");
    assert_eq!(job_from_text(&text).unwrap().MultiRegion, None);
}

#[test]
fn members_of_other_names_are_passed_over() {
    let text = example_with("\"Type\": \"service\"", "\"Type\": \"batch\", \"Extra\": [1, {}]");
    let job = job_from_text(&text).unwrap();
    assert_eq!(job.Type, "batch");
    assert_eq!(job.ID, "example");
}

#[test]
fn a_status_named_twice_keeps_the_later_count() {
    let counts = vec![
        ("Running".to_string(), Json::Number(Number::Unsigned(1))),
        ("Dead".to_string(), Json::Number(Number::Unsigned(2))),
        ("Running".to_string(), Json::Number(Number::Unsigned(3))),
    ];
    let mut members = summary_members();
    members.retain(|m| m.0 != "Children");
    members.push(("Children".to_string(), Json::Object(counts)));
    let doc = Json::Array(vec![Json::Object(job_members(Json::Object(members)))]);
    let jobs = jobs_from_json(&doc).unwrap();
    let children = &jobs[0].JobSummary.Children;
    assert_eq!(children.get(&RunningStatus::Running), Some(&3));
    assert_eq!(children.get(&RunningStatus::Dead), Some(&2));
}

fn text(s: &str) -> Json {
    Json::String(s.to_string())
}

fn summary_members() -> Vec<(String, Json)> {
    vec![
        ("JobID".to_string(), text("example")),
        ("Namespace".to_string(), text("default")),
        ("Summary".to_string(), Json::Object(vec![])),
        ("Children".to_string(), Json::Object(vec![])),
        ("CreateIndex".to_string(), Json::Number(Number::Unsigned(1))),
        ("ModifyIndex".to_string(), Json::Number(Number::Unsigned(2))),
    ]
}

fn job_members(summary: Json) -> Vec<(String, Json)> {
    vec![
        ("ID".to_string(), text("example")),
        ("ParentID".to_string(), text("")),
        ("Namespace".to_string(), text("default")),
        ("Datacenters".to_string(), Json::Array(vec![text("dc1"), text("dc2")])),
        ("Type".to_string(), text("service")),
        ("Priority".to_string(), Json::Number(Number::Negative(-3))),
        ("Periodic".to_string(), Json::Bool(true)),
        ("ParameterizedJob".to_string(), Json::Bool(false)),
        ("Stop".to_string(), Json::Bool(true)),
        ("Status".to_string(), text("dead")),
        ("StatusDescription".to_string(), text("stopped")),
        ("JobSummary".to_string(), summary),
        ("CreateIndex".to_string(), Json::Number(Number::Unsigned(3))),
        ("ModifyIndex".to_string(), Json::Number(Number::Unsigned(4))),
        ("JobModifyIndex".to_string(), Json::Number(Number::Unsigned(5))),
        ("SubmitTime".to_string(), Json::Number(Number::Unsigned(6))),
    ]
}

#[test]
fn a_job_is_read_from_a_document_built_by_hand() {
    let doc = Json::Object(job_members(Json::Object(summary_members())));
    let job = Job::from_json(&doc).unwrap();
    assert_eq!(job.Datacenters, vec!["dc1".to_string(), "dc2".to_string()]);
    assert_eq!(job.MultiRegion, None);
    assert_eq!(job.Priority, -3);
    assert!(job.Periodic);
    assert!(job.Stop);
    assert_eq!(job.SubmitTime, 6);
    assert_eq!(job.JobSummary.ModifyIndex, 2);
}

#[test]
fn a_negative_number_of_no_sign_is_no_integer() {
    let mut members = job_members(Json::Object(summary_members()));
    members[5] = ("Priority".to_string(), Json::Number(Number::Negative(0)));
    assert_eq!(
        Job::from_json(&Json::Object(members)).map(|job| job.ID),
        Err(fault(DecodeErrorKind::InvalidType, "Priority"))
    );
}

#[test]
fn jobs_from_parsed_hands_on_the_syntax_error() {
    assert_eq!(
        jobs_from_parsed(Err("no document".to_string())).map(|jobs| jobs.len()),
        Err(ParseError::Syntax("no document".to_string()))
    );
    assert_eq!(
        jobs_from_parsed(Ok(Json::Bool(true))).map(|jobs| jobs.len()),
        Err(ParseError::Schema(fault(DecodeErrorKind::InvalidType, "")))
    );
    assert_eq!(jobs_from_parsed(Ok(Json::Array(vec![]))).map(|jobs| jobs.len()), Ok(0));
}

#[test]
fn errors_are_described_in_words() {
    assert_eq!(fault(DecodeErrorKind::MissingField, "ID").description(), "missing field `ID`");
    assert_eq!(
        fault(DecodeErrorKind::InvalidType, "Stop").description(),
        "invalid type for `Stop`"
    );
    assert_eq!(
        fault(DecodeErrorKind::OutOfRange, "CreateIndex").description(),
        "value out of range for `CreateIndex`"
    );
    assert_eq!(
        fault(DecodeErrorKind::UnknownStatus, "Unknown").description(),
        "unknown status `Unknown`"
    );
    assert_eq!(
        ParseError::Schema(fault(DecodeErrorKind::MissingField, "")).description(),
        "missing field ``"
    );
    assert_eq!(ParseError::Syntax("expected value".to_string()).description(), "expected value");
}

#[test]
fn integers_are_read_from_numbers_and_written_as_numbers() {
    assert_eq!(u16::from_number(Number::Unsigned(65535)), Some(65535));
    assert_eq!(u16::from_number(Number::Unsigned(65536)), None);
    assert_eq!(u16::from_number(Number::Negative(-1)), None);
    assert_eq!(u16::from_number(Number::Real), None);
    assert_eq!(u128::from_number(Number::Unsigned(u128::MAX)), Some(u128::MAX));
    assert_eq!(u128::from_number(Number::Negative(-1)), None);
    assert_eq!(isize::from_number(Number::Unsigned(7)), Some(7));
    assert_eq!(isize::from_number(Number::Negative(-7)), Some(-7));
    assert_eq!(isize::from_number(Number::Negative(7)), None);
    assert_eq!(isize::from_number(Number::Unsigned(isize::MAX as u128 + 1)), None);
    assert_eq!(isize::from_number(Number::Negative(isize::MIN as i128 - 1)), None);
    assert_eq!(7u16.to_number(), Number::Unsigned(7));
    assert_eq!(u128::MAX.to_number(), Number::Unsigned(u128::MAX));
    assert_eq!(0isize.to_number(), Number::Unsigned(0));
    assert_eq!((-1isize).to_number(), Number::Negative(-1));
    assert_eq!(isize::MIN.to_number(), Number::Negative(isize::MIN as i128));
}

fn sample_job() -> Job {
    let mut cache: StatusMap<isize> = StatusMap::new();
    cache.insert(RunningStatus::Running, 1);
    cache.insert(RunningStatus::Failed, -2);
    let mut web: StatusMap<isize> = StatusMap::new();
    web.insert(RunningStatus::Queued, 5);
    let mut groups = TaskGroups::new();
    groups.insert("cache".to_string(), cache);
    groups.insert("web".to_string(), web);
    groups.insert("idle".to_string(), StatusMap::new());
    let mut children: StatusMap<u16> = StatusMap::new();
    children.insert(RunningStatus::Dead, 65535);
    children.insert(RunningStatus::Pending, 0);
    Job {
        ID: "example".to_string(),
        ParentID: "parent \"quoted\"".to_string(),
        Namespace: "default".to_string(),
        Datacenters: vec!["dc1".to_string(), "".to_string(), "dc\u{e9}".to_string()],
        MultiRegion: Some("global".to_string()),
        Type: "batch".to_string(),
        Priority: -50,
        Periodic: true,
        ParameterizedJob: false,
        Stop: true,
        Status: "dead".to_string(),
        StatusDescription: "line\nbreak".to_string(),
        JobSummary: JobSummary {
            JobID: "example".to_string(),
            Namespace: "default".to_string(),
            Summary: groups,
            Children: children,
            CreateIndex: 0,
            ModifyIndex: 65535,
        },
        CreateIndex: 1,
        ModifyIndex: 2,
        JobModifyIndex: 3,
        SubmitTime: u128::MAX,
    }
}

fn assert_same_counts<V: PartialEq + std::fmt::Debug>(a: &StatusMap<V>, b: &StatusMap<V>) {
    for status in [
        RunningStatus::Queued,
        RunningStatus::Complete,
        RunningStatus::Failed,
        RunningStatus::Running,
        RunningStatus::Starting,
        RunningStatus::Lost,
        RunningStatus::Pending,
        RunningStatus::Dead,
    ] {
        assert_eq!(a.get(&status), b.get(&status), "{:?}", status);
    }
}

fn assert_same_job(a: &Job, b: &Job) {
    assert_eq!(a.ID, b.ID);
    assert_eq!(a.ParentID, b.ParentID);
    assert_eq!(a.Namespace, b.Namespace);
    assert_eq!(a.Datacenters, b.Datacenters);
    assert_eq!(a.MultiRegion, b.MultiRegion);
    assert_eq!(a.Type, b.Type);
    assert_eq!(a.Priority, b.Priority);
    assert_eq!(a.Periodic, b.Periodic);
    assert_eq!(a.ParameterizedJob, b.ParameterizedJob);
    assert_eq!(a.Stop, b.Stop);
    assert_eq!(a.Status, b.Status);
    assert_eq!(a.StatusDescription, b.StatusDescription);
    assert_eq!(a.CreateIndex, b.CreateIndex);
    assert_eq!(a.ModifyIndex, b.ModifyIndex);
    assert_eq!(a.JobModifyIndex, b.JobModifyIndex);
    assert_eq!(a.SubmitTime, b.SubmitTime);
    assert_eq!(a.JobSummary.JobID, b.JobSummary.JobID);
    assert_eq!(a.JobSummary.Namespace, b.JobSummary.Namespace);
    assert_eq!(a.JobSummary.CreateIndex, b.JobSummary.CreateIndex);
    assert_eq!(a.JobSummary.ModifyIndex, b.JobSummary.ModifyIndex);
    assert_same_counts(&a.JobSummary.Children, &b.JobSummary.Children);
    assert_eq!(a.JobSummary.Summary.entries().len(), b.JobSummary.Summary.entries().len());
    for (name, counts) in a.JobSummary.Summary.entries() {
        assert_same_counts(counts, b.JobSummary.Summary.get(name).unwrap());
    }
}

#[test]
fn a_written_job_is_read_back_as_itself() {
    let job = sample_job();
    let back = Job::from_json(&job.to_json()).unwrap();
    assert_same_job(&job, &back);
}

#[test]
fn the_read_example_is_read_back_from_what_it_is_written_as() {
    let job = job_from_text(EXAMPLE).unwrap();
    let back = Job::from_json(&job.to_json()).unwrap();
    assert_same_job(&job, &back);
}

fn to_value(j: &Json) -> serde_json::Value {
    match j {
        Json::Null => serde_json::Value::Null,
        Json::Bool(b) => serde_json::Value::Bool(*b),
        Json::Number(Number::Unsigned(n)) => {
            serde_json::Value::Number(serde_json::Number::from_u128(*n).unwrap())
        }
        Json::Number(Number::Negative(i)) => {
            serde_json::Value::Number(serde_json::Number::from_i128(*i).unwrap())
        }
        Json::Number(Number::Real) => panic!("no real number is written"),
        Json::String(s) => serde_json::Value::String(s.clone()),
        Json::Array(items) => serde_json::Value::Array(items.iter().map(to_value).collect()),
        Json::Object(members) => serde_json::Value::Object(
            members.iter().map(|m| (m.0.clone(), to_value(&m.1))).collect(),
        ),
    }
}

#[test]
fn a_written_job_is_read_back_from_its_text() {
    let job = sample_job();
    let text = serde_json::to_string(&to_value(&job.to_json())).unwrap();
    let back = job_from_text(&text).unwrap();
    assert_same_job(&job, &back);
    let list = format!("[{}]", text);
    let jobs = jobs_from_text(&list).unwrap();
    assert_eq!(jobs.len(), 1);
    assert_same_job(&job, &jobs[0]);
}

#[test]
fn a_job_is_written_with_one_member_for_each_field() {
    let doc = sample_job().to_json();
    let members = match &doc {
        Json::Object(members) => members,
        other => panic!("not an object: {:?}", other),
    };
    let names: Vec<&str> = members.iter().map(|m| m.0.as_str()).collect();
    assert_eq!(
        names,
        vec![
            "ID",
            "ParentID",
            "Namespace",
            "Datacenters",
            "MultiRegion",
            "Type",
            "Priority",
            "Periodic",
            "ParameterizedJob",
            "Stop",
            "Status",
            "StatusDescription",
            "JobSummary",
            "CreateIndex",
            "ModifyIndex",
            "JobModifyIndex",
            "SubmitTime",
        ]
    );
    assert_eq!(members[6].1, Json::Number(Number::Negative(-50)));
    assert_eq!(members[16].1, Json::Number(Number::Unsigned(u128::MAX)));
    assert_eq!(
        members[3].1,
        Json::Array(vec![text("dc1"), text(""), text("dc\u{e9}")])
    );
}

#[test]
fn a_job_without_a_region_is_written_with_null() {
    let mut job = sample_job();
    job.MultiRegion = None;
    let doc = job.to_json();
    match &doc {
        Json::Object(members) => assert_eq!(members[4], ("MultiRegion".to_string(), Json::Null)),
        other => panic!("not an object: {:?}", other),
    }
    assert_eq!(Job::from_json(&doc).unwrap().MultiRegion, None);
}

#[test]
fn a_summary_is_written_with_its_maps_as_objects() {
    let doc = sample_job().JobSummary.to_json();
    let expected = Json::Object(vec![
        ("JobID".to_string(), text("example")),
        ("Namespace".to_string(), text("default")),
        (
            "Summary".to_string(),
            Json::Object(vec![
                (
                    "cache".to_string(),
                    Json::Object(vec![
                        ("Failed".to_string(), Json::Number(Number::Negative(-2))),
                        ("Running".to_string(), Json::Number(Number::Unsigned(1))),
                    ]),
                ),
                (
                    "web".to_string(),
                    Json::Object(vec![("Queued".to_string(), Json::Number(Number::Unsigned(5)))]),
                ),
                ("idle".to_string(), Json::Object(vec![])),
            ]),
        ),
        (
            "Children".to_string(),
            Json::Object(vec![
                ("Pending".to_string(), Json::Number(Number::Unsigned(0))),
                ("Dead".to_string(), Json::Number(Number::Unsigned(65535))),
            ]),
        ),
        ("CreateIndex".to_string(), Json::Number(Number::Unsigned(0))),
        ("ModifyIndex".to_string(), Json::Number(Number::Unsigned(65535))),
    ]);
    assert_eq!(doc, expected);
}

#[test]
fn a_written_summary_is_read_back_as_itself() {
    let summary = sample_job().JobSummary;
    let back = JobSummary::from_json(&summary.to_json()).unwrap();
    assert_eq!(back.JobID, summary.JobID);
    assert_eq!(back.Namespace, summary.Namespace);
    assert_eq!(back.CreateIndex, summary.CreateIndex);
    assert_eq!(back.ModifyIndex, summary.ModifyIndex);
    assert_same_counts(&back.Children, &summary.Children);
    assert_eq!(back.Summary.entries().len(), 3);
    for (name, counts) in summary.Summary.entries() {
        assert_same_counts(counts, back.Summary.get(name).unwrap());
    }
}

#[test]
fn a_document_that_is_no_object_is_no_summary() {
    assert_eq!(
        JobSummary::from_json(&Json::Array(vec![])).err(),
        Some(fault(DecodeErrorKind::InvalidType, ""))
    );
    assert_eq!(
        JobSummary::from_json(&Json::Object(vec![])).err(),
        Some(fault(DecodeErrorKind::MissingField, "JobID"))
    );
}

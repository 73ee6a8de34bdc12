//! Reading jobs: from a JSON document, and from the text of one.
//!
//! Every reader here returns what the schema says of the document it is
//! given, the error included.

use crate::jobs::{
    job_views, keyed, optional_text, texts, Job, JobSummary, JobSummaryView, JobView, RunningStatus,
    StatusMap, TaskGroups,
};
use crate::json::{
    find_member, items_view, json_document, lemma_array_view, lemma_object_view, members_view,
    Json, JsonView, Number,
};
use crate::schema::{
    collect, count_reader, counts_field, counts_of, fault_text, flag_field, flag_of, group_reader,
    groups_field, groups_of, int_field, int_of, job_of, job_reader, jobs_of,
    lemma_collect_fails, lemma_collect_step, optional_text_of, required, summary_field,
    summary_of, text_field, text_of, text_reader, texts_field, texts_of, DecodeError,
    DecodeErrorKind, Fault, WireInt,
};
use vstd::prelude::*;

verus! {

fn read_required<'a>(members: &'a Vec<(String, Json)>, name: &str) -> (r: Result<
    &'a Json,
    DecodeError,
>)
    ensures
        match r {
            Ok(j) => required(members_view(members@), name@) == Ok::<JsonView, Fault>(j@),
            Err(e) => required(members_view(members@), name@) == Err::<JsonView, Fault>(e@),
        },
{
    match find_member(members, name) {
        Some(j) => Ok(j),
        None => Err(DecodeError::new(DecodeErrorKind::MissingField, name)),
    }
}

fn read_text(j: &Json, field: &str) -> (r: Result<String, DecodeError>)
    ensures
        match r {
            Ok(s) => text_of(j@, field@) == Ok::<Seq<char>, Fault>(s@),
            Err(e) => text_of(j@, field@) == Err::<Seq<char>, Fault>(e@),
        },
{
    match j {
        Json::String(s) => Ok(s.clone()),
        _ => Err(DecodeError::new(DecodeErrorKind::InvalidType, field)),
    }
}

fn read_flag(j: &Json, field: &str) -> (r: Result<bool, DecodeError>)
    ensures
        match r {
            Ok(b) => flag_of(j@, field@) == Ok::<bool, Fault>(b),
            Err(e) => flag_of(j@, field@) == Err::<bool, Fault>(e@),
        },
{
    match j {
        Json::Bool(b) => Ok(*b),
        _ => Err(DecodeError::new(DecodeErrorKind::InvalidType, field)),
    }
}

fn read_int<T: WireInt>(j: &Json, field: &str) -> (r: Result<T, DecodeError>)
    ensures
        match r {
            Ok(x) => int_of::<T>(j@, field@) == Ok::<T, Fault>(x),
            Err(e) => int_of::<T>(j@, field@) == Err::<T, Fault>(e@),
        },
{
    match j {
        Json::Number(n) => match T::from_number(*n) {
            Some(x) => Ok(x),
            None => {
                let integer = match n {
                    Number::Unsigned(_) => true,
                    Number::Negative(i) => *i < 0,
                    Number::Real => false,
                };
                if integer {
                    Err(DecodeError::new(DecodeErrorKind::OutOfRange, field))
                } else {
                    Err(DecodeError::new(DecodeErrorKind::InvalidType, field))
                }
            },
        },
        _ => Err(DecodeError::new(DecodeErrorKind::InvalidType, field)),
    }
}

fn read_optional_text(m: Option<&Json>, field: &str) -> (r: Result<Option<String>, DecodeError>)
    ensures
        match r {
            Ok(s) => optional_text_of(
                match m {
                    Some(j) => Some(j@),
                    None => None,
                },
                field@,
            ) == Ok::<Option<Seq<char>>, Fault>(optional_text(s)),
            Err(e) => optional_text_of(
                match m {
                    Some(j) => Some(j@),
                    None => None,
                },
                field@,
            ) == Err::<Option<Seq<char>>, Fault>(e@),
        },
{
    match m {
        None => Ok(None),
        Some(Json::Null) => Ok(None),
        Some(Json::String(s)) => Ok(Some(s.clone())),
        Some(_) => Err(DecodeError::new(DecodeErrorKind::InvalidType, field)),
    }
}

fn read_texts(j: &Json, field: &str) -> (r: Result<Vec<String>, DecodeError>)
    ensures
        match r {
            Ok(v) => texts_of(j@, field@) == Ok::<Seq<Seq<char>>, Fault>(texts(v@)),
            Err(e) => texts_of(j@, field@) == Err::<Seq<Seq<char>>, Fault>(e@),
        },
{
    match j {
        Json::Array(items) => {
            let ghost all = items_view(items@);
            let ghost read = text_reader(field@);
            proof {
                lemma_array_view(*items);
                assert(all.take(0) =~= Seq::empty());
                assert(texts(Seq::<String>::empty()) =~= Seq::empty());
            }
            let mut out: Vec<String> = Vec::new();
            let mut i: usize = 0;
            while i < items.len()
                invariant
                    i <= items.len(),
                    all == items_view(items@),
                    j@ == JsonView::Array(all),
                    read == text_reader(field@),
                    collect(all.take(i as int), read) == Ok::<Seq<Seq<char>>, Fault>(
                        texts(out@),
                    ),
                decreases items.len() - i,
            {
                proof {
                    lemma_collect_step(all, read, i as int);
                }
                match read_text(&items[i], field) {
                    Ok(s) => {
                        let ghost before = texts(out@);
                        out.push(s);
                        assert(texts(out@) =~= before.push(s@));
                    },
                    Err(e) => {
                        proof {
                            lemma_collect_fails(all, read, i + 1);
                        }
                        return Err(e);
                    },
                }
                i = i + 1;
            }
            assert(all.take(i as int) =~= all);
            Ok(out)
        },
        _ => Err(DecodeError::new(DecodeErrorKind::InvalidType, field)),
    }
}

fn read_counts<T: WireInt>(j: &Json, field: &str) -> (r: Result<StatusMap<T>, DecodeError>)
    ensures
        match r {
            Ok(m) => counts_of::<T>(j@, field@) == Ok::<Map<RunningStatus, T>, Fault>(m@),
            Err(e) => counts_of::<T>(j@, field@) == Err::<Map<RunningStatus, T>, Fault>(e@),
        },
{
    match j {
        Json::Object(members) => {
            let ghost all = members_view(members@);
            let ghost read = count_reader::<T>();
            let ghost mut pairs: Seq<(RunningStatus, T)> = Seq::empty();
            proof {
                lemma_object_view(*members);
                assert(all.take(0) =~= Seq::empty());
            }
            let mut out: StatusMap<T> = StatusMap::new();
            let mut i: usize = 0;
            while i < members.len()
                invariant
                    i <= members.len(),
                    all == members_view(members@),
                    j@ == JsonView::Object(all),
                    read == count_reader::<T>(),
                    collect(all.take(i as int), read) == Ok::<Seq<(RunningStatus, T)>, Fault>(pairs),
                    out@ == keyed(pairs),
                decreases members.len() - i,
            {
                proof {
                    lemma_collect_step(all, read, i as int);
                }
                let name = members[i].0.as_str();
                let status = match RunningStatus::from_name(name) {
                    Some(status) => status,
                    None => {
                        proof {
                            lemma_collect_fails(all, read, i + 1);
                        }
                        return Err(DecodeError::new(DecodeErrorKind::UnknownStatus, name));
                    },
                };
                match read_int::<T>(&members[i].1, name) {
                    Ok(x) => {
                        out.insert(status, x);
                        proof {
                            assert(pairs.push((status, x)).drop_last() =~= pairs);
                            pairs = pairs.push((status, x));
                        }
                    },
                    Err(e) => {
                        proof {
                            lemma_collect_fails(all, read, i + 1);
                        }
                        return Err(e);
                    },
                }
                i = i + 1;
            }
            assert(all.take(i as int) =~= all);
            Ok(out)
        },
        _ => Err(DecodeError::new(DecodeErrorKind::InvalidType, field)),
    }
}

fn read_groups(j: &Json, field: &str) -> (r: Result<TaskGroups, DecodeError>)
    ensures
        match r {
            Ok(m) => groups_of(j@, field@) == Ok::<Map<Seq<char>, Map<RunningStatus, isize>>, Fault>(
                m@,
            ),
            Err(e) => groups_of(j@, field@) == Err::<
                Map<Seq<char>, Map<RunningStatus, isize>>,
                Fault,
            >(e@),
        },
{
    match j {
        Json::Object(members) => {
            let ghost all = members_view(members@);
            let ghost read = group_reader();
            let ghost mut pairs: Seq<(Seq<char>, Map<RunningStatus, isize>)> = Seq::empty();
            proof {
                lemma_object_view(*members);
                assert(all.take(0) =~= Seq::empty());
            }
            let mut out = TaskGroups::new();
            let mut i: usize = 0;
            while i < members.len()
                invariant
                    i <= members.len(),
                    all == members_view(members@),
                    j@ == JsonView::Object(all),
                    read == group_reader(),
                    collect(all.take(i as int), read) == Ok::<
                        Seq<(Seq<char>, Map<RunningStatus, isize>)>,
                        Fault,
                    >(pairs),
                    out@ == keyed(pairs),
                decreases members.len() - i,
            {
                proof {
                    lemma_collect_step(all, read, i as int);
                }
                let name = members[i].0.as_str();
                match read_counts::<isize>(&members[i].1, name) {
                    Ok(counts) => {
                        proof {
                            assert(pairs.push((name@, counts@)).drop_last() =~= pairs);
                            pairs = pairs.push((name@, counts@));
                        }
                        out.insert(name.to_owned(), counts);
                    },
                    Err(e) => {
                        proof {
                            lemma_collect_fails(all, read, i + 1);
                        }
                        return Err(e);
                    },
                }
                i = i + 1;
            }
            assert(all.take(i as int) =~= all);
            Ok(out)
        },
        _ => Err(DecodeError::new(DecodeErrorKind::InvalidType, field)),
    }
}

fn text_member(members: &Vec<(String, Json)>, name: &str) -> (r: Result<String, DecodeError>)
    ensures
        match r {
            Ok(s) => text_field(members_view(members@), name@) == Ok::<Seq<char>, Fault>(s@),
            Err(e) => text_field(members_view(members@), name@) == Err::<Seq<char>, Fault>(e@),
        },
{
    let j = read_required(members, name)?;
    read_text(j, name)
}

fn flag_member(members: &Vec<(String, Json)>, name: &str) -> (r: Result<bool, DecodeError>)
    ensures
        match r {
            Ok(b) => flag_field(members_view(members@), name@) == Ok::<bool, Fault>(b),
            Err(e) => flag_field(members_view(members@), name@) == Err::<bool, Fault>(e@),
        },
{
    let j = read_required(members, name)?;
    read_flag(j, name)
}

fn int_member<T: WireInt>(members: &Vec<(String, Json)>, name: &str) -> (r: Result<T, DecodeError>)
    ensures
        match r {
            Ok(x) => int_field::<T>(members_view(members@), name@) == Ok::<T, Fault>(x),
            Err(e) => int_field::<T>(members_view(members@), name@) == Err::<T, Fault>(e@),
        },
{
    let j = read_required(members, name)?;
    read_int::<T>(j, name)
}

fn texts_member(members: &Vec<(String, Json)>, name: &str) -> (r: Result<Vec<String>, DecodeError>)
    ensures
        match r {
            Ok(v) => texts_field(members_view(members@), name@) == Ok::<Seq<Seq<char>>, Fault>(
                texts(v@),
            ),
            Err(e) => texts_field(members_view(members@), name@) == Err::<Seq<Seq<char>>, Fault>(
                e@,
            ),
        },
{
    let j = read_required(members, name)?;
    read_texts(j, name)
}

fn counts_member<T: WireInt>(members: &Vec<(String, Json)>, name: &str) -> (r: Result<
    StatusMap<T>,
    DecodeError,
>)
    ensures
        match r {
            Ok(m) => counts_field::<T>(members_view(members@), name@) == Ok::<
                Map<RunningStatus, T>,
                Fault,
            >(m@),
            Err(e) => counts_field::<T>(members_view(members@), name@) == Err::<
                Map<RunningStatus, T>,
                Fault,
            >(e@),
        },
{
    let j = read_required(members, name)?;
    read_counts::<T>(j, name)
}

fn groups_member(members: &Vec<(String, Json)>, name: &str) -> (r: Result<TaskGroups, DecodeError>)
    ensures
        match r {
            Ok(m) => groups_field(members_view(members@), name@) == Ok::<
                Map<Seq<char>, Map<RunningStatus, isize>>,
                Fault,
            >(m@),
            Err(e) => groups_field(members_view(members@), name@) == Err::<
                Map<Seq<char>, Map<RunningStatus, isize>>,
                Fault,
            >(e@),
        },
{
    let j = read_required(members, name)?;
    read_groups(j, name)
}

fn read_summary(j: &Json, field: &str) -> (r: Result<JobSummary, DecodeError>)
    ensures
        match r {
            Ok(summary) => summary_of(j@, field@) == Ok::<JobSummaryView, Fault>(summary@),
            Err(e) => summary_of(j@, field@) == Err::<JobSummaryView, Fault>(e@),
        },
{
    match j {
        Json::Object(members) => {
            proof {
                lemma_object_view(*members);
            }
            let job_id = text_member(members, "JobID")?;
            let namespace = text_member(members, "Namespace")?;
            let summary = groups_member(members, "Summary")?;
            let children = counts_member::<u16>(members, "Children")?;
            let create_index = int_member::<u16>(members, "CreateIndex")?;
            let modify_index = int_member::<u16>(members, "ModifyIndex")?;
            Ok(
                JobSummary {
                    JobID: job_id,
                    Namespace: namespace,
                    Summary: summary,
                    Children: children,
                    CreateIndex: create_index,
                    ModifyIndex: modify_index,
                },
            )
        },
        _ => Err(DecodeError::new(DecodeErrorKind::InvalidType, field)),
    }
}

fn summary_member(members: &Vec<(String, Json)>, name: &str) -> (r: Result<JobSummary, DecodeError>)
    ensures
        match r {
            Ok(summary) => summary_field(members_view(members@), name@) == Ok::<
                JobSummaryView,
                Fault,
            >(summary@),
            Err(e) => summary_field(members_view(members@), name@) == Err::<JobSummaryView, Fault>(
                e@,
            ),
        },
{
    let j = read_required(members, name)?;
    read_summary(j, name)
}

impl JobSummary {
    /// Reads a document as a job's summary.
    pub fn from_json(j: &Json) -> (r: Result<JobSummary, DecodeError>)
        ensures
            match r {
                Ok(summary) => summary_of(j@, Seq::empty()) == Ok::<JobSummaryView, Fault>(
                    summary@,
                ),
                Err(e) => summary_of(j@, Seq::empty()) == Err::<JobSummaryView, Fault>(e@),
            },
    {
        proof {
            reveal_strlit("");
            assert(""@ =~= Seq::<char>::empty());
        }
        read_summary(j, "")
    }
}

impl Job {
    /// Reads a document as a job.
    pub fn from_json(j: &Json) -> (r: Result<Job, DecodeError>)
        ensures
            match r {
                Ok(job) => job_of(j@) == Ok::<JobView, Fault>(job@),
                Err(e) => job_of(j@) == Err::<JobView, Fault>(e@),
            },
    {
        match j {
            Json::Object(members) => {
                proof {
                    lemma_object_view(*members);
                }
                let id = text_member(members, "ID")?;
                let parent_id = text_member(members, "ParentID")?;
                let namespace = text_member(members, "Namespace")?;
                let datacenters = texts_member(members, "Datacenters")?;
                let multi_region = read_optional_text(
                    find_member(members, "MultiRegion"),
                    "MultiRegion",
                )?;
                let job_type = text_member(members, "Type")?;
                let priority = int_member::<isize>(members, "Priority")?;
                let periodic = flag_member(members, "Periodic")?;
                let parameterized_job = flag_member(members, "ParameterizedJob")?;
                let stop = flag_member(members, "Stop")?;
                let status = text_member(members, "Status")?;
                let status_description = text_member(members, "StatusDescription")?;
                let job_summary = summary_member(members, "JobSummary")?;
                let create_index = int_member::<u16>(members, "CreateIndex")?;
                let modify_index = int_member::<u16>(members, "ModifyIndex")?;
                let job_modify_index = int_member::<u16>(members, "JobModifyIndex")?;
                let submit_time = int_member::<u128>(members, "SubmitTime")?;
                Ok(
                    Job {
                        ID: id,
                        ParentID: parent_id,
                        Namespace: namespace,
                        Datacenters: datacenters,
                        MultiRegion: multi_region,
                        Type: job_type,
                        Priority: priority,
                        Periodic: periodic,
                        ParameterizedJob: parameterized_job,
                        Stop: stop,
                        Status: status,
                        StatusDescription: status_description,
                        JobSummary: job_summary,
                        CreateIndex: create_index,
                        ModifyIndex: modify_index,
                        JobModifyIndex: job_modify_index,
                        SubmitTime: submit_time,
                    },
                )
            },
            _ => {
                proof {
                    reveal_strlit("");
                    assert(""@ =~= Seq::<char>::empty());
                }
                Err(DecodeError::new(DecodeErrorKind::InvalidType, ""))
            },
        }
    }
}

/// Reads a document as a list of jobs, in the order of the document. One
/// element that is no job makes the whole list fail.
pub fn jobs_from_json(doc: &Json) -> (r: Result<Vec<Job>, DecodeError>)
    ensures
        match r {
            Ok(jobs) => jobs_of(doc@) == Ok::<Seq<JobView>, Fault>(job_views(jobs@)),
            Err(e) => jobs_of(doc@) == Err::<Seq<JobView>, Fault>(e@),
        },
{
    match doc {
        Json::Array(items) => {
            let ghost all = items_view(items@);
            let ghost read = job_reader();
            proof {
                lemma_array_view(*items);
                assert(all.take(0) =~= Seq::empty());
                assert(job_views(Seq::<Job>::empty()) =~= Seq::empty());
            }
            let mut out: Vec<Job> = Vec::new();
            let mut i: usize = 0;
            while i < items.len()
                invariant
                    i <= items.len(),
                    all == items_view(items@),
                    doc@ == JsonView::Array(all),
                    read == job_reader(),
                    collect(all.take(i as int), read) == Ok::<Seq<JobView>, Fault>(job_views(out@)),
                decreases items.len() - i,
            {
                proof {
                    lemma_collect_step(all, read, i as int);
                }
                match Job::from_json(&items[i]) {
                    Ok(job) => {
                        let ghost before = job_views(out@);
                        out.push(job);
                        assert(job_views(out@) =~= before.push(job@));
                    },
                    Err(e) => {
                        proof {
                            lemma_collect_fails(all, read, i + 1);
                        }
                        return Err(e);
                    },
                }
                i = i + 1;
            }
            assert(all.take(i as int) =~= all);
            Ok(out)
        },
        _ => {
            proof {
                reveal_strlit("");
                assert(""@ =~= Seq::<char>::empty());
            }
            Err(DecodeError::new(DecodeErrorKind::InvalidType, ""))
        },
    }
}

/// Why a text is not a list of jobs.
#[derive(Debug, PartialEq, Eq)]
pub enum ParseError {
    /// The text is no JSON document. The parser's description of what it
    /// found is carried along.
    Syntax(String),
    /// The text is a JSON document that departs from the schema.
    Schema(DecodeError),
}

impl ParseError {
    /// The description of the error: the parser's own for a text that is no
    /// JSON, the schema error's for a document that is no list of jobs.
    pub open spec fn spec_description(&self) -> Seq<char> {
        match self {
            ParseError::Syntax(text) => text@,
            ParseError::Schema(e) => fault_text(e@),
        }
    }

    /// Describes the error in words.
    pub fn description(&self) -> (text: String)
        ensures
            text@ == self.spec_description(),
    {
        match self {
            ParseError::Syntax(text) => text.clone(),
            ParseError::Schema(e) => e.description(),
        }
    }
}

/// What a parsed text gives: the jobs of the document, the schema error of a
/// document that is no list of jobs, or a syntax error with the parser's
/// description where there is no document.
pub fn jobs_from_parsed(parsed: Result<Json, String>) -> (r: Result<Vec<Job>, ParseError>)
    ensures
        match parsed {
            Err(text) => r matches Err(ParseError::Syntax(t)) && t@ == text@,
            Ok(doc) => match jobs_of(doc@) {
                Ok(views) => r matches Ok(jobs) && job_views(jobs@) == views,
                Err(fault) => r matches Err(ParseError::Schema(e)) && e@ == fault,
            },
        },
{
    match parsed {
        Err(text) => Err(ParseError::Syntax(text)),
        Ok(doc) => match jobs_from_json(&doc) {
            Ok(jobs) => Ok(jobs),
            Err(e) => Err(ParseError::Schema(e)),
        },
    }
}

/// Reads a text as a list of jobs. The text has to be one JSON document, and
/// the document a list of jobs; then the jobs come in the order of the text.
pub fn jobs_from_text(text: &str) -> (r: Result<Vec<Job>, ParseError>)
    ensures
        match json_document(text@) {
            None => r matches Err(ParseError::Syntax(_)),
            Some(doc) => match jobs_of(doc) {
                Ok(views) => r matches Ok(jobs) && job_views(jobs@) == views,
                Err(fault) => r matches Err(ParseError::Schema(e)) && e@ == fault,
            },
        },
{
    jobs_from_parsed(Json::parse(text))
}

/// Reads a text as one job.
pub fn job_from_text(text: &str) -> (r: Result<Job, ParseError>)
    ensures
        match json_document(text@) {
            None => r matches Err(ParseError::Syntax(_)),
            Some(doc) => match job_of(doc) {
                Ok(view) => r matches Ok(job) && job@ == view,
                Err(fault) => r matches Err(ParseError::Schema(e)) && e@ == fault,
            },
        },
{
    match Json::parse(text) {
        Err(text) => Err(ParseError::Syntax(text)),
        Ok(doc) => match Job::from_json(&doc) {
            Ok(job) => Ok(job),
            Err(e) => Err(ParseError::Schema(e)),
        },
    }
}

} // verus!

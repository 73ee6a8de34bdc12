//! Jobs written as JSON documents, and the proof that a job is read back from
//! the document as which it is written.

use crate::jobs::{
    keyed, lemma_status_names, status_name, Job, JobSummary, RunningStatus, StatusMap, TaskGroups,
};
use crate::json::{
    items_view, lemma_array_view, lemma_member_push, lemma_object_view, member, members_view,
    Json, JsonView,
};
use crate::schema::{
    collect, count_reader, counts_field, counts_of, flag_field, group_reader, groups_field,
    groups_of, int_field, int_of, job_of, lemma_collect_all, lemma_collect_both, optional_text_of,
    summary_field, summary_of, text_field, text_reader, texts_field, texts_of, Fault, WireInt,
};
use vstd::prelude::*;
use vstd::string::*;

verus! {

/// An integer as a document.
pub open spec fn int_json<T: WireInt>(x: T) -> JsonView {
    JsonView::Number(x.number())
}

/// A list of texts as a document: an array of strings.
pub open spec fn texts_json(list: Seq<Seq<char>>) -> JsonView {
    JsonView::Array(Seq::new(list.len(), |i: int| JsonView::Text(list[i])))
}

/// A text that may be absent as a document: a string, or `null`.
pub open spec fn optional_text_json(text: Option<Seq<char>>) -> JsonView {
    match text {
        Some(s) => JsonView::Text(s),
        None => JsonView::Null,
    }
}

/// The member that a status map gives for one status: its name with its
/// count where the map holds the status, and none where it does not.
pub open spec fn status_members<T: WireInt>(map: Map<RunningStatus, T>, status: RunningStatus) -> Seq<
    (Seq<char>, JsonView),
> {
    if map.contains_key(status) {
        seq![(status_name(status), int_json(map[status]))]
    } else {
        Seq::empty()
    }
}

/// The members of a status map, in the order in which the statuses are
/// declared.
pub open spec fn counts_members<T: WireInt>(map: Map<RunningStatus, T>) -> Seq<
    (Seq<char>, JsonView),
> {
    status_members(map, RunningStatus::Queued) + status_members(map, RunningStatus::Complete)
        + status_members(map, RunningStatus::Failed) + status_members(map, RunningStatus::Running)
        + status_members(map, RunningStatus::Starting) + status_members(map, RunningStatus::Lost)
        + status_members(map, RunningStatus::Pending) + status_members(map, RunningStatus::Dead)
}

/// A status map as a document: an object with one member for each status
/// that the map holds.
pub open spec fn counts_json<T: WireInt>(map: Map<RunningStatus, T>) -> JsonView {
    JsonView::Object(counts_members(map))
}

/// The task groups as a document: an object with one member for each group,
/// in the order in which the groups are listed.
pub open spec fn groups_json(listed: Seq<(Seq<char>, Map<RunningStatus, isize>)>) -> JsonView {
    JsonView::Object(Seq::new(listed.len(), |i: int| (listed[i].0, counts_json(listed[i].1))))
}

/// A job's summary as a document: an object with one member for each field,
/// in the order of the fields.
pub open spec fn summary_json(summary: JobSummary) -> JsonView {
    JsonView::Object(
        Seq::<(Seq<char>, JsonView)>::empty()
            .push(("JobID"@, JsonView::Text(summary.JobID@)))
            .push(("Namespace"@, JsonView::Text(summary.Namespace@)))
            .push(("Summary"@, groups_json(summary.Summary.listed())))
            .push(("Children"@, counts_json(summary.Children@)))
            .push(("CreateIndex"@, int_json(summary.CreateIndex)))
            .push(("ModifyIndex"@, int_json(summary.ModifyIndex))),
    )
}

/// A job as a document: an object with one member for each field, in the
/// order of the fields. A job without a region has `null` in its place.
pub open spec fn job_json(job: Job) -> JsonView {
    JsonView::Object(
        Seq::<(Seq<char>, JsonView)>::empty()
            .push(("ID"@, JsonView::Text(job.ID@)))
            .push(("ParentID"@, JsonView::Text(job.ParentID@)))
            .push(("Namespace"@, JsonView::Text(job.Namespace@)))
            .push(("Datacenters"@, texts_json(crate::jobs::texts(job.Datacenters@))))
            .push(("MultiRegion"@, optional_text_json(crate::jobs::optional_text(job.MultiRegion))))
            .push(("Type"@, JsonView::Text(job.Type@)))
            .push(("Priority"@, int_json(job.Priority)))
            .push(("Periodic"@, JsonView::Bool(job.Periodic)))
            .push(("ParameterizedJob"@, JsonView::Bool(job.ParameterizedJob)))
            .push(("Stop"@, JsonView::Bool(job.Stop)))
            .push(("Status"@, JsonView::Text(job.Status@)))
            .push(("StatusDescription"@, JsonView::Text(job.StatusDescription@)))
            .push(("JobSummary"@, summary_json(job.JobSummary)))
            .push(("CreateIndex"@, int_json(job.CreateIndex)))
            .push(("ModifyIndex"@, int_json(job.ModifyIndex)))
            .push(("JobModifyIndex"@, int_json(job.JobModifyIndex)))
            .push(("SubmitTime"@, int_json(job.SubmitTime))),
    )
}

fn write_text(text: &String) -> (j: Json)
    ensures
        j@ == JsonView::Text(text@),
{
    Json::String(text.clone())
}

fn write_int<T: WireInt>(x: T) -> (j: Json)
    ensures
        j@ == int_json(x),
{
    Json::Number(x.to_number())
}

fn write_texts(list: &Vec<String>) -> (j: Json)
    ensures
        j@ == texts_json(crate::jobs::texts(list@)),
{
    let mut out: Vec<Json> = Vec::new();
    let mut i: usize = 0;
    while i < list.len()
        invariant
            i <= list.len(),
            out.len() == i,
            forall|k: int| 0 <= k < i ==> (#[trigger] out@[k])@ == JsonView::Text(list@[k]@),
        decreases list.len() - i,
    {
        out.push(write_text(&list[i]));
        i = i + 1;
    }
    proof {
        lemma_array_view(out);
        assert(items_view(out@) =~= texts_json(crate::jobs::texts(list@))->Array_0);
    }
    Json::Array(out)
}

fn write_optional_text(text: &Option<String>) -> (j: Json)
    ensures
        j@ == optional_text_json(crate::jobs::optional_text(*text)),
{
    match text {
        Some(s) => write_text(s),
        None => Json::Null,
    }
}

fn push_member(out: &mut Vec<(String, Json)>, name: &str, value: Json)
    ensures
        members_view(final(out)@) == members_view(old(out)@).push((name@, value@)),
{
    out.push((name.to_owned(), value));
    assert(members_view(out@) =~= members_view(old(out)@).push((name@, value@)));
}

fn push_count<T: WireInt>(out: &mut Vec<(String, Json)>, map: &StatusMap<T>, status: RunningStatus)
    ensures
        members_view(final(out)@) == members_view(old(out)@) + status_members(map@, status),
{
    match map.get(&status) {
        Some(count) => {
            push_member(out, status.name(), write_int(*count));
            assert(members_view(out@) =~= members_view(old(out)@) + status_members(map@, status));
        },
        None => {
            assert(members_view(out@) =~= members_view(old(out)@) + status_members(map@, status));
        },
    }
}

fn write_counts<T: WireInt>(map: &StatusMap<T>) -> (j: Json)
    ensures
        j@ == counts_json(map@),
{
    let mut out: Vec<(String, Json)> = Vec::new();
    assert(members_view(out@) =~= Seq::empty());
    push_count(&mut out, map, RunningStatus::Queued);
    push_count(&mut out, map, RunningStatus::Complete);
    push_count(&mut out, map, RunningStatus::Failed);
    push_count(&mut out, map, RunningStatus::Running);
    push_count(&mut out, map, RunningStatus::Starting);
    push_count(&mut out, map, RunningStatus::Lost);
    push_count(&mut out, map, RunningStatus::Pending);
    push_count(&mut out, map, RunningStatus::Dead);
    proof {
        lemma_object_view(out);
        assert(members_view(out@) =~= counts_members(map@));
    }
    Json::Object(out)
}

fn write_groups(groups: &TaskGroups) -> (j: Json)
    ensures
        j@ == groups_json(groups.listed()),
{
    let entries = groups.entries();
    let ghost listed = groups.listed();
    let mut out: Vec<(String, Json)> = Vec::new();
    let mut i: usize = 0;
    while i < entries.len()
        invariant
            i <= entries.len(),
            out.len() == i,
            listed == entries@.map_values(|e: (String, StatusMap<isize>)| (e.0@, e.1@)),
            forall|k: int|
                0 <= k < i ==> (#[trigger] out@[k]).0@ == listed[k].0 && out@[k].1@ == counts_json(
                    listed[k].1,
                ),
        decreases entries.len() - i,
    {
        let name = entries[i].0.clone();
        let counts = write_counts(&entries[i].1);
        out.push((name, counts));
        i = i + 1;
    }
    proof {
        lemma_object_view(out);
        assert(members_view(out@) =~= groups_json(listed)->Object_0);
    }
    Json::Object(out)
}

impl JobSummary {
    /// Writes the summary as a document.
    pub fn to_json(&self) -> (j: Json)
        ensures
            j@ == summary_json(*self),
    {
        let mut out: Vec<(String, Json)> = Vec::new();
        assert(members_view(out@) =~= Seq::empty());
        push_member(&mut out, "JobID", write_text(&self.JobID));
        push_member(&mut out, "Namespace", write_text(&self.Namespace));
        push_member(&mut out, "Summary", write_groups(&self.Summary));
        push_member(&mut out, "Children", write_counts(&self.Children));
        push_member(&mut out, "CreateIndex", write_int(self.CreateIndex));
        push_member(&mut out, "ModifyIndex", write_int(self.ModifyIndex));
        proof {
            lemma_object_view(out);
            assert(members_view(out@) =~= summary_json(*self)->Object_0);
        }
        Json::Object(out)
    }
}

impl Job {
    /// Writes the job as a document.
    pub fn to_json(&self) -> (j: Json)
        ensures
            j@ == job_json(*self),
    {
        let mut out: Vec<(String, Json)> = Vec::new();
        assert(members_view(out@) =~= Seq::empty());
        push_member(&mut out, "ID", write_text(&self.ID));
        push_member(&mut out, "ParentID", write_text(&self.ParentID));
        push_member(&mut out, "Namespace", write_text(&self.Namespace));
        push_member(&mut out, "Datacenters", write_texts(&self.Datacenters));
        push_member(&mut out, "MultiRegion", write_optional_text(&self.MultiRegion));
        push_member(&mut out, "Type", write_text(&self.Type));
        push_member(&mut out, "Priority", write_int(self.Priority));
        push_member(&mut out, "Periodic", Json::Bool(self.Periodic));
        push_member(&mut out, "ParameterizedJob", Json::Bool(self.ParameterizedJob));
        push_member(&mut out, "Stop", Json::Bool(self.Stop));
        push_member(&mut out, "Status", write_text(&self.Status));
        push_member(&mut out, "StatusDescription", write_text(&self.StatusDescription));
        push_member(&mut out, "JobSummary", self.JobSummary.to_json());
        push_member(&mut out, "CreateIndex", write_int(self.CreateIndex));
        push_member(&mut out, "ModifyIndex", write_int(self.ModifyIndex));
        push_member(&mut out, "JobModifyIndex", write_int(self.JobModifyIndex));
        push_member(&mut out, "SubmitTime", write_int(self.SubmitTime));
        proof {
            lemma_object_view(out);
            assert(members_view(out@) =~= job_json(*self)->Object_0);
        }
        Json::Object(out)
    }
}

/// A written integer is read back as itself.
pub proof fn lemma_int_round_trip<T: WireInt>(x: T, field: Seq<char>)
    ensures
        int_of::<T>(int_json(x), field) == Ok::<T, Fault>(x),
{
    x.lemma_number_round_trip();
}

/// A written list of texts is read back as itself.
pub proof fn lemma_texts_round_trip(list: Seq<Seq<char>>, field: Seq<char>)
    ensures
        texts_of(texts_json(list), field) == Ok::<Seq<Seq<char>>, Fault>(list),
{
    lemma_collect_all(texts_json(list)->Array_0, text_reader(field), list);
}

/// What a status map holds for one status, as a pair.
pub open spec fn status_pairs<T>(map: Map<RunningStatus, T>, status: RunningStatus) -> Seq<
    (RunningStatus, T),
> {
    if map.contains_key(status) {
        seq![(status, map[status])]
    } else {
        Seq::empty()
    }
}

proof fn lemma_counts_step<T: WireInt>(
    map: Map<RunningStatus, T>,
    members: Seq<(Seq<char>, JsonView)>,
    pairs: Seq<(RunningStatus, T)>,
    done: Set<RunningStatus>,
    status: RunningStatus,
)
    requires
        collect(members, count_reader::<T>()) == Ok::<Seq<(RunningStatus, T)>, Fault>(pairs),
        keyed(pairs) == map.restrict(done),
    ensures
        collect(members + status_members(map, status), count_reader::<T>()) == Ok::<
            Seq<(RunningStatus, T)>,
            Fault,
        >(pairs + status_pairs(map, status)),
        keyed(pairs + status_pairs(map, status)) == map.restrict(done.insert(status)),
{
    let read = count_reader::<T>();
    let added = status_members(map, status);
    if map.contains_key(status) {
        let m = (status_name(status), int_json(map[status]));
        lemma_status_names(status, status_name(status));
        lemma_int_round_trip(map[status], status_name(status));
        assert(read(m) == Ok::<(RunningStatus, T), Fault>((status, map[status])));
        assert(added.drop_last() =~= Seq::empty());
        assert(collect(added.drop_last(), read) == Ok::<Seq<(RunningStatus, T)>, Fault>(
            Seq::empty(),
        ));
        assert(added.last() == m);
        assert(collect(added, read) == Ok::<Seq<(RunningStatus, T)>, Fault>(
            Seq::empty().push((status, map[status])),
        ));
        assert(Seq::<(RunningStatus, T)>::empty().push((status, map[status])) =~= status_pairs(
            map,
            status,
        ));
        lemma_collect_both(members, added, read);
        let all = pairs + status_pairs(map, status);
        assert(all.drop_last() =~= pairs);
        assert(all.last() == (status, map[status]));
        assert(keyed(all) =~= map.restrict(done.insert(status)));
    } else {
        assert(members + added =~= members);
        assert(pairs + status_pairs(map, status) =~= pairs);
        assert(map.restrict(done) =~= map.restrict(done.insert(status)));
    }
}

/// A written status map is read back as itself.
pub proof fn lemma_counts_round_trip<T: WireInt>(map: Map<RunningStatus, T>, field: Seq<char>)
    ensures
        counts_of::<T>(counts_json(map), field) == Ok::<Map<RunningStatus, T>, Fault>(map),
{
    let members0 = Seq::<(Seq<char>, JsonView)>::empty();
    let pairs0 = Seq::<(RunningStatus, T)>::empty();
    let done0 = Set::<RunningStatus>::empty();
    assert(keyed(pairs0) =~= map.restrict(done0));
    lemma_counts_step(map, members0, pairs0, done0, RunningStatus::Queued);
    let members1 = members0 + status_members(map, RunningStatus::Queued);
    let pairs1 = pairs0 + status_pairs(map, RunningStatus::Queued);
    let done1 = done0.insert(RunningStatus::Queued);
    lemma_counts_step(map, members1, pairs1, done1, RunningStatus::Complete);
    let members2 = members1 + status_members(map, RunningStatus::Complete);
    let pairs2 = pairs1 + status_pairs(map, RunningStatus::Complete);
    let done2 = done1.insert(RunningStatus::Complete);
    lemma_counts_step(map, members2, pairs2, done2, RunningStatus::Failed);
    let members3 = members2 + status_members(map, RunningStatus::Failed);
    let pairs3 = pairs2 + status_pairs(map, RunningStatus::Failed);
    let done3 = done2.insert(RunningStatus::Failed);
    lemma_counts_step(map, members3, pairs3, done3, RunningStatus::Running);
    let members4 = members3 + status_members(map, RunningStatus::Running);
    let pairs4 = pairs3 + status_pairs(map, RunningStatus::Running);
    let done4 = done3.insert(RunningStatus::Running);
    lemma_counts_step(map, members4, pairs4, done4, RunningStatus::Starting);
    let members5 = members4 + status_members(map, RunningStatus::Starting);
    let pairs5 = pairs4 + status_pairs(map, RunningStatus::Starting);
    let done5 = done4.insert(RunningStatus::Starting);
    lemma_counts_step(map, members5, pairs5, done5, RunningStatus::Lost);
    let members6 = members5 + status_members(map, RunningStatus::Lost);
    let pairs6 = pairs5 + status_pairs(map, RunningStatus::Lost);
    let done6 = done5.insert(RunningStatus::Lost);
    lemma_counts_step(map, members6, pairs6, done6, RunningStatus::Pending);
    let members7 = members6 + status_members(map, RunningStatus::Pending);
    let pairs7 = pairs6 + status_pairs(map, RunningStatus::Pending);
    let done7 = done6.insert(RunningStatus::Pending);
    lemma_counts_step(map, members7, pairs7, done7, RunningStatus::Dead);
    let members8 = members7 + status_members(map, RunningStatus::Dead);
    let pairs8 = pairs7 + status_pairs(map, RunningStatus::Dead);
    let done8 = done7.insert(RunningStatus::Dead);
    assert(members8 == counts_members(map)) by {
        assert(members1 =~= status_members(map, RunningStatus::Queued));
    }
    assert(map.restrict(done8) =~= map) by {
        assert forall|s: RunningStatus| done8.contains(s) by {}
    }
}

/// The written task groups are read back as the map that they stand for.
pub proof fn lemma_groups_round_trip(
    listed: Seq<(Seq<char>, Map<RunningStatus, isize>)>,
    field: Seq<char>,
)
    ensures
        groups_of(groups_json(listed), field) == Ok::<
            Map<Seq<char>, Map<RunningStatus, isize>>,
            Fault,
        >(keyed(listed)),
{
    let members = groups_json(listed)->Object_0;
    assert forall|i: int| 0 <= i < members.len() implies group_reader()(#[trigger] members[i])
        == Ok::<(Seq<char>, Map<RunningStatus, isize>), Fault>(listed[i]) by {
        lemma_counts_round_trip::<isize>(listed[i].1, listed[i].0);
    }
    lemma_collect_all(members, group_reader(), listed);
}

/// A written summary is read back as itself.
pub proof fn lemma_summary_round_trip(summary: JobSummary, field: Seq<char>)
    ensures
        summary_of(summary_json(summary), field) == Ok::<crate::jobs::JobSummaryView, Fault>(
            summary@,
        ),
{
    reveal_strlit("JobID");
    reveal_strlit("Namespace");
    reveal_strlit("Summary");
    reveal_strlit("Children");
    reveal_strlit("CreateIndex");
    reveal_strlit("ModifyIndex");
    assert("JobID"@.len() == 5 && "Namespace"@.len() == 9 && "Summary"@.len() == 7);
    assert("Children"@.len() == 8 && "CreateIndex"@.len() == 11 && "ModifyIndex"@.len() == 11);
    assert("CreateIndex"@[0] == 'C' && "ModifyIndex"@[0] == 'M');
    let members = summary_json(summary)->Object_0;
    assert forall|ms: Seq<(Seq<char>, JsonView)>, n: Seq<char>, v: JsonView, wanted: Seq<char>|
        #[trigger] member(ms.push((n, v)), wanted) == (if n == wanted {
            Some(v)
        } else {
            member(ms, wanted)
        }) by {
        lemma_member_push(ms, n, v, wanted);
    }
    lemma_groups_round_trip(summary.Summary.listed(), "Summary"@);
    lemma_counts_round_trip::<u16>(summary.Children@, "Children"@);
    lemma_int_round_trip(summary.CreateIndex, "CreateIndex"@);
    lemma_int_round_trip(summary.ModifyIndex, "ModifyIndex"@);
    assert(text_field(members, "JobID"@) == Ok::<Seq<char>, Fault>(summary.JobID@));
    assert(text_field(members, "Namespace"@) == Ok::<Seq<char>, Fault>(summary.Namespace@));
    assert(groups_field(members, "Summary"@) == Ok::<
        Map<Seq<char>, Map<RunningStatus, isize>>,
        Fault,
    >(summary.Summary@));
    assert(counts_field::<u16>(members, "Children"@) == Ok::<Map<RunningStatus, u16>, Fault>(
        summary.Children@,
    ));
    assert(int_field::<u16>(members, "CreateIndex"@) == Ok::<u16, Fault>(summary.CreateIndex));
    assert(int_field::<u16>(members, "ModifyIndex"@) == Ok::<u16, Fault>(summary.ModifyIndex));
}

/// A job is read back from the document as which it is written: every field
/// of what is read equals the job's.
pub proof fn lemma_job_round_trip(job: Job)
    ensures
        job_of(job_json(job)) == Ok::<crate::jobs::JobView, Fault>(job@),
{
    reveal_strlit("ID");
    reveal_strlit("ParentID");
    reveal_strlit("Namespace");
    reveal_strlit("Datacenters");
    reveal_strlit("MultiRegion");
    reveal_strlit("Type");
    reveal_strlit("Priority");
    reveal_strlit("Periodic");
    reveal_strlit("ParameterizedJob");
    reveal_strlit("Stop");
    reveal_strlit("Status");
    reveal_strlit("StatusDescription");
    reveal_strlit("JobSummary");
    reveal_strlit("CreateIndex");
    reveal_strlit("ModifyIndex");
    reveal_strlit("JobModifyIndex");
    reveal_strlit("SubmitTime");
    assert("ID"@.len() == 2 && "ParentID"@.len() == 8 && "Namespace"@.len() == 9);
    assert("Datacenters"@.len() == 11 && "MultiRegion"@.len() == 11 && "Type"@.len() == 4);
    assert("Priority"@.len() == 8 && "Periodic"@.len() == 8 && "Stop"@.len() == 4);
    assert("ParameterizedJob"@.len() == 16 && "Status"@.len() == 6);
    assert("StatusDescription"@.len() == 17 && "JobSummary"@.len() == 10);
    assert("CreateIndex"@.len() == 11 && "ModifyIndex"@.len() == 11);
    assert("JobModifyIndex"@.len() == 14 && "SubmitTime"@.len() == 10);
    assert("ParentID"@[1] == 'a' && "Priority"@[1] == 'r' && "Periodic"@[1] == 'e');
    assert("Datacenters"@[0] == 'D' && "CreateIndex"@[0] == 'C');
    assert("MultiRegion"@[1] == 'u' && "ModifyIndex"@[1] == 'o');
    assert("Type"@[0] == 'T' && "Stop"@[0] == 'S');
    assert("JobSummary"@[0] == 'J' && "SubmitTime"@[0] == 'S');
    let members = job_json(job)->Object_0;
    assert forall|ms: Seq<(Seq<char>, JsonView)>, n: Seq<char>, v: JsonView, wanted: Seq<char>|
        #[trigger] member(ms.push((n, v)), wanted) == (if n == wanted {
            Some(v)
        } else {
            member(ms, wanted)
        }) by {
        lemma_member_push(ms, n, v, wanted);
    }
    lemma_texts_round_trip(crate::jobs::texts(job.Datacenters@), "Datacenters"@);
    lemma_int_round_trip(job.Priority, "Priority"@);
    lemma_summary_round_trip(job.JobSummary, "JobSummary"@);
    lemma_int_round_trip(job.CreateIndex, "CreateIndex"@);
    lemma_int_round_trip(job.ModifyIndex, "ModifyIndex"@);
    lemma_int_round_trip(job.JobModifyIndex, "JobModifyIndex"@);
    lemma_int_round_trip(job.SubmitTime, "SubmitTime"@);
    assert(text_field(members, "ID"@) == Ok::<Seq<char>, Fault>(job.ID@));
    assert(text_field(members, "ParentID"@) == Ok::<Seq<char>, Fault>(job.ParentID@));
    assert(text_field(members, "Namespace"@) == Ok::<Seq<char>, Fault>(job.Namespace@));
    assert(texts_field(members, "Datacenters"@) == Ok::<Seq<Seq<char>>, Fault>(
        crate::jobs::texts(job.Datacenters@),
    ));
    assert(optional_text_of(member(members, "MultiRegion"@), "MultiRegion"@) == Ok::<
        Option<Seq<char>>,
        Fault,
    >(crate::jobs::optional_text(job.MultiRegion)));
    assert(text_field(members, "Type"@) == Ok::<Seq<char>, Fault>(job.Type@));
    assert(int_field::<isize>(members, "Priority"@) == Ok::<isize, Fault>(job.Priority));
    assert(flag_field(members, "Periodic"@) == Ok::<bool, Fault>(job.Periodic));
    assert(flag_field(members, "ParameterizedJob"@) == Ok::<bool, Fault>(job.ParameterizedJob));
    assert(flag_field(members, "Stop"@) == Ok::<bool, Fault>(job.Stop));
    assert(text_field(members, "Status"@) == Ok::<Seq<char>, Fault>(job.Status@));
    assert(text_field(members, "StatusDescription"@) == Ok::<Seq<char>, Fault>(
        job.StatusDescription@,
    ));
    assert(summary_field(members, "JobSummary"@) == Ok::<crate::jobs::JobSummaryView, Fault>(
        job.JobSummary@,
    ));
    assert(int_field::<u16>(members, "CreateIndex"@) == Ok::<u16, Fault>(job.CreateIndex));
    assert(int_field::<u16>(members, "ModifyIndex"@) == Ok::<u16, Fault>(job.ModifyIndex));
    assert(int_field::<u16>(members, "JobModifyIndex"@) == Ok::<u16, Fault>(job.JobModifyIndex));
    assert(int_field::<u128>(members, "SubmitTime"@) == Ok::<u128, Fault>(job.SubmitTime));
}

} // verus!

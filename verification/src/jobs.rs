//! Jobs as the API reports them: the records, and the two maps that a job's
//! summary is made of.

use crate::text::same_text;
use vstd::prelude::*;

verus! {

/// The states that an instance of a task group can be in.
#[derive(Clone, Copy, Debug, PartialEq, Eq, Hash)]
pub enum RunningStatus {
    Queued,
    Complete,
    Failed,
    Running,
    Starting,
    Lost,
    Pending,
    Dead,
}

/// The name under which a status is written, as a value and as a key.
pub open spec fn status_name(status: RunningStatus) -> Seq<char> {
    match status {
        RunningStatus::Queued => "Queued"@,
        RunningStatus::Complete => "Complete"@,
        RunningStatus::Failed => "Failed"@,
        RunningStatus::Running => "Running"@,
        RunningStatus::Starting => "Starting"@,
        RunningStatus::Lost => "Lost"@,
        RunningStatus::Pending => "Pending"@,
        RunningStatus::Dead => "Dead"@,
    }
}

/// The status that a name stands for, if it is the name of one.
pub open spec fn status_named(name: Seq<char>) -> Option<RunningStatus> {
    if name == "Queued"@ {
        Some(RunningStatus::Queued)
    } else if name == "Complete"@ {
        Some(RunningStatus::Complete)
    } else if name == "Failed"@ {
        Some(RunningStatus::Failed)
    } else if name == "Running"@ {
        Some(RunningStatus::Running)
    } else if name == "Starting"@ {
        Some(RunningStatus::Starting)
    } else if name == "Lost"@ {
        Some(RunningStatus::Lost)
    } else if name == "Pending"@ {
        Some(RunningStatus::Pending)
    } else if name == "Dead"@ {
        Some(RunningStatus::Dead)
    } else {
        None
    }
}

/// Every status is found again under its own name, and a name that stands for
/// a status is the name of that status.
pub proof fn lemma_status_names(status: RunningStatus, name: Seq<char>)
    ensures
        status_named(status_name(status)) == Some(status),
        status_named(name) == Some(status) ==> name == status_name(status),
{
    reveal_strlit("Queued");
    reveal_strlit("Complete");
    reveal_strlit("Failed");
    reveal_strlit("Running");
    reveal_strlit("Starting");
    reveal_strlit("Lost");
    reveal_strlit("Pending");
    reveal_strlit("Dead");
    assert("Queued"@[0] == 'Q' && "Complete"@[0] == 'C' && "Failed"@[0] == 'F');
    assert("Running"@[0] == 'R' && "Starting"@[0] == 'S' && "Lost"@[0] == 'L');
    assert("Pending"@[0] == 'P' && "Dead"@[0] == 'D');
}

impl RunningStatus {
    /// The name of this status.
    pub fn name(&self) -> (r: &'static str)
        ensures
            r@ == status_name(*self),
    {
        match self {
            RunningStatus::Queued => "Queued",
            RunningStatus::Complete => "Complete",
            RunningStatus::Failed => "Failed",
            RunningStatus::Running => "Running",
            RunningStatus::Starting => "Starting",
            RunningStatus::Lost => "Lost",
            RunningStatus::Pending => "Pending",
            RunningStatus::Dead => "Dead",
        }
    }

    /// The status with the given name. The match is exact: no other spelling
    /// or case is taken.
    pub fn from_name(name: &str) -> (r: Option<RunningStatus>)
        ensures
            r == status_named(name@),
    {
        if same_text(name, "Queued") {
            Some(RunningStatus::Queued)
        } else if same_text(name, "Complete") {
            Some(RunningStatus::Complete)
        } else if same_text(name, "Failed") {
            Some(RunningStatus::Failed)
        } else if same_text(name, "Running") {
            Some(RunningStatus::Running)
        } else if same_text(name, "Starting") {
            Some(RunningStatus::Starting)
        } else if same_text(name, "Lost") {
            Some(RunningStatus::Lost)
        } else if same_text(name, "Pending") {
            Some(RunningStatus::Pending)
        } else if same_text(name, "Dead") {
            Some(RunningStatus::Dead)
        } else {
            None
        }
    }
}

/// A map from statuses to values. There are eight statuses, so the map is a
/// table with one place for each.
#[derive(Debug)]
pub struct StatusMap<V> {
    queued: Option<V>,
    complete: Option<V>,
    failed: Option<V>,
    running: Option<V>,
    starting: Option<V>,
    lost: Option<V>,
    pending: Option<V>,
    dead: Option<V>,
}

impl<V> StatusMap<V> {
    /// What the table holds in the place of a status.
    pub closed spec fn slot(&self, status: RunningStatus) -> Option<V> {
        match status {
            RunningStatus::Queued => self.queued,
            RunningStatus::Complete => self.complete,
            RunningStatus::Failed => self.failed,
            RunningStatus::Running => self.running,
            RunningStatus::Starting => self.starting,
            RunningStatus::Lost => self.lost,
            RunningStatus::Pending => self.pending,
            RunningStatus::Dead => self.dead,
        }
    }

    /// A map without entries.
    pub fn new() -> (m: StatusMap<V>)
        ensures
            m@ == Map::<RunningStatus, V>::empty(),
    {
        let m = StatusMap {
            queued: None,
            complete: None,
            failed: None,
            running: None,
            starting: None,
            lost: None,
            pending: None,
            dead: None,
        };
        assert(m@ =~= Map::<RunningStatus, V>::empty());
        m
    }

    /// The value under a status, if there is one.
    pub fn get(&self, status: &RunningStatus) -> (r: Option<&V>)
        ensures
            match r {
                Some(v) => self@.contains_key(*status) && self@[*status] == *v,
                None => !self@.contains_key(*status),
            },
    {
        match status {
            RunningStatus::Queued => self.queued.as_ref(),
            RunningStatus::Complete => self.complete.as_ref(),
            RunningStatus::Failed => self.failed.as_ref(),
            RunningStatus::Running => self.running.as_ref(),
            RunningStatus::Starting => self.starting.as_ref(),
            RunningStatus::Lost => self.lost.as_ref(),
            RunningStatus::Pending => self.pending.as_ref(),
            RunningStatus::Dead => self.dead.as_ref(),
        }
    }

    /// Puts a value under a status and hands back the one that was there.
    pub fn insert(&mut self, status: RunningStatus, value: V) -> (r: Option<V>)
        ensures
            final(self)@ == old(self)@.insert(status, value),
            match r {
                Some(v) => old(self)@.contains_key(status) && old(self)@[status] == v,
                None => !old(self)@.contains_key(status),
            },
    {
        let mut place = Some(value);
        match status {
            RunningStatus::Queued => std::mem::swap(&mut self.queued, &mut place),
            RunningStatus::Complete => std::mem::swap(&mut self.complete, &mut place),
            RunningStatus::Failed => std::mem::swap(&mut self.failed, &mut place),
            RunningStatus::Running => std::mem::swap(&mut self.running, &mut place),
            RunningStatus::Starting => std::mem::swap(&mut self.starting, &mut place),
            RunningStatus::Lost => std::mem::swap(&mut self.lost, &mut place),
            RunningStatus::Pending => std::mem::swap(&mut self.pending, &mut place),
            RunningStatus::Dead => std::mem::swap(&mut self.dead, &mut place),
        }
        assert(self@ =~= old(self)@.insert(status, value));
        place
    }
}

impl<V> View for StatusMap<V> {
    type V = Map<RunningStatus, V>;

    closed spec fn view(&self) -> Map<RunningStatus, V> {
        Map::new(|s: RunningStatus| self.slot(s) is Some, |s: RunningStatus| self.slot(s)->0)
    }
}

/// The map that a list of keyed values stands for. Where a key is listed more
/// than once, the value listed last is the one that counts.
pub open spec fn keyed<K, V>(pairs: Seq<(K, V)>) -> Map<K, V>
    decreases pairs.len(),
{
    if pairs.len() == 0 {
        Map::empty()
    } else {
        keyed(pairs.drop_last()).insert(pairs.last().0, pairs.last().1)
    }
}

/// A key that no pair carries is not in the map.
pub proof fn lemma_keyed_absent<K, V>(pairs: Seq<(K, V)>, key: K)
    requires
        forall|j: int| 0 <= j < pairs.len() ==> (#[trigger] pairs[j]).0 != key,
    ensures
        !keyed(pairs).contains_key(key),
    decreases pairs.len(),
{
    if pairs.len() > 0 {
        assert(pairs.last() == pairs[pairs.len() - 1]);
        lemma_keyed_absent(pairs.drop_last(), key);
    }
}

/// The map holds, under the key of a pair that no later pair repeats, the
/// value of that pair.
pub proof fn lemma_keyed_last<K, V>(pairs: Seq<(K, V)>, i: int)
    requires
        0 <= i < pairs.len(),
        forall|j: int| i < j < pairs.len() ==> (#[trigger] pairs[j]).0 != pairs[i].0,
    ensures
        keyed(pairs).contains_key(pairs[i].0),
        keyed(pairs)[pairs[i].0] == pairs[i].1,
    decreases pairs.len(),
{
    if i < pairs.len() - 1 {
        assert(pairs.last() == pairs[pairs.len() - 1]);
        lemma_keyed_last(pairs.drop_last(), i);
    }
}

/// Giving the one pair that carries a key a new value changes the map as an
/// insertion under that key does.
pub proof fn lemma_keyed_update<K, V>(pairs: Seq<(K, V)>, i: int, value: V)
    requires
        0 <= i < pairs.len(),
        forall|j: int| 0 <= j < pairs.len() && j != i ==> (#[trigger] pairs[j]).0 != pairs[i].0,
    ensures
        keyed(pairs.update(i, (pairs[i].0, value))) == keyed(pairs).insert(pairs[i].0, value),
    decreases pairs.len(),
{
    let key = pairs[i].0;
    let changed = pairs.update(i, (key, value));
    if i == pairs.len() - 1 {
        assert(changed.drop_last() =~= pairs.drop_last());
        assert(keyed(changed) =~= keyed(pairs).insert(key, value));
    } else {
        assert(changed.drop_last() =~= pairs.drop_last().update(i, (key, value)));
        assert(pairs.last() == pairs[pairs.len() - 1]);
        lemma_keyed_update(pairs.drop_last(), i, value);
        assert(keyed(changed) =~= keyed(pairs).insert(key, value));
    }
}

/// The counts of a job's task groups, by the name of the group. No name is
/// held twice.
#[derive(Debug)]
pub struct TaskGroups {
    entries: Vec<(String, StatusMap<isize>)>,
}

impl TaskGroups {
    /// The groups as they are listed: each name with its counts.
    pub closed spec fn listed(&self) -> Seq<(Seq<char>, Map<RunningStatus, isize>)> {
        self.entries@.map_values(|e: (String, StatusMap<isize>)| (e.0@, e.1@))
    }

    /// No two listed groups share a name.
    #[verifier::type_invariant]
    pub closed spec fn distinct(&self) -> bool {
        forall|i: int, j: int|
            0 <= i < j < self.entries@.len() ==> (#[trigger] self.entries@[i]).0@ != (
            #[trigger] self.entries@[j]).0@
    }

    /// No groups.
    pub fn new() -> (m: TaskGroups)
        ensures
            m@ == Map::<Seq<char>, Map<RunningStatus, isize>>::empty(),
            m.listed() == Seq::<(Seq<char>, Map<RunningStatus, isize>)>::empty(),
    {
        let m = TaskGroups { entries: Vec::new() };
        assert(m.listed() =~= Seq::empty());
        m
    }

    /// The position of the group with the given name.
    fn position(&self, name: &str) -> (r: Option<usize>)
        ensures
            match r {
                Some(i) => i < self.listed().len() && self.listed()[i as int].0 == name@,
                None => forall|j: int|
                    0 <= j < self.listed().len() ==> (#[trigger] self.listed()[j]).0 != name@,
            },
    {
        let mut i: usize = 0;
        while i < self.entries.len()
            invariant
                i <= self.entries.len(),
                forall|j: int| 0 <= j < i ==> (#[trigger] self.listed()[j]).0 != name@,
            decreases self.entries.len() - i,
        {
            if same_text(self.entries[i].0.as_str(), name) {
                return Some(i);
            }
            i = i + 1;
        }
        None
    }

    /// The counts of the group with the given name, if it is held.
    pub fn get(&self, name: &str) -> (r: Option<&StatusMap<isize>>)
        ensures
            match r {
                Some(counts) => self@.contains_key(name@) && self@[name@] == counts@,
                None => !self@.contains_key(name@),
            },
    {
        proof {
            use_type_invariant(self);
        }
        match self.position(name) {
            Some(i) => {
                proof {
                    assert forall|j: int| i < j < self.listed().len() implies (
                    #[trigger] self.listed()[j]).0 != self.listed()[i as int].0 by {
                        assert(self.entries@[i as int].0@ != self.entries@[j].0@);
                    }
                    lemma_keyed_last(self.listed(), i as int);
                }
                Some(&self.entries[i].1)
            },
            None => {
                proof {
                    lemma_keyed_absent(self.listed(), name@);
                }
                None
            },
        }
    }

    /// Puts the counts under the name, in place of any that were held under
    /// it.
    pub fn insert(&mut self, name: String, counts: StatusMap<isize>)
        ensures
            final(self)@ == old(self)@.insert(name@, counts@),
    {
        proof {
            use_type_invariant(&*self);
        }
        let found = self.position(name.as_str());
        let mut taken = TaskGroups { entries: Vec::new() };
        std::mem::swap(self, &mut taken);
        let mut entries = taken.entries;
        match found {
            Some(i) => {
                proof {
                    assert forall|j: int| 0 <= j < old(self).listed().len() && j != i implies (
                    #[trigger] old(self).listed()[j]).0 != old(self).listed()[i as int].0 by {
                        if j < i {
                            assert(entries@[j].0@ != entries@[i as int].0@);
                        } else {
                            assert(entries@[i as int].0@ != entries@[j].0@);
                        }
                    }
                    lemma_keyed_update(old(self).listed(), i as int, counts@);
                }
                entries.set(i, (name, counts));
                *self = TaskGroups { entries };
                assert(self.listed() =~= old(self).listed().update(i as int, (name@, counts@)));
            },
            None => {
                proof {
                    assert forall|j: int| 0 <= j < entries@.len() implies (
                    #[trigger] entries@[j]).0@ != name@ by {
                        assert(old(self).listed()[j].0 != name@);
                    }
                }
                entries.push((name, counts));
                *self = TaskGroups { entries };
                assert(self.listed().drop_last() =~= old(self).listed());
            },
        }
    }

    /// The groups in the order in which they are held, each name once.
    pub fn entries(&self) -> (r: &Vec<(String, StatusMap<isize>)>)
        ensures
            r@.map_values(|e: (String, StatusMap<isize>)| (e.0@, e.1@)) == self.listed(),
            forall|i: int, j: int|
                0 <= i < j < r@.len() ==> (#[trigger] r@[i]).0@ != (#[trigger] r@[j]).0@,
    {
        proof {
            use_type_invariant(self);
        }
        &self.entries
    }
}

impl View for TaskGroups {
    type V = Map<Seq<char>, Map<RunningStatus, isize>>;

    open spec fn view(&self) -> Map<Seq<char>, Map<RunningStatus, isize>> {
        keyed(self.listed())
    }
}

/// The counts of one job: for each task group and for the job's children, how
/// many instances are in which state.
#[allow(non_snake_case)]
#[derive(Debug)]
pub struct JobSummary {
    pub JobID: String,
    pub Namespace: String,
    pub Summary: TaskGroups,
    pub Children: StatusMap<u16>,
    pub CreateIndex: u16,
    pub ModifyIndex: u16,
}

/// The mathematical value of a [`JobSummary`].
pub struct JobSummaryView {
    pub job_id: Seq<char>,
    pub namespace: Seq<char>,
    pub summary: Map<Seq<char>, Map<RunningStatus, isize>>,
    pub children: Map<RunningStatus, u16>,
    pub create_index: u16,
    pub modify_index: u16,
}

impl View for JobSummary {
    type V = JobSummaryView;

    open spec fn view(&self) -> JobSummaryView {
        JobSummaryView {
            job_id: self.JobID@,
            namespace: self.Namespace@,
            summary: self.Summary@,
            children: self.Children@,
            create_index: self.CreateIndex,
            modify_index: self.ModifyIndex,
        }
    }
}

/// One job as the API reports it.
#[allow(non_snake_case)]
#[derive(Debug)]
pub struct Job {
    pub ID: String,
    pub ParentID: String,
    pub Namespace: String,
    pub Datacenters: Vec<String>,
    pub MultiRegion: Option<String>,
    pub Type: String,
    pub Priority: isize,
    pub Periodic: bool,
    pub ParameterizedJob: bool,
    pub Stop: bool,
    pub Status: String,
    pub StatusDescription: String,
    pub JobSummary: JobSummary,
    pub CreateIndex: u16,
    pub ModifyIndex: u16,
    pub JobModifyIndex: u16,
    pub SubmitTime: u128,
}

/// The mathematical value of a [`Job`].
pub struct JobView {
    pub id: Seq<char>,
    pub parent_id: Seq<char>,
    pub namespace: Seq<char>,
    pub datacenters: Seq<Seq<char>>,
    pub multi_region: Option<Seq<char>>,
    pub job_type: Seq<char>,
    pub priority: isize,
    pub periodic: bool,
    pub parameterized_job: bool,
    pub stop: bool,
    pub status: Seq<char>,
    pub status_description: Seq<char>,
    pub job_summary: JobSummaryView,
    pub create_index: u16,
    pub modify_index: u16,
    pub job_modify_index: u16,
    pub submit_time: u128,
}

/// The texts of a list of strings, in order.
pub open spec fn texts(strings: Seq<String>) -> Seq<Seq<char>> {
    Seq::new(strings.len(), |i: int| strings[i]@)
}

/// The text of a string that may be absent.
pub open spec fn optional_text(string: Option<String>) -> Option<Seq<char>> {
    match string {
        Some(s) => Some(s@),
        None => None,
    }
}

impl View for Job {
    type V = JobView;

    open spec fn view(&self) -> JobView {
        JobView {
            id: self.ID@,
            parent_id: self.ParentID@,
            namespace: self.Namespace@,
            datacenters: texts(self.Datacenters@),
            multi_region: optional_text(self.MultiRegion),
            job_type: self.Type@,
            priority: self.Priority,
            periodic: self.Periodic,
            parameterized_job: self.ParameterizedJob,
            stop: self.Stop,
            status: self.Status@,
            status_description: self.StatusDescription@,
            job_summary: self.JobSummary@,
            create_index: self.CreateIndex,
            modify_index: self.ModifyIndex,
            job_modify_index: self.JobModifyIndex,
            submit_time: self.SubmitTime,
        }
    }
}

/// The values of a list of jobs, in order.
pub open spec fn job_views(jobs: Seq<Job>) -> Seq<JobView> {
    Seq::new(jobs.len(), |i: int| jobs[i]@)
}

} // verus!

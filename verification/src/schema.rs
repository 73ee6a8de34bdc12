//! The wire schema: which JSON documents are jobs, and which job each of them
//! is.
//!
//! A job is an object whose members carry the names of the record's fields.
//! Members of other names are passed over. A member that is missing, of
//! another type than its field, or out of its field's range makes the whole
//! document fail: nothing is filled in by default.

use crate::jobs::{keyed, status_named, JobSummaryView, JobView, RunningStatus};
use crate::json::{member, JsonView, Number};
use vstd::prelude::*;
use vstd::string::*;

verus! {

/// In what way a document departs from the schema.
#[derive(Clone, Copy, Debug, PartialEq, Eq)]
pub enum DecodeErrorKind {
    /// A value has another JSON type than the schema asks for.
    InvalidType,
    /// A member that the schema requires is not there.
    MissingField,
    /// An integer does not fit the type of its field.
    OutOfRange,
    /// A key of a status map is not the name of a status.
    UnknownStatus,
}

/// A departure from the schema, with the name of the member at which it was
/// found. The name is empty for the document itself and for an element of the
/// list of jobs.
#[derive(Debug, PartialEq, Eq)]
pub struct DecodeError {
    pub kind: DecodeErrorKind,
    pub field: String,
}

/// The mathematical value of a [`DecodeError`].
pub struct Fault {
    pub kind: DecodeErrorKind,
    pub field: Seq<char>,
}

impl View for DecodeError {
    type V = Fault;

    open spec fn view(&self) -> Fault {
        Fault { kind: self.kind, field: self.field@ }
    }
}

/// The words with which the description of an error begins.
pub open spec fn kind_text(kind: DecodeErrorKind) -> Seq<char> {
    match kind {
        DecodeErrorKind::InvalidType => "invalid type for `"@,
        DecodeErrorKind::MissingField => "missing field `"@,
        DecodeErrorKind::OutOfRange => "value out of range for `"@,
        DecodeErrorKind::UnknownStatus => "unknown status `"@,
    }
}

/// The description of an error: what went wrong, and the member's name
/// between backquotes.
pub open spec fn fault_text(fault: Fault) -> Seq<char> {
    kind_text(fault.kind) + fault.field + "`"@
}

impl DecodeError {
    /// An error of the given kind at the member of the given name.
    pub fn new(kind: DecodeErrorKind, field: &str) -> (e: DecodeError)
        ensures
            e@ == (Fault { kind, field: field@ }),
    {
        DecodeError { kind, field: field.to_owned() }
    }

    /// Describes the error in words.
    pub fn description(&self) -> (text: String)
        ensures
            text@ == fault_text(self@),
    {
        let mut text = match self.kind {
            DecodeErrorKind::InvalidType => String::from_str("invalid type for `"),
            DecodeErrorKind::MissingField => String::from_str("missing field `"),
            DecodeErrorKind::OutOfRange => String::from_str("value out of range for `"),
            DecodeErrorKind::UnknownStatus => String::from_str("unknown status `"),
        };
        text.append(self.field.as_str());
        text.append("`");
        text
    }
}

/// An integer type that a JSON number can be read as and written from.
pub trait WireInt: Sized + Copy {
    /// The value that a number stands for in this type, if it is an integer
    /// in the type's range.
    spec fn of_number(n: Number) -> Option<Self>;

    /// The number as which a value is written.
    spec fn number(self) -> Number;

    /// Reads a number as a value of this type.
    fn from_number(n: Number) -> (r: Option<Self>)
        ensures
            r == Self::of_number(n),
    ;

    /// Writes a value as a number.
    fn to_number(self) -> (n: Number)
        ensures
            n == self.number(),
    ;

    /// A value is read back from the number as which it is written.
    proof fn lemma_number_round_trip(self)
        ensures
            Self::of_number(self.number()) == Some(self),
    ;
}

impl WireInt for u16 {
    open spec fn of_number(n: Number) -> Option<u16> {
        match n {
            Number::Unsigned(v) => if v <= u16::MAX {
                Some(v as u16)
            } else {
                None
            },
            _ => None,
        }
    }

    open spec fn number(self) -> Number {
        Number::Unsigned(self as u128)
    }

    fn from_number(n: Number) -> (r: Option<u16>) {
        match n {
            Number::Unsigned(v) => if v <= 0xffff {
                Some(v as u16)
            } else {
                None
            },
            _ => None,
        }
    }

    fn to_number(self) -> (n: Number) {
        Number::Unsigned(self as u128)
    }

    proof fn lemma_number_round_trip(self) {
    }
}

impl WireInt for u128 {
    open spec fn of_number(n: Number) -> Option<u128> {
        match n {
            Number::Unsigned(v) => Some(v),
            _ => None,
        }
    }

    open spec fn number(self) -> Number {
        Number::Unsigned(self)
    }

    fn from_number(n: Number) -> (r: Option<u128>) {
        match n {
            Number::Unsigned(v) => Some(v),
            _ => None,
        }
    }

    fn to_number(self) -> (n: Number) {
        Number::Unsigned(self)
    }

    proof fn lemma_number_round_trip(self) {
    }
}

impl WireInt for isize {
    open spec fn of_number(n: Number) -> Option<isize> {
        match n {
            Number::Unsigned(v) => if v <= isize::MAX {
                Some(v as isize)
            } else {
                None
            },
            Number::Negative(i) => if isize::MIN <= i < 0 {
                Some(i as isize)
            } else {
                None
            },
            Number::Real => None,
        }
    }

    open spec fn number(self) -> Number {
        if self < 0 {
            Number::Negative(self as i128)
        } else {
            Number::Unsigned(self as u128)
        }
    }

    fn from_number(n: Number) -> (r: Option<isize>) {
        match n {
            Number::Unsigned(v) => if v <= isize::MAX as u128 {
                Some(v as isize)
            } else {
                None
            },
            Number::Negative(i) => if isize::MIN as i128 <= i && i < 0 {
                Some(i as isize)
            } else {
                None
            },
            Number::Real => None,
        }
    }

    fn to_number(self) -> (n: Number) {
        if self < 0 {
            Number::Negative(self as i128)
        } else {
            Number::Unsigned(self as u128)
        }
    }

    proof fn lemma_number_round_trip(self) {
    }
}

/// Whether a number is written as an integer: without a sign, or below zero.
pub open spec fn is_integer(n: Number) -> bool {
    match n {
        Number::Unsigned(_) => true,
        Number::Negative(i) => i < 0,
        Number::Real => false,
    }
}

/// The member of the given name, which the schema requires.
pub open spec fn required(members: Seq<(Seq<char>, JsonView)>, name: Seq<char>) -> Result<
    JsonView,
    Fault,
> {
    match member(members, name) {
        Some(j) => Ok(j),
        None => Err(Fault { kind: DecodeErrorKind::MissingField, field: name }),
    }
}

/// A document read as a text: it has to be a string.
pub open spec fn text_of(j: JsonView, field: Seq<char>) -> Result<Seq<char>, Fault> {
    match j {
        JsonView::Text(s) => Ok(s),
        _ => Err(Fault { kind: DecodeErrorKind::InvalidType, field }),
    }
}

/// A document read as a flag: it has to be `true` or `false`.
pub open spec fn flag_of(j: JsonView, field: Seq<char>) -> Result<bool, Fault> {
    match j {
        JsonView::Bool(b) => Ok(b),
        _ => Err(Fault { kind: DecodeErrorKind::InvalidType, field }),
    }
}

/// A document read as an integer of the type `T`: it has to be a number that
/// is written as an integer, and the integer has to be one of `T`.
pub open spec fn int_of<T: WireInt>(j: JsonView, field: Seq<char>) -> Result<T, Fault> {
    match j {
        JsonView::Number(n) => match T::of_number(n) {
            Some(x) => Ok(x),
            None => Err(
                Fault {
                    kind: if is_integer(n) {
                        DecodeErrorKind::OutOfRange
                    } else {
                        DecodeErrorKind::InvalidType
                    },
                    field,
                },
            ),
        },
        _ => Err(Fault { kind: DecodeErrorKind::InvalidType, field }),
    }
}

/// A member that may be missing, read as a text: a string gives the text,
/// `null` and a missing member give none.
pub open spec fn optional_text_of(m: Option<JsonView>, field: Seq<char>) -> Result<
    Option<Seq<char>>,
    Fault,
> {
    match m {
        None => Ok(None),
        Some(JsonView::Null) => Ok(None),
        Some(JsonView::Text(s)) => Ok(Some(s)),
        Some(_) => Err(Fault { kind: DecodeErrorKind::InvalidType, field }),
    }
}

/// Reads every element of a list with the same reader. The result is the list
/// of what was read, or the error of the first element that could not be read.
pub open spec fn collect<A, B>(items: Seq<A>, read: spec_fn(A) -> Result<B, Fault>) -> Result<
    Seq<B>,
    Fault,
>
    decreases items.len(),
{
    if items.len() == 0 {
        Ok(Seq::empty())
    } else {
        match collect(items.drop_last(), read) {
            Err(e) => Err(e),
            Ok(before) => match read(items.last()) {
                Err(e) => Err(e),
                Ok(b) => Ok(before.push(b)),
            },
        }
    }
}

/// Reading one element more: the elements before it are read first, and their
/// error, if there is one, is the result.
pub proof fn lemma_collect_step<A, B>(items: Seq<A>, read: spec_fn(A) -> Result<B, Fault>, n: int)
    requires
        0 <= n < items.len(),
    ensures
        collect(items.take(n + 1), read) == match collect(items.take(n), read) {
            Err(e) => Err::<Seq<B>, Fault>(e),
            Ok(before) => match read(items[n]) {
                Err(e) => Err(e),
                Ok(b) => Ok(before.push(b)),
            },
        },
{
    assert(items.take(n + 1).drop_last() =~= items.take(n));
    assert(items.take(n + 1).last() == items[n]);
}

/// An error among the first elements is the error of the whole list.
pub proof fn lemma_collect_fails<A, B>(items: Seq<A>, read: spec_fn(A) -> Result<B, Fault>, n: int)
    requires
        0 <= n <= items.len(),
        collect(items.take(n), read) is Err,
    ensures
        collect(items, read) == collect(items.take(n), read),
    decreases items.len(),
{
    if n == items.len() {
        assert(items.take(n) =~= items);
    } else {
        assert(items.drop_last().take(n) =~= items.take(n));
        lemma_collect_fails(items.drop_last(), read, n);
    }
}

/// Where every element can be read, the list is read as the list of what the
/// elements give.
pub proof fn lemma_collect_all<A, B>(
    items: Seq<A>,
    read: spec_fn(A) -> Result<B, Fault>,
    out: Seq<B>,
)
    requires
        items.len() == out.len(),
        forall|i: int| 0 <= i < items.len() ==> read(#[trigger] items[i]) == Ok::<B, Fault>(out[i]),
    ensures
        collect(items, read) == Ok::<Seq<B>, Fault>(out),
    decreases items.len(),
{
    if items.len() == 0 {
        assert(out =~= Seq::empty());
    } else {
        assert(items.last() == items[items.len() - 1]);
        lemma_collect_all(items.drop_last(), read, out.drop_last());
        assert(out.drop_last().push(out.last()) =~= out);
    }
}

/// Two lists that can be read give, one after the other, what each gives.
pub proof fn lemma_collect_both<A, B>(
    first: Seq<A>,
    second: Seq<A>,
    read: spec_fn(A) -> Result<B, Fault>,
)
    requires
        collect(first, read) is Ok,
        collect(second, read) is Ok,
    ensures
        collect(first + second, read) == Ok::<Seq<B>, Fault>(
            collect(first, read)->Ok_0 + collect(second, read)->Ok_0,
        ),
    decreases second.len(),
{
    if second.len() == 0 {
        assert(first + second =~= first);
        assert(collect(first, read)->Ok_0 + collect(second, read)->Ok_0 =~= collect(
            first,
            read,
        )->Ok_0);
    } else {
        assert((first + second).drop_last() =~= first + second.drop_last());
        assert((first + second).last() == second.last());
        lemma_collect_both(first, second.drop_last(), read);
        let a = collect(first, read)->Ok_0;
        let b = collect(second.drop_last(), read)->Ok_0;
        let x = read(second.last())->Ok_0;
        assert((a + b).push(x) =~= a + b.push(x));
    }
}

/// A list that is read gives one value for each element, in the order of the
/// elements, and each value is what its element gives.
pub proof fn lemma_collect_in_order<A, B>(items: Seq<A>, read: spec_fn(A) -> Result<B, Fault>)
    requires
        collect(items, read) is Ok,
    ensures
        collect(items, read)->Ok_0.len() == items.len(),
        forall|i: int|
            0 <= i < items.len() ==> read(#[trigger] items[i]) == Ok::<B, Fault>(
                collect(items, read)->Ok_0[i],
            ),
    decreases items.len(),
{
    if items.len() > 0 {
        lemma_collect_in_order(items.drop_last(), read);
        let before = collect(items.drop_last(), read)->Ok_0;
        assert forall|i: int| 0 <= i < items.len() implies read(#[trigger] items[i]) == Ok::<
            B,
            Fault,
        >(collect(items, read)->Ok_0[i]) by {
            if i < items.len() - 1 {
                assert(items.drop_last()[i] == items[i]);
            } else {
                assert(items.last() == items[i]);
            }
        }
    }
}

/// One element that cannot be read makes the whole list fail.
pub proof fn lemma_collect_refuses<A, B>(
    items: Seq<A>,
    read: spec_fn(A) -> Result<B, Fault>,
    i: int,
)
    requires
        0 <= i < items.len(),
        read(items[i]) is Err,
    ensures
        collect(items, read) is Err,
{
    if collect(items, read) is Ok {
        lemma_collect_in_order(items, read);
    }
}

/// The reader of the elements of a list of texts.
pub open spec fn text_reader(field: Seq<char>) -> spec_fn(JsonView) -> Result<Seq<char>, Fault> {
    |x: JsonView| text_of(x, field)
}

/// A document read as a list of texts: it has to be an array of strings.
pub open spec fn texts_of(j: JsonView, field: Seq<char>) -> Result<Seq<Seq<char>>, Fault> {
    match j {
        JsonView::Array(items) => collect(items, text_reader(field)),
        _ => Err(Fault { kind: DecodeErrorKind::InvalidType, field }),
    }
}

/// A member of a status map: its name has to be the name of a status, and its
/// value an integer of the type `T`.
pub open spec fn count_of<T: WireInt>(m: (Seq<char>, JsonView)) -> Result<(RunningStatus, T), Fault> {
    match status_named(m.0) {
        None => Err(Fault { kind: DecodeErrorKind::UnknownStatus, field: m.0 }),
        Some(status) => match int_of::<T>(m.1, m.0) {
            Err(e) => Err(e),
            Ok(x) => Ok((status, x)),
        },
    }
}

/// The reader of the members of a status map.
pub open spec fn count_reader<T: WireInt>() -> spec_fn((Seq<char>, JsonView)) -> Result<
    (RunningStatus, T),
    Fault,
> {
    |m: (Seq<char>, JsonView)| count_of::<T>(m)
}

/// A document read as a status map: it has to be an object whose members are
/// all counts. Where a status is named twice, the later count stays.
pub open spec fn counts_of<T: WireInt>(j: JsonView, field: Seq<char>) -> Result<
    Map<RunningStatus, T>,
    Fault,
> {
    match j {
        JsonView::Object(members) => match collect(members, count_reader::<T>()) {
            Err(e) => Err(e),
            Ok(pairs) => Ok(keyed(pairs)),
        },
        _ => Err(Fault { kind: DecodeErrorKind::InvalidType, field }),
    }
}

/// A member of the map of task groups: any name, with a status map as its
/// value.
pub open spec fn group_of(m: (Seq<char>, JsonView)) -> Result<
    (Seq<char>, Map<RunningStatus, isize>),
    Fault,
> {
    match counts_of::<isize>(m.1, m.0) {
        Err(e) => Err(e),
        Ok(counts) => Ok((m.0, counts)),
    }
}

/// The reader of the members of the map of task groups.
pub open spec fn group_reader() -> spec_fn((Seq<char>, JsonView)) -> Result<
    (Seq<char>, Map<RunningStatus, isize>),
    Fault,
> {
    |m: (Seq<char>, JsonView)| group_of(m)
}

/// A document read as the map of task groups: it has to be an object whose
/// members are all status maps. Where a name is listed twice, the later map
/// stays.
pub open spec fn groups_of(j: JsonView, field: Seq<char>) -> Result<
    Map<Seq<char>, Map<RunningStatus, isize>>,
    Fault,
> {
    match j {
        JsonView::Object(members) => match collect(members, group_reader()) {
            Err(e) => Err(e),
            Ok(pairs) => Ok(keyed(pairs)),
        },
        _ => Err(Fault { kind: DecodeErrorKind::InvalidType, field }),
    }
}

/// The required member of the given name, read as a text.
pub open spec fn text_field(members: Seq<(Seq<char>, JsonView)>, name: Seq<char>) -> Result<
    Seq<char>,
    Fault,
> {
    match required(members, name) {
        Err(e) => Err(e),
        Ok(j) => text_of(j, name),
    }
}

/// The required member of the given name, read as a flag.
pub open spec fn flag_field(members: Seq<(Seq<char>, JsonView)>, name: Seq<char>) -> Result<
    bool,
    Fault,
> {
    match required(members, name) {
        Err(e) => Err(e),
        Ok(j) => flag_of(j, name),
    }
}

/// The required member of the given name, read as an integer of the type `T`.
pub open spec fn int_field<T: WireInt>(members: Seq<(Seq<char>, JsonView)>, name: Seq<char>) -> Result<
    T,
    Fault,
> {
    match required(members, name) {
        Err(e) => Err(e),
        Ok(j) => int_of::<T>(j, name),
    }
}

/// The required member of the given name, read as a list of texts.
pub open spec fn texts_field(members: Seq<(Seq<char>, JsonView)>, name: Seq<char>) -> Result<
    Seq<Seq<char>>,
    Fault,
> {
    match required(members, name) {
        Err(e) => Err(e),
        Ok(j) => texts_of(j, name),
    }
}

/// The required member of the given name, read as a status map.
pub open spec fn counts_field<T: WireInt>(
    members: Seq<(Seq<char>, JsonView)>,
    name: Seq<char>,
) -> Result<Map<RunningStatus, T>, Fault> {
    match required(members, name) {
        Err(e) => Err(e),
        Ok(j) => counts_of::<T>(j, name),
    }
}

/// The required member of the given name, read as the map of task groups.
pub open spec fn groups_field(members: Seq<(Seq<char>, JsonView)>, name: Seq<char>) -> Result<
    Map<Seq<char>, Map<RunningStatus, isize>>,
    Fault,
> {
    match required(members, name) {
        Err(e) => Err(e),
        Ok(j) => groups_of(j, name),
    }
}

/// The summary that the members of an object stand for. Where several
/// members are at fault, the error is that of the first in the order of the
/// record's fields.
pub open spec fn summary_from(members: Seq<(Seq<char>, JsonView)>) -> Result<JobSummaryView, Fault> {
    let job_id = text_field(members, "JobID"@);
    let namespace = text_field(members, "Namespace"@);
    let summary = groups_field(members, "Summary"@);
    let children = counts_field::<u16>(members, "Children"@);
    let create_index = int_field::<u16>(members, "CreateIndex"@);
    let modify_index = int_field::<u16>(members, "ModifyIndex"@);
    if job_id is Err {
        Err(job_id->Err_0)
    } else if namespace is Err {
        Err(namespace->Err_0)
    } else if summary is Err {
        Err(summary->Err_0)
    } else if children is Err {
        Err(children->Err_0)
    } else if create_index is Err {
        Err(create_index->Err_0)
    } else if modify_index is Err {
        Err(modify_index->Err_0)
    } else {
        Ok(
            JobSummaryView {
                job_id: job_id->Ok_0,
                namespace: namespace->Ok_0,
                summary: summary->Ok_0,
                children: children->Ok_0,
                create_index: create_index->Ok_0,
                modify_index: modify_index->Ok_0,
            },
        )
    }
}

/// A document read as a job's summary: it has to be an object.
pub open spec fn summary_of(j: JsonView, field: Seq<char>) -> Result<JobSummaryView, Fault> {
    match j {
        JsonView::Object(members) => summary_from(members),
        _ => Err(Fault { kind: DecodeErrorKind::InvalidType, field }),
    }
}

/// The required member of the given name, read as a job's summary.
pub open spec fn summary_field(members: Seq<(Seq<char>, JsonView)>, name: Seq<char>) -> Result<
    JobSummaryView,
    Fault,
> {
    match required(members, name) {
        Err(e) => Err(e),
        Ok(j) => summary_of(j, name),
    }
}

/// The job that the members of an object stand for. Where several members are
/// at fault, the error is that of the first in the order of the record's
/// fields.
pub open spec fn job_from(members: Seq<(Seq<char>, JsonView)>) -> Result<JobView, Fault> {
    let id = text_field(members, "ID"@);
    let parent_id = text_field(members, "ParentID"@);
    let namespace = text_field(members, "Namespace"@);
    let datacenters = texts_field(members, "Datacenters"@);
    let multi_region = optional_text_of(member(members, "MultiRegion"@), "MultiRegion"@);
    let job_type = text_field(members, "Type"@);
    let priority = int_field::<isize>(members, "Priority"@);
    let periodic = flag_field(members, "Periodic"@);
    let parameterized_job = flag_field(members, "ParameterizedJob"@);
    let stop = flag_field(members, "Stop"@);
    let status = text_field(members, "Status"@);
    let status_description = text_field(members, "StatusDescription"@);
    let job_summary = summary_field(members, "JobSummary"@);
    let create_index = int_field::<u16>(members, "CreateIndex"@);
    let modify_index = int_field::<u16>(members, "ModifyIndex"@);
    let job_modify_index = int_field::<u16>(members, "JobModifyIndex"@);
    let submit_time = int_field::<u128>(members, "SubmitTime"@);
    if id is Err {
        Err(id->Err_0)
    } else if parent_id is Err {
        Err(parent_id->Err_0)
    } else if namespace is Err {
        Err(namespace->Err_0)
    } else if datacenters is Err {
        Err(datacenters->Err_0)
    } else if multi_region is Err {
        Err(multi_region->Err_0)
    } else if job_type is Err {
        Err(job_type->Err_0)
    } else if priority is Err {
        Err(priority->Err_0)
    } else if periodic is Err {
        Err(periodic->Err_0)
    } else if parameterized_job is Err {
        Err(parameterized_job->Err_0)
    } else if stop is Err {
        Err(stop->Err_0)
    } else if status is Err {
        Err(status->Err_0)
    } else if status_description is Err {
        Err(status_description->Err_0)
    } else if job_summary is Err {
        Err(job_summary->Err_0)
    } else if create_index is Err {
        Err(create_index->Err_0)
    } else if modify_index is Err {
        Err(modify_index->Err_0)
    } else if job_modify_index is Err {
        Err(job_modify_index->Err_0)
    } else if submit_time is Err {
        Err(submit_time->Err_0)
    } else {
        Ok(
            JobView {
                id: id->Ok_0,
                parent_id: parent_id->Ok_0,
                namespace: namespace->Ok_0,
                datacenters: datacenters->Ok_0,
                multi_region: multi_region->Ok_0,
                job_type: job_type->Ok_0,
                priority: priority->Ok_0,
                periodic: periodic->Ok_0,
                parameterized_job: parameterized_job->Ok_0,
                stop: stop->Ok_0,
                status: status->Ok_0,
                status_description: status_description->Ok_0,
                job_summary: job_summary->Ok_0,
                create_index: create_index->Ok_0,
                modify_index: modify_index->Ok_0,
                job_modify_index: job_modify_index->Ok_0,
                submit_time: submit_time->Ok_0,
            },
        )
    }
}

/// A document read as a job: it has to be an object.
pub open spec fn job_of(j: JsonView) -> Result<JobView, Fault> {
    match j {
        JsonView::Object(members) => job_from(members),
        _ => Err(Fault { kind: DecodeErrorKind::InvalidType, field: Seq::empty() }),
    }
}

/// The reader of the elements of a list of jobs.
pub open spec fn job_reader() -> spec_fn(JsonView) -> Result<JobView, Fault> {
    |j: JsonView| job_of(j)
}

/// A document read as a list of jobs: it has to be an array of jobs. The jobs
/// come in the order of the array.
pub open spec fn jobs_of(doc: JsonView) -> Result<Seq<JobView>, Fault> {
    match doc {
        JsonView::Array(items) => collect(items, job_reader()),
        _ => Err(Fault { kind: DecodeErrorKind::InvalidType, field: Seq::empty() }),
    }
}

/// A status map with a member whose name is not the name of a status is not
/// read: the member is neither passed over nor given a status.
pub proof fn lemma_unknown_status_refused<T: WireInt>(
    members: Seq<(Seq<char>, JsonView)>,
    i: int,
    field: Seq<char>,
)
    requires
        0 <= i < members.len(),
        status_named(members[i].0) is None,
    ensures
        counts_of::<T>(JsonView::Object(members), field) is Err,
{
    lemma_collect_refuses(members, count_reader::<T>(), i);
}

/// A job whose summary names, among its children, a status that there is not,
/// is not read.
pub proof fn lemma_unknown_child_status_refused(
    job: Seq<(Seq<char>, JsonView)>,
    summary: Seq<(Seq<char>, JsonView)>,
    children: Seq<(Seq<char>, JsonView)>,
    i: int,
)
    requires
        member(job, "JobSummary"@) == Some(JsonView::Object(summary)),
        member(summary, "Children"@) == Some(JsonView::Object(children)),
        0 <= i < children.len(),
        status_named(children[i].0) is None,
    ensures
        job_of(JsonView::Object(job)) is Err,
{
    lemma_unknown_status_refused::<u16>(children, i, "Children"@);
    assert(counts_field::<u16>(summary, "Children"@) is Err);
    assert(summary_from(summary) is Err);
    assert(summary_field(job, "JobSummary"@) is Err);
}

/// A job whose summary names, in a task group, a status that there is not, is
/// not read.
pub proof fn lemma_unknown_group_status_refused(
    job: Seq<(Seq<char>, JsonView)>,
    summary: Seq<(Seq<char>, JsonView)>,
    groups: Seq<(Seq<char>, JsonView)>,
    g: int,
    counts: Seq<(Seq<char>, JsonView)>,
    i: int,
)
    requires
        member(job, "JobSummary"@) == Some(JsonView::Object(summary)),
        member(summary, "Summary"@) == Some(JsonView::Object(groups)),
        0 <= g < groups.len(),
        groups[g].1 == JsonView::Object(counts),
        0 <= i < counts.len(),
        status_named(counts[i].0) is None,
    ensures
        job_of(JsonView::Object(job)) is Err,
{
    lemma_unknown_status_refused::<isize>(counts, i, groups[g].0);
    assert(group_reader()(groups[g]) is Err);
    lemma_collect_refuses(groups, group_reader(), g);
    assert(groups_field(summary, "Summary"@) is Err);
    assert(summary_from(summary) is Err);
    assert(summary_field(job, "JobSummary"@) is Err);
}

/// A list of jobs is read whole or not at all: where it is read, every
/// element is a job, and the jobs come in the order of the elements.
pub proof fn lemma_jobs_whole_and_in_order(items: Seq<JsonView>)
    ensures
        match jobs_of(JsonView::Array(items)) {
            Ok(jobs) => jobs.len() == items.len() && forall|i: int|
                0 <= i < items.len() ==> job_of(#[trigger] items[i]) == Ok::<JobView, Fault>(
                    jobs[i],
                ),
            Err(_) => exists|i: int| 0 <= i < items.len() && job_of(#[trigger] items[i]) is Err,
        },
{
    let read = job_reader();
    if collect(items, read) is Ok {
        lemma_collect_in_order(items, read);
        assert forall|i: int| 0 <= i < items.len() implies job_of(#[trigger] items[i]) == Ok::<
            JobView,
            Fault,
        >(collect(items, read)->Ok_0[i]) by {
            assert(read(items[i]) == job_of(items[i]));
        }
    } else {
        if forall|i: int| 0 <= i < items.len() ==> job_of(#[trigger] items[i]) is Ok {
            let out = Seq::new(items.len(), |i: int| job_of(items[i])->Ok_0);
            assert forall|i: int| 0 <= i < items.len() implies read(#[trigger] items[i]) == Ok::<
                JobView,
                Fault,
            >(out[i]) by {
                assert(job_of(items[i]) is Ok);
            }
            lemma_collect_all(items, read, out);
        }
    }
}

} // verus!

use vstd::prelude::*;
use crate::stamp::{Stamp, deserialize, serialize, parse_stamp};

verus! {

/// One scheduled class. Two lessons are the same entry when all five fields agree.
#[derive(Clone, Debug)]
pub struct Lesson {
    pub name: String,
    pub lesson_type: String,
    pub duration: i64,
    pub cabinet: String,
    pub date: Stamp,
}

pub struct LessonView {
    pub name: Seq<char>,
    pub lesson_type: Seq<char>,
    pub duration: i64,
    pub cabinet: Seq<char>,
    pub date: Stamp,
}

impl View for Lesson {
    type V = LessonView;

    open spec fn view(&self) -> LessonView {
        LessonView {
            name: self.name@,
            lesson_type: self.lesson_type@,
            duration: self.duration,
            cabinet: self.cabinet@,
            date: self.date,
        }
    }
}

impl Lesson {
    pub open spec fn wf(&self) -> bool {
        self.date.wf()
    }

    /// Field-by-field equality.
    pub fn same(&self, o: &Lesson) -> (r: bool)
        ensures
            r == (self@ == o@),
    {
        self.name == o.name && self.lesson_type == o.lesson_type && self.duration == o.duration
            && self.cabinet == o.cabinet && self.date == o.date
    }
}

impl PartialEq for Lesson {
    fn eq(&self, o: &Lesson) -> (r: bool) {
        self.same(o)
    }
}

impl vstd::std_specs::cmp::PartialEqSpecImpl for Lesson {
    open spec fn obeys_eq_spec() -> bool {
        true
    }

    open spec fn eq_spec(&self, o: &Lesson) -> bool {
        self@ == o@
    }
}

/// A lesson as it is stored: the instant written as `dd-mm-yyyy HH:MM`.
#[derive(Clone, Debug)]
pub struct Record {
    pub name: String,
    pub lesson_type: String,
    pub duration: i64,
    pub cabinet: String,
    pub date: String,
}

/// Why the stored timetable could not be used.
#[derive(Clone, Copy, Debug, PartialEq, Eq, Structural)]
pub enum StoreError {
    /// The stored data does not describe a list of lessons.
    CorruptStore,
}

/// The lesson a stored record describes, if its instant reads back.
pub open spec fn lesson_of_record(r: Record) -> Option<LessonView> {
    match parse_stamp(r.date@, '-') {
        Some(d) => Some(
            LessonView {
                name: r.name@,
                lesson_type: r.lesson_type@,
                duration: r.duration,
                cabinet: r.cabinet@,
                date: d,
            },
        ),
        None => None,
    }
}

/// Turns a lesson into its stored record; reading the record back gives the lesson.
pub fn to_record(l: &Lesson) -> (r: Record)
    requires
        l.wf(),
    ensures
        r.name@ == l.name@,
        r.lesson_type@ == l.lesson_type@,
        r.duration == l.duration,
        r.cabinet@ == l.cabinet@,
        r.date@ == crate::stamp::stamp_text(l.date, '-'),
        lesson_of_record(r) == Some(l@),
{
    Record {
        name: l.name.clone(),
        lesson_type: l.lesson_type.clone(),
        duration: l.duration,
        cabinet: l.cabinet.clone(),
        date: serialize(&l.date),
    }
}

/// Reads a stored record back into a lesson.
pub fn from_record(r: &Record) -> (res: Option<Lesson>)
    ensures
        res.is_some() == lesson_of_record(*r).is_some(),
        res matches Some(l) ==> l@ == lesson_of_record(*r).unwrap() && l.wf(),
{
    match deserialize(r.date.as_str()) {
        Some(d) => Some(
            Lesson {
                name: r.name.clone(),
                lesson_type: r.lesson_type.clone(),
                duration: r.duration,
                cabinet: r.cabinet.clone(),
                date: d,
            },
        ),
        None => None,
    }
}


pub open spec fn views(s: Seq<Lesson>) -> Seq<LessonView> {
    s.map_values(|l: Lesson| l@)
}

pub open spec fn all_wf(s: Seq<Lesson>) -> bool {
    forall|i: int| 0 <= i < s.len() ==> #[trigger] s[i].wf()
}

/// Reads the stored records into the timetable. Fails with `CorruptStore`
/// exactly when some record's instant does not read back.
pub fn load(records: &Vec<Record>) -> (r: Result<Vec<Lesson>, StoreError>)
    ensures
        r.is_ok() == (forall|i: int|
            0 <= i < records@.len() ==> (#[trigger] lesson_of_record(records@[i])).is_some()),
        r matches Ok(v) ==> v@.len() == records@.len() && all_wf(v@) && forall|i: int|
            0 <= i < v@.len() ==> #[trigger] v@[i]@ == lesson_of_record(records@[i]).unwrap(),
        r matches Err(e) ==> e == StoreError::CorruptStore,
{
    let mut out: Vec<Lesson> = Vec::new();
    let mut i: usize = 0;
    while i < records.len()
        invariant
            i <= records@.len(),
            out@.len() == i,
            all_wf(out@),
            forall|j: int| 0 <= j < i ==> (#[trigger] lesson_of_record(records@[j])).is_some(),
            forall|j: int|
                0 <= j < i ==> #[trigger] out@[j]@ == lesson_of_record(records@[j]).unwrap(),
        decreases records@.len() - i,
    {
        match from_record(&records[i]) {
            Some(l) => out.push(l),
            None => {
                return Err(StoreError::CorruptStore);
            },
        }
        i = i + 1;
    }
    Ok(out)
}

/// The stored records of a timetable, in its order.
pub fn to_records(lessons: &Vec<Lesson>) -> (r: Vec<Record>)
    requires
        all_wf(lessons@),
    ensures
        r@.len() == lessons@.len(),
        forall|i: int| 0 <= i < r@.len() ==> #[trigger] lesson_of_record(r@[i]) == Some(lessons@[i]@),
{
    let mut out: Vec<Record> = Vec::new();
    let mut i: usize = 0;
    while i < lessons.len()
        invariant
            i <= lessons@.len(),
            all_wf(lessons@),
            out@.len() == i,
            forall|j: int|
                0 <= j < i ==> #[trigger] lesson_of_record(out@[j]) == Some(lessons@[j]@),
        decreases lessons@.len() - i,
    {
        out.push(to_record(&lessons[i]));
        i = i + 1;
    }
    out
}

/// Appends a lesson; duplicates are allowed.
pub fn add(lessons: &mut Vec<Lesson>, lesson: Lesson)
    ensures
        final(lessons)@ == old(lessons)@.push(lesson),
{
    lessons.push(lesson);
}

/// The timetable without any entry equal to `target`, the rest in order.
pub open spec fn without(s: Seq<Lesson>, target: LessonView) -> Seq<Lesson> {
    s.filter(keeps(target))
}

/// Holds of the entries that deleting `target` keeps.
pub open spec fn keeps(target: LessonView) -> spec_fn(Lesson) -> bool {
    |l: Lesson| l@ != target
}

/// Removes every entry equal to `lesson`, keeping the others in order.
pub fn delete(lessons: &mut Vec<Lesson>, lesson: &Lesson)
    ensures
        final(lessons)@ == without(old(lessons)@, lesson@),
{
    let ghost pred = keeps(lesson@);
    let ghost orig = old(lessons)@;
    let ghost mut j: int = 0;
    let mut i: usize = 0;
    while i < lessons.len()
        invariant
            0 <= j <= orig.len(),
            pred == keeps(lesson@),
            i == orig.subrange(0, j).filter(pred).len(),
            lessons@ == orig.subrange(0, j).filter(pred) + orig.subrange(j, orig.len() as int),
        decreases orig.len() - j,
    {
        proof {
            orig.subrange(0, j).lemma_filter_push(orig[j], pred);
            assert(orig.subrange(0, j + 1) == orig.subrange(0, j).push(orig[j]));
            assert(lessons@[i as int] == orig[j]);
        }
        let ghost prev = lessons@;
        let ghost done = orig.subrange(0, j).filter(pred);
        let ghost rest = orig.subrange(j + 1, orig.len() as int);
        assert(orig.subrange(j, orig.len() as int) == seq![orig[j]] + rest);
        if lessons[i].same(lesson) {
            let _ = lessons.remove(i);
            proof {
                assert(!pred(orig[j]));
                assert(orig.subrange(0, j + 1).filter(pred) == done);
                assert(prev == done + seq![orig[j]] + rest);
                assert(lessons@ =~= done + rest);
                assert(lessons@ =~= orig.subrange(0, j + 1).filter(pred) + orig.subrange(
                    j + 1,
                    orig.len() as int,
                ));
            }
        } else {
            i = i + 1;
            proof {
                assert(pred(orig[j]));
                assert(orig.subrange(0, j + 1).filter(pred) == done.push(orig[j]));
                assert(prev =~= done.push(orig[j]) + rest);
                assert(lessons@ =~= orig.subrange(0, j + 1).filter(pred) + orig.subrange(
                    j + 1,
                    orig.len() as int,
                ));
            }
        }
        proof {
            j = j + 1;
        }
    }
    proof {
        assert(orig.subrange(j, orig.len() as int).len() == 0);
        assert(orig.subrange(0, j) == orig);
        assert(lessons@ =~= orig.filter(pred));
    }
}


/// Deleting removes every copy of the target and keeps every other entry.
pub proof fn lemma_delete_removes_every_copy(s: Seq<Lesson>, target: LessonView)
    ensures
        forall|i: int| 0 <= i < without(s, target).len() ==> #[trigger] without(s, target)[i]@ != target,
        forall|x: Lesson| #[trigger] s.contains(x) && x@ != target ==> without(s, target).contains(x),
{
    let pred = keeps(target);
    assert forall|i: int| 0 <= i < without(s, target).len() implies #[trigger] without(s, target)[i]@ != target by {
        s.lemma_filter_pred(pred, i);
    }
    assert forall|x: Lesson| #[trigger] s.contains(x) && x@ != target implies without(s, target).contains(x) by {
        s.lemma_filter_contains_rev(pred, x);
    }
}

/// Deleting a lesson that is not in the timetable leaves it as it was.
pub proof fn lemma_delete_absent_is_identity(s: Seq<Lesson>, target: LessonView)
    requires
        forall|i: int| 0 <= i < s.len() ==> #[trigger] s[i]@ != target,
    ensures
        without(s, target) == s,
    decreases s.len(),
{
    if s.len() > 0 {
        let pred = keeps(target);
        let init = s.drop_last();
        assert forall|i: int| 0 <= i < init.len() implies #[trigger] init[i]@ != target by {
            assert(init[i] == s[i]);
        }
        lemma_delete_absent_is_identity(init, target);
        init.lemma_filter_push(s.last(), pred);
        assert(init.push(s.last()) == s);
    } else {
        assert(s.filter(keeps(target)) =~= s);
    }
}

} // verus!

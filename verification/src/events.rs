//! The event log: what an event is, how a stored record is keyed, and how the
//! history of an aggregate is read back.
//!
//! A store yields its records in an order of its own. Reading the history of
//! an aggregate selects the records under the aggregate's key prefix and
//! orders them by version; reading the whole log orders by time. Both
//! orderings are stable: records that tie stay in the order in which the store
//! yielded them.

use crate::crypto::generate_uuid;
use crate::text::{
    decimal, from_chars, is_ascii_digit, join_texts, lemma_decimal_digits,
    lemma_decimal_one_to_one, push_decimal, push_str, starts_with, str_equal,
};
use crate::time::{now_utc, Timestamp};
use vstd::prelude::*;

verus! {

// ---------------------------------------------------------------------------
// Events
// ---------------------------------------------------------------------------

/// The score for one criterion, as recorded. Scores are held by their bits
/// in single precision.
#[derive(Debug, Clone)]
pub struct RubricScore {
    pub criterion: String,
    pub score: u32,
    pub max_score: u32,
    pub comment: String,
}

/// A recorded score, as contracts speak of it.
pub struct RubricScoreView {
    pub criterion: Seq<char>,
    pub score: u32,
    pub max_score: u32,
    pub comment: Seq<char>,
}

impl View for RubricScore {
    type V = RubricScoreView;

    open spec fn view(&self) -> RubricScoreView {
        RubricScoreView {
            criterion: self.criterion@,
            score: self.score,
            max_score: self.max_score,
            comment: self.comment@,
        }
    }
}

/// The views of a vector of scores.
pub open spec fn score_views(v: Seq<RubricScore>) -> Seq<RubricScoreView> {
    v.map_values(|s: RubricScore| s@)
}

/// What happened, with what belongs to it. Grades are held by their bits in
/// single precision.
#[derive(Debug, Clone)]
pub enum EventType {
    TMASubmitted { student_id: String, module_code: String, question_number: u32, content_hash: String },
    FeedbackGenerated { tma_id: String, feedback: String, rubric_scores: Vec<RubricScore> },
    GradeAssigned { tma_id: String, grade: u32, max_grade: u32 },
    StudentAnonymized { original_hash: String, anonymized_id: String, timestamp: Timestamp },
}

/// What happened, as contracts speak of it.
pub enum EventTypeView {
    TMASubmitted {
        student_id: Seq<char>,
        module_code: Seq<char>,
        question_number: u32,
        content_hash: Seq<char>,
    },
    FeedbackGenerated { tma_id: Seq<char>, feedback: Seq<char>, rubric_scores: Seq<RubricScoreView> },
    GradeAssigned { tma_id: Seq<char>, grade: u32, max_grade: u32 },
    StudentAnonymized { original_hash: Seq<char>, anonymized_id: Seq<char>, timestamp: Timestamp },
}

impl View for EventType {
    type V = EventTypeView;

    open spec fn view(&self) -> EventTypeView {
        match *self {
            EventType::TMASubmitted { student_id, module_code, question_number, content_hash } => {
                EventTypeView::TMASubmitted {
                    student_id: student_id@,
                    module_code: module_code@,
                    question_number,
                    content_hash: content_hash@,
                }
            },
            EventType::FeedbackGenerated { tma_id, feedback, rubric_scores } => {
                EventTypeView::FeedbackGenerated {
                    tma_id: tma_id@,
                    feedback: feedback@,
                    rubric_scores: score_views(rubric_scores@),
                }
            },
            EventType::GradeAssigned { tma_id, grade, max_grade } => {
                EventTypeView::GradeAssigned { tma_id: tma_id@, grade, max_grade }
            },
            EventType::StudentAnonymized { original_hash, anonymized_id, timestamp } => {
                EventTypeView::StudentAnonymized {
                    original_hash: original_hash@,
                    anonymized_id: anonymized_id@,
                    timestamp,
                }
            },
        }
    }
}

/// The kind of an event, without what belongs to it.
#[derive(Debug, Clone, Copy, PartialEq, Eq, Structural)]
pub enum EventKind {
    TMASubmitted,
    FeedbackGenerated,
    GradeAssigned,
    StudentAnonymized,
}

impl EventTypeView {
    /// The kind of what happened.
    pub open spec fn kind(self) -> EventKind {
        match self {
            EventTypeView::TMASubmitted { .. } => EventKind::TMASubmitted,
            EventTypeView::FeedbackGenerated { .. } => EventKind::FeedbackGenerated,
            EventTypeView::GradeAssigned { .. } => EventKind::GradeAssigned,
            EventTypeView::StudentAnonymized { .. } => EventKind::StudentAnonymized,
        }
    }
}

impl EventType {
    /// The kind of what happened.
    pub fn kind(&self) -> (k: EventKind)
        ensures
            k == self@.kind(),
    {
        match self {
            EventType::TMASubmitted { .. } => EventKind::TMASubmitted,
            EventType::FeedbackGenerated { .. } => EventKind::FeedbackGenerated,
            EventType::GradeAssigned { .. } => EventKind::GradeAssigned,
            EventType::StudentAnonymized { .. } => EventKind::StudentAnonymized,
        }
    }
}

/// The kind that a name stands for.
pub open spec fn kind_named(name: Seq<char>) -> Option<EventKind> {
    if name == "TMASubmitted"@ {
        Some(EventKind::TMASubmitted)
    } else if name == "FeedbackGenerated"@ {
        Some(EventKind::FeedbackGenerated)
    } else if name == "GradeAssigned"@ {
        Some(EventKind::GradeAssigned)
    } else if name == "StudentAnonymized"@ {
        Some(EventKind::StudentAnonymized)
    } else {
        None
    }
}

/// Reads the kind of an event from its name.
pub fn parse_kind(name: &str) -> (r: Option<EventKind>)
    ensures
        r == kind_named(name@),
{
    if str_equal(name, "TMASubmitted") {
        Some(EventKind::TMASubmitted)
    } else if str_equal(name, "FeedbackGenerated") {
        Some(EventKind::FeedbackGenerated)
    } else if str_equal(name, "GradeAssigned") {
        Some(EventKind::GradeAssigned)
    } else if str_equal(name, "StudentAnonymized") {
        Some(EventKind::StudentAnonymized)
    } else {
        None
    }
}

/// One entry of the log. Once appended it is never changed.
#[derive(Debug, Clone)]
pub struct Event {
    /// Identifier of the event, a UUID in its hyphenated form.
    pub id: String,
    /// When it happened.
    pub timestamp: Timestamp,
    /// What happened.
    pub event_type: EventType,
    /// The aggregate that it belongs to.
    pub aggregate_id: String,
    /// Its place in the history of the aggregate.
    pub version: u64,
}

/// An event, as contracts speak of it.
pub struct EventView {
    pub id: Seq<char>,
    pub timestamp: Timestamp,
    pub event_type: EventTypeView,
    pub aggregate_id: Seq<char>,
    pub version: u64,
}

impl View for Event {
    type V = EventView;

    open spec fn view(&self) -> EventView {
        EventView {
            id: self.id@,
            timestamp: self.timestamp,
            event_type: self.event_type@,
            aggregate_id: self.aggregate_id@,
            version: self.version,
        }
    }
}

/// The views of a vector of events.
pub open spec fn event_views(v: Seq<Event>) -> Seq<EventView> {
    v.map_values(|e: Event| e@)
}

/// What the keys of an aggregate start with: the number of characters of its
/// identifier, a colon, the identifier and two colons. The number in front
/// tells where the identifier ends, whatever characters it holds.
pub open spec fn key_prefix(aggregate_id: Seq<char>) -> Seq<char> {
    decimal(aggregate_id.len()) + ":"@ + aggregate_id + "::"@
}

/// The key under which an event is stored: the prefix of its aggregate, then
/// the event's identifier.
pub open spec fn key_of(e: EventView) -> Seq<char> {
    key_prefix(e.aggregate_id) + e.id
}

/// The key of an event starts with the prefix of its aggregate.
pub proof fn lemma_key_has_prefix(e: EventView)
    ensures
        starts_with(key_of(e), key_prefix(e.aggregate_id)),
{
    let p = key_prefix(e.aggregate_id);
    assert(key_of(e).subrange(0, p.len() as int) =~= p);
}

/// A text that starts with the prefix of one aggregate and with that of
/// another starts with the same number, so the two identifiers are as long
/// as each other.
proof fn lemma_prefix_gives_length(key: Seq<char>, a: Seq<char>, b: Seq<char>)
    requires
        starts_with(key, key_prefix(a)),
        starts_with(key, key_prefix(b)),
    ensures
        a.len() == b.len(),
{
    reveal_strlit(":");
    reveal_strlit("::");
    let da = decimal(a.len());
    let db = decimal(b.len());
    let pa = key_prefix(a);
    let pb = key_prefix(b);
    lemma_decimal_digits(a.len());
    lemma_decimal_digits(b.len());
    assert(key.subrange(0, pa.len() as int) == pa);
    assert(key.subrange(0, pb.len() as int) == pb);
    assert forall|i: int| 0 <= i < pa.len() implies key[i] == pa[i] by {
        assert(key.subrange(0, pa.len() as int)[i] == key[i]);
    }
    assert forall|i: int| 0 <= i < pb.len() implies key[i] == pb[i] by {
        assert(key.subrange(0, pb.len() as int)[i] == key[i]);
    }
    assert forall|i: int| 0 <= i < da.len() implies pa[i] == da[i] by {}
    assert forall|i: int| 0 <= i < db.len() implies pb[i] == db[i] by {}
    assert(pa[da.len() as int] == ':');
    assert(pb[db.len() as int] == ':');
    if da.len() < db.len() {
        assert(key[da.len() as int] == ':');
        assert(key[da.len() as int] == db[da.len() as int]);
        assert(is_ascii_digit(db[da.len() as int]));
    } else if db.len() < da.len() {
        assert(key[db.len() as int] == ':');
        assert(key[db.len() as int] == da[db.len() as int]);
        assert(is_ascii_digit(da[db.len() as int]));
    } else {
        assert forall|i: int| 0 <= i < da.len() implies da[i] == db[i] by {
            assert(key[i] == pa[i] && key[i] == pb[i]);
        }
        assert(da =~= db);
        lemma_decimal_one_to_one(a.len(), b.len());
    }
}

/// The key prefix of an aggregate selects the events of that aggregate and
/// no others, whatever characters the identifiers hold.
pub proof fn lemma_prefix_selects_aggregate(e: EventView, aggregate_id: Seq<char>)
    ensures
        starts_with(key_of(e), key_prefix(aggregate_id)) <==> e.aggregate_id == aggregate_id,
{
    let key = key_of(e);
    let a = aggregate_id;
    let b = e.aggregate_id;
    lemma_key_has_prefix(e);
    if starts_with(key, key_prefix(a)) {
        lemma_prefix_gives_length(key, a, b);
        let pa = key_prefix(a);
        let pb = key_prefix(b);
        let d = decimal(a.len()).len() as int;
        reveal_strlit(":");
        reveal_strlit("::");
        assert(key.subrange(0, pa.len() as int) == pa);
        assert(key.subrange(0, pb.len() as int) == pb);
        assert forall|i: int| 0 <= i < a.len() implies a[i] == b[i] by {
            assert(key.subrange(0, pa.len() as int)[d + 1 + i] == key[d + 1 + i]);
            assert(key.subrange(0, pb.len() as int)[d + 1 + i] == key[d + 1 + i]);
            assert(pa[d + 1 + i] == a[i]);
            assert(pb[d + 1 + i] == b[i]);
        }
        assert(a =~= b);
    }
}

/// No two events with different aggregates or different identifiers share a
/// key.
pub proof fn lemma_key_is_one_to_one(e1: EventView, e2: EventView)
    requires
        key_of(e1) == key_of(e2),
    ensures
        e1.aggregate_id == e2.aggregate_id,
        e1.id == e2.id,
{
    lemma_key_has_prefix(e2);
    lemma_prefix_selects_aggregate(e1, e2.aggregate_id);
    let p = key_prefix(e1.aggregate_id);
    assert(key_of(e1).skip(p.len() as int) =~= e1.id);
    assert(key_of(e2).skip(p.len() as int) =~= e2.id);
}

fn duplicate_scores(scores: &Vec<RubricScore>) -> (r: Vec<RubricScore>)
    ensures
        score_views(r@) == score_views(scores@),
{
    let mut out: Vec<RubricScore> = Vec::new();
    let mut i: usize = 0;
    assert(score_views(out@) =~= score_views(scores@).take(0));
    while i < scores.len()
        invariant
            i <= scores.len(),
            score_views(out@) == score_views(scores@).take(i as int),
        decreases scores.len() - i,
    {
        let s = &scores[i];
        let copy = RubricScore {
            criterion: s.criterion.clone(),
            score: s.score,
            max_score: s.max_score,
            comment: s.comment.clone(),
        };
        proof {
            assert(score_views(out@.push(copy)) =~= score_views(out@).push(copy@));
            assert(score_views(scores@).take(i + 1) =~= score_views(scores@).take(i as int).push(
                scores@[i as int]@,
            ));
        }
        out.push(copy);
        i += 1;
    }
    assert(score_views(scores@).take(scores@.len() as int) =~= score_views(scores@));
    out
}

impl EventType {
    /// A copy with the same content.
    pub fn duplicate(&self) -> (r: EventType)
        ensures
            r@ == self@,
    {
        match self {
            EventType::TMASubmitted { student_id, module_code, question_number, content_hash } => {
                EventType::TMASubmitted {
                    student_id: student_id.clone(),
                    module_code: module_code.clone(),
                    question_number: *question_number,
                    content_hash: content_hash.clone(),
                }
            },
            EventType::FeedbackGenerated { tma_id, feedback, rubric_scores } => {
                EventType::FeedbackGenerated {
                    tma_id: tma_id.clone(),
                    feedback: feedback.clone(),
                    rubric_scores: duplicate_scores(rubric_scores),
                }
            },
            EventType::GradeAssigned { tma_id, grade, max_grade } => {
                EventType::GradeAssigned {
                    tma_id: tma_id.clone(),
                    grade: *grade,
                    max_grade: *max_grade,
                }
            },
            EventType::StudentAnonymized { original_hash, anonymized_id, timestamp } => {
                EventType::StudentAnonymized {
                    original_hash: original_hash.clone(),
                    anonymized_id: anonymized_id.clone(),
                    timestamp: *timestamp,
                }
            },
        }
    }
}

impl Event {
    /// A new event for the aggregate, under a fresh identifier and stamped
    /// with the current time.
    pub fn new(event_type: EventType, aggregate_id: String, version: u64) -> (e: Self)
        ensures
            e.event_type == event_type,
            e.aggregate_id == aggregate_id,
            e.version == version,
            e.id@.len() == 36,
    {
        Event { id: generate_uuid(), timestamp: now_utc(), event_type, aggregate_id, version }
    }

    /// A copy with the same content.
    pub fn duplicate(&self) -> (r: Event)
        ensures
            r@ == self@,
    {
        Event {
            id: self.id.clone(),
            timestamp: self.timestamp,
            event_type: self.event_type.duplicate(),
            aggregate_id: self.aggregate_id.clone(),
            version: self.version,
        }
    }

    /// The key under which this event is stored.
    pub fn key(&self) -> (k: String)
        ensures
            k@ == key_of(self@),
    {
        let mut out: Vec<char> = Vec::new();
        push_decimal(&mut out, self.aggregate_id.as_str().unicode_len() as u64);
        push_str(&mut out, ":");
        push_str(&mut out, self.aggregate_id.as_str());
        push_str(&mut out, "::");
        push_str(&mut out, self.id.as_str());
        assert(out@ == key_of(self@));
        from_chars(&out)
    }
}

// ---------------------------------------------------------------------------
// Stable ordering
// ---------------------------------------------------------------------------

/// What the log is ordered by.
#[derive(Debug, Clone, Copy, PartialEq, Eq, Structural)]
pub enum Order {
    /// By version, for the history of one aggregate.
    ByVersion,
    /// By time, for the whole log.
    ByTime,
}

/// Whether `a` may stand before `b` under the order: its version, or its
/// time, is not greater.
pub open spec fn in_order(a: EventView, b: EventView, order: Order) -> bool {
    match order {
        Order::ByVersion => a.version <= b.version,
        Order::ByTime => a.timestamp.at_most(b.timestamp),
    }
}

/// Whether every event of `s` may stand before every later one.
pub open spec fn is_ordered(s: Seq<EventView>, order: Order) -> bool {
    forall|i: int, j: int| 0 <= i < j < s.len() ==> in_order(s[i], s[j], order)
}

/// The ordered sequence `s` with `x` put in after every event that may stand
/// before it.
pub open spec fn inserted(s: Seq<EventView>, x: EventView, order: Order) -> Seq<EventView>
    decreases s.len(),
{
    if s.len() == 0 || in_order(s.last(), x, order) {
        s.push(x)
    } else {
        inserted(s.drop_last(), x, order).push(s.last())
    }
}

/// The events of `s` in order. Events that tie keep the order they have in `s`.
pub open spec fn stable_sorted(s: Seq<EventView>, order: Order) -> Seq<EventView>
    decreases s.len(),
{
    if s.len() == 0 {
        s
    } else {
        inserted(stable_sorted(s.drop_last(), order), s.last(), order)
    }
}

/// Putting an event into an ordered sequence places it at the index behind
/// which every event must stand after it.
pub proof fn lemma_inserted_at(s: Seq<EventView>, x: EventView, order: Order, p: int)
    requires
        0 <= p <= s.len(),
        forall|j: int| p <= j < s.len() ==> !in_order(#[trigger] s[j], x, order),
        p > 0 ==> in_order(s[p - 1], x, order),
    ensures
        inserted(s, x, order) == s.insert(p, x),
    decreases s.len() - p,
{
    if p == s.len() {
        assert(s.push(x) =~= s.insert(p, x));
    } else {
        assert(!in_order(s[s.len() - 1], x, order));
        let front = s.drop_last();
        assert forall|j: int| p <= j < front.len() implies !in_order(
            #[trigger] front[j],
            x,
            order,
        ) by {
            assert(front[j] == s[j]);
        }
        lemma_inserted_at(front, x, order, p);
        assert(front.insert(p, x).push(s.last()) =~= s.insert(p, x));
    }
}

/// Putting an event into a sequence adds it and loses nothing.
pub proof fn lemma_inserted_permutes(s: Seq<EventView>, x: EventView, order: Order)
    ensures
        inserted(s, x, order).to_multiset() == s.to_multiset().insert(x),
        inserted(s, x, order).len() == s.len() + 1,
    decreases s.len(),
{
    broadcast use vstd::seq_lib::group_to_multiset_ensures;

    if s.len() == 0 || in_order(s.last(), x, order) {
    } else {
        let front = s.drop_last();
        lemma_inserted_permutes(front, x, order);
        assert(s =~= front.push(s.last()));
        assert(front.to_multiset().insert(x).insert(s.last()) =~= front.to_multiset().insert(
            s.last(),
        ).insert(x));
    }
}

/// Putting an event into an ordered sequence leaves it ordered.
pub proof fn lemma_inserted_ordered(s: Seq<EventView>, x: EventView, order: Order)
    requires
        is_ordered(s, order),
    ensures
        is_ordered(inserted(s, x, order), order),
        forall|i: int|
            0 <= i < inserted(s, x, order).len() ==> #[trigger] inserted(s, x, order)[i] == x
                || s.contains(inserted(s, x, order)[i]),
    decreases s.len(),
{
    let r = inserted(s, x, order);
    if s.len() == 0 || in_order(s.last(), x, order) {
        assert forall|i: int, j: int| 0 <= i < j < r.len() implies in_order(r[i], r[j], order) by {
            if j == s.len() {
                assert(in_order(s[i], s.last(), order) || i == s.len() - 1);
            }
        }
        assert forall|i: int| 0 <= i < r.len() implies #[trigger] r[i] == x || s.contains(r[i]) by {
            if i < s.len() {
                assert(s[i] == r[i]);
            }
        }
    } else {
        let front = s.drop_last();
        assert forall|i: int, j: int| 0 <= i < j < front.len() implies in_order(
            front[i],
            front[j],
            order,
        ) by {
            assert(front[i] == s[i] && front[j] == s[j]);
        }
        lemma_inserted_ordered(front, x, order);
        let f = inserted(front, x, order);
        lemma_inserted_permutes(front, x, order);
        assert forall|i: int, j: int| 0 <= i < j < r.len() implies in_order(r[i], r[j], order) by {
            if j == r.len() - 1 {
                assert(r[i] == f[i]);
                if f[i] == x {
                } else {
                    assert(front.contains(f[i]));
                    let k = choose|k: int| 0 <= k < front.len() && front[k] == f[i];
                    assert(s[k] == f[i]);
                    assert(in_order(s[k], s[s.len() - 1], order));
                }
            } else {
                assert(r[i] == f[i] && r[j] == f[j]);
            }
        }
        assert forall|i: int| 0 <= i < r.len() implies #[trigger] r[i] == x || s.contains(r[i]) by {
            if i < f.len() {
                assert(r[i] == f[i]);
                if f[i] != x {
                    let k = choose|k: int| 0 <= k < front.len() && front[k] == f[i];
                    assert(s[k] == f[i]);
                }
            } else {
                assert(r[i] == s[s.len() - 1]);
            }
        }
    }
}

/// Ordering loses no event, adds none, and leaves the events in order.
pub proof fn lemma_stable_sorted(s: Seq<EventView>, order: Order)
    ensures
        stable_sorted(s, order).to_multiset() == s.to_multiset(),
        stable_sorted(s, order).len() == s.len(),
        is_ordered(stable_sorted(s, order), order),
    decreases s.len(),
{
    broadcast use vstd::seq_lib::group_to_multiset_ensures;

    if s.len() > 0 {
        let front = s.drop_last();
        lemma_stable_sorted(front, order);
        lemma_inserted_permutes(stable_sorted(front, order), s.last(), order);
        lemma_inserted_ordered(stable_sorted(front, order), s.last(), order);
        assert(s =~= front.push(s.last()));
    }
}

/// Events that are already in order stay as they are.
pub proof fn lemma_ordered_is_kept(s: Seq<EventView>, order: Order)
    requires
        is_ordered(s, order),
    ensures
        stable_sorted(s, order) == s,
    decreases s.len(),
{
    if s.len() > 0 {
        let front = s.drop_last();
        assert forall|i: int, j: int| 0 <= i < j < front.len() implies in_order(
            front[i],
            front[j],
            order,
        ) by {
            assert(front[i] == s[i] && front[j] == s[j]);
        }
        lemma_ordered_is_kept(front, order);
        if front.len() > 0 {
            assert(in_order(s[front.len() - 1], s[s.len() - 1], order));
            assert(front.last() == s[front.len() - 1]);
        }
        assert(front.push(s.last()) =~= s);
    }
}

fn stands_after(a: &Event, b: &Event, order: Order) -> (r: bool)
    ensures
        r == !in_order(a@, b@, order),
{
    match order {
        Order::ByVersion => a.version > b.version,
        Order::ByTime => !a.timestamp.not_after(&b.timestamp),
    }
}

/// Puts an event into an ordered vector, behind every event that may stand
/// before it.
fn insert_in_order(out: &mut Vec<Event>, x: Event, order: Order)
    ensures
        event_views(final(out)@) == inserted(event_views(old(out)@), x@, order),
{
    let mut p: usize = out.len();
    while p > 0 && stands_after(&out[p - 1], &x, order)
        invariant
            p <= out.len(),
            out@ == old(out)@,
            forall|j: int| p <= j < out.len() ==> !in_order(#[trigger] out@[j]@, x@, order),
        decreases p,
    {
        p -= 1;
    }
    proof {
        let s = event_views(out@);
        assert forall|j: int| p <= j < s.len() implies !in_order(#[trigger] s[j], x@, order) by {
            assert(s[j] == out@[j]@);
        }
        if p > 0 {
            assert(s[p - 1] == out@[p - 1]@);
        }
        lemma_inserted_at(s, x@, order, p as int);
        assert(event_views(out@.insert(p as int, x)) =~= s.insert(p as int, x@));
    }
    out.insert(p, x);
}

/// Orders events. Events that tie keep the order in which they came.
pub fn sort_events(events: Vec<Event>, order: Order) -> (out: Vec<Event>)
    ensures
        event_views(out@) == stable_sorted(event_views(events@), order),
{
    let ghost all = event_views(events@);
    let mut out: Vec<Event> = Vec::new();
    let mut rest = events;
    let mut taken: Vec<Event> = Vec::new();
    // Events are taken from the back and put back in front order.
    while rest.len() > 0
        invariant
            event_views(rest@) + event_views(taken@).reverse() == all,
        decreases rest.len(),
    {
        let ghost before_rest = event_views(rest@);
        let ghost before_taken = event_views(taken@);
        let e = rest.pop().unwrap();
        proof {
            assert(event_views(rest@) =~= before_rest.drop_last());
            assert(event_views(taken@.push(e)) =~= before_taken.push(e@));
            assert(before_taken.push(e@).reverse() =~= seq![e@] + before_taken.reverse());
            assert(before_rest =~= before_rest.drop_last() + seq![e@]);
            assert(event_views(rest@) + (seq![e@] + before_taken.reverse()) =~= before_rest
                + before_taken.reverse());
        }
        taken.push(e);
    }
    proof {
        assert(event_views(rest@) =~= Seq::<EventView>::empty());
        assert(event_views(taken@).reverse() =~= all);
        assert(event_views(out@) =~= stable_sorted(all.take(0), order));
    }
    let ghost n = all.len();
    while taken.len() > 0
        invariant
            taken@.len() <= n,
            n == all.len(),
            event_views(taken@).reverse() == all.skip(n - taken@.len()),
            event_views(out@) == stable_sorted(all.take(n - taken@.len()), order),
        decreases taken.len(),
    {
        let ghost before = event_views(taken@);
        let ghost k = n - taken@.len();
        let e = taken.pop().unwrap();
        proof {
            assert(event_views(taken@) =~= before.drop_last());
            assert(before.reverse()[0] == before.last());
            assert(all.skip(k)[0] == all[k]);
            assert(e@ == all[k]);
            assert(all.take(k + 1).drop_last() =~= all.take(k));
            assert(all.take(k + 1).last() == all[k]);
            assert(before.drop_last().reverse() =~= before.reverse().skip(1));
            assert(all.skip(k).skip(1) =~= all.skip(k + 1));
        }
        insert_in_order(&mut out, e, order);
    }
    proof {
        assert(all.take(n as int) =~= all);
    }
    out
}

// ---------------------------------------------------------------------------
// Reading the log
// ---------------------------------------------------------------------------

/// A record as a store yields it: the key and the event stored under it.
#[derive(Debug, Clone)]
pub struct StoredEvent {
    pub key: String,
    pub event: Event,
}

/// A record, as contracts speak of it.
pub struct RecordView {
    pub key: Seq<char>,
    pub event: EventView,
}

impl View for StoredEvent {
    type V = RecordView;

    open spec fn view(&self) -> RecordView {
        RecordView { key: self.key@, event: self.event@ }
    }
}

/// The views of a vector of records.
pub open spec fn record_views(v: Seq<StoredEvent>) -> Seq<RecordView> {
    v.map_values(|r: StoredEvent| r@)
}

/// The events of all records, in the order of the records.
pub open spec fn events_of(records: Seq<RecordView>) -> Seq<EventView> {
    records.map_values(|r: RecordView| r.event)
}

/// The events of the aggregate among `events`, in order.
pub open spec fn of_aggregate(events: Seq<EventView>, aggregate_id: Seq<char>) -> Seq<EventView>
    decreases events.len(),
{
    if events.len() == 0 {
        seq![]
    } else {
        let rest = of_aggregate(events.drop_last(), aggregate_id);
        if events.last().aggregate_id == aggregate_id {
            rest.push(events.last())
        } else {
            rest
        }
    }
}

/// The events of the aggregate among the records, in the order of the
/// records. The event decides, not the key under which it is stored.
pub open spec fn selected(records: Seq<RecordView>, aggregate_id: Seq<char>) -> Seq<EventView> {
    of_aggregate(events_of(records), aggregate_id)
}

/// The events of the given kind, in order.
pub open spec fn of_kind(events: Seq<EventView>, kind: Option<EventKind>) -> Seq<EventView>
    decreases events.len(),
{
    if events.len() == 0 {
        seq![]
    } else {
        let rest = of_kind(events.drop_last(), kind);
        if kind == Some(events.last().event_type.kind()) {
            rest.push(events.last())
        } else {
            rest
        }
    }
}

/// The history of an aggregate: its events by version.
pub open spec fn history(records: Seq<RecordView>, aggregate_id: Seq<char>) -> Seq<EventView> {
    stable_sorted(selected(records, aggregate_id), Order::ByVersion)
}

/// The whole log by time.
pub open spec fn chronicle(records: Seq<RecordView>) -> Seq<EventView> {
    stable_sorted(events_of(records), Order::ByTime)
}

/// The events of the kind with the given name, by time. A name that names no
/// kind selects nothing.
pub open spec fn chronicle_of_type(records: Seq<RecordView>, kind_name: Seq<char>) -> Seq<
    EventView,
> {
    of_kind(chronicle(records), kind_named(kind_name))
}

/// The version that an aggregate has reached: that of the last event of its
/// history, or 0 where it has none.
pub open spec fn version_reached(history: Seq<EventView>) -> u64 {
    if history.len() == 0 {
        0
    } else {
        history.last().version
    }
}

fn reversed<T>(v: Vec<T>) -> (r: Vec<T>)
    ensures
        r@ == v@.reverse(),
{
    let mut rest = v;
    let mut out: Vec<T> = Vec::new();
    let ghost all = v@;
    while rest.len() > 0
        invariant
            rest@.len() + out@.len() == all.len(),
            rest@ == all.take(rest@.len() as int),
            out@ == all.skip(rest@.len() as int).reverse(),
        decreases rest.len(),
    {
        let ghost k = rest@.len() as int;
        let x = rest.pop().unwrap();
        proof {
            assert(x == all[k - 1]);
            assert(all.skip(k - 1).reverse() =~= all.skip(k).reverse().push(all[k - 1]));
            assert(rest@ =~= all.take(k - 1));
        }
        out.push(x);
    }
    proof {
        assert(all.skip(0) =~= all);
    }
    out
}

/// Reads the history of an aggregate out of what a store yielded.
pub fn events_for(records: Vec<StoredEvent>, aggregate_id: &str) -> (out: Vec<Event>)
    ensures
        event_views(out@) == history(record_views(records@), aggregate_id@),
{
    let ghost all = record_views(records@);
    let mut pending = reversed(records);
    let mut kept: Vec<Event> = Vec::new();
    let ghost n = all.len();
    proof {
        assert(record_views(pending@) =~= all.reverse());
        assert(events_of(all.take(0)) =~= Seq::<EventView>::empty());
        assert(event_views(kept@) =~= selected(all.take(0), aggregate_id@));
    }
    while pending.len() > 0
        invariant
            pending@.len() <= n,
            n == all.len(),
            record_views(pending@).reverse() == all.skip(n - pending@.len()),
            event_views(kept@) == selected(all.take(n - pending@.len()), aggregate_id@),
        decreases pending.len(),
    {
        let ghost before = record_views(pending@);
        let ghost k = n - pending@.len();
        let record = pending.pop().unwrap();
        proof {
            assert(record_views(pending@) =~= before.drop_last());
            assert(before.reverse()[0] == before.last());
            assert(all.skip(k)[0] == all[k]);
            assert(record@ == all[k]);
            assert(all.take(k + 1).drop_last() =~= all.take(k));
            assert(all.take(k + 1).last() == all[k]);
            assert(before.drop_last().reverse() =~= before.reverse().skip(1));
            assert(all.skip(k).skip(1) =~= all.skip(k + 1));
            assert(events_of(all.take(k + 1)).drop_last() =~= events_of(all.take(k)));
            assert(events_of(all.take(k + 1)).last() == all[k].event);
        }
        if str_equal(record.event.aggregate_id.as_str(), aggregate_id) {
            let event = record.event;
            assert(event_views(kept@.push(event)) =~= event_views(kept@).push(event@));
            kept.push(event);
        }
    }
    proof {
        assert(all.take(n as int) =~= all);
    }
    sort_events(kept, Order::ByVersion)
}

/// Reads the whole log, by time, out of what a store yielded.
pub fn all_events(records: Vec<StoredEvent>) -> (out: Vec<Event>)
    ensures
        event_views(out@) == chronicle(record_views(records@)),
{
    let ghost all = record_views(records@);
    let mut pending = reversed(records);
    let mut events: Vec<Event> = Vec::new();
    let ghost n = all.len();
    proof {
        assert(record_views(pending@) =~= all.reverse());
        assert(event_views(events@) =~= events_of(all).take(0));
    }
    while pending.len() > 0
        invariant
            pending@.len() <= n,
            n == all.len(),
            record_views(pending@).reverse() == all.skip(n - pending@.len()),
            event_views(events@) == events_of(all).take(n - pending@.len()),
        decreases pending.len(),
    {
        let ghost before = record_views(pending@);
        let ghost k = n - pending@.len();
        let record = pending.pop().unwrap();
        proof {
            assert(record_views(pending@) =~= before.drop_last());
            assert(before.reverse()[0] == before.last());
            assert(all.skip(k)[0] == all[k]);
            assert(record@ == all[k]);
            assert(before.drop_last().reverse() =~= before.reverse().skip(1));
            assert(all.skip(k).skip(1) =~= all.skip(k + 1));
        }
        let event = record.event;
        proof {
            assert(event_views(events@.push(event)) =~= event_views(events@).push(event@));
            assert(events_of(all).take(k + 1) =~= events_of(all).take(k).push(all[k].event));
        }
        events.push(event);
    }
    proof {
        assert(events_of(all).take(n as int) =~= events_of(all));
    }
    sort_events(events, Order::ByTime)
}

/// Keeps the events of the kind with the given name, in order.
pub fn events_of_type(events: Vec<Event>, kind_name: &str) -> (out: Vec<Event>)
    ensures
        event_views(out@) == of_kind(event_views(events@), kind_named(kind_name@)),
{
    let ghost all = event_views(events@);
    let wanted = parse_kind(kind_name);
    let mut pending = reversed(events);
    let mut out: Vec<Event> = Vec::new();
    let ghost n = all.len();
    proof {
        assert(event_views(pending@) =~= all.reverse());
        assert(event_views(out@) =~= of_kind(all.take(0), wanted));
    }
    while pending.len() > 0
        invariant
            pending@.len() <= n,
            n == all.len(),
            wanted == kind_named(kind_name@),
            event_views(pending@).reverse() == all.skip(n - pending@.len()),
            event_views(out@) == of_kind(all.take(n - pending@.len()), wanted),
        decreases pending.len(),
    {
        let ghost before = event_views(pending@);
        let ghost k = n - pending@.len();
        let event = pending.pop().unwrap();
        proof {
            assert(event_views(pending@) =~= before.drop_last());
            assert(before.reverse()[0] == before.last());
            assert(all.skip(k)[0] == all[k]);
            assert(event@ == all[k]);
            assert(all.take(k + 1).drop_last() =~= all.take(k));
            assert(all.take(k + 1).last() == all[k]);
            assert(before.drop_last().reverse() =~= before.reverse().skip(1));
            assert(all.skip(k).skip(1) =~= all.skip(k + 1));
        }
        let keep = match wanted {
            Some(kind) => event.event_type.kind() == kind,
            None => false,
        };
        if keep {
            assert(event_views(out@.push(event)) =~= event_views(out@).push(event@));
            out.push(event);
        }
    }
    proof {
        assert(all.take(n as int) =~= all);
    }
    out
}

/// The version that a history has reached.
pub fn current_version(history: &Vec<Event>) -> (v: u64)
    ensures
        v == version_reached(event_views(history@)),
{
    if history.len() == 0 {
        0
    } else {
        history[history.len() - 1].version
    }
}

// ---------------------------------------------------------------------------
// Laws of the log
// ---------------------------------------------------------------------------

/// Whether every event of `s` has a lower version than every later one.
pub open spec fn strictly_rising(s: Seq<EventView>) -> bool {
    forall|i: int, j: int| 0 <= i < j < s.len() ==> s[i].version < s[j].version
}

/// There is one way only to bring events with different versions into order.
proof fn lemma_rising_is_unique(t: Seq<EventView>, a: Seq<EventView>)
    requires
        is_ordered(t, Order::ByVersion),
        strictly_rising(a),
        t.to_multiset() == a.to_multiset(),
    ensures
        t == a,
    decreases a.len(),
{
    t.to_multiset_ensures();
    a.to_multiset_ensures();
    assert(t.len() == a.len());
    if a.len() == 0 {
        assert(t =~= a);
    } else {
        let n = a.len() as int;
        assert(t.contains(t[n - 1]));
        assert(t.to_multiset().count(t[n - 1]) > 0);
        assert(a.to_multiset().count(t[n - 1]) > 0);
        assert(a.contains(t[n - 1]));
        let k = choose|k: int| 0 <= k < n && a[k] == t[n - 1];
        assert(a.contains(a[n - 1]));
        assert(a.to_multiset().count(a[n - 1]) > 0);
        assert(t.to_multiset().count(a[n - 1]) > 0);
        assert(t.contains(a[n - 1]));
        let j = choose|j: int| 0 <= j < n && t[j] == a[n - 1];
        if j < n - 1 {
            assert(in_order(t[j], t[n - 1], Order::ByVersion));
        }
        if k < n - 1 {
            assert(a[k].version < a[n - 1].version);
        }
        assert(k == n - 1);
        assert(t[n - 1] == a[n - 1]);
        let tf = t.drop_last();
        let af = a.drop_last();
        tf.to_multiset_ensures();
        af.to_multiset_ensures();
        assert(t =~= tf.push(t[n - 1]));
        assert(a =~= af.push(a[n - 1]));
        assert(tf.to_multiset().insert(t[n - 1]) == af.to_multiset().insert(a[n - 1]));
        assert(tf.to_multiset() =~= af.to_multiset()) by {
            assert forall|x: EventView| tf.to_multiset().count(x) == af.to_multiset().count(x) by {
                assert(tf.to_multiset().insert(t[n - 1]).count(x) == af.to_multiset().insert(
                    a[n - 1],
                ).count(x));
            }
        }
        assert forall|i: int, j: int| 0 <= i < j < tf.len() implies in_order(
            tf[i],
            tf[j],
            Order::ByVersion,
        ) by {
            assert(tf[i] == t[i] && tf[j] == t[j]);
        }
        assert forall|i: int, j: int| 0 <= i < j < af.len() implies af[i].version
            < af[j].version by {
            assert(af[i] == a[i] && af[j] == a[j]);
        }
        lemma_rising_is_unique(tf, af);
    }
}

/// An event is among the events of an aggregate as often as it is among all
/// events, if it belongs to the aggregate, and not at all if it does not.
pub proof fn lemma_of_aggregate_count(events: Seq<EventView>, aggregate_id: Seq<char>, x: EventView)
    ensures
        of_aggregate(events, aggregate_id).to_multiset().count(x) == if x.aggregate_id
            == aggregate_id {
            events.to_multiset().count(x)
        } else {
            0
        },
    decreases events.len(),
{
    if events.len() == 0 {
        events.to_multiset_ensures();
        of_aggregate(events, aggregate_id).to_multiset_ensures();
        assert(events.to_multiset().len() == 0);
        assert(of_aggregate(events, aggregate_id).to_multiset().len() == 0);
    } else {
        let front = events.drop_last();
        let last = events.last();
        lemma_of_aggregate_count(front, aggregate_id, x);
        front.to_multiset_ensures();
        of_aggregate(front, aggregate_id).to_multiset_ensures();
        assert(events =~= front.push(last));
        assert(events.to_multiset() == front.to_multiset().insert(last));
    }
}

/// Records that are the same but for their order hold events that are the
/// same but for their order.
pub proof fn lemma_events_follow_records(s1: Seq<RecordView>, s2: Seq<RecordView>)
    requires
        s1.to_multiset() == s2.to_multiset(),
    ensures
        events_of(s1).to_multiset() == events_of(s2).to_multiset(),
    decreases s1.len(),
{
    s1.to_multiset_ensures();
    s2.to_multiset_ensures();
    assert(s1.len() == s2.len());
    if s1.len() == 0 {
        assert(events_of(s1) =~= events_of(s2));
    } else {
        let x = s1.last();
        assert(s1.contains(x));
        assert(s1.to_multiset().count(x) > 0);
        assert(s2.to_multiset().count(x) > 0);
        assert(s2.contains(x));
        let j = choose|j: int| 0 <= j < s2.len() && s2[j] == x;
        let f1 = s1.drop_last();
        let f2 = s2.remove(j);
        f1.to_multiset_ensures();
        assert(s1 =~= f1.push(x));
        assert(s1.to_multiset() == f1.to_multiset().insert(x));
        assert(f2.to_multiset() == s2.to_multiset().remove(x));
        assert(f1.to_multiset() =~= f2.to_multiset());
        lemma_events_follow_records(f1, f2);
        let e1 = events_of(s1);
        let e2 = events_of(s2);
        events_of(f1).to_multiset_ensures();
        e2.to_multiset_ensures();
        assert(e1 =~= events_of(f1).push(x.event));
        assert(e1.to_multiset() == events_of(f1).to_multiset().insert(x.event));
        assert(e2.remove(j) =~= events_of(f2));
        assert(e2[j] == x.event);
        assert(e2.remove(j).to_multiset() == e2.to_multiset().remove(x.event));
        assert(e2.contains(x.event));
        assert(e2.to_multiset().count(x.event) > 0);
        assert(e2.to_multiset() =~= events_of(f2).to_multiset().insert(x.event));
    }
}

/// The history of an aggregate comes back in the order of appending: where
/// the store holds the events that were appended, of whatever aggregates and
/// in whatever order it yields them, and those appended to one aggregate have
/// rising versions, reading the history of that aggregate gives exactly its
/// events, in the order in which they were appended.
pub proof fn lemma_history_is_append_order(
    records: Seq<RecordView>,
    aggregate_id: Seq<char>,
    appended: Seq<EventView>,
)
    requires
        events_of(records).to_multiset() == appended.to_multiset(),
        strictly_rising(of_aggregate(appended, aggregate_id)),
    ensures
        history(records, aggregate_id) == of_aggregate(appended, aggregate_id),
{
    let kept = selected(records, aggregate_id);
    let expected = of_aggregate(appended, aggregate_id);
    assert(kept.to_multiset() =~= expected.to_multiset()) by {
        assert forall|x: EventView| kept.to_multiset().count(x) == expected.to_multiset().count(
            x,
        ) by {
            lemma_of_aggregate_count(events_of(records), aggregate_id, x);
            lemma_of_aggregate_count(appended, aggregate_id, x);
        }
    }
    lemma_stable_sorted(kept, Order::ByVersion);
    lemma_rising_is_unique(history(records, aggregate_id), expected);
}

/// The whole log is read by time, whatever the aggregates: every stored event
/// is there once, and no event stands before an earlier one.
pub proof fn lemma_chronicle_is_by_time(records: Seq<RecordView>)
    ensures
        chronicle(records).to_multiset() == events_of(records).to_multiset(),
        chronicle(records).len() == records.len(),
        is_ordered(chronicle(records), Order::ByTime),
{
    lemma_stable_sorted(events_of(records), Order::ByTime);
}

/// The history of an aggregate holds the stored events of that aggregate and
/// no others, each as often as it is stored, by version.
pub proof fn lemma_history_is_by_version(records: Seq<RecordView>, aggregate_id: Seq<char>)
    ensures
        forall|x: EventView|
            #[trigger] history(records, aggregate_id).to_multiset().count(x) == if x.aggregate_id
                == aggregate_id {
                events_of(records).to_multiset().count(x)
            } else {
                0
            },
        is_ordered(history(records, aggregate_id), Order::ByVersion),
{
    lemma_stable_sorted(selected(records, aggregate_id), Order::ByVersion);
    assert forall|x: EventView|
        #[trigger] history(records, aggregate_id).to_multiset().count(x) == if x.aggregate_id
            == aggregate_id {
            events_of(records).to_multiset().count(x)
        } else {
            0
        } by {
        lemma_of_aggregate_count(events_of(records), aggregate_id, x);
    }
}

/// An append loses nothing: every record that was stored is stored after it,
/// and so is the record of the event appended.
pub proof fn lemma_put_keeps_everything(
    before: Seq<RecordView>,
    after: Seq<RecordView>,
    e: EventView,
)
    requires
        is_put(before, after, e),
    ensures
        after.len() == before.len() + 1,
        after.contains(record_of(e)),
        forall|r: RecordView| before.contains(r) ==> #[trigger] after.contains(r),
{
    before.to_multiset_ensures();
    after.to_multiset_ensures();
    assert(after.to_multiset().count(record_of(e)) > 0);
    assert forall|r: RecordView| before.contains(r) implies #[trigger] after.contains(r) by {
        assert(before.to_multiset().count(r) > 0);
        assert(after.to_multiset().count(r) > 0);
    }
}

/// A store that was empty and took a row of appends holds the events
/// appended, each as often as it was appended, and no others.
pub proof fn lemma_appends_are_held(states: Seq<Seq<RecordView>>, appended: Seq<EventView>)
    requires
        states.len() == appended.len() + 1,
        states[0].len() == 0,
        forall|i: int|
            0 <= i < appended.len() ==> is_put(#[trigger] states[i], states[i + 1], appended[i]),
    ensures
        events_of(states.last()).to_multiset() == appended.to_multiset(),
    decreases appended.len(),
{
    if appended.len() == 0 {
        assert(events_of(states[0]) =~= appended);
    } else {
        let n = appended.len() as int;
        let earlier = states.drop_last();
        let front = appended.drop_last();
        assert forall|i: int| 0 <= i < front.len() implies is_put(
            #[trigger] earlier[i],
            earlier[i + 1],
            front[i],
        ) by {
            assert(is_put(states[i], states[i + 1], appended[i]));
        }
        lemma_appends_are_held(earlier, front);
        assert(earlier.last() == states[n - 1]);
        assert(is_put(states[n - 1], states[n], appended[n - 1]));
        let e = appended[n - 1];
        let put = states[n - 1].push(record_of(e));
        states[n - 1].to_multiset_ensures();
        assert(states[n].to_multiset() == put.to_multiset());
        lemma_events_follow_records(states[n], put);
        assert(events_of(put) =~= events_of(states[n - 1]).push(e));
        events_of(states[n - 1]).to_multiset_ensures();
        front.to_multiset_ensures();
        assert(appended =~= front.push(e));
    }
}

/// Events appended to an aggregate with rising versions come back in the
/// order of appending, whatever was appended to other aggregates between
/// them and in whatever order the store yields its records.
pub proof fn lemma_history_after_appends(
    states: Seq<Seq<RecordView>>,
    appended: Seq<EventView>,
    aggregate_id: Seq<char>,
)
    requires
        states.len() == appended.len() + 1,
        states[0].len() == 0,
        forall|i: int|
            0 <= i < appended.len() ==> is_put(#[trigger] states[i], states[i + 1], appended[i]),
        strictly_rising(of_aggregate(appended, aggregate_id)),
    ensures
        history(states.last(), aggregate_id) == of_aggregate(appended, aggregate_id),
{
    lemma_appends_are_held(states, appended);
    lemma_history_is_append_order(states.last(), aggregate_id, appended);
}

/// What is appended is read back: after an append, the history of the
/// event's aggregate holds the event, and every history holds what it held
/// before.
pub proof fn lemma_appended_event_is_read_back(
    before: Seq<RecordView>,
    after: Seq<RecordView>,
    e: EventView,
    aggregate_id: Seq<char>,
)
    requires
        is_put(before, after, e),
    ensures
        history(after, e.aggregate_id).contains(e),
        forall|x: EventView|
            history(before, aggregate_id).contains(x) ==> #[trigger] history(
                after,
                aggregate_id,
            ).contains(x),
{
    let put = before.push(record_of(e));
    before.to_multiset_ensures();
    assert(after.to_multiset() == put.to_multiset());
    lemma_events_follow_records(after, put);
    assert(events_of(put) =~= events_of(before).push(e));
    events_of(before).to_multiset_ensures();
    events_of(after).to_multiset_ensures();
    lemma_history_is_by_version(after, e.aggregate_id);
    lemma_history_is_by_version(after, aggregate_id);
    lemma_history_is_by_version(before, aggregate_id);
    history(after, e.aggregate_id).to_multiset_ensures();
    history(after, aggregate_id).to_multiset_ensures();
    history(before, aggregate_id).to_multiset_ensures();
    assert(events_of(after).to_multiset().count(e) > 0);
    assert(history(after, e.aggregate_id).to_multiset().count(e) > 0);
    assert forall|x: EventView| history(before, aggregate_id).contains(x) implies #[trigger] history(
        after,
        aggregate_id,
    ).contains(x) by {
        assert(history(before, aggregate_id).to_multiset().count(x) > 0);
        assert(events_of(after).to_multiset().count(x) >= events_of(before).to_multiset().count(x));
        assert(history(after, aggregate_id).to_multiset().count(x) > 0);
    }
}

// ---------------------------------------------------------------------------
// Stores
// ---------------------------------------------------------------------------

/// A fault of the storage layer.
#[derive(Debug)]
pub enum StoreError {
    Storage(String),
}

impl StoreError {
    /// The text shown for a fault.
    pub open spec fn text(self) -> Seq<char> {
        match self {
            StoreError::Storage(m) => "Storage error: "@ + m@,
        }
    }

    /// The text shown for this fault.
    pub fn to_string(&self) -> (r: String)
        ensures
            r@ == self.text(),
    {
        match self {
            StoreError::Storage(m) => join_texts("Storage error: ", m.as_str()),
        }
    }
}

/// The record that an event is stored as.
pub open spec fn record_of(e: EventView) -> RecordView {
    RecordView { key: key_of(e), event: e }
}

/// `after` is `before` with the record of the event added: every record that
/// was stored is still stored, as it was, and nothing else is new. The order
/// in which the store yields its records is its own.
pub open spec fn is_put(before: Seq<RecordView>, after: Seq<RecordView>, e: EventView) -> bool {
    after.to_multiset() == before.to_multiset().insert(record_of(e))
}

/// An append-only store of events. There is no operation that changes or
/// removes an event, and an append changes and removes none.
pub trait EventStore {
    /// The records in the order in which the store yields them. A store
    /// that keeps its records where no proof can see them leaves this as it
    /// is: nothing is then known of what it holds but what the contracts of
    /// its methods tell.
    open spec fn records(&self) -> Seq<RecordView> {
        arbitrary()
    }

    /// Appends one event. It fails only on a fault of the storage layer, and
    /// then the store is unchanged. A store that cannot keep the event beside
    /// what it holds has to fail.
    fn append(&mut self, event: Event) -> (r: Result<(), StoreError>)
        ensures
            r is Ok ==> is_put(old(self).records(), final(self).records(), event@),
            r is Err ==> final(self).records() == old(self).records(),
    ;

    /// The history of an aggregate, by version.
    fn get_events(&self, aggregate_id: &str) -> (r: Result<Vec<Event>, StoreError>)
        ensures
            r matches Ok(events) ==> event_views(events@) == history(
                self.records(),
                aggregate_id@,
            ),
    ;

    /// The whole log, by time.
    fn get_all_events(&self) -> (r: Result<Vec<Event>, StoreError>)
        ensures
            r matches Ok(events) ==> event_views(events@) == chronicle(self.records()),
    ;

    /// The events of the kind with the given name, by time.
    fn get_events_by_type(&self, event_kind_name: &str) -> (r: Result<Vec<Event>, StoreError>)
        ensures
            r matches Ok(events) ==> event_views(events@) == chronicle_of_type(
                self.records(),
                event_kind_name@,
            ),
    ;
}

/// A store that keeps its records in memory, in the order of their arrival.
pub struct MemoryEventStore {
    pub stored: Vec<StoredEvent>,
}

fn duplicate_records(records: &Vec<StoredEvent>) -> (out: Vec<StoredEvent>)
    ensures
        record_views(out@) == record_views(records@),
{
    let mut out: Vec<StoredEvent> = Vec::new();
    let mut i: usize = 0;
    assert(record_views(out@) =~= record_views(records@).take(0));
    while i < records.len()
        invariant
            i <= records.len(),
            record_views(out@) == record_views(records@).take(i as int),
        decreases records.len() - i,
    {
        let copy = StoredEvent { key: records[i].key.clone(), event: records[i].event.duplicate() };
        proof {
            assert(record_views(out@.push(copy)) =~= record_views(out@).push(copy@));
            assert(record_views(records@).take(i + 1) =~= record_views(records@).take(
                i as int,
            ).push(records@[i as int]@));
        }
        out.push(copy);
        i += 1;
    }
    assert(record_views(records@).take(records@.len() as int) =~= record_views(records@));
    out
}

impl MemoryEventStore {
    /// An empty store.
    pub fn new() -> (s: Self)
        ensures
            s.records().len() == 0,
    {
        MemoryEventStore { stored: Vec::new() }
    }
}

impl EventStore for MemoryEventStore {
    open spec fn records(&self) -> Seq<RecordView> {
        record_views(self.stored@)
    }

    fn append(&mut self, event: Event) -> (r: Result<(), StoreError>)
        ensures
            r is Ok,
            final(self).records() == old(self).records().push(record_of(event@)),
    {
        broadcast use vstd::seq_lib::group_to_multiset_ensures;

        let key = event.key();
        let record = StoredEvent { key, event };
        assert(record_views(self.stored@.push(record)) =~= record_views(self.stored@).push(
            record@,
        ));
        self.stored.push(record);
        Ok(())
    }

    fn get_events(&self, aggregate_id: &str) -> (r: Result<Vec<Event>, StoreError>)
        ensures
            r is Ok,
    {
        Ok(events_for(duplicate_records(&self.stored), aggregate_id))
    }

    fn get_all_events(&self) -> (r: Result<Vec<Event>, StoreError>)
        ensures
            r is Ok,
    {
        Ok(all_events(duplicate_records(&self.stored)))
    }

    fn get_events_by_type(&self, event_kind_name: &str) -> (r: Result<Vec<Event>, StoreError>)
        ensures
            r is Ok,
    {
        Ok(events_of_type(all_events(duplicate_records(&self.stored)), event_kind_name))
    }
}

/// What the answer of a store to a request for a history means for the
/// version of the aggregate: the version that the history has reached, or the
/// fault of the store as it is.
pub fn version_from(outcome: Result<Vec<Event>, StoreError>) -> (r: Result<u64, StoreError>)
    ensures
        match outcome {
            Ok(events) => r == Ok::<u64, StoreError>(version_reached(event_views(events@))),
            Err(fault) => r == Err::<u64, StoreError>(fault),
        },
{
    match outcome {
        Ok(events) => Ok(current_version(&events)),
        Err(fault) => Err(fault),
    }
}

/// Rebuilds state from the events of a store.
pub struct EventProjection<S: EventStore> {
    pub store: S,
}

impl<S: EventStore> EventProjection<S> {
    /// A projection over the given store.
    pub fn new(store: S) -> (p: Self)
        ensures
            p.store == store,
    {
        EventProjection { store }
    }

    /// The history of an aggregate, by version.
    pub fn replay(&self, aggregate_id: &str) -> (r: Result<Vec<Event>, StoreError>)
        ensures
            r matches Ok(events) ==> event_views(events@) == history(
                self.store.records(),
                aggregate_id@,
            ),
    {
        self.store.get_events(aggregate_id)
    }

    /// The version that an aggregate has reached, 0 where it has no event.
    pub fn get_version(&self, aggregate_id: &str) -> (r: Result<u64, StoreError>)
        ensures
            r matches Ok(v) ==> v == version_reached(history(self.store.records(), aggregate_id@)),
    {
        version_from(self.store.get_events(aggregate_id))
    }
}

} // verus!

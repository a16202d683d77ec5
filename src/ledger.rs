//! The entry ledger: at most one entry is open at any time.
//!
//! Each operation first observes the store (the starts of the open entries,
//! whether the project name resolved, the store's clock) and then decides on
//! one change to make, or on an error that leaves the store as it was. The
//! decisions are the functions `plan_clock_in` and `plan_clock_off`; `Ledger`
//! is an image of the entries relation to which the same decisions apply.

use vstd::prelude::*;
use crate::duration::adaptive_text;
use crate::text::push_char;

verus! {

/// One work session: open while `end` is `None`.
#[derive(Clone, Copy, Debug, PartialEq, Eq, Structural)]
pub struct Entry {
    pub project_id: i64,
    pub start: i64,
    pub end: Option<i64>,
}

/// Why a ledger operation was refused.
#[derive(Clone, Copy, Debug, PartialEq, Eq, Structural)]
pub enum LedgerError {
    /// An entry is already open.
    AlreadyOn,
    /// No entry is open.
    AlreadyOff,
    /// The store breaks an invariant: several open entries, or an entry that
    /// would close before it started.
    InvariantViolated,
    /// The project name does not resolve to a project.
    UnknownProject,
}

/// The one change that an operation makes to the entries relation.
#[derive(Clone, Copy, Debug, PartialEq, Eq, Structural)]
pub enum Action {
    /// Add an open entry for the project, started at `start`.
    Insert { project_id: i64, start: i64 },
    /// Set the end of every open entry to `end`.
    Close { end: i64 },
}

/// An operation on the ledger, with the observations it depends on.
#[derive(Clone, Copy, Debug, PartialEq, Eq, Structural)]
pub enum Event {
    /// Clock in on the project whose key the name resolved to, if any.
    ClockIn { project: Option<i64>, now: i64 },
    /// Clock off at the store's time `now`.
    ClockOff { now: i64 },
}

/// The starts of the open entries, in order.
pub open spec fn open_starts(s: Seq<Entry>) -> Seq<i64>
    decreases s.len(),
{
    if s.len() == 0 {
        Seq::empty()
    } else {
        let r = open_starts(s.drop_last());
        if s.last().end is None {
            r.push(s.last().start)
        } else {
            r
        }
    }
}

/// The number of open entries.
pub open spec fn open_count(s: Seq<Entry>) -> nat {
    open_starts(s).len()
}

/// The ledger's invariants: at most one open entry, and no closed entry ends
/// before it starts.
pub open spec fn ledger_wf(s: Seq<Entry>) -> bool {
    &&& open_count(s) <= 1
    &&& forall|i: int| 0 <= i < s.len() && (#[trigger] s[i]).end is Some ==> s[i].start <= s[i].end->Some_0
}

/// What clocking in decides, given the number of open entries.
pub open spec fn clock_in_result(open: nat, project: Option<i64>, now: i64) -> Result<Action, LedgerError> {
    if open > 0 {
        Err(LedgerError::AlreadyOn)
    } else {
        match project {
            None => Err(LedgerError::UnknownProject),
            Some(p) => Ok(Action::Insert { project_id: p, start: now }),
        }
    }
}

/// What clocking off decides, given the starts of the open entries.
pub open spec fn clock_off_result(starts: Seq<i64>, now: i64) -> Result<Action, LedgerError> {
    if starts.len() == 0 {
        Err(LedgerError::AlreadyOff)
    } else if starts.len() > 1 || now < starts[0] {
        Err(LedgerError::InvariantViolated)
    } else {
        Ok(Action::Close { end: now })
    }
}

/// An entry after a close at `end`: closed if it was open, else as it was.
pub open spec fn close_entry(e: Entry, end: i64) -> Entry {
    if e.end is None {
        Entry { project_id: e.project_id, start: e.start, end: Some(end) }
    } else {
        e
    }
}

/// The entries relation after an action.
pub open spec fn apply_action(s: Seq<Entry>, a: Action) -> Seq<Entry> {
    match a {
        Action::Insert { project_id, start } => s.push(Entry { project_id, start, end: None }),
        Action::Close { end } => s.map_values(|e: Entry| close_entry(e, end)),
    }
}

/// What an event decides on the entries relation `s`.
pub open spec fn event_result(s: Seq<Entry>, ev: Event) -> Result<Action, LedgerError> {
    match ev {
        Event::ClockIn { project, now } => clock_in_result(open_count(s), project, now),
        Event::ClockOff { now } => clock_off_result(open_starts(s), now),
    }
}

/// The entries relation after an event: changed by the action decided on, or
/// unchanged when the event is refused.
pub open spec fn step(s: Seq<Entry>, ev: Event) -> Seq<Entry> {
    match event_result(s, ev) {
        Ok(a) => apply_action(s, a),
        Err(_) => s,
    }
}

/// The entries relation after a sequence of events.
pub open spec fn run(s: Seq<Entry>, evs: Seq<Event>) -> Seq<Entry>
    decreases evs.len(),
{
    if evs.len() == 0 {
        s
    } else {
        step(run(s, evs.drop_last()), evs.last())
    }
}

/// Decides a clock-in: refused while an entry is open, refused when the name
/// did not resolve, else the insertion of an open entry started `now`.
pub fn plan_clock_in(open: u64, project: Option<i64>, now: i64) -> (r: Result<Action, LedgerError>)
    ensures
        r == clock_in_result(open as nat, project, now),
{
    if open > 0 {
        return Err(LedgerError::AlreadyOn);
    }
    match project {
        None => Err(LedgerError::UnknownProject),
        Some(p) => Ok(Action::Insert { project_id: p, start: now }),
    }
}

/// Decides a clock-off from the starts of the open entries: refused when none
/// is open, reported as a broken invariant when several are open or the one
/// open entry started after `now`, else the close of it at `now`.
pub fn plan_clock_off(starts: &Vec<i64>, now: i64) -> (r: Result<Action, LedgerError>)
    ensures
        r == clock_off_result(starts@, now),
{
    if starts.len() == 0 {
        Err(LedgerError::AlreadyOff)
    } else if starts.len() > 1 || now < starts[0] {
        Err(LedgerError::InvariantViolated)
    } else {
        Ok(Action::Close { end: now })
    }
}

/// The session that the store reports as open: the project's name, the
/// store's time and the entry's start.
#[derive(Clone, Debug)]
pub struct OpenSession {
    pub name: String,
    pub now: i64,
    pub start: i64,
}

/// The text that a status query shows: the project's name and the elapsed
/// time in adaptive rendering.
pub open spec fn session_text(name: Seq<char>, now: i64, start: i64) -> Seq<char> {
    name.push(' ') + adaptive_text((now - start) as nat)
}

/// The status line: `off the clock` when no entry is open, else the project
/// and the time elapsed since the entry started. An entry that started after
/// the store's time breaks the invariant.
pub fn status_line(current: Option<OpenSession>) -> (r: Result<String, LedgerError>)
    ensures
        current is None ==> r is Ok && r->Ok_0@ == "off the clock"@,
        current matches Some(c) ==> (c.now < c.start <==> r == Err::<String, LedgerError>(
            LedgerError::InvariantViolated,
        )),
        current matches Some(c) ==> (c.start <= c.now ==> r is Ok && r->Ok_0@ == session_text(c.name@, c.now, c.start)),
{
    match current {
        None => Ok(String::from_str("off the clock")),
        Some(c) => {
            if c.now < c.start {
                return Err(LedgerError::InvariantViolated);
            }
            let mut s = c.name;
            push_char(&mut s, ' ');
            let d = crate::duration::calc(c.now, c.start);
            s.append(d.as_str());
            Ok(s)
        },
    }
}

/// An image of the entries relation, kept under the ledger's invariants.
#[derive(Clone, Debug)]
pub struct Ledger {
    entries: Vec<Entry>,
}

impl View for Ledger {
    type V = Seq<Entry>;

    closed spec fn view(&self) -> Seq<Entry> {
        self.entries@
    }
}

impl Ledger {
    /// The ledger's invariants hold.
    pub open spec fn wf(&self) -> bool {
        ledger_wf(self@)
    }

    /// An empty ledger.
    pub fn new() -> (r: Ledger)
        ensures
            r@ == Seq::<Entry>::empty(),
            r.wf(),
    {
        Ledger { entries: Vec::new() }
    }

    /// The entries, oldest first.
    pub fn entries(&self) -> (r: &Vec<Entry>)
        ensures
            r@ == self@,
    {
        &self.entries
    }

    /// The starts of the open entries, in order.
    pub fn open_starts(&self) -> (r: Vec<i64>)
        ensures
            r@ == open_starts(self@),
    {
        let mut r: Vec<i64> = Vec::new();
        let mut i: usize = 0;
        while i < self.entries.len()
            invariant
                i <= self.entries.len(),
                r@ == open_starts(self@.take(i as int)),
            decreases self.entries.len() - i,
        {
            assert(self@.take(i as int + 1).drop_last() =~= self@.take(i as int));
            if self.entries[i].end.is_none() {
                r.push(self.entries[i].start);
            }
            i += 1;
        }
        assert(self@.take(i as int) =~= self@);
        r
    }

    /// The open entry, if any.
    pub fn current(&self) -> (r: Option<Entry>)
        requires
            self.wf(),
        ensures
            r is None <==> open_count(self@) == 0,
            r matches Some(e) ==> e.end is None && self@.contains(e),
    {
        let mut i: usize = 0;
        while i < self.entries.len()
            invariant
                i <= self.entries.len(),
                forall|j: int| 0 <= j < i ==> (#[trigger] self@[j]).end is Some,
                open_starts(self@.take(i as int)).len() == 0,
            decreases self.entries.len() - i,
        {
            assert(self@.take(i as int + 1).drop_last() =~= self@.take(i as int));
            if self.entries[i].end.is_none() {
                proof {
                    lemma_open_start_listed(self@, i as int);
                    assert(self@[i as int] == self.entries[i as int]);
                }
                return Some(self.entries[i]);
            }
            i += 1;
        }
        assert(self@.take(i as int) =~= self@);
        None
    }

    fn apply(&mut self, a: Action)
        ensures
            final(self)@ == apply_action(old(self)@, a),
    {
        match a {
            Action::Insert { project_id, start } => {
                self.entries.push(Entry { project_id, start, end: None });
            },
            Action::Close { end } => {
                let ghost s = self@;
                let mut i: usize = 0;
                while i < self.entries.len()
                    invariant
                        i <= self.entries.len(),
                        self@.len() == s.len(),
                        forall|j: int| 0 <= j < i ==> #[trigger] self@[j] == close_entry(s[j], end),
                        forall|j: int| i <= j < s.len() ==> #[trigger] self@[j] == s[j],
                    decreases self.entries.len() - i,
                {
                    let e = self.entries[i];
                    if e.end.is_none() {
                        self.entries.set(i, Entry { project_id: e.project_id, start: e.start, end: Some(end) });
                    }
                    i += 1;
                }
                assert(self@ =~= s.map_values(|e: Entry| close_entry(e, end)));
            },
        }
    }

    /// Clocks in on the project whose key the name resolved to, at `now`.
    pub fn clock_in(&mut self, project: Option<i64>, now: i64) -> (r: Result<(), LedgerError>)
        requires
            old(self).wf(),
        ensures
            final(self).wf(),
            final(self)@ == step(old(self)@, Event::ClockIn { project, now }),
            r is Ok <==> event_result(old(self)@, Event::ClockIn { project, now }) is Ok,
            r matches Err(e) ==> event_result(old(self)@, Event::ClockIn { project, now }) == Err::<Action, LedgerError>(e),
    {
        proof { lemma_step_keeps_wf(self@, Event::ClockIn { project, now }); }
        let open = self.open_starts();
        match plan_clock_in(open.len() as u64, project, now) {
            Ok(a) => {
                self.apply(a);
                Ok(())
            },
            Err(e) => Err(e),
        }
    }

    /// Clocks off at `now`.
    pub fn clock_off(&mut self, now: i64) -> (r: Result<(), LedgerError>)
        requires
            old(self).wf(),
        ensures
            final(self).wf(),
            final(self)@ == step(old(self)@, Event::ClockOff { now }),
            r is Ok <==> event_result(old(self)@, Event::ClockOff { now }) is Ok,
            r matches Err(e) ==> event_result(old(self)@, Event::ClockOff { now }) == Err::<Action, LedgerError>(e),
    {
        proof { lemma_step_keeps_wf(self@, Event::ClockOff { now }); }
        let open = self.open_starts();
        match plan_clock_off(&open, now) {
            Ok(a) => {
                self.apply(a);
                Ok(())
            },
            Err(e) => Err(e),
        }
    }
}

/// `open_starts` of a sequence with one more entry.
proof fn lemma_open_starts_push(s: Seq<Entry>, e: Entry)
    ensures
        open_starts(s.push(e)) == (if e.end is None { open_starts(s).push(e.start) } else { open_starts(s) }),
{
    assert(s.push(e).drop_last() =~= s);
}

/// Every open entry's start is among `open_starts`.
proof fn lemma_open_start_listed(s: Seq<Entry>, i: int)
    requires
        0 <= i < s.len(),
        s[i].end is None,
    ensures
        open_starts(s).contains(s[i].start),
    decreases s.len(),
{
    if i == s.len() - 1 {
        assert(open_starts(s).last() == s[i].start);
    } else {
        lemma_open_start_listed(s.drop_last(), i);
        let r = open_starts(s.drop_last());
        let k = choose|k: int| 0 <= k < r.len() && r[k] == s[i].start;
        assert(open_starts(s)[k] == s[i].start);
    }
}

/// After a close no entry is open.
proof fn lemma_close_all(s: Seq<Entry>, end: i64)
    ensures
        open_starts(s.map_values(|e: Entry| close_entry(e, end))) == Seq::<i64>::empty(),
    decreases s.len(),
{
    let c = s.map_values(|e: Entry| close_entry(e, end));
    if s.len() > 0 {
        assert(c.drop_last() =~= s.drop_last().map_values(|e: Entry| close_entry(e, end)));
        lemma_close_all(s.drop_last(), end);
    }
}

/// Any event keeps the ledger's invariants.
pub proof fn lemma_step_keeps_wf(s: Seq<Entry>, ev: Event)
    requires
        ledger_wf(s),
    ensures
        ledger_wf(step(s, ev)),
{
    match event_result(s, ev) {
        Ok(Action::Insert { project_id, start }) => {
            let e = Entry { project_id, start, end: None };
            lemma_open_starts_push(s, e);
            let t = s.push(e);
            assert forall|i: int| 0 <= i < t.len() && (#[trigger] t[i]).end is Some implies t[i].start
                <= t[i].end->Some_0 by {
                assert(t[i] == s[i]);
            }
        },
        Ok(Action::Close { end }) => {
            lemma_close_all(s, end);
            let t = s.map_values(|e: Entry| close_entry(e, end));
            assert forall|i: int| 0 <= i < t.len() && (#[trigger] t[i]).end is Some implies t[i].start
                <= t[i].end->Some_0 by {
                if s[i].end is None {
                    lemma_open_start_listed(s, i);
                }
            }
        },
        Err(_) => {},
    }
}

/// However the events come, at every point of the sequence at most one
/// entry is open (and no closed entry ends before it starts).
pub proof fn lemma_single_open_entry(s: Seq<Entry>, evs: Seq<Event>)
    requires
        ledger_wf(s),
    ensures
        forall|k: int| 0 <= k <= evs.len() ==> #[trigger] open_count(run(s, evs.take(k))) <= 1,
        forall|k: int| 0 <= k <= evs.len() ==> ledger_wf(#[trigger] run(s, evs.take(k))),
    decreases evs.len(),
{
    if evs.len() > 0 {
        lemma_single_open_entry(s, evs.drop_last());
        assert forall|k: int| 0 <= k <= evs.len() implies ledger_wf(#[trigger] run(s, evs.take(k))) by {
            if k < evs.len() {
                assert(evs.take(k) =~= evs.drop_last().take(k));
            } else {
                assert(evs.take(k) =~= evs);
                assert(evs.drop_last().take(k - 1) =~= evs.drop_last());
                lemma_step_keeps_wf(run(s, evs.drop_last()), evs.last());
            }
        }
    } else {
        assert(evs.take(0) =~= evs);
    }
    assert forall|k: int| 0 <= k <= evs.len() implies #[trigger] open_count(run(s, evs.take(k))) <= 1 by {
        assert(ledger_wf(run(s, evs.take(k))));
    }
}

/// Clocking in while an entry is open is refused with `AlreadyOn` and leaves
/// the entries as they were.
pub proof fn lemma_clock_in_while_on(s: Seq<Entry>, project: Option<i64>, now: i64)
    requires
        open_count(s) >= 1,
    ensures
        event_result(s, Event::ClockIn { project, now }) == Err::<Action, LedgerError>(LedgerError::AlreadyOn),
        step(s, Event::ClockIn { project, now }) == s,
{
}

/// Clocking in on a known project and then off at a later or equal time adds
/// exactly one entry, closed, that ends no earlier than it starts, and leaves
/// no entry open.
pub proof fn lemma_clock_in_then_off(s: Seq<Entry>, project_id: i64, t_in: i64, t_off: i64)
    requires
        ledger_wf(s),
        open_count(s) == 0,
        t_in <= t_off,
    ensures
        ({
            let s1 = step(s, Event::ClockIn { project: Some(project_id), now: t_in });
            let s2 = step(s1, Event::ClockOff { now: t_off });
            &&& s2.len() == s.len() + 1
            &&& s2.take(s.len() as int) == s
            &&& s2.last() == Entry { project_id, start: t_in, end: Some(t_off) }
            &&& s2.last().start <= s2.last().end->Some_0
            &&& open_count(s2) == 0
        }),
{
    let e = Entry { project_id, start: t_in, end: None };
    let s1 = s.push(e);
    lemma_open_starts_push(s, e);
    assert(step(s, Event::ClockIn { project: Some(project_id), now: t_in }) == s1);
    let s2 = s1.map_values(|x: Entry| close_entry(x, t_off));
    assert(step(s1, Event::ClockOff { now: t_off }) == s2);
    lemma_close_all(s1, t_off);
    assert forall|i: int| 0 <= i < s.len() implies s2[i] == s[i] by {
        if s[i].end is None {
            lemma_open_start_listed(s, i);
        }
    }
    assert(s2.take(s.len() as int) =~= s);
}

/// Clocking off while no entry is open is refused with `AlreadyOff` and
/// leaves the entries as they were.
pub proof fn lemma_clock_off_while_off(s: Seq<Entry>, now: i64)
    requires
        open_count(s) == 0,
    ensures
        event_result(s, Event::ClockOff { now }) == Err::<Action, LedgerError>(LedgerError::AlreadyOff),
        step(s, Event::ClockOff { now }) == s,
{
}

} // verus!

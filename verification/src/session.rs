//! A driver session: a fixed script of device commands that is handed out
//! one command at a time, stopping at the first command that fails.
//!
//! The device work itself (bus transfers, pin changes, pauses) is done by the
//! caller, which reports back how each command went. The session decides what
//! comes next and what the whole operation returns.
use vstd::prelude::*;

verus! {

/// How the caller's attempt at the current command went.
pub enum Event<E> {
    /// The command succeeded; the byte it read back (0 when it reads nothing).
    Succeeded(u8),
    /// The command failed with this error.
    Failed(E),
}

/// The mathematical state of a session.
pub struct SessionModel<C, E> {
    /// The commands, in the order in which they are to be carried out.
    pub script: Seq<C>,
    /// How many commands of the script have succeeded so far.
    pub completed: nat,
    /// The byte reported by the most recent successful command (0 before any).
    pub last_read: u8,
    /// The error of the command that failed, once one has.
    pub failure: Option<E>,
}

impl<C, E> SessionModel<C, E> {
    /// A session that has not carried out anything yet.
    pub open spec fn fresh(script: Seq<C>) -> Self {
        SessionModel { script, completed: 0, last_read: 0, failure: None }
    }

    /// Nothing more is to be done: a command failed, or every command succeeded.
    pub open spec fn is_finished(self) -> bool {
        self.failure is Some || self.completed >= self.script.len()
    }

    /// The command to carry out now, if any.
    pub open spec fn next_command(self) -> Option<C> {
        if self.is_finished() {
            None
        } else {
            Some(self.script[self.completed as int])
        }
    }

    /// The state after the caller reports `event` for the current command.
    /// A finished session ignores every report.
    pub open spec fn advanced(self, event: Event<E>) -> Self {
        if self.is_finished() {
            self
        } else {
            match event {
                Event::Succeeded(byte) => SessionModel {
                    completed: self.completed + 1,
                    last_read: byte,
                    ..self
                },
                Event::Failed(e) => SessionModel { failure: Some(e), ..self },
            }
        }
    }

    /// What the whole operation returns: the first error, or the last byte read.
    pub open spec fn result(self) -> Result<u8, E> {
        match self.failure {
            Some(e) => Err(e),
            None => Ok(self.last_read),
        }
    }
}

/// The state reached by reporting `events`, one after the other.
pub open spec fn run<C, E>(m: SessionModel<C, E>, events: Seq<Event<E>>) -> SessionModel<C, E>
    decreases events.len(),
{
    if events.len() == 0 {
        m
    } else {
        run(m.advanced(events[0]), events.drop_first())
    }
}

/// The commands handed out while the caller answers them with `events`,
/// in order: a command is handed out only while the session is unfinished
/// and an answer for it is still to come.
pub open spec fn issued<C, E>(m: SessionModel<C, E>, events: Seq<Event<E>>) -> Seq<C>
    decreases events.len(),
{
    if events.len() == 0 || m.is_finished() {
        Seq::empty()
    } else {
        seq![m.script[m.completed as int]] + issued(m.advanced(events[0]), events.drop_first())
    }
}

/// Every event of `events` reports success.
pub open spec fn all_succeed<E>(events: Seq<Event<E>>) -> bool {
    forall|i: int| 0 <= i < events.len() ==> (#[trigger] events[i]) is Succeeded
}

/// The byte a report carries: the one read back on success, 0 on failure.
pub open spec fn byte_of<E>(event: Event<E>) -> u8 {
    match event {
        Event::Succeeded(b) => b,
        Event::Failed(_) => 0,
    }
}

/// Running a sequence of reports in two parts is running the whole of it.
proof fn lemma_run_split<C, E>(m: SessionModel<C, E>, a: Seq<Event<E>>, b: Seq<Event<E>>)
    ensures
        run(m, a + b) == run(run(m, a), b),
        issued(m, a + b) == issued(m, a) + issued(run(m, a), b),
    decreases a.len(),
{
    if a.len() == 0 {
        assert(a + b =~= b);
    } else {
        assert((a + b).drop_first() =~= a.drop_first() + b);
        lemma_run_split(m.advanced(a[0]), a.drop_first(), b);
        if m.is_finished() {
            lemma_finished_stays(m, a.drop_first());
            lemma_finished_stays(m, a + b);
            lemma_finished_stays(m, b);
            assert(m.advanced(a[0]) == m);
        } else {
            assert((a + b)[0] == a[0]);
            assert(issued(m, a + b) =~= seq![m.script[m.completed as int]] + issued(
                m.advanced(a[0]),
                a.drop_first() + b,
            ));
        }
    }
}

/// A finished session hands out nothing more and stays as it is.
proof fn lemma_finished_stays<C, E>(m: SessionModel<C, E>, events: Seq<Event<E>>)
    requires
        m.is_finished(),
    ensures
        run(m, events) == m,
        issued(m, events) == Seq::<C>::empty(),
    decreases events.len(),
{
    if events.len() > 0 {
        lemma_finished_stays(m, events.drop_first());
    }
}

/// Successful reports walk through the script in order.
proof fn lemma_successes<C, E>(m: SessionModel<C, E>, events: Seq<Event<E>>)
    requires
        m.failure is None,
        m.completed + events.len() <= m.script.len(),
        all_succeed(events),
    ensures
        issued(m, events) =~= m.script.subrange(
            m.completed as int,
            (m.completed + events.len()) as int,
        ),
        run(m, events) == (SessionModel {
            completed: m.completed + events.len(),
            last_read: if events.len() == 0 {
                m.last_read
            } else {
                byte_of(events.last())
            },
            ..m
        }),
    decreases events.len(),
{
    if events.len() > 0 {
        let rest = events.drop_first();
        assert(events[0] is Succeeded);
        assert forall|i: int| 0 <= i < rest.len() implies (#[trigger] rest[i]) is Succeeded by {
            assert(rest[i] == events[i + 1]);
        }
        lemma_successes(m.advanced(events[0]), rest);
        if rest.len() > 0 {
            assert(rest.last() == events.last());
        }
    }
}

/// A session answered with one success per command hands out the whole
/// script, in order, and ends with the byte of the last answer.
pub proof fn lemma_replays_script_on_success<C, E>(script: Seq<C>, events: Seq<Event<E>>)
    requires
        events.len() == script.len(),
        all_succeed(events),
    ensures
        issued(SessionModel::<C, E>::fresh(script), events) == script,
        run(SessionModel::<C, E>::fresh(script), events).is_finished(),
        run(SessionModel::<C, E>::fresh(script), events).result() == Ok::<u8, E>(
            if script.len() == 0 {
                0u8
            } else {
                byte_of(events.last())
            },
        ),
{
    lemma_successes(SessionModel::<C, E>::fresh(script), events);
    assert(script.subrange(0, script.len() as int) =~= script);
}

/// A session stops at the first command that fails: it hands out the
/// commands up to and including that one, none after it, and ends with its
/// error, whatever is reported later.
pub proof fn lemma_stops_at_first_failure<C, E>(
    script: Seq<C>,
    events: Seq<Event<E>>,
    k: int,
)
    requires
        0 <= k < script.len(),
        k < events.len(),
        all_succeed(events.take(k)),
        events[k] is Failed,
    ensures
        issued(SessionModel::<C, E>::fresh(script), events) == script.take(k + 1),
        run(SessionModel::<C, E>::fresh(script), events).is_finished(),
        run(SessionModel::<C, E>::fresh(script), events).result() == Err::<u8, E>(
            events[k]->Failed_0,
        ),
{
    let m0 = SessionModel::<C, E>::fresh(script);
    let a = events.take(k);
    let b = events.skip(k);
    assert(events =~= a + b);
    lemma_run_split(m0, a, b);
    lemma_successes(m0, a);
    let m1 = run(m0, a);
    assert(b[0] == events[k]);
    let m2 = m1.advanced(b[0]);
    assert(m2.failure == Some(events[k]->Failed_0));
    lemma_finished_stays(m2, b.drop_first());
    assert(issued(m1, b) =~= seq![script[k]]);
    assert(script.subrange(0, k) + seq![script[k]] =~= script.take(k + 1));
}

/// After `k` successful commands, and while the script has more, the command
/// handed out is the script's command `k`; once every command has
/// succeeded, none is.
pub proof fn lemma_hands_out_script_in_order<C, E>(script: Seq<C>, events: Seq<Event<E>>)
    requires
        events.len() <= script.len(),
        all_succeed(events),
    ensures
        events.len() < script.len() ==> run(
            SessionModel::<C, E>::fresh(script),
            events,
        ).next_command() == Some(script[events.len() as int]),
        events.len() == script.len() ==> run(
            SessionModel::<C, E>::fresh(script),
            events,
        ).next_command() is None,
{
    lemma_successes(SessionModel::<C, E>::fresh(script), events);
}

/// The command handed out by an unfinished session is the one it records as
/// issued when the caller answers it; a finished session hands out nothing.
pub proof fn lemma_next_command_is_issued<C, E>(m: SessionModel<C, E>, event: Event<E>)
    ensures
        !m.is_finished() ==> m.next_command() == Some(issued(m, seq![event])[0]),
        !m.is_finished() ==> m.next_command() == Some(m.script[m.completed as int]),
        m.is_finished() <==> m.next_command() is None,
        m.is_finished() ==> issued(m, seq![event]).len() == 0,
{
    let one = seq![event];
    assert(one.drop_first().len() == 0);
    assert(issued(m.advanced(event), one.drop_first()) == Seq::<C>::empty());
}

/// One report on an unfinished session: a success counts the command as
/// done and keeps the byte it read; a failure records the error, which is
/// then what the session ends with. Neither changes the script.
pub proof fn lemma_report_effect<C, E>(m: SessionModel<C, E>, byte: u8, e: E)
    requires
        !m.is_finished(),
    ensures
        m.advanced(Event::Succeeded(byte)).script == m.script,
        m.advanced(Event::Succeeded(byte)).completed == m.completed + 1,
        m.advanced(Event::Succeeded(byte)).last_read == byte,
        m.advanced(Event::Succeeded(byte)).failure is None,
        m.advanced(Event::<E>::Failed(e)).script == m.script,
        m.advanced(Event::<E>::Failed(e)).completed == m.completed,
        m.advanced(Event::<E>::Failed(e)).is_finished(),
        m.advanced(Event::<E>::Failed(e)).result() == Err::<u8, E>(e),
        m.result() == Ok::<u8, E>(m.last_read),
{
}

/// A fresh session starts at the script's first command, and one over an
/// empty script is finished at once with the result 0.
pub proof fn lemma_fresh_session<C, E>(script: Seq<C>)
    ensures
        script.len() > 0 ==> SessionModel::<C, E>::fresh(script).next_command() == Some(script[0]),
        script.len() == 0 ==> SessionModel::<C, E>::fresh(script).is_finished(),
        SessionModel::<C, E>::fresh(script).result() == Ok::<u8, E>(0),
{
}

/// Once finished, a session ignores every further report.
pub proof fn lemma_finished_ignores_reports<C, E>(m: SessionModel<C, E>, event: Event<E>)
    requires
        m.is_finished(),
    ensures
        m.advanced(event) == m,
        m.next_command() is None,
{
}

/// A session over commands of type `C` whose failures carry errors of type `E`.
pub struct Session<C, E> {
    script: Vec<C>,
    completed: usize,
    last_read: u8,
    failure: Option<E>,
}

impl<C, E> View for Session<C, E> {
    type V = SessionModel<C, E>;

    closed spec fn view(&self) -> SessionModel<C, E> {
        SessionModel {
            script: self.script@,
            completed: self.completed as nat,
            last_read: self.last_read,
            failure: self.failure,
        }
    }
}

impl<C, E> Session<C, E> {
    #[verifier::type_invariant]
    closed spec fn inv(self) -> bool {
        self.completed <= self.script.len()
    }
}

impl<C: Copy, E> Session<C, E> {
    /// Starts a session over `script`.
    pub fn new(script: Vec<C>) -> (s: Self)
        ensures
            s@ == SessionModel::<C, E>::fresh(script@),
    {
        Session { script, completed: 0, last_read: 0, failure: None }
    }

    /// The command the caller is to carry out now, or `None` once the session
    /// is finished.
    pub fn next_command(&self) -> (c: Option<C>)
        ensures
            c == self@.next_command(),
    {
        proof {
            use_type_invariant(self);
        }
        if self.failure.is_some() || self.completed >= self.script.len() {
            None
        } else {
            Some(self.script[self.completed])
        }
    }

    /// Records how the current command went.
    pub fn advance(&mut self, event: Event<E>)
        ensures
            final(self)@ == old(self)@.advanced(event),
    {
        proof {
            use_type_invariant(&*self);
        }
        if self.failure.is_some() || self.completed >= self.script.len() {
            return;
        }
        match event {
            Event::Succeeded(byte) => {
                self.completed = self.completed + 1;
                self.last_read = byte;
            },
            Event::Failed(e) => {
                self.failure = Some(e);
            },
        }
    }

    /// Whether nothing more is to be done.
    pub fn is_finished(&self) -> (b: bool)
        ensures
            b == self@.is_finished(),
    {
        proof {
            use_type_invariant(self);
        }
        self.failure.is_some() || self.completed >= self.script.len()
    }

    /// Ends the session: the error of the command that failed, or the byte
    /// read by the last successful command.
    pub fn into_result(self) -> (r: Result<u8, E>)
        ensures
            r == self@.result(),
    {
        match self.failure {
            Some(e) => Err(e),
            None => Ok(self.last_read),
        }
    }
}

} // verus!

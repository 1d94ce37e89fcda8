//! The decisions of the terminal loop.
//!
//! The loop itself waits for keys, reads the cancellation flag and paints the
//! screen; none of that happens here. A `Session` is told what the loop saw
//! and answers with what the loop has to do next.

use vstd::prelude::*;

verus! {

/// The text typed so far.
pub struct QueryBuffer {
    text: String,
}

impl View for QueryBuffer {
    type V = Seq<char>;

    closed spec fn view(&self) -> Seq<char> {
        self.text@
    }
}

impl QueryBuffer {
    /// An empty buffer.
    pub fn new() -> (buffer: QueryBuffer)
        ensures
            buffer@ == Seq::<char>::empty(),
    {
        QueryBuffer { text: String::new() }
    }

    /// Appends one character.
    pub fn push(&mut self, c: char)
        ensures
            final(self)@ == old(self)@.push(c),
    {
        self.text.push(c);
    }

    /// Removes the last character, if there is one, and says whether it did.
    pub fn backspace(&mut self) -> (removed: bool)
        ensures
            removed == (old(self)@.len() > 0),
            removed ==> final(self)@ == old(self)@.drop_last(),
            !removed ==> final(self)@ == old(self)@,
    {
        self.text.pop().is_some()
    }

    /// Empties the buffer.
    pub fn clear(&mut self)
        ensures
            final(self)@ == Seq::<char>::empty(),
    {
        self.text = String::new();
    }

    /// The text typed so far.
    pub fn as_str(&self) -> (text: &str)
        ensures
            text@ == self@,
    {
        self.text.as_str()
    }
}

/// A key press, as far as the loop tells keys apart.
#[derive(Debug, Clone, Copy, PartialEq, Eq, Structural)]
pub enum Key {
    /// A character to add to the query.
    Char(char),
    Backspace,
    Enter,
    /// The chord that asks the program to stop.
    Cancel,
    /// Any key that the loop does not react to.
    Other,
}

/// What one bounded wait for the keyboard brought.
#[derive(Debug, Clone, Copy, PartialEq, Eq, Structural)]
pub enum Event {
    Key(Key),
    /// The wait ran out and no key was pressed.
    Timeout,
}

/// Where the loop stands.
#[derive(Debug, Clone, Copy, PartialEq, Eq, Structural)]
pub enum Phase {
    /// At the top of the outer loop, before a pass begins.
    Active,
    /// Inside a pass, waiting for keys.
    Polling,
    /// Done; the loop has ended.
    Stopped,
}

/// What the loop has to do after it told the session what it saw.
#[derive(Debug, Clone, Copy, PartialEq, Eq, Structural)]
pub enum Action {
    /// Nothing; go on according to the phase.
    Nothing,
    /// Filter the records by the query and paint the screen.
    Redraw,
    /// The query was committed with Enter: hand it on as a command line.
    Commit,
    /// Set the cancellation flag to stopped.
    Cancel,
}

/// The mathematical content of a `Session`.
pub struct SessionView {
    pub phase: Phase,
    pub query: Seq<char>,
}

impl SessionView {
    /// The loop stops for good and leaves the query as it is.
    pub open spec fn stop(self) -> (SessionView, Action) {
        (SessionView { phase: Phase::Stopped, query: self.query }, Action::Nothing)
    }

    /// What happens at the top of the outer loop, where `stopped` is the
    /// reading of the cancellation flag taken there.
    ///
    /// A stopped flag ends the loop. Otherwise a pass begins with an empty
    /// query and a fresh screen. Inside a pass there is nothing to begin.
    pub open spec fn begin(self, stopped: bool) -> (SessionView, Action) {
        if self.phase == Phase::Stopped || stopped {
            self.stop()
        } else if self.phase == Phase::Active {
            (SessionView { phase: Phase::Polling, query: Seq::empty() }, Action::Redraw)
        } else {
            (self, Action::Nothing)
        }
    }

    /// What happens after one wait for the keyboard, where `stopped` is the
    /// reading of the cancellation flag taken when the wait returned.
    ///
    /// A stopped flag ends the loop before the event is looked at. A timeout
    /// changes nothing. A character is appended and backspace removes the
    /// last character, each followed by a redraw; backspace on an empty
    /// query does nothing. Enter commits the query and ends the pass. The
    /// cancel chord ends the loop and has the flag set. Other keys are
    /// ignored, and so is any event outside a pass.
    pub open spec fn react(self, event: Event, stopped: bool) -> (SessionView, Action) {
        if self.phase == Phase::Stopped || stopped {
            self.stop()
        } else if self.phase == Phase::Polling {
            match event {
                Event::Timeout => (self, Action::Nothing),
                Event::Key(Key::Char(c)) => (
                    SessionView { phase: Phase::Polling, query: self.query.push(c) },
                    Action::Redraw,
                ),
                Event::Key(Key::Backspace) => if self.query.len() > 0 {
                    (
                        SessionView { phase: Phase::Polling, query: self.query.drop_last() },
                        Action::Redraw,
                    )
                } else {
                    (self, Action::Nothing)
                },
                Event::Key(Key::Enter) => (
                    SessionView { phase: Phase::Active, query: self.query },
                    Action::Commit,
                ),
                Event::Key(Key::Cancel) => (
                    SessionView { phase: Phase::Stopped, query: self.query },
                    Action::Cancel,
                ),
                Event::Key(Key::Other) => (self, Action::Nothing),
            }
        } else {
            (self, Action::Nothing)
        }
    }
}

/// The state of the terminal loop: where it stands and what was typed.
pub struct Session {
    phase: Phase,
    query: QueryBuffer,
}

impl View for Session {
    type V = SessionView;

    closed spec fn view(&self) -> SessionView {
        SessionView { phase: self.phase, query: self.query@ }
    }
}

impl Session {
    /// A session at the top of the outer loop, with nothing typed.
    pub fn new() -> (session: Session)
        ensures
            session@ == (SessionView { phase: Phase::Active, query: Seq::empty() }),
    {
        Session { phase: Phase::Active, query: QueryBuffer::new() }
    }

    /// Where the loop stands.
    pub fn phase(&self) -> (phase: Phase)
        ensures
            phase == self@.phase,
    {
        self.phase
    }

    /// The text typed so far. After `Action::Commit` this is the committed
    /// line, until the next pass begins.
    pub fn query(&self) -> (text: &str)
        ensures
            text@ == self@.query,
    {
        self.query.as_str()
    }

    /// Tells the session that the loop is at the top of the outer loop and
    /// read the cancellation flag as `stopped`.
    pub fn begin_pass(&mut self, stopped: bool) -> (action: Action)
        ensures
            (final(self)@, action) == old(self)@.begin(stopped),
    {
        match self.phase {
            Phase::Stopped => Action::Nothing,
            _ if stopped => {
                self.phase = Phase::Stopped;
                Action::Nothing
            },
            Phase::Active => {
                self.query.clear();
                self.phase = Phase::Polling;
                Action::Redraw
            },
            Phase::Polling => Action::Nothing,
        }
    }

    /// Tells the session what one wait for the keyboard brought, and that
    /// the cancellation flag read `stopped` when the wait returned.
    pub fn on_event(&mut self, event: Event, stopped: bool) -> (action: Action)
        ensures
            (final(self)@, action) == old(self)@.react(event, stopped),
    {
        match self.phase {
            Phase::Stopped => Action::Nothing,
            _ if stopped => {
                self.phase = Phase::Stopped;
                Action::Nothing
            },
            Phase::Active => Action::Nothing,
            Phase::Polling => match event {
                Event::Timeout => Action::Nothing,
                Event::Key(Key::Char(c)) => {
                    self.query.push(c);
                    Action::Redraw
                },
                Event::Key(Key::Backspace) => {
                    if self.query.backspace() {
                        Action::Redraw
                    } else {
                        Action::Nothing
                    }
                },
                Event::Key(Key::Enter) => {
                    self.phase = Phase::Active;
                    Action::Commit
                },
                Event::Key(Key::Cancel) => {
                    self.phase = Phase::Stopped;
                    Action::Cancel
                },
                Event::Key(Key::Other) => Action::Nothing,
            },
        }
    }
}

/// One thing that the loop tells the session, with the reading of the
/// cancellation flag that goes with it.
pub enum Report {
    /// The loop is at the top of the outer loop.
    Top { stopped: bool },
    /// A wait for the keyboard returned.
    Waited { event: Event, stopped: bool },
}

impl Report {
    /// The reading of the cancellation flag in this report.
    pub open spec fn stopped(self) -> bool {
        match self {
            Report::Top { stopped } => stopped,
            Report::Waited { stopped, .. } => stopped,
        }
    }
}

impl SessionView {
    /// The answer to one report.
    pub open spec fn answer(self, report: Report) -> (SessionView, Action) {
        match report {
            Report::Top { stopped } => self.begin(stopped),
            Report::Waited { event, stopped } => self.react(event, stopped),
        }
    }

    /// The state after a series of reports.
    pub open spec fn after(self, reports: Seq<Report>) -> SessionView
        decreases reports.len(),
    {
        if reports.len() == 0 {
            self
        } else {
            self.after(reports.drop_last()).answer(reports.last()).0
        }
    }

    /// The actions asked for by a series of reports, one for each report.
    pub open spec fn actions(self, reports: Seq<Report>) -> Seq<Action>
        decreases reports.len(),
    {
        if reports.len() == 0 {
            Seq::empty()
        } else {
            self.actions(reports.drop_last()).push(
                self.after(reports.drop_last()).answer(reports.last()).1,
            )
        }
    }
}

/// Once the flag reads stopped the loop is over at the next report, whatever
/// it reports and wherever the loop stood, and nothing is painted.
pub proof fn lemma_stop_is_prompt(session: SessionView, report: Report)
    requires
        report.stopped(),
    ensures
        session.answer(report).0.phase == Phase::Stopped,
        session.answer(report).0.query == session.query,
        session.answer(report).1 == Action::Nothing,
{
}

/// A stopped loop stays stopped: no report changes it or asks for anything.
pub proof fn lemma_stopped_is_final(session: SessionView, report: Report)
    requires
        session.phase == Phase::Stopped,
    ensures
        session.answer(report) == (session, Action::Nothing),
{
}

/// The flag never goes back from stopped to running. So from the moment it
/// reads stopped, every report carries a stopped reading; then none of the
/// answers asks for a redraw, or for anything else, and after the first of
/// them the loop is stopped.
pub proof fn lemma_no_redraw_after_stop(session: SessionView, reports: Seq<Report>)
    requires
        forall|i: int| 0 <= i < reports.len() ==> (#[trigger] reports[i]).stopped(),
    ensures
        reports.len() > 0 ==> session.after(reports).phase == Phase::Stopped,
        session.after(reports).query == session.query,
        session.actions(reports).len() == reports.len(),
        forall|i: int|
            0 <= i < reports.len() ==> #[trigger] session.actions(reports)[i] == Action::Nothing,
    decreases reports.len(),
{
    if reports.len() > 0 {
        let earlier = reports.drop_last();
        assert forall|i: int| 0 <= i < earlier.len() implies (#[trigger] earlier[i]).stopped() by {
            assert(earlier[i] == reports[i]);
        }
        lemma_no_redraw_after_stop(session, earlier);
        lemma_stop_is_prompt(session.after(earlier), reports.last());
    }
}

/// Typing edits the end of the query and nothing else: after a character the
/// query is one longer and ends with it, and backspace right after a
/// character restores the query.
pub proof fn lemma_backspace_undoes_char(session: SessionView, c: char)
    requires
        session.phase == Phase::Polling,
    ensures
        session.react(Event::Key(Key::Char(c)), false).0.react(
            Event::Key(Key::Backspace),
            false,
        ).0 == session,
{
    assert(session.query.push(c).drop_last() =~= session.query);
}

} // verus!

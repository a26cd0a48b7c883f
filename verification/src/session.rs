//! An enrollment session as a front-end sees it: connecting to the daemon, one
//! enrollment per label, and the closing report.
//!
//! The caller talks to the daemon. A session says which call comes next, and is
//! told how it went.
use crate::preview::Preview;
use crate::text::{append_decimal, decimal, join, occurs, occurs_at, text_of, texts};
use crate::user::FrontEnd;
use vstd::prelude::*;

verus! {

/// How long one call to the daemon may take, in seconds. Framing adds time to
/// every enrollment.
pub const METHOD_TIMEOUT_SECS: u64 = 60;

/// Where the enrollment has got to.
#[derive(Debug)]
pub enum Phase {
    Connecting,
    /// Capturing `label`, the `n`th of `total`.
    Capturing { label: String, n: usize, total: usize },
    Done,
}

/// A phase in terms of what it holds.
pub ghost enum PhaseModel {
    Connecting,
    Capturing { label: Seq<char>, n: usize, total: usize },
    Done,
}

impl View for Phase {
    type V = PhaseModel;

    open spec fn view(&self) -> PhaseModel {
        match self {
            Phase::Connecting => PhaseModel::Connecting,
            Phase::Capturing { label, n, total } => PhaseModel::Capturing {
                label: label@,
                n: *n,
                total: *total,
            },
            Phase::Done => PhaseModel::Done,
        }
    }
}

/// What became of one label.
#[derive(Debug)]
pub struct Outcome {
    pub label: String,
    pub ok: bool,
    /// The model that was enrolled, or why none was.
    pub detail: String,
}

/// An outcome in terms of what it holds.
pub ghost struct OutcomeModel {
    pub label: Seq<char>,
    pub ok: bool,
    pub detail: Seq<char>,
}

impl View for Outcome {
    type V = OutcomeModel;

    open spec fn view(&self) -> OutcomeModel {
        OutcomeModel { label: self.label@, ok: self.ok, detail: self.detail@ }
    }
}

/// What a front-end shows.
#[derive(Debug)]
pub struct App {
    pub phase: Phase,
    /// The latest frame.
    pub frame: Option<Preview>,
    pub outcomes: Vec<Outcome>,
    /// Set when the session is over, successfully or not.
    pub finished: Option<String>,
}

/// What a front-end shows, in terms of what it holds.
pub ghost struct AppModel {
    pub phase: PhaseModel,
    pub frame: Option<Preview>,
    pub outcomes: Seq<OutcomeModel>,
    pub finished: Option<Seq<char>>,
}

/// The models of a sequence of outcomes.
pub open spec fn outcome_models(outcomes: Seq<Outcome>) -> Seq<OutcomeModel> {
    Seq::new(outcomes.len(), |i: int| outcomes[i]@)
}

impl View for App {
    type V = AppModel;

    open spec fn view(&self) -> AppModel {
        AppModel {
            phase: self.phase@,
            frame: self.frame,
            outcomes: outcome_models(self.outcomes@),
            finished: text_of(self.finished),
        }
    }
}

/// The line of the closing report on one outcome.
pub open spec fn report_line(outcome: OutcomeModel) -> Seq<char> {
    (if outcome.ok {
        "ok    "@
    } else {
        "FAILED"@
    }) + "  "@ + outcome.label + ": "@ + outcome.detail
}

/// The closing report: a line for each outcome, and the summary, if there is one.
pub open spec fn report(app: AppModel) -> Seq<Seq<char>> {
    let lines = Seq::new(app.outcomes.len(), |i: int| report_line(app.outcomes[i]));
    match app.finished {
        Some(summary) => lines.push(summary),
        None => lines,
    }
}

/// The closing verdict, as lines.
pub fn report_lines(app: &App) -> (lines: Vec<String>)
    ensures
        texts(lines@) == report(app@),
        lines@.len() == report(app@).len(),
        forall|i: int| 0 <= i < lines@.len() ==> (#[trigger] lines@[i])@ == report(app@)[i],
{
    let mut lines: Vec<String> = Vec::new();
    let mut i: usize = 0;
    while i < app.outcomes.len()
        invariant
            i <= app.outcomes.len(),
            lines@.len() == i,
            forall|j: int|
                0 <= j < i ==> #[trigger] lines@[j]@ == report_line(app.outcomes@[j]@),
        decreases app.outcomes.len() - i,
    {
        let outcome: &Outcome = &app.outcomes[i];
        let mut line: String = (if outcome.ok {
            "ok    "
        } else {
            "FAILED"
        }).to_owned();
        line.append("  ");
        line.append(outcome.label.as_str());
        line.append(": ");
        line.append(outcome.detail.as_str());
        lines.push(line);
        i = i + 1;
    }
    if let Some(summary) = &app.finished {
        lines.push(summary.clone());
    }
    proof {
        assert(texts(lines@) =~= report(app@));
        assert forall|i: int| 0 <= i < lines@.len() implies (#[trigger] lines@[i])@ == report(
            app@,
        )[i] by {
            assert(texts(lines@)[i] == lines@[i]@);
        }
    }
    lines
}

/// How many outcomes are successes.
pub open spec fn successes(outcomes: Seq<OutcomeModel>) -> nat
    decreases outcomes.len(),
{
    if outcomes.len() == 0 {
        0
    } else {
        successes(outcomes.drop_last()) + (if outcomes.last().ok {
            1nat
        } else {
            0nat
        })
    }
}

/// The closing summary. A failed enrollment never looks like a successful one.
pub open spec fn summary(front_end: FrontEnd, good: nat, total: nat) -> Seq<char> {
    if good == 0 {
        "nothing was enrolled."@
    } else {
        "enrolled "@ + decimal(good) + " of "@ + decimal(total) + (match front_end {
            FrontEnd::Terminal => " angles for this user."@,
            FrontEnd::Window => " angles."@,
        })
    }
}

/// The closing summary.
fn closing_summary(front_end: FrontEnd, good: u64, total: u64) -> (text: String)
    ensures
        text@ == summary(front_end, good as nat, total as nat),
{
    if good == 0 {
        "nothing was enrolled.".to_owned()
    } else {
        let mut text: String = "enrolled ".to_owned();
        append_decimal(&mut text, good);
        text.append(" of ");
        append_decimal(&mut text, total);
        match front_end {
            FrontEnd::Terminal => text.append(" angles for this user."),
            FrontEnd::Window => text.append(" angles."),
        }
        text
    }
}

/// Counts the successes.
fn count_successes(outcomes: &Vec<Outcome>) -> (good: usize)
    ensures
        good == successes(outcome_models(outcomes@)),
        good <= outcomes@.len(),
{
    let mut good: usize = 0;
    let mut i: usize = 0;
    let ghost models = outcome_models(outcomes@);
    proof {
        assert(models.take(0) =~= Seq::empty());
    }
    while i < outcomes.len()
        invariant
            models == outcome_models(outcomes@),
            good <= i <= outcomes.len(),
            good == successes(models.take(i as int)),
        decreases outcomes.len() - i,
    {
        proof {
            assert(models.take(i + 1).drop_last() =~= models.take(i as int));
        }
        if outcomes[i].ok {
            good = good + 1;
        }
        i = i + 1;
    }
    proof {
        assert(models.take(i as int) =~= models);
    }
    good
}

/// The next call of a session.
#[derive(Debug, Clone, Copy, PartialEq, Eq, Structural)]
pub enum SessionStep {
    /// Connect to the bus.
    Connect,
    /// Open the daemon's interface.
    OpenInterface,
    /// Subscribe to preview frames: before the first enrollment, or the framing
    /// frames are missed.
    Subscribe,
    /// Enroll the label with this index.
    Enroll(usize),
    /// The session is over.
    Finished,
}

/// The step after `outcomes`.
pub open spec fn session_step(total: nat, outcomes: Seq<OutcomeModel>) -> SessionStep {
    if outcomes.len() < total {
        SessionStep::Enroll(outcomes.len() as usize)
    } else {
        SessionStep::Finished
    }
}

/// What is shown after `outcomes`.
pub open spec fn session_view(
    front_end: FrontEnd,
    labels: Seq<Seq<char>>,
    frame: Option<Preview>,
    outcomes: Seq<OutcomeModel>,
) -> AppModel {
    let k = outcomes.len() as int;
    if k < labels.len() {
        AppModel {
            phase: PhaseModel::Capturing {
                label: labels[k],
                n: (k + 1) as usize,
                total: labels.len() as usize,
            },
            frame,
            outcomes,
            finished: None,
        }
    } else {
        AppModel {
            phase: PhaseModel::Done,
            frame,
            outcomes,
            finished: Some(summary(front_end, successes(outcomes), labels.len())),
        }
    }
}

/// What is shown before the first label.
pub open spec fn connecting_view(frame: Option<Preview>) -> AppModel {
    AppModel { phase: PhaseModel::Connecting, frame, outcomes: Seq::empty(), finished: None }
}

/// What is shown when the daemon cannot be used.
pub open spec fn unreachable_view(frame: Option<Preview>, reason: Seq<char>) -> AppModel {
    AppModel { phase: PhaseModel::Done, frame, outcomes: Seq::empty(), finished: Some(reason) }
}

/// Whether `reason` says that the daemon could not be used.
pub open spec fn is_unreachable_reason(reason: Seq<char>) -> bool {
    exists|e: Seq<char>|
        {
            ||| reason == #[trigger] ("could not reach visaged: "@ + e)
            ||| reason == "could not open the Visage interface: "@ + e
            ||| reason == "could not subscribe to preview frames: "@ + e
        }
}

/// An enrollment session.
pub struct Session {
    front_end: FrontEnd,
    user: String,
    labels: Vec<String>,
    step: SessionStep,
    app: App,
}

impl Session {
    /// The front-end.
    pub closed spec fn front_end(&self) -> FrontEnd {
        self.front_end
    }

    /// The user who is enrolled.
    pub closed spec fn user(&self) -> Seq<char> {
        self.user@
    }

    /// The labels.
    pub closed spec fn labels(&self) -> Seq<Seq<char>> {
        texts(self.labels@)
    }

    /// The step that comes next.
    pub closed spec fn next(&self) -> SessionStep {
        self.step
    }

    /// What is shown.
    pub closed spec fn shown(&self) -> AppModel {
        self.app@
    }

    /// The session is for the same labels, user and front-end.
    pub open spec fn same_request(&self, other: &Session) -> bool {
        &&& self.front_end() == other.front_end()
        &&& self.user() == other.user()
        &&& self.labels() == other.labels()
    }

    /// There is one outcome for each label so far, in order.
    pub open spec fn in_order(&self) -> bool {
        let outcomes = self.shown().outcomes;
        &&& outcomes.len() <= self.labels().len()
        &&& forall|i: int|
            0 <= i < outcomes.len() ==> #[trigger] outcomes[i].label == self.labels()[i]
    }

    /// The session is in order: what is shown is what its step asks for.
    pub closed spec fn wf(&self) -> bool {
        let shown = self.app@;
        &&& self.in_order()
        &&& match self.step {
            SessionStep::Enroll(i) => {
                &&& i == shown.outcomes.len()
                &&& i < self.labels@.len()
                &&& shown == session_view(
                    self.front_end,
                    texts(self.labels@),
                    shown.frame,
                    shown.outcomes,
                )
            },
            SessionStep::Finished => {
                ||| shown.outcomes.len() == self.labels@.len() && shown == session_view(
                    self.front_end,
                    texts(self.labels@),
                    shown.frame,
                    shown.outcomes,
                )
                ||| shown.finished is Some && is_unreachable_reason(shown.finished->0) && shown
                    == unreachable_view(shown.frame, shown.finished->0)
            },
            _ => shown == connecting_view(shown.frame),
        }
    }

    /// Starts a session.
    pub fn start(front_end: FrontEnd, user: String, labels: Vec<String>) -> (session: Session)
        ensures
            session.wf(),
            session.front_end() == front_end,
            session.user() == user@,
            session.labels() == texts(labels@),
            session.next() is Connect,
            session.shown() == connecting_view(None),
    {
        let session: Session = Session {
            front_end,
            user,
            labels,
            step: SessionStep::Connect,
            app: App {
                phase: Phase::Connecting,
                frame: None,
                outcomes: Vec::new(),
                finished: None,
            },
        };
        proof {
            assert(session.app@.outcomes =~= Seq::empty());
        }
        session
    }

    /// The step that comes next.
    pub fn step(&self) -> (step: SessionStep)
        ensures
            step == self.next(),
    {
        self.step
    }

    /// What is shown.
    pub fn app(&self) -> (app: &App)
        ensures
            app@ == self.shown(),
    {
        &self.app
    }

    /// The user and the label of the enrollment that comes next, if one does.
    pub fn request(&self) -> (request: Option<(&String, &String)>)
        requires
            self.wf(),
        ensures
            match request {
                Some(r) => self.next() matches SessionStep::Enroll(i) && r.0@ == self.user()
                    && r.1@ == self.labels()[i as int],
                None => self.next() !is Enroll,
            },
    {
        match self.step {
            SessionStep::Enroll(i) => Some((&self.user, &self.labels[i])),
            _ => None,
        }
    }

    /// A preview frame arrived.
    pub fn frame_arrived(&mut self, frame: Preview)
        requires
            old(self).wf(),
        ensures
            final(self).wf(),
            final(self).same_request(old(self)),
            final(self).front_end() == old(self).front_end(),
            final(self).user() == old(self).user(),
            final(self).labels() == old(self).labels(),
            final(self).next() == old(self).next(),
            final(self).shown() == (AppModel { frame: Some(frame), ..old(self).shown() }),
    {
        self.app.frame = Some(frame);
        proof {
            assert(self.app@.outcomes =~= old(self).app@.outcomes);
        }
    }

    /// The bus connection was opened, or could not be.
    pub fn connected(&mut self, result: Result<(), String>)
        requires
            old(self).wf(),
            old(self).next() is Connect,
        ensures
            final(self).wf(),
            final(self).same_request(old(self)),
            final(self).front_end() == old(self).front_end(),
            final(self).user() == old(self).user(),
            final(self).labels() == old(self).labels(),
            match result {
                Ok(_) => final(self).next() is OpenInterface && final(self).shown() == old(
                    self,
                ).shown(),
                Err(e) => final(self).next() is Finished && final(self).shown()
                    == unreachable_view(
                    old(self).shown().frame,
                    "could not reach visaged: "@ + e@,
                ),
            },
    {
        match result {
            Ok(_) => {
                self.step = SessionStep::OpenInterface;
            },
            Err(e) => {
                self.give_up("could not reach visaged: ", e);
            },
        }
    }

    /// The daemon's interface was opened, or could not be.
    pub fn interface_opened(&mut self, result: Result<(), String>)
        requires
            old(self).wf(),
            old(self).next() is OpenInterface,
        ensures
            final(self).wf(),
            final(self).same_request(old(self)),
            final(self).front_end() == old(self).front_end(),
            final(self).user() == old(self).user(),
            final(self).labels() == old(self).labels(),
            match result {
                Ok(_) => final(self).next() is Subscribe && final(self).shown() == old(
                    self,
                ).shown(),
                Err(e) => final(self).next() is Finished && final(self).shown()
                    == unreachable_view(
                    old(self).shown().frame,
                    "could not open the Visage interface: "@ + e@,
                ),
            },
    {
        match result {
            Ok(_) => {
                self.step = SessionStep::Subscribe;
            },
            Err(e) => {
                self.give_up("could not open the Visage interface: ", e);
            },
        }
    }

    /// The preview frames were subscribed to, or could not be.
    pub fn subscribed(&mut self, result: Result<(), String>)
        requires
            old(self).wf(),
            old(self).next() is Subscribe,
        ensures
            final(self).wf(),
            final(self).same_request(old(self)),
            final(self).front_end() == old(self).front_end(),
            final(self).user() == old(self).user(),
            final(self).labels() == old(self).labels(),
            match result {
                Ok(_) => {
                    &&& final(self).next() == session_step(old(self).labels().len(), Seq::empty())
                    &&& final(self).shown() == session_view(
                        old(self).front_end(),
                        old(self).labels(),
                        old(self).shown().frame,
                        Seq::empty(),
                    )
                },
                Err(e) => final(self).next() is Finished && final(self).shown()
                    == unreachable_view(
                    old(self).shown().frame,
                    "could not subscribe to preview frames: "@ + e@,
                ),
            },
    {
        match result {
            Ok(_) => {
                self.advance();
            },
            Err(e) => {
                self.give_up("could not subscribe to preview frames: ", e);
            },
        }
    }

    /// The daemon answered an enrollment: with the model's identifier, or with the
    /// reason why there is none.
    pub fn enrolled(&mut self, result: Result<String, String>)
        requires
            old(self).wf(),
            old(self).next() is Enroll,
        ensures
            final(self).wf(),
            final(self).same_request(old(self)),
            final(self).front_end() == old(self).front_end(),
            final(self).user() == old(self).user(),
            final(self).labels() == old(self).labels(),
            final(self).shown().outcomes == old(self).shown().outcomes.push(
                OutcomeModel {
                    label: old(self).labels()[old(self).next()->Enroll_0 as int],
                    ok: result is Ok,
                    detail: match result {
                        Ok(id) => id@,
                        Err(e) => e@,
                    },
                },
            ),
            final(self).next() == session_step(
                old(self).labels().len(),
                final(self).shown().outcomes,
            ),
            final(self).shown() == session_view(
                old(self).front_end(),
                old(self).labels(),
                old(self).shown().frame,
                final(self).shown().outcomes,
            ),
    {
        if let SessionStep::Enroll(i) = self.step {
            let label: String = self.labels[i].clone();
            let outcome: Outcome = match result {
                Ok(id) => Outcome { label, ok: true, detail: id },
                Err(e) => Outcome { label, ok: false, detail: e },
            };
            let ghost before = self.app@.outcomes;
            let ghost now = outcome@;
            self.app.outcomes.push(outcome);
            proof {
                assert(self.app@.outcomes =~= before.push(now));
            }
            self.advance();
        }
    }

    /// Goes on to the next label, or closes the session.
    fn advance(&mut self)
        requires
            old(self).in_order(),
            old(self).app.finished is None,
        ensures
            final(self).wf(),
            final(self).front_end == old(self).front_end,
            final(self).user == old(self).user,
            final(self).labels == old(self).labels,
            final(self).step == session_step(old(self).labels@.len(), old(self).app@.outcomes),
            final(self).app@ == session_view(
                old(self).front_end,
                texts(old(self).labels@),
                old(self).app.frame,
                old(self).app@.outcomes,
            ),
    {
        let k: usize = self.app.outcomes.len();
        let total: usize = self.labels.len();
        if k < total {
            self.app.phase = Phase::Capturing { label: self.labels[k].clone(), n: k + 1, total };
            self.step = SessionStep::Enroll(k);
        } else {
            let good: usize = count_successes(&self.app.outcomes);
            self.app.finished = Some(closing_summary(self.front_end, good as u64, total as u64));
            self.app.phase = Phase::Done;
            self.step = SessionStep::Finished;
        }
        proof {
            assert(self.app@.outcomes =~= old(self).app@.outcomes);
        }
    }

    /// Closes the session because the daemon cannot be used.
    fn give_up(&mut self, what: &str, e: String)
        requires
            old(self).wf(),
            old(self).app@ == connecting_view(old(self).app.frame),
            what@ == "could not reach visaged: "@ || what@ == "could not open the Visage interface: "@
                || what@ == "could not subscribe to preview frames: "@,
        ensures
            final(self).wf(),
            final(self).front_end == old(self).front_end,
            final(self).user == old(self).user,
            final(self).labels == old(self).labels,
            final(self).step is Finished,
            final(self).app@ == unreachable_view(old(self).app.frame, what@ + e@),
    {
        let reason: String = join(what, e.as_str());
        proof {
            assert(is_unreachable_reason(reason@));
        }
        self.app.finished = Some(reason);
        self.app.phase = Phase::Done;
        self.step = SessionStep::Finished;
        proof {
            assert(self.app@.outcomes =~= old(self).app@.outcomes);
        }
    }
}

/// A key, as far as the terminal front-end tells keys apart.
#[derive(Debug, Clone, Copy, PartialEq, Eq, Structural)]
pub enum Key {
    Char(char),
    Escape,
    Other,
}

/// Whether a key closes the terminal front-end: `q` and escape always do, and
/// every key does once the session on the screen is over.
pub fn closes(key: Key, finished: bool) -> (closing: bool)
    ensures
        closing == (key == Key::Escape || key == Key::Char('q') || finished),
{
    match key {
        Key::Escape => true,
        Key::Char(c) => c == 'q' || finished,
        Key::Other => finished,
    }
}

/// The reason for every outcome survives in the closing report, under its label,
/// and a failure is visibly marked.
pub proof fn reports_keep_every_reason(app: AppModel, i: int)
    requires
        0 <= i < app.outcomes.len(),
    ensures
        i < report(app).len(),
        occurs(report(app)[i], app.outcomes[i].label),
        occurs(report(app)[i], app.outcomes[i].detail),
        report(app)[i].take(6) == "FAILED"@ <==> !app.outcomes[i].ok,
{
    let outcome = app.outcomes[i];
    let line = report(app)[i];
    reveal_strlit("ok    ");
    reveal_strlit("FAILED");
    reveal_strlit("  ");
    reveal_strlit(": ");
    let label_at: int = 8;
    let detail_at: int = label_at + outcome.label.len() + 2;
    assert(line.subrange(label_at, label_at + outcome.label.len()) =~= outcome.label);
    assert(occurs_at(line, outcome.label, label_at));
    assert(line.subrange(detail_at, detail_at + outcome.detail.len()) =~= outcome.detail);
    assert(occurs_at(line, outcome.detail, detail_at));
    if outcome.ok {
        assert(line.take(6)[0] == 'o');
    } else {
        assert(line.take(6) =~= "FAILED"@);
    }
}

/// The summary is the last line of the closing report, and a session with nothing
/// to say reports nothing.
pub proof fn reports_end_with_the_summary(app: AppModel)
    ensures
        match app.finished {
            Some(text) => report(app).len() == app.outcomes.len() + 1 && report(app).last() == text,
            None => report(app).len() == app.outcomes.len(),
        },
{
}

/// A session that is over has one outcome for each label, in order, unless the
/// daemon could not be used, in which case it has none and says why.
pub proof fn finished_sessions_account_for_every_label(session: Session)
    requires
        session.wf(),
        session.next() is Finished,
    ensures
        session.in_order(),
        session.shown().phase is Done,
        match session.shown().finished {
            Some(text) => {
                ||| session.shown().outcomes.len() == session.labels().len()
                ||| session.shown().outcomes.len() == 0 && is_unreachable_reason(text)
            },
            None => false,
        },
{
}

/// Nothing is said to be finished before the session is over.
pub proof fn unfinished_sessions_say_so(session: Session)
    requires
        session.wf(),
        session.next() !is Finished,
    ensures
        session.in_order(),
        session.shown().finished is None,
        session.shown().phase !is Done,
{
}

/// A failed session never looks like a successful one: the summary starts with
/// `enrolled` exactly when some label was enrolled.
pub proof fn failed_sessions_never_look_successful(session: Session)
    requires
        session.wf(),
        session.next() is Finished,
    ensures
        session.shown().finished is Some,
        "enrolled"@.is_prefix_of(session.shown().finished->0) <==> successes(
            session.shown().outcomes,
        ) > 0,
{
    reveal_strlit("enrolled");
    reveal_strlit("enrolled ");
    reveal_strlit("nothing was enrolled.");
    reveal_strlit("could not reach visaged: ");
    reveal_strlit("could not open the Visage interface: ");
    reveal_strlit("could not subscribe to preview frames: ");
    let text = session.shown().finished->0;
    let good = successes(session.shown().outcomes);
    if good > 0 {
        assert("enrolled"@ =~= text.take(8));
    } else {
        assert(text[0] == 'n' || text[0] == 'c');
        assert("enrolled"@[0] == 'e');
    }
}

/// A label that failed is never counted: the successes are as many as the labels
/// only if every one of them succeeded.
pub proof fn successes_are_counted(outcomes: Seq<OutcomeModel>)
    ensures
        successes(outcomes) <= outcomes.len(),
        successes(outcomes) == outcomes.len() <==> forall|i: int|
            0 <= i < outcomes.len() ==> (#[trigger] outcomes[i]).ok,
        successes(outcomes) == 0 <==> forall|i: int|
            0 <= i < outcomes.len() ==> !(#[trigger] outcomes[i]).ok,
    decreases outcomes.len(),
{
    if outcomes.len() > 0 {
        let prefix = outcomes.drop_last();
        successes_are_counted(prefix);
        let last = outcomes.len() - 1;
        assert(outcomes[last] == outcomes.last());
        assert forall|i: int| 0 <= i < prefix.len() implies #[trigger] prefix[i]
            == outcomes[i] by {}
        if successes(outcomes) == outcomes.len() {
            assert forall|i: int| 0 <= i < outcomes.len() implies (#[trigger] outcomes[i]).ok by {
                if i < last {
                    assert(prefix[i].ok);
                }
            }
        }
        if successes(outcomes) == 0 {
            assert forall|i: int| 0 <= i < outcomes.len() implies !(#[trigger] outcomes[i]).ok by {
                if i < last {
                    assert(!prefix[i].ok);
                }
            }
        }
    }
}

/// The line on an outcome is its mark, its label and its detail, in that order, and the
/// lines follow the outcomes.
pub proof fn reports_follow_the_outcomes(app: AppModel, i: int)
    requires
        0 <= i < app.outcomes.len(),
    ensures
        report(app).len() >= app.outcomes.len(),
        app.outcomes[i].ok ==> report(app)[i] == "ok      "@ + app.outcomes[i].label + ": "@
            + app.outcomes[i].detail,
        !app.outcomes[i].ok ==> report(app)[i] == "FAILED  "@ + app.outcomes[i].label + ": "@
            + app.outcomes[i].detail,
{
    reveal_strlit("ok    ");
    reveal_strlit("ok      ");
    reveal_strlit("FAILED");
    reveal_strlit("FAILED  ");
    reveal_strlit("  ");
    assert("ok    "@ + "  "@ =~= "ok      "@);
    assert("FAILED"@ + "  "@ =~= "FAILED  "@);
}

/// Successes add up outcome by outcome.
pub proof fn successes_add_up(
    a: Seq<OutcomeModel>,
    b: Seq<OutcomeModel>,
    outcome: OutcomeModel,
)
    ensures
        successes(Seq::empty()) == 0,
        successes(seq![outcome]) == if outcome.ok {
            1nat
        } else {
            0nat
        },
        successes(a + b) == successes(a) + successes(b),
    decreases b.len(),
{
    let one = seq![outcome];
    assert(one.drop_last() =~= Seq::empty());
    assert(successes(one.drop_last()) == 0);
    if b.len() == 0 {
        assert(a + b =~= a);
    } else {
        assert((a + b).drop_last() =~= a + b.drop_last());
        successes_add_up(a, b.drop_last(), outcome);
    }
}

/// The summary tells how many of how many were enrolled, in both front-ends alike; only
/// the terminal adds for whom. Without a success it says so instead.
pub proof fn summaries_tell_both_counts(good: nat, total: nat)
    ensures
        summary(FrontEnd::Terminal, 0, total) == "nothing was enrolled."@,
        summary(FrontEnd::Window, 0, total) == "nothing was enrolled."@,
        good > 0 ==> summary(FrontEnd::Terminal, good, total) == "enrolled "@ + decimal(good)
            + " of "@ + decimal(total) + " angles for this user."@,
        good > 0 ==> summary(FrontEnd::Window, good, total) == "enrolled "@ + decimal(good)
            + " of "@ + decimal(total) + " angles."@,
{
}

/// While a label is being enrolled, the session shows that label, its number counted
/// from one, and how many there are; as many outcomes are in as labels came before it.
pub proof fn sessions_show_the_label_they_enroll(session: Session, i: usize)
    requires
        session.wf(),
        session.next() == SessionStep::Enroll(i),
    ensures
        i < session.labels().len(),
        session.shown().outcomes.len() == i,
        session.shown().phase == (PhaseModel::Capturing {
            label: session.labels()[i as int],
            n: (i + 1) as usize,
            total: session.labels().len() as usize,
        }),
        i + 1 <= usize::MAX,
        session.labels().len() <= usize::MAX,
{
    assert(session.labels@.len() == session.labels.len());
}

/// A session enrolls the first label that has no outcome, and is over once every label
/// has one.
pub proof fn sessions_take_the_next_label(total: nat, outcomes: Seq<OutcomeModel>)
    requires
        total <= usize::MAX,
    ensures
        outcomes.len() < total ==> session_step(total, outcomes) == SessionStep::Enroll(
            outcomes.len() as usize,
        ),
        outcomes.len() >= total ==> session_step(total, outcomes) is Finished,
{
}

/// A session that went through all of its labels says how many of them succeeded.
pub proof fn finished_sessions_count_their_successes(session: Session)
    requires
        session.wf(),
        session.next() is Finished,
        session.shown().outcomes.len() > 0,
    ensures
        session.shown().outcomes.len() == session.labels().len(),
        session.shown().finished == Some(
            summary(
                session.front_end(),
                successes(session.shown().outcomes),
                session.labels().len(),
            ),
        ),
{
}

/// What is shown keeps the frame and the outcomes that there are; only the phase and
/// the closing words follow from them.
pub proof fn views_keep_what_there_is(
    front_end: FrontEnd,
    labels: Seq<Seq<char>>,
    frame: Option<Preview>,
    outcomes: Seq<OutcomeModel>,
    reason: Seq<char>,
)
    ensures
        session_view(front_end, labels, frame, outcomes).frame == frame,
        session_view(front_end, labels, frame, outcomes).outcomes == outcomes,
        outcomes.len() < labels.len() <==> session_view(
            front_end,
            labels,
            frame,
            outcomes,
        ).finished is None,
        outcomes.len() >= labels.len() <==> session_view(
            front_end,
            labels,
            frame,
            outcomes,
        ).phase is Done,
        connecting_view(frame).frame == frame,
        connecting_view(frame).phase is Connecting,
        connecting_view(frame).outcomes.len() == 0,
        connecting_view(frame).finished is None,
        unreachable_view(frame, reason).frame == frame,
        unreachable_view(frame, reason).phase is Done,
        unreachable_view(frame, reason).outcomes.len() == 0,
        unreachable_view(frame, reason).finished == Some(reason),
{
}

/// What is shown holds each outcome as it is, in order.
pub proof fn views_hold_every_outcome(app: App, i: int)
    requires
        0 <= i < app.outcomes@.len(),
    ensures
        app@.outcomes.len() == app.outcomes@.len(),
        app@.outcomes[i].label == app.outcomes@[i].label@,
        app@.outcomes[i].ok == app.outcomes@[i].ok,
        app@.outcomes[i].detail == app.outcomes@[i].detail@,
        app@.frame == app.frame,
        app@.finished is Some <==> app.finished is Some,
        app.finished matches Some(text) ==> app@.finished == Some(text@),
{
}

/// Framing makes every enrollment slower than the ten seconds that a call usually has:
/// a call has a minute.
pub proof fn calls_have_a_minute()
    ensures
        METHOD_TIMEOUT_SECS == 60,
{
}

} // verus!

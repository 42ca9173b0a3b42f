//! The automatizer: scheduled greetings to subscribed chats.
//!
//! Everything that decides lives here — which jobs exist and when they
//! fire, which category a firing job resolves, who the audience is, and
//! how delivery walks the audience without letting one failure stop the
//! rest. The timers, the fetches and the sends run in the application
//! around the library, which drives these state machines.

use vstd::prelude::*;

use crate::answer::{happy_birthday_answer, Answer, AnswerBuilder, Content};
use crate::date::Date;
use crate::greeting::{greeting_of_the_day, greeting_of_the_day_spec, Greeting};
use crate::store::{ChatId, Repository, RepositoryError};

verus! {

/// The automatizer's core: the subscription store, plus the scheduling
/// and dispatch rules. The application wires it to its timers and its
/// chat transport, and mirrors successful store changes into durable
/// storage.
pub struct Automatizer {
    repository: Repository,
}

impl Automatizer {
    pub closed spec fn repo(self) -> Repository {
        self.repository
    }

    /// Start the automatizer over a loaded store.
    pub fn start(repository: Repository) -> (r: Automatizer)
        requires
            repository.wf(),
        ensures
            r.repo() == repository,
            r.repo().wf(),
    {
        Automatizer { repository }
    }

    /// Subscribe a chat to the automatizer.
    pub fn subscribe(&mut self, chat: &ChatId) -> (r: Result<(), RepositoryError>)
        requires
            old(self).repo().wf(),
        ensures
            final(self).repo().wf(),
            match r {
                Ok(()) => {
                    &&& !old(self).repo().subscribed(chat.0)
                    &&& final(self).repo().chat_rows().len() == old(self).repo().chat_rows().len()
                        + 1
                    &&& forall|i: int|
                        0 <= i < old(self).repo().chat_rows().len() ==> final(self).repo().chat_rows()[i] == old(self).repo().chat_rows()[i]
                    &&& final(self).repo().chat_rows().last().0 == chat.0
                    &&& final(self).repo().birthday_rows() == old(self).repo().birthday_rows()
                },
                Err(e) => {
                    &&& e == RepositoryError::AlreadySubscribed
                    &&& old(self).repo().subscribed(chat.0)
                    &&& final(self).repo().chat_rows() == old(self).repo().chat_rows()
                    &&& final(self).repo().birthday_rows() == old(self).repo().birthday_rows()
                },
            },
    {
        self.repository.insert_chat(*chat)
    }

    /// Unsubscribe a chat: its birthdays are deleted first, then its
    /// subscription. Unsubscribing a chat that was never subscribed is an
    /// idempotent success — both tables are simply left without the chat.
    pub fn unsubscribe(&mut self, chat: &ChatId)
        requires
            old(self).repo().wf(),
        ensures
            final(self).repo().wf(),
            final(self).repo().birthday_rows() == old(self).repo().birthday_rows().filter(
                crate::store::birthday_row_kept(chat.0),
            ),
            final(self).repo().chat_rows() == old(self).repo().chat_rows().filter(
                crate::store::chat_row_kept(chat.0),
            ),
    {
        self.repository.delete_birthday_by_chat(*chat);
        proof {
            crate::store::lemma_unsubscribe_cascade(old(self).repo(), self.repo(), chat.0);
        }
        self.repository.delete_chat(*chat);
    }

    /// Register a birthday for a chat. Fails with `NotSubscribed` when the
    /// chat holds no subscription, with `DuplicateBirthday` on a repeated
    /// (chat, name, date) triple, and succeeds exactly otherwise.
    pub fn add_birthday(&mut self, chat: &ChatId, name: String, date: Date) -> (r: Result<
        (),
        RepositoryError,
    >)
        requires
            old(self).repo().wf(),
            date.wf(),
        ensures
            final(self).repo().wf(),
            match r {
                Ok(()) => {
                    &&& old(self).repo().subscribed(chat.0)
                    &&& !old(self).repo().has_birthday((chat.0, name@, date))
                    &&& final(self).repo().birthday_rows().len() == old(self).repo().birthday_rows().len() + 1
                    &&& forall|i: int|
                        0 <= i < old(self).repo().birthday_rows().len() ==> final(self).repo().birthday_rows()[i] == old(self).repo().birthday_rows()[i]
                    &&& final(self).repo().birthday_rows().last().0 == chat.0
                    &&& final(self).repo().birthday_rows().last().1 == name@
                    &&& final(self).repo().birthday_rows().last().2 == date
                    &&& final(self).repo().chat_rows() == old(self).repo().chat_rows()
                },
                Err(e) => {
                    &&& final(self).repo().birthday_rows() == old(self).repo().birthday_rows()
                    &&& final(self).repo().chat_rows() == old(self).repo().chat_rows()
                    &&& match e {
                        RepositoryError::NotSubscribed => !old(self).repo().subscribed(chat.0),
                        RepositoryError::DuplicateBirthday => old(self).repo().subscribed(chat.0)
                            && old(self).repo().has_birthday((chat.0, name@, date)),
                        _ => false,
                    }
                },
            },
    {
        self.repository.insert_birthday(*chat, name, date)
    }

    /// The audience of every non-birthday job: all subscribed chats.
    pub fn subscribed_chats(&self) -> (r: Vec<ChatId>)
        ensures
            r@.len() == self.repo().chat_rows().len(),
            forall|i: int| 0 <= i < r@.len() ==> (#[trigger] r@[i]).0 == self.repo().chat_ids()[i],
    {
        self.repository.get_subscribed_chats()
    }

    /// The audience of the birthday job: the registered birthdays falling
    /// on today's month and day, whatever their year.
    pub fn today_birthdays(&self, today: Date) -> (r: Vec<(ChatId, String, Date)>)
        ensures
            ({
                let m = self.repo().birthday_rows().filter(crate::store::birthday_row_on(today));
                r@.len() == m.len() && forall|i: int|
                    0 <= i < r@.len() ==> (#[trigger] r@[i]).0.0 == m[i].0 && r@[i].1@ == m[i].1
                        && r@[i].2 == m[i].2
            }),
    {
        self.repository.birthdays_on(today)
    }

    /// The whole dispatch of one resolved image, planned: who receives
    /// what. The birthday job wishes each of today's birthdays by name
    /// under the day's image; every other job sends the image alone to
    /// every subscribed chat.
    pub fn dispatch_plan(&self, kind: JobKind, today: Date, image_url: String) -> (r: Vec<
        (ChatId, Answer),
    >)
        ensures
            match kind {
                JobKind::HappyBirthday => ({
                    let m = self.repo().birthday_rows().filter(
                        crate::store::birthday_row_on(today),
                    );
                    r@.len() == m.len() && forall|i: int|
                        0 <= i < r@.len() ==> birthday_plan_entry(#[trigger] r@[i], m[i], image_url@)
                }),
                _ => r@.len() == self.repo().chat_rows().len() && forall|i: int|
                    0 <= i < r@.len() ==> greeting_plan_entry(
                        #[trigger] r@[i],
                        self.repo().chat_ids()[i],
                        image_url@,
                    ),
            },
    {
        let mut plan: Vec<(ChatId, Answer)> = Vec::new();
        match kind {
            JobKind::HappyBirthday => {
                let birthdays = self.today_birthdays(today);
                let ghost m = self.repo().birthday_rows().filter(
                    crate::store::birthday_row_on(today),
                );
                let mut i: usize = 0;
                while i < birthdays.len()
                    invariant
                        i <= birthdays@.len(),
                        plan@.len() == i,
                        birthdays@.len() == m.len(),
                        forall|j: int|
                            0 <= j < birthdays@.len() ==> (#[trigger] birthdays@[j]).0.0 == m[j].0
                                && birthdays@[j].1@ == m[j].1 && birthdays@[j].2 == m[j].2,
                        forall|j: int|
                            0 <= j < i ==> birthday_plan_entry(#[trigger] plan@[j], m[j], image_url@),
                    decreases birthdays@.len() - i,
                {
                    let chat = birthdays[i].0;
                    let answer = happy_birthday_answer(image_url.clone(), birthdays[i].1.as_str());
                    plan.push((chat, answer));
                    i += 1;
                }
                plan
            },
            _ => {
                let chats = self.subscribed_chats();
                let mut i: usize = 0;
                while i < chats.len()
                    invariant
                        i <= chats@.len(),
                        plan@.len() == i,
                        chats@.len() == self.repo().chat_rows().len(),
                        forall|j: int|
                            0 <= j < chats@.len() ==> (#[trigger] chats@[j]).0
                                == self.repo().chat_ids()[j],
                        forall|j: int|
                            0 <= j < i ==> greeting_plan_entry(
                                #[trigger] plan@[j],
                                self.repo().chat_ids()[j],
                                image_url@,
                            ),
                    decreases chats@.len() - i,
                {
                    let chat = chats[i];
                    let answer = AnswerBuilder::default().image(image_url.clone()).finalize();
                    plan.push((chat, answer));
                    proof {
                        assert(answer.script()[0] == Content::Image(image_url));
                    }
                    i += 1;
                }
                plan
            },
        }
    }

    /// Read access to the store, for persistence snapshots.
    pub fn repository(&self) -> (r: &Repository)
        ensures
            *r == self.repo(),
    {
        &self.repository
    }
}

/// One planned birthday delivery: the row's chat receives the day's
/// image and the wish naming the row's name.
pub open spec fn birthday_plan_entry(
    entry: (ChatId, Answer),
    row: (i64, Seq<char>, Date, Seq<char>),
    url: Seq<char>,
) -> bool {
    &&& entry.0.0 == row.0
    &&& entry.1.script().len() == 2
    &&& entry.1.script()[0] matches Content::Image(u) && u@ == url
    &&& entry.1.script()[1] matches Content::Text(t) && t@ == "Buon compleanno "@ + row.1 + "!"@
}

/// One planned greeting delivery: the chat receives the day's image
/// alone.
pub open spec fn greeting_plan_entry(entry: (ChatId, Answer), chat: i64, url: Seq<char>) -> bool {
    &&& entry.0.0 == chat
    &&& entry.1.script().len() == 1
    &&& entry.1.script()[0] matches Content::Image(u) && u@ == url
}

/// The scheduled jobs, one per daily trigger.
#[derive(Debug, Clone, Copy, PartialEq, Eq, Structural)]
pub enum JobKind {
    HappyBirthday,
    GoodMorning,
    GoodLunch,
    GoodAfternoon,
    GoodEvening,
    GoodDinner,
    GoodNight,
}

/// The fixed cron trigger (second, minute, hour, day, month, weekday) of
/// each job. The expressions are fixed at start-up; there is no dynamic
/// rescheduling.
pub fn cron_schedule() -> (r: Vec<(JobKind, &'static str)>)
    ensures
        r@.len() == 7,
        r@[0].0 == JobKind::HappyBirthday && r@[0].1@ == "0 30 8 * * *"@,
        r@[1].0 == JobKind::GoodMorning && r@[1].1@ == "0 30 6 * * *"@,
        r@[2].0 == JobKind::GoodLunch && r@[2].1@ == "0 30 12 * * *"@,
        r@[3].0 == JobKind::GoodAfternoon && r@[3].1@ == "0 40 12 * * *"@,
        r@[4].0 == JobKind::GoodEvening && r@[4].1@ == "0 30 18 * * *"@,
        r@[5].0 == JobKind::GoodDinner && r@[5].1@ == "0 0 20 * * *"@,
        r@[6].0 == JobKind::GoodNight && r@[6].1@ == "0 30 21 * * *"@,
{
    let mut v: Vec<(JobKind, &'static str)> = Vec::new();
    v.push((JobKind::HappyBirthday, "0 30 8 * * *"));
    v.push((JobKind::GoodMorning, "0 30 6 * * *"));
    v.push((JobKind::GoodLunch, "0 30 12 * * *"));
    v.push((JobKind::GoodAfternoon, "0 40 12 * * *"));
    v.push((JobKind::GoodEvening, "0 30 18 * * *"));
    v.push((JobKind::GoodDinner, "0 0 20 * * *"));
    v.push((JobKind::GoodNight, "0 30 21 * * *"));
    v
}

/// The greeting category a job resolves on firing. The morning job
/// consults the holiday calendar and the caller's coin; every other job
/// is fixed.
pub open spec fn job_category_spec(kind: JobKind, today: Date, use_weekday: bool) -> Greeting {
    match kind {
        JobKind::HappyBirthday => Greeting::Compleanno,
        JobKind::GoodMorning => greeting_of_the_day_spec(today, use_weekday),
        JobKind::GoodLunch => Greeting::BuonPranzo,
        JobKind::GoodAfternoon => Greeting::BuonPomeriggio,
        JobKind::GoodEvening => Greeting::BuonaSerata,
        JobKind::GoodDinner => Greeting::BuonaCena,
        JobKind::GoodNight => Greeting::BuonaNotte,
    }
}

pub fn job_category(kind: JobKind, today: Date, use_weekday: bool) -> (g: Greeting)
    ensures
        g == job_category_spec(kind, today, use_weekday),
{
    match kind {
        JobKind::HappyBirthday => Greeting::Compleanno,
        JobKind::GoodMorning => greeting_of_the_day(today, use_weekday),
        JobKind::GoodLunch => Greeting::BuonPranzo,
        JobKind::GoodAfternoon => Greeting::BuonPomeriggio,
        JobKind::GoodEvening => Greeting::BuonaSerata,
        JobKind::GoodDinner => Greeting::BuonaCena,
        JobKind::GoodNight => Greeting::BuonaNotte,
    }
}

/// Where one job's cycle stands.
#[derive(Debug, Clone, Copy, PartialEq, Eq, Structural)]
pub enum JobPhase {
    Idle,
    Resolving,
    Dispatching,
}

/// One scheduled job's cycle: `Idle -> Resolving -> Dispatching -> Idle`,
/// driven by its trigger. A cycle whose resolution fails returns to idle
/// without dispatching: no partial audience is contacted on total
/// resolution failure.
pub struct JobCycle {
    kind: JobKind,
    phase: JobPhase,
    category: Option<Greeting>,
}

impl JobCycle {
    pub closed spec fn kind(self) -> JobKind {
        self.kind
    }

    pub closed spec fn phase(self) -> JobPhase {
        self.phase
    }

    pub closed spec fn category(self) -> Option<Greeting> {
        self.category
    }

    pub fn new(kind: JobKind) -> (r: JobCycle)
        ensures
            r.kind() == kind,
            r.phase() is Idle,
    {
        JobCycle { kind, phase: JobPhase::Idle, category: None }
    }

    /// The trigger fired: pick the category this cycle will resolve.
    pub fn fire(&mut self, today: Date, use_weekday: bool) -> (g: Greeting)
        requires
            old(self).phase() is Idle,
        ensures
            final(self).phase() is Resolving,
            final(self).kind() == old(self).kind(),
            g == job_category_spec(old(self).kind(), today, use_weekday),
            final(self).category() == Some(g),
    {
        let g = job_category(self.kind, today, use_weekday);
        self.phase = JobPhase::Resolving;
        self.category = Some(g);
        g
    }

    /// Resolution failed: the cycle is skipped, nothing is dispatched.
    pub fn resolution_failed(&mut self)
        requires
            old(self).phase() is Resolving,
        ensures
            final(self).phase() is Idle,
            final(self).kind() == old(self).kind(),
            final(self).category() is None,
    {
        self.phase = JobPhase::Idle;
        self.category = None;
    }

    /// Resolution succeeded: the cycle proceeds to dispatch.
    pub fn resolved(&mut self)
        requires
            old(self).phase() is Resolving,
        ensures
            final(self).phase() is Dispatching,
            final(self).kind() == old(self).kind(),
            final(self).category() == old(self).category(),
    {
        self.phase = JobPhase::Dispatching;
    }

    /// Dispatch finished (failures and all): back to idle for the next
    /// trigger.
    pub fn dispatched(&mut self)
        requires
            old(self).phase() is Dispatching,
        ensures
            final(self).phase() is Idle,
            final(self).kind() == old(self).kind(),
    {
        self.phase = JobPhase::Idle;
        self.category = None;
    }
}

/// One dispatch cycle over an audience. Delivery to each recipient is
/// attempted independently: recording a failed delivery advances past the
/// recipient exactly as a success does, so one chat's failure never
/// aborts the remaining audience.
pub struct DispatchRun {
    audience: Vec<ChatId>,
    next: usize,
    outcomes: Vec<bool>,
}

impl DispatchRun {
    pub closed spec fn audience(self) -> Seq<ChatId> {
        self.audience@
    }

    /// How many recipients have been attempted so far.
    pub closed spec fn attempted(self) -> int {
        self.next as int
    }

    /// The recorded outcome of each attempted delivery, in audience order.
    pub closed spec fn outcomes(self) -> Seq<bool> {
        self.outcomes@
    }

    pub closed spec fn wf(self) -> bool {
        self.next <= self.audience@.len() && self.outcomes@.len() == self.next
    }

    pub fn new(audience: Vec<ChatId>) -> (r: DispatchRun)
        ensures
            r.wf(),
            r.audience() == audience@,
            r.attempted() == 0,
            r.outcomes().len() == 0,
    {
        DispatchRun { audience, next: 0, outcomes: Vec::new() }
    }

    /// The next recipient to attempt, `None` once all were attempted.
    pub fn next_recipient(&self) -> (r: Option<ChatId>)
        requires
            self.wf(),
        ensures
            if self.attempted() < self.audience().len() {
                r == Some(self.audience()[self.attempted()])
            } else {
                r is None
            },
    {
        if self.next < self.audience.len() {
            Some(self.audience[self.next])
        } else {
            None
        }
    }

    /// Record the pending delivery's outcome. The run advances by exactly
    /// one recipient whether the delivery succeeded or failed.
    pub fn record(&mut self, delivered: bool)
        requires
            old(self).wf(),
            old(self).attempted() < old(self).audience().len(),
        ensures
            final(self).wf(),
            final(self).audience() == old(self).audience(),
            final(self).attempted() == old(self).attempted() + 1,
            final(self).outcomes() == old(self).outcomes().push(delivered),
    {
        self.outcomes.push(delivered);
        // the audience length bounds `next`, so the increment cannot overflow
        let _n = self.audience.len();
        self.next = self.next + 1;
    }

    /// How many recipients have been attempted, for indexing.
    pub fn attempted_exec(&self) -> (r: usize)
        ensures
            r == self.attempted(),
    {
        self.next
    }

    /// Whether every recipient has been attempted.
    pub fn finished(&self) -> (r: bool)
        requires
            self.wf(),
        ensures
            r == (self.attempted() == self.audience().len()),
    {
        self.next == self.audience.len()
    }
}

/// Run a whole dispatch against a fixed outcome table: `outcomes[i]` is
/// whether delivery to the `i`-th recipient succeeds. The run attempts
/// every recipient of the audience, whatever failures the table holds —
/// delivery failures are isolated per recipient. The application instead
/// drives [`DispatchRun`] send by send.
pub fn dispatch_with_outcomes(audience: Vec<ChatId>, outcomes: &Vec<bool>) -> (r: DispatchRun)
    requires
        outcomes@.len() == audience@.len(),
    ensures
        r.wf(),
        r.audience() == audience@,
        r.attempted() == audience@.len(),
        r.outcomes() == outcomes@,
{
    let ghost aud = audience@;
    let mut run = DispatchRun::new(audience);
    loop
        invariant_except_break
            run.wf(),
            run.audience() == aud,
            outcomes@.len() == aud.len(),
            run.outcomes() == outcomes@.take(run.attempted()),
        ensures
            run.wf(),
            run.audience() == aud,
            run.attempted() == aud.len(),
            run.outcomes() == outcomes@.take(run.attempted()),
        decreases aud.len() - run.attempted(),
    {
        if run.finished() {
            break;
        }
        let idx: usize = run.attempted_exec();
        run.record(outcomes[idx]);
        proof {
            assert(outcomes@.take(run.attempted()).drop_last() =~= outcomes@.take(
                run.attempted() - 1,
            ));
            assert(run.outcomes() =~= outcomes@.take(run.attempted()));
        }
    }
    proof {
        assert(outcomes@.take(aud.len() as int) =~= outcomes@);
    }
    run
}

/// Where the scheduler stands between start-up and shutdown.
#[derive(Debug, Clone, Copy, PartialEq, Eq, Structural)]
pub enum SchedulerPhase {
    /// Triggers fire and new cycles begin.
    Accepting,
    /// Shutdown was requested: in-flight cycles finish, no new cycle
    /// begins.
    Draining,
    /// All triggers cancelled.
    Stopped,
}

/// The scheduler's lifecycle: an explicit shutdown drains in-flight
/// cycles with a bounded wait, after which the owner forces the stop
/// regardless.
pub struct Lifecycle {
    phase: SchedulerPhase,
    in_flight: usize,
}

impl Lifecycle {
    pub closed spec fn phase(self) -> SchedulerPhase {
        self.phase
    }

    pub closed spec fn in_flight(self) -> int {
        self.in_flight as int
    }

    pub fn new() -> (r: Lifecycle)
        ensures
            r.phase() is Accepting,
            r.in_flight() == 0,
    {
        Lifecycle { phase: SchedulerPhase::Accepting, in_flight: 0 }
    }

    /// A trigger fired: the cycle may begin only while the scheduler
    /// accepts work.
    pub fn try_begin_cycle(&mut self) -> (r: bool)
        requires
            old(self).in_flight() < usize::MAX,
        ensures
            final(self).phase() == old(self).phase(),
            r == (old(self).phase() is Accepting),
            final(self).in_flight() == if r {
                old(self).in_flight() + 1
            } else {
                old(self).in_flight()
            },
    {
        match self.phase {
            SchedulerPhase::Accepting => {
                self.in_flight = self.in_flight + 1;
                true
            },
            _ => false,
        }
    }

    /// A cycle finished, successfully or not.
    pub fn cycle_finished(&mut self)
        requires
            old(self).in_flight() > 0,
        ensures
            final(self).phase() == old(self).phase(),
            final(self).in_flight() == old(self).in_flight() - 1,
    {
        self.in_flight = self.in_flight - 1;
    }

    /// How many cycles are in flight.
    pub fn in_flight_now(&self) -> (r: usize)
        ensures
            r == self.in_flight(),
    {
        self.in_flight
    }

    /// Ask for a clean shutdown: no new cycle begins from here on.
    pub fn begin_shutdown(&mut self)
        requires
            old(self).phase() is Accepting,
        ensures
            final(self).phase() is Draining,
            final(self).in_flight() == old(self).in_flight(),
    {
        self.phase = SchedulerPhase::Draining;
    }

    /// The drain is complete: stop once nothing is in flight any more.
    pub fn finish_shutdown(&mut self)
        requires
            old(self).phase() is Draining,
            old(self).in_flight() == 0,
        ensures
            final(self).phase() is Stopped,
            final(self).in_flight() == 0,
    {
        self.phase = SchedulerPhase::Stopped;
    }

    /// The bounded wait elapsed: stop regardless of in-flight cycles.
    pub fn force_stop(&mut self)
        ensures
            final(self).phase() is Stopped,
            final(self).in_flight() == old(self).in_flight(),
    {
        self.phase = SchedulerPhase::Stopped;
    }
}

} // verus!

use buongiorno_caffe_bot::answer::Content;
use buongiorno_caffe_bot::automatize::{
    cron_schedule, dispatch_with_outcomes, job_category, Automatizer, DispatchRun, JobCycle,
    JobKind, Lifecycle,
};
use buongiorno_caffe_bot::date::Date;
use buongiorno_caffe_bot::greeting::Greeting;
use buongiorno_caffe_bot::store::{ChatId, Repository};

fn date(y: u32, m: u32, d: u32) -> Date {
    Date::new(y, m, d).unwrap()
}

#[test]
fn birthday_audience_follows_the_calendar() {
    let repository = Repository::new();
    let mut automatizer = Automatizer::start(repository);
    assert!(automatizer.subscribe(&ChatId(42)).is_ok());
    assert!(automatizer
        .add_birthday(&ChatId(42), "Anna".to_string(), date(1990, 5, 30))
        .is_ok());
    // on the birthday's month and day the chat is in the audience,
    // whatever the stored year
    let on_the_day = automatizer.today_birthdays(date(2024, 5, 30));
    assert_eq!(on_the_day.len(), 1);
    assert_eq!(on_the_day[0].0, ChatId(42));
    assert_eq!(on_the_day[0].1, "Anna");
    // on any other day it is excluded
    assert!(automatizer.today_birthdays(date(2024, 5, 31)).is_empty());
    assert!(automatizer.today_birthdays(date(2024, 6, 30)).is_empty());
}

#[test]
fn schedule_holds_the_seven_daily_triggers() {
    let schedule = cron_schedule();
    assert_eq!(schedule.len(), 7);
    assert_eq!(schedule[0], (JobKind::HappyBirthday, "0 30 8 * * *"));
    assert_eq!(schedule[1], (JobKind::GoodMorning, "0 30 6 * * *"));
    assert_eq!(schedule[2], (JobKind::GoodLunch, "0 30 12 * * *"));
    assert_eq!(schedule[3], (JobKind::GoodAfternoon, "0 40 12 * * *"));
    assert_eq!(schedule[4], (JobKind::GoodEvening, "0 30 18 * * *"));
    assert_eq!(schedule[5], (JobKind::GoodDinner, "0 0 20 * * *"));
    assert_eq!(schedule[6], (JobKind::GoodNight, "0 30 21 * * *"));
}

#[test]
fn jobs_resolve_their_categories() {
    let today = date(2022, 12, 5);
    assert_eq!(
        job_category(JobKind::HappyBirthday, today, false),
        Greeting::Compleanno
    );
    assert_eq!(
        job_category(JobKind::GoodMorning, today, false),
        Greeting::BuonGiorno
    );
    assert_eq!(
        job_category(JobKind::GoodMorning, date(2024, 12, 25), false),
        Greeting::Natale
    );
    assert_eq!(
        job_category(JobKind::GoodLunch, today, false),
        Greeting::BuonPranzo
    );
    assert_eq!(
        job_category(JobKind::GoodNight, today, true),
        Greeting::BuonaNotte
    );
}

#[test]
fn a_failed_resolution_skips_the_cycle() {
    let mut cycle = JobCycle::new(JobKind::GoodEvening);
    let category = cycle.fire(date(2022, 12, 5), false);
    assert_eq!(category, Greeting::BuonaSerata);
    cycle.resolution_failed();
    // the cycle is idle again and can fire on the next trigger
    let category = cycle.fire(date(2022, 12, 6), false);
    assert_eq!(category, Greeting::BuonaSerata);
    cycle.resolved();
    cycle.dispatched();
}

#[test]
fn dispatch_attempts_every_recipient_past_a_failure() {
    let audience = vec![ChatId(1), ChatId(2), ChatId(3)];
    let mut run = DispatchRun::new(audience);
    // first delivery succeeds
    assert_eq!(run.next_recipient(), Some(ChatId(1)));
    run.record(true);
    // second delivery raises a transport error
    assert_eq!(run.next_recipient(), Some(ChatId(2)));
    run.record(false);
    // the third recipient is still attempted and completed
    assert_eq!(run.next_recipient(), Some(ChatId(3)));
    run.record(true);
    assert!(run.finished());
    assert_eq!(run.next_recipient(), None);
}

#[test]
fn dispatch_with_fixed_outcomes_covers_the_audience() {
    let audience = vec![ChatId(10), ChatId(20), ChatId(30), ChatId(40)];
    let outcomes = vec![true, false, false, true];
    let run = dispatch_with_outcomes(audience, &outcomes);
    assert!(run.finished());
}

#[test]
fn shutdown_drains_before_stopping() {
    let mut lifecycle = Lifecycle::new();
    assert!(lifecycle.try_begin_cycle());
    lifecycle.begin_shutdown();
    // no new cycle begins while draining
    assert!(!lifecycle.try_begin_cycle());
    lifecycle.cycle_finished();
    lifecycle.finish_shutdown();
    assert!(!lifecycle.try_begin_cycle());
}

#[test]
fn bounded_wait_forces_the_stop() {
    let mut lifecycle = Lifecycle::new();
    assert!(lifecycle.try_begin_cycle());
    lifecycle.begin_shutdown();
    // the in-flight cycle never finishes; the bounded wait elapses
    lifecycle.force_stop();
    assert!(!lifecycle.try_begin_cycle());
}

#[test]
fn dispatch_plans_pair_recipients_with_their_answers() {
    let repository = Repository::new();
    let mut automatizer = Automatizer::start(repository);
    assert!(automatizer.subscribe(&ChatId(1)).is_ok());
    assert!(automatizer.subscribe(&ChatId(2)).is_ok());
    assert!(automatizer
        .add_birthday(&ChatId(1), "Anna".to_string(), date(1990, 5, 30))
        .is_ok());

    let plan = automatizer.dispatch_plan(
        JobKind::HappyBirthday,
        date(2024, 5, 30),
        "https://example.org/cake.jpg".to_string(),
    );
    assert_eq!(plan.len(), 1);
    assert_eq!(plan[0].0, ChatId(1));
    let parts = plan[0].1.parts();
    assert!(matches!(&parts[0], Content::Image(u) if u == "https://example.org/cake.jpg"));
    assert!(matches!(&parts[1], Content::Text(t) if t == "Buon compleanno Anna!"));

    let plan = automatizer.dispatch_plan(
        JobKind::GoodNight,
        date(2024, 5, 30),
        "https://example.org/night.jpg".to_string(),
    );
    assert_eq!(plan.len(), 2);
    assert_eq!(plan[0].0, ChatId(1));
    assert_eq!(plan[1].0, ChatId(2));
    for entry in &plan {
        let parts = entry.1.parts();
        assert_eq!(parts.len(), 1);
        assert!(matches!(&parts[0], Content::Image(u) if u == "https://example.org/night.jpg"));
    }
}

use buongiorno_caffe_bot::date::{parse_date, Date, Weekday};
use buongiorno_caffe_bot::greeting::{greeting_of_the_day, Greeting};
use buongiorno_caffe_bot::ilmondodigrazia::IlMondoDiGrazia;

fn date(y: u32, m: u32, d: u32) -> Date {
    Date::new(y, m, d).unwrap()
}

#[test]
fn dates_render_sortable() {
    assert_eq!(date(1997, 5, 30).to_sortable_string(), "1997-05-30");
    assert_eq!(date(2024, 12, 1).to_sortable_string(), "2024-12-01");
    assert_eq!(date(1, 1, 1).to_sortable_string(), "0001-01-01");
}

#[test]
fn parsing_inverts_rendering() {
    for d in [
        date(1997, 5, 30),
        date(2024, 2, 29),
        date(9999, 12, 31),
        date(1, 1, 1),
    ] {
        assert_eq!(parse_date(&d.to_sortable_string()), Some(d));
    }
}

#[test]
fn parsing_rejects_malformed_text() {
    assert_eq!(parse_date("1997-5-30"), None);
    assert_eq!(parse_date("1997/05/30"), None);
    assert_eq!(parse_date("abcd-ef-gh"), None);
    assert_eq!(parse_date("1997-13-01"), None);
    assert_eq!(parse_date("2023-02-29"), None);
    assert_eq!(parse_date("2024-02-30"), None);
    assert_eq!(parse_date(""), None);
    assert_eq!(parse_date("1997-05-30 "), None);
}

#[test]
fn calendar_rejects_impossible_dates() {
    assert!(Date::new(2023, 2, 29).is_none());
    assert!(Date::new(2024, 2, 29).is_some());
    assert!(Date::new(2024, 4, 31).is_none());
    assert!(Date::new(2024, 0, 1).is_none());
    assert!(Date::new(10000, 1, 1).is_none());
}

#[test]
fn holidays_override_the_morning_greeting() {
    assert_eq!(
        greeting_of_the_day(date(2024, 12, 25), false),
        Greeting::Natale
    );
    assert_eq!(
        greeting_of_the_day(date(2024, 6, 2), true),
        Greeting::FestaDellaRepubblica
    );
    assert_eq!(
        greeting_of_the_day(date(2024, 10, 31), false),
        Greeting::Halloween
    );
    // an ordinary day goes by the caller's coin
    assert_eq!(
        greeting_of_the_day(date(2022, 12, 5), false),
        Greeting::BuonGiorno
    );
    assert_eq!(
        greeting_of_the_day(date(2022, 12, 5), true),
        Greeting::BuonGiornoWeekday
    );
}

#[test]
fn provider_pages_match_their_categories() {
    assert_eq!(
        IlMondoDiGrazia::get_url(Greeting::Compleanno, Weekday::Monday).unwrap(),
        "https://ilmondodigrazia.com/compleanno"
    );
    assert_eq!(
        IlMondoDiGrazia::get_url(Greeting::Natale, Weekday::Monday).unwrap(),
        "https://ilmondodigrazia.com/frasi-di-buon-natale-immagini-da-condividere"
    );
    assert_eq!(
        IlMondoDiGrazia::get_url(Greeting::BuonGiornoWeekday, Weekday::Thursday).unwrap(),
        "https://ilmondodigrazia.com/buongiorno/buongiorno-giovedi"
    );
    // the lunch and dinner categories are not offered by this source
    assert!(IlMondoDiGrazia::get_url(Greeting::BuonPranzo, Weekday::Monday).is_none());
    assert!(IlMondoDiGrazia::get_url(Greeting::BuonaCena, Weekday::Monday).is_none());
}

#[test]
fn weekday_pages_spell_the_day_in_italian() {
    assert_eq!(
        IlMondoDiGrazia::buongiorno_weekday_url(Weekday::Sunday),
        "https://ilmondodigrazia.com/buongiorno/buongiorno-domenica"
    );
}

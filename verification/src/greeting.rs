//! Greeting categories and the calendar rule that picks the day's one.

use vstd::prelude::*;

use crate::date::Date;

verus! {

/// The kinds of greeting the bot can serve: the daily ones, the birthday
/// wish, and the fixed-date holidays the calendar knows.
#[derive(Debug, Clone, Copy, PartialEq, Eq, Structural)]
pub enum Greeting {
    BuonGiorno,
    /// Buongiorno flavoured by the weekday.
    BuonGiornoWeekday,
    BuonPomeriggio,
    BuonPranzo,
    BuonaSerata,
    BuonaCena,
    BuonaNotte,
    Compleanno,
    FestaDellaRepubblica,
    Ferragosto,
    Halloween,
    /// Primo novembre.
    Ognissanti,
    /// Refers to the 2nd of november.
    Defunti,
    /// 8 dicembre.
    ImmacolataConcenzione,
    VigiliaDiNatale,
    Natale,
}

/// The holiday greeting of a calendar date, if the date is one of the
/// fixed feast days.
pub open spec fn holiday_of(month: int, day: int) -> Option<Greeting> {
    if month == 6 && day == 2 {
        Some(Greeting::FestaDellaRepubblica)
    } else if month == 8 && day == 15 {
        Some(Greeting::Ferragosto)
    } else if month == 10 && day == 31 {
        Some(Greeting::Halloween)
    } else if month == 11 && day == 1 {
        Some(Greeting::Ognissanti)
    } else if month == 11 && day == 2 {
        Some(Greeting::Defunti)
    } else if month == 12 && day == 8 {
        Some(Greeting::ImmacolataConcenzione)
    } else if month == 12 && day == 24 {
        Some(Greeting::VigiliaDiNatale)
    } else if month == 12 && day == 25 {
        Some(Greeting::Natale)
    } else {
        None
    }
}

pub open spec fn greeting_of_the_day_spec(date: Date, use_weekday: bool) -> Greeting {
    match holiday_of(date.month as int, date.day as int) {
        Some(g) => g,
        None => if use_weekday {
            Greeting::BuonGiornoWeekday
        } else {
            Greeting::BuonGiorno
        },
    }
}

/// The greeting for the day: a holiday override on the fixed feast dates,
/// else one of the two generic morning variants as the caller's coin
/// decides.
pub fn greeting_of_the_day(date: Date, use_weekday: bool) -> (g: Greeting)
    ensures
        g == greeting_of_the_day_spec(date, use_weekday),
{
    if date.month == 6 && date.day == 2 {
        Greeting::FestaDellaRepubblica
    } else if date.month == 8 && date.day == 15 {
        Greeting::Ferragosto
    } else if date.month == 10 && date.day == 31 {
        Greeting::Halloween
    } else if date.month == 11 && date.day == 1 {
        Greeting::Ognissanti
    } else if date.month == 11 && date.day == 2 {
        Greeting::Defunti
    } else if date.month == 12 && date.day == 8 {
        Greeting::ImmacolataConcenzione
    } else if date.month == 12 && date.day == 24 {
        Greeting::VigiliaDiNatale
    } else if date.month == 12 && date.day == 25 {
        Greeting::Natale
    } else if use_weekday {
        Greeting::BuonGiornoWeekday
    } else {
        Greeting::BuonGiorno
    }
}

} // verus!

//! The in-repo scraping provider for <https://ilmondodigrazia.com>.
//!
//! The provider maps a greeting category to a page address and extracts
//! the qualifying image links from a fetched page body. The HTTP fetch
//! itself happens outside the library; HTML and URL parsing are done by
//! the scraper and url crates behind trusted seams, and the filtering rule
//! — keep only images hosted on the provider's own domain — is verified
//! here.

use vstd::prelude::*;

use crate::date::Weekday;
use crate::greeting::Greeting;
use crate::providers::ScrapeError;

verus! {

/// Scraping provider for ilmondodigrazia.com.
#[derive(Debug, Default)]
pub struct IlMondoDiGrazia;

pub open spec fn weekday_name_spec(w: Weekday) -> Seq<char> {
    match w {
        Weekday::Monday => "lunedi"@,
        Weekday::Tuesday => "martedi"@,
        Weekday::Wednesday => "mercoledi"@,
        Weekday::Thursday => "giovedi"@,
        Weekday::Friday => "venerdi"@,
        Weekday::Saturday => "sabato"@,
        Weekday::Sunday => "domenica"@,
    }
}

/// The page address serving a category, or `None` for the categories this
/// source does not offer. The weekday flavours the generic good-morning
/// page.
pub open spec fn url_for(media: Greeting, w: Weekday) -> Option<Seq<char>> {
    match media {
        Greeting::Compleanno => Some("https://ilmondodigrazia.com/compleanno"@),
        Greeting::BuonGiorno => Some("https://ilmondodigrazia.com/buongiorno"@),
        Greeting::BuonGiornoWeekday => Some(
            "https://ilmondodigrazia.com/buongiorno/buongiorno-"@ + weekday_name_spec(w),
        ),
        Greeting::BuonPomeriggio => Some("https://ilmondodigrazia.com/buon-pomeriggio"@),
        Greeting::BuonaNotte => Some("https://ilmondodigrazia.com/buonanotte"@),
        Greeting::FestaDellaRepubblica => Some(
            "https://ilmondodigrazia.com/festa/festa-della-repubblica"@,
        ),
        Greeting::Ferragosto => Some("https://ilmondodigrazia.com/buon-ferragosto"@),
        Greeting::Ognissanti => Some(
            "https://ilmondodigrazia.com/tutti-i-santi-immagini-festa-di-ognissanti"@,
        ),
        Greeting::Defunti => Some(
            "https://ilmondodigrazia.com/commemorazione-dei-defunti-2-novembre"@,
        ),
        Greeting::Halloween => Some(
            "https://ilmondodigrazia.com/halloween-31-ottobre-immagini-buongiorno"@,
        ),
        Greeting::ImmacolataConcenzione => Some(
            "https://ilmondodigrazia.com/immacolata-concezione-8-dicembre-buongiorno"@,
        ),
        Greeting::VigiliaDiNatale => Some(
            "https://ilmondodigrazia.com/buongiorno/buongiorno-vigilia-di-natale-per-il-24-dicembre"@,
        ),
        Greeting::Natale => Some(
            "https://ilmondodigrazia.com/frasi-di-buon-natale-immagini-da-condividere"@,
        ),
        _ => None,
    }
}

impl IlMondoDiGrazia {
    /// The Italian name of the weekday, as the page addresses spell it.
    pub fn weekday_name(w: Weekday) -> (r: &'static str)
        ensures
            r@ == weekday_name_spec(w),
    {
        match w {
            Weekday::Monday => "lunedi",
            Weekday::Tuesday => "martedi",
            Weekday::Wednesday => "mercoledi",
            Weekday::Thursday => "giovedi",
            Weekday::Friday => "venerdi",
            Weekday::Saturday => "sabato",
            Weekday::Sunday => "domenica",
        }
    }

    /// The weekday-flavoured good-morning page address.
    pub fn buongiorno_weekday_url(w: Weekday) -> (r: String)
        ensures
            r@ == "https://ilmondodigrazia.com/buongiorno/buongiorno-"@ + weekday_name_spec(w),
    {
        let mut s = String::from_str("https://ilmondodigrazia.com/buongiorno/buongiorno-");
        s.append(Self::weekday_name(w));
        s
    }

    /// The page address serving `media`, or `None` when this source does
    /// not offer the category.
    pub fn get_url(media: Greeting, w: Weekday) -> (r: Option<String>)
        ensures
            match r {
                Some(u) => url_for(media, w) matches Some(s) && u@ == s,
                None => url_for(media, w) is None,
            },
    {
        match media {
            Greeting::Compleanno => Some(
                String::from_str("https://ilmondodigrazia.com/compleanno"),
            ),
            Greeting::BuonGiorno => Some(
                String::from_str("https://ilmondodigrazia.com/buongiorno"),
            ),
            Greeting::BuonGiornoWeekday => Some(Self::buongiorno_weekday_url(w)),
            Greeting::BuonPomeriggio => Some(
                String::from_str("https://ilmondodigrazia.com/buon-pomeriggio"),
            ),
            Greeting::BuonaNotte => Some(
                String::from_str("https://ilmondodigrazia.com/buonanotte"),
            ),
            Greeting::FestaDellaRepubblica => Some(
                String::from_str("https://ilmondodigrazia.com/festa/festa-della-repubblica"),
            ),
            Greeting::Ferragosto => Some(
                String::from_str("https://ilmondodigrazia.com/buon-ferragosto"),
            ),
            Greeting::Ognissanti => Some(
                String::from_str(
                    "https://ilmondodigrazia.com/tutti-i-santi-immagini-festa-di-ognissanti",
                ),
            ),
            Greeting::Defunti => Some(
                String::from_str(
                    "https://ilmondodigrazia.com/commemorazione-dei-defunti-2-novembre",
                ),
            ),
            Greeting::Halloween => Some(
                String::from_str(
                    "https://ilmondodigrazia.com/halloween-31-ottobre-immagini-buongiorno",
                ),
            ),
            Greeting::ImmacolataConcenzione => Some(
                String::from_str(
                    "https://ilmondodigrazia.com/immacolata-concezione-8-dicembre-buongiorno",
                ),
            ),
            Greeting::VigiliaDiNatale => Some(
                String::from_str(
                    "https://ilmondodigrazia.com/buongiorno/buongiorno-vigilia-di-natale-per-il-24-dicembre",
                ),
            ),
            Greeting::Natale => Some(
                String::from_str(
                    "https://ilmondodigrazia.com/frasi-di-buon-natale-immagini-da-condividere",
                ),
            ),
            _ => None,
        }
    }
}

/// What scraper finds in the page: the `src` attribute of each image
/// inside the first `entry-content` region, in document order, or nothing
/// when the page has no such region. A function of the page text alone.
pub uninterp spec fn entry_images_of(body: Seq<char>) -> Option<Seq<Seq<char>>>;

/// Relies on scraper's `Html::parse_document`, `Selector::parse` and
/// `select`: parses the page and collects the `src` attribute of each
/// `img` inside the first `div.entry-content`, `None` when no such region
/// exists. The result is named `entry_images_of`.
#[verifier::external_body]
fn entry_content_images(body: &str) -> (r: Option<Vec<String>>)
    ensures
        match r {
            Some(v) => entry_images_of(body@) matches Some(s) && v@.map_values(|u: String| u@)
                == s,
            None => entry_images_of(body@) is None,
        },
{
    let document = scraper::Html::parse_document(body);
    let content = scraper::Selector::parse("div[class=\"entry-content\"]").unwrap();
    let img = scraper::Selector::parse("img").unwrap();
    let container = document.select(&content).next()?;
    let mut urls: Vec<String> = Vec::new();
    for image in container.select(&img) {
        if let Some(src) = image.value().attr("src") {
            urls.push(src.to_string());
        }
    }
    Some(urls)
}

/// What the url crate makes of a link: the domain of the parsed URL, or
/// nothing when the string is no absolute URL or its host is no domain. A
/// function of the string alone.
pub uninterp spec fn domain_of(s: Seq<char>) -> Option<Seq<char>>;

/// Relies on url's `Url::parse` and `Url::domain`. The result is named
/// `domain_of`.
#[verifier::external_body]
fn url_domain(s: &str) -> (r: Option<String>)
    ensures
        match r {
            Some(d) => domain_of(s@) matches Some(x) && d@ == x,
            None => domain_of(s@) is None,
        },
{
    match url::Url::parse(s) {
        Ok(u) => u.domain().map(str::to_string),
        Err(_) => None,
    }
}

/// A link that may be served: an absolute URL on the provider's own
/// domain. Links elsewhere are boilerplate or ad images.
pub open spec fn kept_link(u: Seq<char>) -> bool {
    domain_of(u) matches Some(d) && d == "ilmondodigrazia.com"@
}

fn is_kept_link(u: &String) -> (r: bool)
    ensures
        r == kept_link(u@),
{
    match url_domain(u.as_str()) {
        Some(d) => d == String::from_str("ilmondodigrazia.com"),
        None => false,
    }
}

/// Extract the qualifying image links from a fetched page body: the
/// images of the entry-content region, kept only when they live on the
/// provider's own domain. No region is a broken page; a region without
/// one qualifying link is an empty result.
pub fn extract_images(body: &str) -> (r: Result<Vec<String>, ScrapeError>)
    ensures
        match entry_images_of(body@) {
            None => r == Err::<Vec<String>, ScrapeError>(ScrapeError::NetworkError),
            Some(imgs) => {
                let kept = imgs.filter(|u: Seq<char>| kept_link(u));
                if kept.len() == 0 {
                    r == Err::<Vec<String>, ScrapeError>(ScrapeError::EmptyResult)
                } else {
                    r matches Ok(v) && v@.map_values(|u: String| u@) == kept
                }
            },
        },
{
    match entry_content_images(body) {
        None => Err(ScrapeError::NetworkError),
        Some(urls) => {
            let ghost imgs = urls@.map_values(|u: String| u@);
            let ghost pred = |u: Seq<char>| kept_link(u);
            let mut out: Vec<String> = Vec::new();
            let mut i: usize = 0;
            while i < urls.len()
                invariant
                    i <= urls@.len(),
                    imgs == urls@.map_values(|u: String| u@),
                    out@.map_values(|u: String| u@) == imgs.take(i as int).filter(pred),
                    pred == (|u: Seq<char>| kept_link(u)),
                decreases urls@.len() - i,
            {
                proof {
                    reveal(Seq::filter);
                    assert(imgs.take(i + 1).drop_last() =~= imgs.take(i as int));
                    assert(imgs.take(i + 1).last() == imgs[i as int]);
                    assert(imgs[i as int] == urls@[i as int]@);
                }
                if is_kept_link(&urls[i]) {
                    let kept = urls[i].clone();
                    out.push(kept);
                    proof {
                        assert(out@.map_values(|u: String| u@) =~= out@.drop_last().map_values(
                            |u: String| u@,
                        ).push(out@.last()@));
                        assert(out@.map_values(|u: String| u@) =~= imgs.take(i + 1).filter(pred));
                    }
                } else {
                    proof {
                        assert(out@.map_values(|u: String| u@) =~= imgs.take(i + 1).filter(pred));
                    }
                }
                i += 1;
            }
            proof {
                assert(imgs.take(urls@.len() as int) =~= imgs);
                assert(imgs.filter(pred) =~= imgs.filter(|u: Seq<char>| kept_link(u)));
            }
            if out.len() == 0 {
                Err(ScrapeError::EmptyResult)
            } else {
                Ok(out)
            }
        },
    }
}

} // verus!

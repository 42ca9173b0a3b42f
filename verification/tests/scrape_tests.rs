use buongiorno_caffe_bot::answer::{happy_birthday_answer, Answer, AnswerBuilder, Content};
use buongiorno_caffe_bot::ilmondodigrazia::extract_images;
use buongiorno_caffe_bot::providers::{Providers, ScrapeError};
use buongiorno_caffe_bot::random::choice;

#[test]
fn should_get_a_random_choice() {
    let choices = vec!["a", "b", "c"];
    assert!(choices.contains(choice(&choices)));
}

#[test]
fn extraction_keeps_only_own_domain_images() {
    let body = r#"<html><body>
        <div class="entry-content">
            <p>buongiornissimo</p>
            <img src="https://ilmondodigrazia.com/up/a.jpg">
            <img src="https://ads.example.com/banner.png">
            <img>
            <img src="https://ilmondodigrazia.com/up/b.jpg">
        </div>
        <div class="sidebar"><img src="https://ilmondodigrazia.com/up/c.jpg"></div>
        </body></html>"#;
    let images = extract_images(body).unwrap();
    assert_eq!(
        images,
        vec![
            "https://ilmondodigrazia.com/up/a.jpg".to_string(),
            "https://ilmondodigrazia.com/up/b.jpg".to_string(),
        ]
    );
}

#[test]
fn a_page_without_content_region_is_a_network_error() {
    let body = "<html><body><p>nothing here</p></body></html>";
    assert_eq!(extract_images(body), Err(ScrapeError::NetworkError));
}

#[test]
fn a_region_without_qualifying_links_is_an_empty_result() {
    let body = r#"<html><body><div class="entry-content">
        <img src="https://elsewhere.example.org/x.jpg">
        <img src="not a url">
        </div></body></html>"#;
    assert_eq!(extract_images(body), Err(ScrapeError::EmptyResult));
}

#[test]
fn answers_keep_their_script_in_order() {
    let answer = AnswerBuilder::default()
        .text("CAFFEE!?".to_string())
        .image("https://example.org/a.jpg".to_string())
        .finalize();
    let parts = answer.parts();
    assert_eq!(parts.len(), 2);
    assert!(matches!(&parts[0], Content::Text(t) if t == "CAFFEE!?"));
    assert!(matches!(&parts[1], Content::Image(u) if u == "https://example.org/a.jpg"));
    let simple = Answer::simple_text("ciao".to_string());
    assert!(matches!(&simple.parts()[0], Content::Text(t) if t == "ciao"));
}

#[test]
fn birthday_answers_wish_by_name() {
    let answer = happy_birthday_answer("https://example.org/cake.jpg".to_string(), "Anna");
    let parts = answer.parts();
    assert!(matches!(&parts[0], Content::Image(u) if u == "https://example.org/cake.jpg"));
    assert!(matches!(&parts[1], Content::Text(t) if t == "Buon compleanno Anna!"));
}

#[test]
fn the_provider_set_is_closed_and_fixed() {
    let all = Providers::all();
    assert_eq!(
        all,
        vec![
            Providers::BuongiornissimoCaffe,
            Providers::BuongiornoImmagini,
            Providers::Augurando,
            Providers::TiCondivido,
        ]
    );
}

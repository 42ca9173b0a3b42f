use buongiorno_caffe_bot::automatize::Automatizer;
use buongiorno_caffe_bot::date::Date;
use buongiorno_caffe_bot::store::{Birthday, Chat, ChatId, Repository, RepositoryError};

fn date(y: u32, m: u32, d: u32) -> Date {
    Date::new(y, m, d).unwrap()
}

#[test]
fn should_handle_chats() {
    let mut repository = Repository::new();
    assert!(repository.insert_chat(ChatId(1)).is_ok());
    assert!(repository.insert_chat(ChatId(2)).is_ok());
    // duped
    assert!(repository.insert_chat(ChatId(1)).is_err());
    // get chats
    assert_eq!(repository.get_subscribed_chats().len(), 2);
    // delete
    repository.delete_chat(ChatId(2));
    assert_eq!(repository.get_subscribed_chats().len(), 1);
}

#[test]
fn should_handle_birthdays() {
    let mut repository = Repository::new();
    // a birthday needs a subscription first
    assert!(repository.insert_chat(ChatId(1)).is_ok());
    assert!(repository
        .insert_birthday(ChatId(1), "Christian".to_string(), date(1997, 5, 30))
        .is_ok());
    assert!(repository
        .insert_birthday(ChatId(1), "Chiara".to_string(), date(1999, 6, 24))
        .is_ok());
    // duped
    assert!(repository
        .insert_birthday(ChatId(1), "Chiara".to_string(), date(1999, 6, 24))
        .is_err());
    // get birthdays
    assert_eq!(repository.get_birthdays().len(), 2);
    // delete
    repository.delete_birthday_by_chat(ChatId(1));
    assert!(repository.get_birthdays().is_empty());
}

#[test]
fn should_insert_birthday() {
    let mut repository = Repository::new();
    assert!(repository.insert_chat(ChatId(32)).is_ok());
    assert!(repository
        .insert_birthday(ChatId(32), "pippo".to_string(), date(1997, 5, 30))
        .is_ok());
}

#[test]
fn should_delete_birthday() {
    let mut repository = Repository::new();
    assert!(repository.insert_chat(ChatId(1)).is_ok());
    assert!(repository
        .insert_birthday(ChatId(1), "pippo".to_string(), date(1997, 5, 30))
        .is_ok());
    repository.delete_birthday_by_chat(ChatId(1));
    assert!(repository.get_birthdays().is_empty());
}

#[test]
fn should_retrieve_birthday() {
    let mut repository = Repository::new();
    for chat in [1i64, 2, 3] {
        assert!(repository.insert_chat(ChatId(chat)).is_ok());
        assert!(repository
            .insert_birthday(ChatId(chat), "pippo".to_string(), date(1997, 5, 30))
            .is_ok());
    }
    let birthdays = repository.get_birthdays();
    assert_eq!(birthdays.len(), 3);
    for (i, chat) in [1i64, 2, 3].into_iter().enumerate() {
        assert_eq!(birthdays[i].0, ChatId(chat));
        assert_eq!(birthdays[i].1, "pippo");
        assert_eq!(birthdays[i].2, date(1997, 5, 30));
    }
}

#[test]
fn birthday_rows_carry_their_fields() {
    let b = Birthday::new(ChatId(32), "pippo".to_string(), date(1997, 5, 30));
    assert_eq!(b.chat(), ChatId(32));
    assert_eq!(b.name(), "pippo");
    assert_eq!(b.date(), date(1997, 5, 30));
    let c = Chat::new(ChatId(7));
    assert_eq!(c.id(), ChatId(7));
}

#[test]
fn subscribing_twice_conflicts_and_resubscribing_succeeds() {
    let mut repository = Repository::new();
    assert!(repository.insert_chat(ChatId(42)).is_ok());
    assert_eq!(
        repository.insert_chat(ChatId(42)),
        Err(RepositoryError::AlreadySubscribed)
    );
    let mut automatizer = Automatizer::start(repository);
    automatizer.unsubscribe(&ChatId(42));
    assert!(automatizer.subscribe(&ChatId(42)).is_ok());
}

#[test]
fn unsubscribe_cascades_to_birthdays() {
    let repository = Repository::new();
    let mut automatizer = Automatizer::start(repository);
    assert!(automatizer.subscribe(&ChatId(7)).is_ok());
    for (name, d) in [
        ("Anna", date(1990, 5, 30)),
        ("Luca", date(1988, 1, 2)),
        ("Sara", date(2001, 12, 25)),
    ] {
        assert!(automatizer
            .add_birthday(&ChatId(7), name.to_string(), d)
            .is_ok());
    }
    assert_eq!(automatizer.repository().get_birthdays().len(), 3);
    automatizer.unsubscribe(&ChatId(7));
    assert!(automatizer.repository().get_birthdays().is_empty());
    assert!(automatizer.repository().get_subscribed_chats().is_empty());
}

#[test]
fn unsubscribe_of_unknown_chat_is_idempotent_success() {
    let repository = Repository::new();
    let mut automatizer = Automatizer::start(repository);
    automatizer.unsubscribe(&ChatId(555));
    assert!(automatizer.repository().get_subscribed_chats().is_empty());
}

#[test]
fn list_subscribers_is_idempotent() {
    let mut repository = Repository::new();
    assert!(repository.insert_chat(ChatId(5)).is_ok());
    assert!(repository.insert_chat(ChatId(9)).is_ok());
    let first = repository.get_subscribed_chats();
    let second = repository.get_subscribed_chats();
    assert_eq!(first, second);
    assert_eq!(first, vec![ChatId(5), ChatId(9)]);
}

#[test]
fn birthday_for_unsubscribed_chat_is_refused_without_a_row() {
    let repository = Repository::new();
    let mut automatizer = Automatizer::start(repository);
    assert_eq!(
        automatizer.add_birthday(&ChatId(99), "Anna".to_string(), date(1990, 5, 30)),
        Err(RepositoryError::NotSubscribed)
    );
    assert!(automatizer.repository().get_birthdays().is_empty());
}

#[test]
fn error_messages_are_user_readable() {
    assert_eq!(
        RepositoryError::AlreadySubscribed.message(),
        "Sei gia iscritto ai messaggi automatici."
    );
    assert_eq!(
        RepositoryError::DuplicateBirthday.message(),
        "Questo compleanno e gia presente registrato"
    );
}

#[test]
fn restoring_rows_rejects_broken_invariants() {
    let chats = vec![Chat::new(ChatId(1)), Chat::new(ChatId(1))];
    assert!(Repository::from_rows(chats, Vec::new()).is_none());
    let chats = vec![Chat::new(ChatId(1))];
    let birthdays = vec![Birthday::new(
        ChatId(2),
        "Anna".to_string(),
        date(1990, 5, 30),
    )];
    assert!(Repository::from_rows(chats, birthdays).is_none());
    let chats = vec![Chat::new(ChatId(1)), Chat::new(ChatId(2))];
    let birthdays = vec![Birthday::new(
        ChatId(2),
        "Anna".to_string(),
        date(1990, 5, 30),
    )];
    assert!(Repository::from_rows(chats, birthdays).is_some());
}

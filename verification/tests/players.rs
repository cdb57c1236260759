use demonlist::api;
use demonlist::cistring::CiString;
use demonlist::connection::Connection;
use demonlist::creator::Creator;
use demonlist::demon::{Demon, FullDemon, MinimalDemon};
use demonlist::error::PointercrateError;
use demonlist::player::DatabasePlayer;
use demonlist::post::PostDemon;
use demonlist::statement::Statement;

fn named(text: &str) -> CiString {
    CiString::new(text.to_string())
}

fn one_entry() -> Connection {
    let mut connection = Connection::new();
    let data = PostDemon {
        name: named("Bloodbath"),
        position: 1,
        requirement: 40,
        video: None,
        verifier: named("Riot"),
        publisher: named("Gboy"),
        creators: vec![named("Weoweoteo"), named("riot"), named("WEOWEOTEO")],
    };
    api::post(data, &mut connection).unwrap();
    connection
}

#[test]
fn names_compare_without_case() {
    assert_eq!(named("Alice"), named("alice"));
    assert_eq!(named("ALICE"), named("aLiCe"));
    assert_ne!(named("Alice"), named("Alicia"));
    assert_ne!(named("Alice"), named("Alice "));
    assert_ne!(named("a[b"), named("a{b"));
    assert_ne!(named("a@b"), named("a`b"));
    assert_eq!(named(""), named(""));
    assert_eq!(named("Zz9"), named("zZ9"));
    assert_eq!(
        named("AZaz@[`{").folded(),
        vec![97, 122, 97, 122, 64, 91, 96, 123]
    );
    assert_eq!(named("Ünïcode").clone().0, "Ünïcode");
}

#[test]
fn lookup_by_name_creates_once() {
    let mut connection = Connection::new();
    let first = DatabasePlayer::by_name_or_create(&named("Alice"), &mut connection).unwrap();
    let written = connection.journal().len();
    assert_eq!(written, 1);
    assert!(matches!(&connection.journal()[0], Statement::InsertPlayer { player } if player.id == first.id && player.name.0 == "Alice"));
    let second = DatabasePlayer::by_name_or_create(&named("Alice"), &mut connection).unwrap();
    assert_eq!(first.id, second.id);
    assert_eq!(second.name.0, "Alice");
    let third = DatabasePlayer::by_name_or_create(&named("ALICE"), &mut connection).unwrap();
    assert_eq!(first.id, third.id);
    assert_eq!(third.name.0, "Alice");
    assert_eq!(connection.journal().len(), written);
    let bob = DatabasePlayer::by_name_or_create(&named("Bob"), &mut connection).unwrap();
    assert_ne!(bob.id, first.id);
    assert_eq!(DatabasePlayer::by_id(bob.id, &connection).unwrap().name.0, "Bob");
    assert_eq!(
        DatabasePlayer::by_id(99, &connection).unwrap_err(),
        PointercrateError::NotFound
    );
}

#[test]
fn posting_credits_each_creator_once() {
    let connection = one_entry();
    let full = FullDemon::by_position(1, &connection).unwrap();
    let names: Vec<&str> = full.creators.iter().map(|p| p.name.0.as_str()).collect();
    assert_eq!(names, vec!["Riot", "Weoweoteo"]);
    assert_eq!(full.demon.publisher.name.0, "Gboy");
    assert_eq!(full.demon.verifier.name.0, "Riot");
}

#[test]
fn crediting_twice_leaves_one_row() {
    let mut connection = one_entry();
    let demon = Demon::by_position(1, &connection).unwrap();
    let alice = DatabasePlayer::by_name_or_create(&named("Alice"), &mut connection).unwrap();
    let written = connection.journal().len();
    assert_eq!(Creator::insert(&demon.base, &alice, &mut connection), Ok(()));
    assert_eq!(connection.journal().len(), written + 1);
    assert_eq!(Creator::insert(&demon.base, &alice, &mut connection), Ok(()));
    assert_eq!(connection.journal().len(), written + 1);
    let full = FullDemon::by_position(1, &connection).unwrap();
    let count = full.creators.iter().filter(|p| p.id == alice.id).count();
    assert_eq!(count, 1);
    assert_eq!(full.creators.len(), 3);
    assert_eq!(
        Creator::get(&demon.base, &alice, &connection),
        Ok(Creator { demon: demon.base.id, creator: alice.id })
    );
}

#[test]
fn crediting_needs_entry_and_player() {
    let mut connection = one_entry();
    let demon = Demon::by_position(1, &connection).unwrap();
    let ghost = DatabasePlayer { id: 77, name: named("Ghost") };
    assert_eq!(
        Creator::insert(&demon.base, &ghost, &mut connection),
        Err(PointercrateError::NotFound)
    );
    let riot = DatabasePlayer::by_name_or_create(&named("Riot"), &mut connection).unwrap();
    let nowhere = MinimalDemon { id: 12, position: 1, name: named("Nowhere") };
    assert_eq!(
        Creator::insert(&nowhere, &riot, &mut connection),
        Err(PointercrateError::NotFound)
    );
}

#[test]
fn taking_back_an_absent_credit_is_not_found() {
    let mut connection = one_entry();
    let demon = Demon::by_position(1, &connection).unwrap();
    let gboy = DatabasePlayer::by_name_or_create(&named("Gboy"), &mut connection).unwrap();
    let written = connection.journal().len();
    assert_eq!(
        Creator::get(&demon.base, &gboy, &connection),
        Err(PointercrateError::NotFound)
    );
    let row = Creator { demon: demon.base.id, creator: gboy.id };
    assert_eq!(row.delete(&mut connection), Err(PointercrateError::NotFound));
    assert_eq!(connection.journal().len(), written);
}

#[test]
fn taking_back_a_credit_removes_the_row() {
    let mut connection = one_entry();
    let demon = Demon::by_position(1, &connection).unwrap();
    let riot = DatabasePlayer::by_name_or_create(&named("Riot"), &mut connection).unwrap();
    let row = Creator::get(&demon.base, &riot, &connection).unwrap();
    assert_eq!(row.delete(&mut connection), Ok(()));
    let full = FullDemon::by_position(1, &connection).unwrap();
    let names: Vec<&str> = full.creators.iter().map(|p| p.name.0.as_str()).collect();
    assert_eq!(names, vec!["Weoweoteo"]);
    assert_eq!(row.delete(&mut connection), Err(PointercrateError::NotFound));
    assert_eq!(Creator::insert(&demon.base, &riot, &mut connection), Ok(()));
    assert_eq!(FullDemon::by_position(1, &connection).unwrap().creators.len(), 2);
}

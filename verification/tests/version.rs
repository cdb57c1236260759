use demonlist::api;
use demonlist::cistring::CiString;
use demonlist::connection::Connection;
use demonlist::demon::FullDemon;
use demonlist::error::PointercrateError;
use demonlist::patch::{PatchDemon, VideoPatch};
use demonlist::post::PostDemon;
use demonlist::version::{check_version, VersionToken};

fn text(s: &str) -> CiString {
    CiString::new(s.to_string())
}

fn tiny_list() -> Connection {
    let mut connection = Connection::new();
    let data = PostDemon {
        name: text("Ab"),
        position: 1,
        requirement: 40,
        video: None,
        verifier: text("R"),
        publisher: text("G"),
        creators: vec![text("W")],
    };
    api::post(data, &mut connection).unwrap();
    connection
}

fn untouched() -> PatchDemon {
    PatchDemon {
        name: None,
        position: None,
        video: VideoPatch::Unset,
        requirement: None,
        verifier: None,
        publisher: None,
    }
}

#[test]
fn token_writes_every_field_down() {
    let connection = tiny_list();
    let full = FullDemon::by_id(1, &connection).unwrap();
    assert_eq!(
        full.version_token().words,
        vec![1, 1, 40, 2, 65, 98, 0, 1, 1, 71, 2, 1, 82, 1, 3, 1, 87]
    );
}

#[test]
fn token_writes_the_video_down() {
    let mut connection = tiny_list();
    let full = FullDemon::by_id(1, &connection).unwrap();
    let patch = PatchDemon {
        video: VideoPatch::SetValue("http://a".to_string()),
        ..untouched()
    };
    let full = full.apply_patch(patch, &mut connection).unwrap();
    assert_eq!(
        full.version_token().words,
        vec![
            1, 1, 40, 2, 65, 98, 1, 8, 104, 116, 116, 112, 58, 47, 47, 97, 1, 1, 71, 2, 1, 82, 1,
            3, 1, 87
        ]
    );
}

#[test]
fn token_is_the_same_for_the_same_entry() {
    let connection = tiny_list();
    let a = FullDemon::by_id(1, &connection).unwrap().version_token();
    let b = FullDemon::by_position(1, &connection).unwrap().version_token();
    assert!(a.matches(&b));
    assert!(b.matches(&a.clone()));
    assert!(!a.matches(&VersionToken { words: Vec::new() }));
    let mut longer = a.clone();
    longer.words.push(0);
    assert!(!a.matches(&longer));
    assert!(!longer.matches(&a));
}

#[test]
fn token_changes_with_every_field() {
    let patches: Vec<PatchDemon> = vec![
        PatchDemon { name: Some(text("Abc")), ..untouched() },
        PatchDemon { video: VideoPatch::SetValue("https://v".to_string()), ..untouched() },
        PatchDemon { requirement: Some(41), ..untouched() },
        PatchDemon { verifier: Some(text("G")), ..untouched() },
        PatchDemon { publisher: Some(text("R")), ..untouched() },
    ];
    for patch in patches {
        let mut connection = tiny_list();
        let full = FullDemon::by_id(1, &connection).unwrap();
        let before = full.version_token();
        let after = full.apply_patch(patch, &mut connection).unwrap().version_token();
        assert!(!before.matches(&after));
    }
}

#[test]
fn token_changes_with_the_creators() {
    let mut connection = tiny_list();
    let before = FullDemon::by_id(1, &connection).unwrap().version_token();
    api::v2::post_creator(1, &text("X"), &mut connection).unwrap();
    let after = FullDemon::by_id(1, &connection).unwrap().version_token();
    assert!(!before.matches(&after));
}

#[test]
fn version_check_accepts_the_current_token_only() {
    let mut connection = tiny_list();
    let full = FullDemon::by_id(1, &connection).unwrap();
    let token = full.version_token();
    assert_eq!(check_version(&full, &token), Ok(()));
    let patch = PatchDemon { requirement: Some(10), ..untouched() };
    let full = full.apply_patch(patch, &mut connection).unwrap();
    assert_eq!(check_version(&full, &token), Err(PointercrateError::PreconditionFailed));
    assert_eq!(check_version(&full, &full.version_token()), Ok(()));
}

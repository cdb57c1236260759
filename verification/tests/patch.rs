use demonlist::api;
use demonlist::cistring::CiString;
use demonlist::connection::Connection;
use demonlist::demon::{Demon, FullDemon};
use demonlist::error::PointercrateError;
use demonlist::patch::{PatchDemon, VideoPatch};
use demonlist::player::DatabasePlayer;
use demonlist::post::PostDemon;
use demonlist::statement::Statement;
use demonlist::video::validate;

fn name(text: &str) -> CiString {
    CiString::new(text.to_string())
}

fn empty_patch() -> PatchDemon {
    PatchDemon {
        name: None,
        position: None,
        video: VideoPatch::Unset,
        requirement: None,
        verifier: None,
        publisher: None,
    }
}

/// Three entries: Bloodbath, Sonic Wave, Cataclysm. The second has a video.
fn small_list() -> Connection {
    let mut connection = Connection::new();
    let entries = [
        ("Bloodbath", None, 40),
        ("Sonic Wave", Some("https://example.org/watch?v=1"), 55),
        ("Cataclysm", None, 70),
    ];
    for (i, (title, video, requirement)) in entries.into_iter().enumerate() {
        let data = PostDemon {
            name: name(title),
            position: (i + 1) as i16,
            requirement,
            video: video.map(|v| v.to_string()),
            verifier: name("Riot"),
            publisher: name("Gboy"),
            creators: Vec::new(),
        };
        api::post(data, &mut connection).unwrap();
    }
    connection
}

fn same_entry(a: &Demon, b: &Demon) -> bool {
    a.base.id == b.base.id
        && a.base.position == b.base.position
        && a.base.name.0 == b.base.name.0
        && a.requirement == b.requirement
        && a.video == b.video
        && a.verifier.id == b.verifier.id
        && a.verifier.name.0 == b.verifier.name.0
        && a.publisher.id == b.publisher.id
        && a.publisher.name.0 == b.publisher.name.0
}

#[test]
fn empty_patch_changes_nothing() {
    let mut connection = small_list();
    let written = connection.journal().len();
    let before = Demon::by_position(2, &connection).unwrap();
    let after = before.clone().apply_patch(empty_patch(), &mut connection).unwrap();
    assert!(same_entry(&before, &after));
    assert_eq!(connection.journal().len(), written);
    assert!(same_entry(&before, &Demon::by_position(2, &connection).unwrap()));
}

#[test]
fn empty_patch_on_full_entry_changes_nothing() {
    let mut connection = small_list();
    let written = connection.journal().len();
    let before = FullDemon::by_position(1, &connection).unwrap();
    let token = before.version_token();
    let after = before.apply_patch(empty_patch(), &mut connection).unwrap();
    assert!(after.version_token().matches(&token));
    assert_eq!(connection.journal().len(), written);
}

#[test]
fn patch_moves_and_renames() {
    let mut connection = small_list();
    let demon = Demon::by_position(1, &connection).unwrap();
    let patch = PatchDemon {
        name: Some(name("Bloodlust")),
        position: Some(3),
        requirement: Some(99),
        ..empty_patch()
    };
    let patched = demon.apply_patch(patch, &mut connection).unwrap();
    assert_eq!(patched.base.position, 3);
    assert_eq!(patched.base.name.0, "Bloodlust");
    assert_eq!(patched.requirement, 99);
    let stored = Demon::by_position(3, &connection).unwrap();
    assert!(same_entry(&patched, &stored));
    assert_eq!(Demon::by_position(1, &connection).unwrap().base.name.0, "Sonic Wave");
    assert_eq!(Demon::by_position(2, &connection).unwrap().base.name.0, "Cataclysm");
}

#[test]
fn patch_with_null_video_clears_it() {
    let mut connection = small_list();
    let demon = Demon::by_position(2, &connection).unwrap();
    assert!(demon.video.is_some());
    let patch = PatchDemon { video: VideoPatch::SetNull, ..empty_patch() };
    let patched = demon.apply_patch(patch, &mut connection).unwrap();
    assert_eq!(patched.video, None);
    assert_eq!(Demon::by_position(2, &connection).unwrap().video, None);
}

#[test]
fn patch_without_video_leaves_it() {
    let mut connection = small_list();
    let demon = Demon::by_position(2, &connection).unwrap();
    let patch = PatchDemon { requirement: Some(56), ..empty_patch() };
    let patched = demon.apply_patch(patch, &mut connection).unwrap();
    assert_eq!(patched.video.as_deref(), Some("https://example.org/watch?v=1"));
    assert_eq!(
        Demon::by_position(2, &connection).unwrap().video.as_deref(),
        Some("https://example.org/watch?v=1")
    );
}

#[test]
fn patch_with_video_replaces_it_after_the_check() {
    let mut connection = small_list();
    let demon = Demon::by_position(1, &connection).unwrap();
    let patch = PatchDemon {
        video: VideoPatch::SetValue("http://example.org/v/2".to_string()),
        ..empty_patch()
    };
    let patched = demon.apply_patch(patch, &mut connection).unwrap();
    assert_eq!(patched.video.as_deref(), Some("http://example.org/v/2"));

    let written = connection.journal().len();
    let bad = PatchDemon {
        video: VideoPatch::SetValue("not a link".to_string()),
        ..empty_patch()
    };
    assert_eq!(
        patched.apply_patch(bad, &mut connection).unwrap_err(),
        PointercrateError::InvalidMediaLink
    );
    assert_eq!(connection.journal().len(), written);
    assert_eq!(
        Demon::by_position(1, &connection).unwrap().video.as_deref(),
        Some("http://example.org/v/2")
    );
}

#[test]
fn clearing_an_absent_video_writes_nothing() {
    let mut connection = small_list();
    let written = connection.journal().len();
    let mut demon = Demon::by_position(1, &connection).unwrap();
    assert_eq!(demon.remove_video(&mut connection), Ok(()));
    assert_eq!(connection.journal().len(), written);
    let mut with_video = Demon::by_position(2, &connection).unwrap();
    assert_eq!(with_video.remove_video(&mut connection), Ok(()));
    assert_eq!(with_video.video, None);
    assert_eq!(connection.journal().len(), written + 1);
    assert!(matches!(
        connection.journal()[written],
        Statement::SetVideo { id: 2, video: None }
    ));
}

#[test]
fn setting_the_same_video_writes_nothing() {
    let mut connection = small_list();
    let written = connection.journal().len();
    let mut demon = Demon::by_position(2, &connection).unwrap();
    assert_eq!(
        demon.set_video("https://example.org/watch?v=1".to_string(), &mut connection),
        Ok(())
    );
    assert_eq!(connection.journal().len(), written);
    assert_eq!(
        demon.set_video("https://example.org/watch?v=2".to_string(), &mut connection),
        Ok(())
    );
    assert_eq!(connection.journal().len(), written + 1);
}

#[test]
fn video_links_are_checked() {
    for good in ["http://a", "https://a", "https://www.example.org/watch?v=abc&t=1"] {
        assert_eq!(validate(&good.to_string()), Ok(good.to_string()));
    }
    for bad in [
        "",
        "http://",
        "https://",
        "ftp://example.org/a",
        "example.org",
        "https://example.org/a b",
        "https://example.org/\n",
        "HTTPS://example.org",
        " https://example.org",
        "https:/example.org",
    ] {
        assert_eq!(validate(&bad.to_string()), Err(PointercrateError::InvalidMediaLink));
    }
}

#[test]
fn requirement_must_lie_between_0_and_100() {
    let mut connection = small_list();
    let written = connection.journal().len();
    let mut demon = Demon::by_position(1, &connection).unwrap();
    assert_eq!(
        demon.set_requirement(-1, &mut connection),
        Err(PointercrateError::InvalidRequirement)
    );
    assert_eq!(
        demon.set_requirement(101, &mut connection),
        Err(PointercrateError::InvalidRequirement)
    );
    assert_eq!(demon.requirement, 40);
    assert_eq!(connection.journal().len(), written);
    assert_eq!(demon.set_requirement(0, &mut connection), Ok(()));
    assert_eq!(demon.requirement, 0);
    assert_eq!(demon.set_requirement(100, &mut connection), Ok(()));
    assert_eq!(demon.requirement, 100);
    assert_eq!(Demon::by_position(1, &connection).unwrap().requirement, 100);
    assert_eq!(connection.journal().len(), written + 2);
    assert_eq!(demon.set_requirement(100, &mut connection), Ok(()));
    assert_eq!(connection.journal().len(), written + 2);
}

#[test]
fn renaming_to_the_same_name_up_to_case_writes_nothing() {
    let mut connection = small_list();
    let written = connection.journal().len();
    let mut demon = Demon::by_position(1, &connection).unwrap();
    assert_eq!(demon.base.set_name(name("BLOODBATH"), &mut connection), Ok(()));
    assert_eq!(demon.base.name.0, "Bloodbath");
    assert_eq!(connection.journal().len(), written);
    assert_eq!(demon.base.set_name(name("Bloodbath II"), &mut connection), Ok(()));
    assert_eq!(demon.base.name.0, "Bloodbath II");
    assert_eq!(connection.journal().len(), written + 1);
    assert_eq!(Demon::by_position(1, &connection).unwrap().base.name.0, "Bloodbath II");
}

#[test]
fn duplicate_names_are_permitted() {
    let mut connection = small_list();
    let mut demon = Demon::by_position(1, &connection).unwrap();
    assert_eq!(demon.base.set_name(name("Cataclysm"), &mut connection), Ok(()));
    assert_eq!(Demon::by_position(1, &connection).unwrap().base.name.0, "Cataclysm");
    assert_eq!(Demon::by_position(3, &connection).unwrap().base.name.0, "Cataclysm");
}

#[test]
fn verifier_is_replaced_only_by_another_player() {
    let mut connection = small_list();
    let mut demon = Demon::by_position(1, &connection).unwrap();
    let written = connection.journal().len();
    let riot = DatabasePlayer::by_name_or_create(&name("riot"), &mut connection).unwrap();
    assert_eq!(riot.id, demon.verifier.id);
    assert_eq!(demon.set_verifier(riot, &mut connection), Ok(()));
    assert_eq!(connection.journal().len(), written);

    let other = DatabasePlayer::by_name_or_create(&name("Sunix"), &mut connection).unwrap();
    let other_id = other.id;
    assert_eq!(demon.set_verifier(other, &mut connection), Ok(()));
    assert_eq!(demon.verifier.id, other_id);
    assert_eq!(demon.verifier.name.0, "Sunix");
    let stored = Demon::by_position(1, &connection).unwrap();
    assert_eq!(stored.verifier.id, other_id);
    assert_eq!(stored.publisher.name.0, "Gboy");
}

#[test]
fn publisher_is_replaced_only_by_another_player() {
    let mut connection = small_list();
    let mut demon = Demon::by_position(3, &connection).unwrap();
    let written = connection.journal().len();
    let gboy = DatabasePlayer::by_name_or_create(&name("GBOY"), &mut connection).unwrap();
    assert_eq!(demon.set_publisher(gboy, &mut connection), Ok(()));
    assert_eq!(connection.journal().len(), written);
    let riot = DatabasePlayer::by_name_or_create(&name("Riot"), &mut connection).unwrap();
    assert_eq!(demon.set_publisher(riot, &mut connection), Ok(()));
    assert_eq!(connection.journal().len(), written + 1);
    assert_eq!(Demon::by_position(3, &connection).unwrap().publisher.name.0, "Riot");
}

#[test]
fn patch_creates_the_players_it_names() {
    let mut connection = small_list();
    let demon = Demon::by_position(2, &connection).unwrap();
    let patch = PatchDemon {
        verifier: Some(name("Newcomer")),
        publisher: Some(name("newcomer")),
        ..empty_patch()
    };
    let patched = demon.apply_patch(patch, &mut connection).unwrap();
    assert_eq!(patched.verifier.name.0, "Newcomer");
    assert_eq!(patched.publisher.name.0, "Newcomer");
    assert_eq!(patched.verifier.id, patched.publisher.id);
    assert_eq!(patched.verifier.id, 3);
}

#[test]
fn patch_stops_at_the_first_failure() {
    let mut connection = small_list();
    let demon = Demon::by_position(1, &connection).unwrap();
    let patch = PatchDemon {
        position: Some(4),
        name: Some(name("Other")),
        requirement: Some(500),
        ..empty_patch()
    };
    let written = connection.journal().len();
    assert_eq!(
        demon.apply_patch(patch, &mut connection).unwrap_err(),
        PointercrateError::InvalidPosition { maximal: 3 }
    );
    assert_eq!(connection.journal().len(), written);

    let demon = Demon::by_position(1, &connection).unwrap();
    let patch = PatchDemon {
        name: Some(name("Other")),
        requirement: Some(500),
        ..empty_patch()
    };
    assert_eq!(
        demon.apply_patch(patch, &mut connection).unwrap_err(),
        PointercrateError::InvalidRequirement
    );
    assert_eq!(connection.journal().len(), written);
    assert_eq!(Demon::by_position(1, &connection).unwrap().base.name.0, "Bloodbath");

    let demon = Demon::by_position(1, &connection).unwrap();
    let patch = PatchDemon {
        position: Some(3),
        video: VideoPatch::SetValue("bad link".to_string()),
        ..empty_patch()
    };
    assert_eq!(
        demon.apply_patch(patch, &mut connection).unwrap_err(),
        PointercrateError::InvalidMediaLink
    );
    assert_eq!(connection.journal().len(), written);
    assert_eq!(Demon::by_position(1, &connection).unwrap().base.name.0, "Bloodbath");
}

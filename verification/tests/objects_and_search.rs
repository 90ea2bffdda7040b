use butterfly_core::models::ObjectType;
use butterfly_core::models::PublicUserInfo;
use butterfly_core::models::User;
use butterfly_core::objects::create_or_update_object;
use butterfly_core::objects::change_object_file;
use butterfly_core::objects::change_object_image;
use butterfly_core::objects::LicenseStore;
use butterfly_core::objects::ObjectStore;
use butterfly_core::objects::ObjectUpload;
use butterfly_core::search::parse_filters;
use butterfly_core::search::parse_search_query;
use butterfly_core::search::search_targets;
use butterfly_core::search::Filter;
use butterfly_core::search::FilterObjectTypes;
use butterfly_core::search::SortTypes;
use butterfly_core::user_websocket::next_backoff;
use butterfly_core::ApiError;

fn upload(name: &str, license: &str, tags: Vec<String>) -> ObjectUpload {
    ObjectUpload {
        name: String::from(name),
        description: String::from("about it"),
        tags,
        flags: vec![true, false],
        publicity: 1,
        license: String::from(license),
        encryption_key: vec![1, 2, 3],
        encryption_iv: vec![4, 5, 6],
    }
}

#[test]
fn object_type_codes_round_trip() {
    assert_eq!(ObjectType::World.code(), 0);
    assert_eq!(ObjectType::Avatar.code(), 1);
    assert_eq!(ObjectType::from_code(0), Some(ObjectType::World));
    assert_eq!(ObjectType::from_code(1), Some(ObjectType::Avatar));
    assert_eq!(ObjectType::from_code(2), None);
    assert_eq!(ObjectType::from_code(-1), None);
}

#[test]
fn create_then_update_object() {
    let mut objects = ObjectStore::new();
    let mut licenses = LicenseStore::new();
    let mut tags = Vec::new();
    let r = create_or_update_object(
        &mut objects,
        &mut licenses,
        &mut tags,
        ObjectType::World,
        7,
        100,
        upload("first", "mit", vec![String::from("fun")]),
        50,
    );
    assert_eq!(r, Ok(()));
    {
        let o = objects.get_object_info(ObjectType::World, 7).unwrap();
        assert_eq!(o.name, "first");
        assert_eq!(o.creator, 100);
        assert_eq!(o.created_at, 50);
        assert_eq!(o.updated_at, 50);
        assert!(!o.verified);
        assert_eq!(o.object_size, 0);
        assert_eq!(o.flags, vec![Some(true), Some(false)]);
        assert_eq!(o.license, 0);
    }
    assert_eq!(tags.len(), 1);
    assert_eq!(tags[0].object, 7);
    assert_eq!(tags[0].tag, "fun");
    // an update by the creator renames, replaces the tags and moves the
    // update instant, keeping the creation instant; the same license text
    // resolves to the same code
    let r2 = create_or_update_object(
        &mut objects,
        &mut licenses,
        &mut tags,
        ObjectType::World,
        7,
        100,
        upload("second", "mit", vec![String::from("calm"), String::from("new")]),
        60,
    );
    assert_eq!(r2, Ok(()));
    {
        let o = objects.get_object_info(ObjectType::World, 7).unwrap();
        assert_eq!(o.name, "second");
        assert_eq!(o.created_at, 50);
        assert_eq!(o.updated_at, 60);
        assert_eq!(o.license, 0);
    }
    assert_eq!(tags.len(), 2);
    assert_eq!(tags[0].tag, "calm");
    assert_eq!(tags[1].tag, "new");
    // a new license text takes the next code
    let r3 = create_or_update_object(
        &mut objects,
        &mut licenses,
        &mut tags,
        ObjectType::Avatar,
        8,
        100,
        upload("third", "gpl", Vec::new()),
        70,
    );
    assert_eq!(r3, Ok(()));
    let o8 = objects.get_object_info(ObjectType::Avatar, 8).unwrap();
    assert_eq!(o8.license, 1);
}

#[test]
fn only_the_creator_may_edit() {
    let mut objects = ObjectStore::new();
    let mut licenses = LicenseStore::new();
    let mut tags = Vec::new();
    create_or_update_object(
        &mut objects,
        &mut licenses,
        &mut tags,
        ObjectType::World,
        7,
        100,
        upload("first", "mit", Vec::new()),
        50,
    )
    .unwrap();
    let r = create_or_update_object(
        &mut objects,
        &mut licenses,
        &mut tags,
        ObjectType::World,
        7,
        999,
        upload("stolen", "mit", Vec::new()),
        60,
    );
    assert_eq!(r, Err(ApiError::Forbidden));
    assert_eq!(objects.get_object_info(ObjectType::World, 7).unwrap().name, "first");
    assert_eq!(change_object_file(&mut objects, ObjectType::World, 7, 999, 61), Err(ApiError::Forbidden));
    assert_eq!(
        change_object_image(&mut objects, ObjectType::World, 7, 999, 61),
        Err(ApiError::Forbidden)
    );
}

#[test]
fn changing_the_file_unverifies_the_record() {
    let mut objects = ObjectStore::new();
    let mut licenses = LicenseStore::new();
    let mut tags = Vec::new();
    create_or_update_object(
        &mut objects,
        &mut licenses,
        &mut tags,
        ObjectType::Avatar,
        9,
        100,
        upload("thing", "mit", Vec::new()),
        50,
    )
    .unwrap();
    assert_eq!(change_object_file(&mut objects, ObjectType::Avatar, 9, 100, 75), Ok(()));
    let o = objects.get_object_info(ObjectType::Avatar, 9).unwrap();
    assert!(!o.verified);
    assert_eq!(o.updated_at, 75);
    assert_eq!(o.created_at, 50);
    // a missing record is reported as such
    assert_eq!(
        change_object_file(&mut objects, ObjectType::World, 9, 100, 76),
        Err(ApiError::NotFound)
    );
    assert_eq!(
        objects.get_object_info(ObjectType::World, 123).unwrap_err(),
        ApiError::NotFound
    );
}

#[test]
fn filters_map_onto_the_closed_type() {
    let pairs = vec![
        (String::from("is"), String::from("user")),
        (String::from("is"), String::from("world")),
        (String::from("is"), String::from("avatar")),
        (String::from("sort"), String::from("name")),
        (String::from("sort"), String::from("weekly_uses")),
        (String::from("owner"), String::from("550e8400-e29b-41d4-a716-446655440000")),
        (String::from("owner"), String::from("not-a-uuid")),
        (String::from("color"), String::from("blue")),
    ];
    let fs = parse_filters(&pairs);
    assert_eq!(fs.len(), 8);
    assert_eq!(fs[0], Filter::Is(FilterObjectTypes::User));
    assert_eq!(fs[1], Filter::Is(FilterObjectTypes::World));
    assert_eq!(fs[2], Filter::Is(FilterObjectTypes::Avatar));
    assert_eq!(fs[3], Filter::SortBy(SortTypes::Name));
    assert_eq!(fs[4], Filter::SortBy(SortTypes::WeeklyUses));
    // the parsed UUID is the exact 128-bit value, not the text handed back
    assert_eq!(fs[5], Filter::Owner(0x550e8400_e29b_41d4_a716_446655440000u128));
    assert_eq!(fs[6], Filter::Invalid);
    assert_eq!(fs[7], Filter::Invalid);
}

#[test]
fn queries_split_into_term_and_pairs() {
    let parsed = parse_search_query("castle&is:world,sort:name").unwrap();
    assert_eq!(parsed.0, "castle");
    assert_eq!(
        parsed.1,
        vec![
            (String::from("is"), String::from("world")),
            (String::from("sort"), String::from("name")),
        ]
    );
    // the first ':' splits; later ones stay in the value
    let colons = parse_search_query("a&k:v:w").unwrap();
    assert_eq!(colons.1, vec![(String::from("k"), String::from("v:w"))]);
    // no '&' separator, or a filter without ':', is no query
    assert_eq!(parse_search_query("castle"), None);
    assert_eq!(parse_search_query("castle&is:world,plain"), None);
}

#[test]
fn unnamed_categories_mean_search_everything() {
    let none: Vec<Filter> = vec![Filter::SortBy(SortTypes::Name)];
    assert_eq!(search_targets(&none), (true, true, true));
    let some = vec![Filter::Is(FilterObjectTypes::World)];
    assert_eq!(search_targets(&some), (false, true, false));
    let two = vec![
        Filter::Is(FilterObjectTypes::User),
        Filter::Is(FilterObjectTypes::Avatar),
    ];
    assert_eq!(search_targets(&two), (true, false, true));
}

#[test]
fn public_view_drops_the_secrets() {
    let u = User {
        id: 5,
        username: String::from("someone"),
        password: vec![1; 64],
        salt: vec![2; 64],
        email: String::from("s@e.c"),
        permisions: Vec::new(),
        trust: 3,
        homeworld: Some(10),
        avatar: None,
    };
    let p = PublicUserInfo::from(u);
    assert_eq!(p.id, 5);
    assert_eq!(p.username, "someone");
    assert_eq!(p.homeworld, Some(10));
    assert_eq!(p.avatar, None);
}

#[test]
fn backoff_doubles_to_the_ceiling() {
    assert_eq!(next_backoff(100, 10_000), 200);
    assert_eq!(next_backoff(200, 10_000), 400);
    assert_eq!(next_backoff(6_400, 10_000), 10_000);
    assert_eq!(next_backoff(10_000, 10_000), 10_000);
    assert_eq!(next_backoff(0, 10_000), 0);
}

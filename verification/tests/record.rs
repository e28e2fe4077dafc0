use formatter::{decode, AuthorKey, AuthorReference, DecodeError, Entity, Json, Record};

fn text(s: &str) -> Json {
    Json::Text(String::from(s))
}

fn member(key: &str, value: Json) -> (String, Json) {
    (String::from(key), value)
}

fn reference(key: &str) -> AuthorReference {
    AuthorReference { author: AuthorKey { key: String::from(key) } }
}

fn reference_json(key: &str) -> Json {
    Json::Object(vec![member("author", Json::Object(vec![member("key", text(key))]))])
}

#[test]
fn serialize_author_record() {
    let author = Record {
        entity: Entity::Author {
            name: String::from("name"),
            personal_name: Some(String::from("personal name")),
        },
        revision: 1,
    };

    let author_json = Json::Object(vec![
        member("name", text("name")),
        member("personal_name", text("personal name")),
        member("revision", Json::Number(Some(1))),
    ]);

    let serialized_author = author.to_json();
    assert!(Record::from_json(&serialized_author).is_ok());
    assert_eq!(serialized_author, author_json);
}

#[test]
fn deserialize_author_record() {
    let json = r#"
            {
                "name": "name",
                "personal_name": "personal name",
                "revision": 1
            }
        "#;

    let record: Record = decode(json).unwrap();

    assert_eq!(
        record,
        Record {
            entity: Entity::Author {
                name: String::from("name"),
                personal_name: Some(String::from("personal name")),
            },
            revision: 1,
        }
    );
}

#[test]
fn serialize_work_record() {
    let work = Record {
        entity: Entity::Work {
            authors: Some(vec![reference("/authors/1"), reference("/authors/2")]),
            title: String::from("title"),
            subtitle: Some(String::from("subtitle")),
        },
        revision: 1,
    };

    let work_json = Json::Object(vec![
        member(
            "authors",
            Json::Array(vec![reference_json("/authors/1"), reference_json("/authors/2")]),
        ),
        member("subtitle", text("subtitle")),
        member("title", text("title")),
        member("revision", Json::Number(Some(1))),
    ]);

    let serialized_work = work.to_json();
    assert!(Record::from_json(&serialized_work).is_ok());
    assert_eq!(serialized_work, work_json);
}

#[test]
fn deserialize_work_record() {
    let json = r#"
            {
                "authors": [
                    {
                        "author": {
                            "key": "/authors/1"
                        }
                    },
                    {
                        "author": {
                            "key": "/authors/2"
                        }
                    }
                ],
                "subtitle": "subtitle",
                "title": "title",
                "revision": 1
            }
        "#;

    let record: Record = decode(json).unwrap();

    assert_eq!(
        record,
        Record {
            entity: Entity::Work {
                authors: Some(vec![reference("/authors/1"), reference("/authors/2")]),
                title: String::from("title"),
                subtitle: Some(String::from("subtitle")),
            },
            revision: 1,
        }
    );
}

#[test]
fn absent_optional_members_decode_to_none() {
    let author = decode(r#"{"name": "A", "revision": 7}"#).unwrap();
    assert_eq!(
        author,
        Record { entity: Entity::Author { name: String::from("A"), personal_name: None }, revision: 7 }
    );
    let work = decode(r#"{"title": "T", "revision": 2}"#).unwrap();
    assert_eq!(
        work,
        Record {
            entity: Entity::Work { authors: None, subtitle: None, title: String::from("T") },
            revision: 2,
        }
    );
}

#[test]
fn null_members_decode_to_none() {
    let author = decode(r#"{"name": "A", "personal_name": null, "revision": 3}"#).unwrap();
    assert_eq!(
        author.entity,
        Entity::Author { name: String::from("A"), personal_name: None }
    );
    let work = decode(r#"{"title": "T", "subtitle": null, "authors": null, "revision": 3}"#).unwrap();
    assert_eq!(
        work.entity,
        Entity::Work { authors: None, subtitle: None, title: String::from("T") }
    );
}

#[test]
fn empty_text_is_not_absent() {
    let author = decode(r#"{"name": "", "personal_name": "", "revision": 0}"#).unwrap();
    assert_eq!(
        author.entity,
        Entity::Author { name: String::new(), personal_name: Some(String::new()) }
    );
}

#[test]
fn unknown_members_are_ignored() {
    let record = decode(
        r#"{"name": "A", "created": {"type": "/type/datetime", "value": "2008"}, "revision": 1, "x": [1, 2]}"#,
    )
    .unwrap();
    assert_eq!(
        record,
        Record { entity: Entity::Author { name: String::from("A"), personal_name: None }, revision: 1 }
    );
}

#[test]
fn author_shape_is_tried_first() {
    let record = decode(r#"{"name": "A", "title": "T", "revision": 1}"#).unwrap();
    assert_eq!(
        record.entity,
        Entity::Author { name: String::from("A"), personal_name: None }
    );
}

#[test]
fn work_shape_is_tried_when_author_does_not_fit() {
    let by_name = decode(r#"{"name": 5, "title": "T", "revision": 1}"#).unwrap();
    assert_eq!(
        by_name.entity,
        Entity::Work { authors: None, subtitle: None, title: String::from("T") }
    );
    let by_personal_name =
        decode(r#"{"name": "A", "personal_name": 5, "title": "T", "revision": 1}"#).unwrap();
    assert_eq!(
        by_personal_name.entity,
        Entity::Work { authors: None, subtitle: None, title: String::from("T") }
    );
}

#[test]
fn malformed_text_is_refused() {
    assert_eq!(decode("not json"), Err(DecodeError::Malformed));
    assert_eq!(decode(""), Err(DecodeError::Malformed));
    assert_eq!(decode(r#"{"name": "A", "revision": 1"#), Err(DecodeError::Malformed));
    assert_eq!(decode(r#"{"name": "A", "revision": 1} x"#), Err(DecodeError::Malformed));
}

#[test]
fn neither_shape_is_refused() {
    assert_eq!(decode(r#"{"revision": 1}"#), Err(DecodeError::Shape));
    assert_eq!(decode(r#"{"name": "A", "personal_name": 5, "revision": 1}"#), Err(DecodeError::Shape));
    assert_eq!(decode(r#"{"title": "T", "subtitle": 5, "revision": 1}"#), Err(DecodeError::Shape));
    assert_eq!(decode(r#"{"title": "T", "authors": 5, "revision": 1}"#), Err(DecodeError::Shape));
    assert_eq!(
        decode(r#"{"title": "T", "authors": [{"author": {"key": 5}}], "revision": 1}"#),
        Err(DecodeError::Shape)
    );
    assert_eq!(
        decode(r#"{"title": "T", "authors": [{"author": "/authors/1"}], "revision": 1}"#),
        Err(DecodeError::Shape)
    );
    assert_eq!(
        decode(r#"{"title": "T", "authors": [{"key": "/authors/1"}], "revision": 1}"#),
        Err(DecodeError::Shape)
    );
    assert_eq!(decode("[1, 2]"), Err(DecodeError::Shape));
    assert_eq!(decode("\"name\""), Err(DecodeError::Shape));
    assert_eq!(decode("null"), Err(DecodeError::Shape));
}

#[test]
fn bad_revision_is_refused() {
    assert_eq!(decode(r#"{"name": "A"}"#), Err(DecodeError::Revision));
    assert_eq!(decode(r#"{"name": "A", "revision": "1"}"#), Err(DecodeError::Revision));
    assert_eq!(decode(r#"{"name": "A", "revision": 1.0}"#), Err(DecodeError::Revision));
    assert_eq!(decode(r#"{"name": "A", "revision": 1.5}"#), Err(DecodeError::Revision));
    assert_eq!(decode(r#"{"name": "A", "revision": -1}"#), Err(DecodeError::Revision));
    assert_eq!(decode(r#"{"name": "A", "revision": null}"#), Err(DecodeError::Revision));
    assert_eq!(decode(r#"{"name": "A", "revision": 4294967296}"#), Err(DecodeError::Revision));
}

#[test]
fn revision_bounds_are_accepted() {
    assert_eq!(decode(r#"{"name": "A", "revision": 0}"#).unwrap().revision, 0);
    assert_eq!(decode(r#"{"name": "A", "revision": 4294967295}"#).unwrap().revision, u32::MAX);
}

#[test]
fn authors_keep_their_order() {
    let record = decode(
        r#"{"title": "T", "authors": [{"author": {"key": "/authors/3"}}, {"author": {"key": "/authors/1"}}, {"author": {"key": "/authors/2"}}], "revision": 1}"#,
    )
    .unwrap();
    assert_eq!(
        record.entity,
        Entity::Work {
            authors: Some(vec![
                reference("/authors/3"),
                reference("/authors/1"),
                reference("/authors/2"),
            ]),
            subtitle: None,
            title: String::from("T"),
        }
    );
}

#[test]
fn empty_authors_is_present() {
    let record = decode(r#"{"title": "T", "authors": [], "revision": 1}"#).unwrap();
    assert_eq!(
        record.entity,
        Entity::Work { authors: Some(vec![]), subtitle: None, title: String::from("T") }
    );
}

#[test]
fn author_round_trip_keeps_the_members() {
    for payload in [
        r#"{"name": "A", "personal_name": "B", "revision": 3}"#,
        r#"{"revision": 9, "name": "Only"}"#,
        r#"{"personal_name": "", "revision": 0, "name": ""}"#,
    ] {
        let json = Json::parse(payload).unwrap();
        let record = Record::from_json(&json).unwrap();
        let again = record.to_json();
        for key in ["name", "personal_name", "revision", "title", "other"] {
            assert_eq!(again.get(key), json.get(key));
        }
    }
}

#[test]
fn absent_personal_name_is_left_out() {
    let record = Record {
        entity: Entity::Author { name: String::from("A"), personal_name: None },
        revision: 1,
    };
    assert_eq!(
        record.to_json(),
        Json::Object(vec![member("name", text("A")), member("revision", Json::Number(Some(1)))])
    );
}

#[test]
fn absent_work_members_are_left_out() {
    let record = Record {
        entity: Entity::Work { authors: None, subtitle: None, title: String::from("T") },
        revision: 4,
    };
    assert_eq!(
        record.to_json(),
        Json::Object(vec![member("title", text("T")), member("revision", Json::Number(Some(4)))])
    );
}

#[test]
fn encoding_then_decoding_gives_the_record_back() {
    let records = vec![
        Record {
            entity: Entity::Author { name: String::from("A"), personal_name: None },
            revision: 1,
        },
        Record {
            entity: Entity::Author {
                name: String::from("A\nB"),
                personal_name: Some(String::from("\\")),
            },
            revision: u32::MAX,
        },
        Record {
            entity: Entity::Work { authors: None, subtitle: None, title: String::from("T") },
            revision: 0,
        },
        Record {
            entity: Entity::Work {
                authors: Some(vec![]),
                subtitle: Some(String::from("S")),
                title: String::from("T"),
            },
            revision: 2,
        },
        Record {
            entity: Entity::Work {
                authors: Some(vec![reference("/authors/2"), reference("/authors/1")]),
                subtitle: None,
                title: String::from("T"),
            },
            revision: 3,
        },
    ];
    for record in records {
        assert_eq!(Record::from_json(&record.to_json()), Ok(record));
    }
}

#[test]
fn reference_encodes_as_nested_object() {
    assert_eq!(reference("/authors/7").to_json(), reference_json("/authors/7"));
}

use gitlab_language_server::candidate::{
    candidate_from, make_completion, process_resource, CompletionItemData, RawField, RawRecord,
    Resource,
};

fn s(v: &str) -> RawField {
    RawField::Str(v.to_string())
}

fn record(name: RawField, description: RawField) -> RawRecord {
    RawRecord {
        name,
        username: RawField::Absent,
        title: RawField::Absent,
        description,
        expired: RawField::Absent,
    }
}

fn member(username: &str, name: &str) -> RawRecord {
    RawRecord {
        name: s(name),
        username: s(username),
        title: RawField::Absent,
        description: RawField::Absent,
        expired: RawField::Absent,
    }
}

fn milestone(title: &str, expired: RawField) -> RawRecord {
    RawRecord {
        name: RawField::Absent,
        username: RawField::Absent,
        title: s(title),
        description: s("due soon"),
        expired,
    }
}

fn item(completion: &str, description: Option<&str>) -> CompletionItemData {
    CompletionItemData {
        completion: completion.to_string(),
        description: description.map(|d| d.to_string()),
    }
}

#[test]
fn label_with_space_is_quoted_without_documentation() {
    let c = candidate_from(Resource::Labels, &record(s("needs review"), s(""))).unwrap();
    assert_eq!(c.completion, "~\"needs review\" ");
    assert_eq!(c.description, None);
}

#[test]
fn value_without_space_is_not_quoted() {
    let c = candidate_from(Resource::Labels, &record(s("bug"), s("Something broke"))).unwrap();
    assert_eq!(c.completion, "~bug ");
    assert_eq!(c.description, Some("Something broke".to_string()));
}

#[test]
fn completions_end_in_exactly_one_space() {
    for v in ["a", "two words", "", "x y z", "trailing "] {
        for kind in [Resource::Labels, Resource::Members, Resource::Milestones] {
            let t = make_completion(kind, v);
            assert!(t.ends_with(' '));
            assert!(!t.ends_with("  "));
            assert_eq!(t.contains('"'), v.contains(' '));
        }
    }
    assert_eq!(make_completion(Resource::Milestones, "v1 release"), "%\"v1 release\" ");
    assert_eq!(make_completion(Resource::Members, "alice"), "@alice ");
}

#[test]
fn member_uses_username_and_name() {
    let c = candidate_from(Resource::Members, &member("alice", "Alice Smith")).unwrap();
    assert_eq!(c.completion, "@alice ");
    assert_eq!(c.description, Some("Alice Smith".to_string()));
}

#[test]
fn records_without_string_value_are_dropped() {
    assert!(candidate_from(Resource::Labels, &record(RawField::Absent, s("d"))).is_none());
    assert!(candidate_from(Resource::Labels, &record(RawField::Other, s("d"))).is_none());
    assert!(candidate_from(Resource::Labels, &record(RawField::Bool(true), s("d"))).is_none());
    let c = candidate_from(Resource::Labels, &record(s("ok"), RawField::Other)).unwrap();
    assert_eq!(c.description, None);
}

#[test]
fn expired_milestones_are_excluded() {
    let raws = vec![
        Some(milestone("old", RawField::Bool(true))),
        Some(milestone("new", RawField::Bool(false))),
        Some(milestone("other", RawField::Absent)),
        Some(milestone("odd", s("true"))),
    ];
    let set = process_resource(Resource::Milestones, &raws);
    assert_eq!(set.len(), 3);
    assert!(!set.contains(&item("%old ", Some("due soon"))));
    assert!(set.contains(&item("%new ", Some("due soon"))));
    assert!(set.contains(&item("%other ", Some("due soon"))));
    assert!(set.contains(&item("%odd ", Some("due soon"))));
}

#[test]
fn expired_flag_only_matters_for_milestones() {
    let mut r = record(s("bug"), RawField::Absent);
    r.expired = RawField::Bool(true);
    assert!(candidate_from(Resource::Labels, &r).is_some());
}

#[test]
fn duplicates_collapse_and_normalizing_twice_agrees() {
    let raws = vec![
        Some(record(s("bug"), s("d"))),
        None,
        Some(record(s("bug"), s("d"))),
        Some(record(s("bug"), s("other"))),
        Some(record(s("feature"), RawField::Absent)),
    ];
    let a = process_resource(Resource::Labels, &raws);
    let b = process_resource(Resource::Labels, &raws);
    assert_eq!(a.len(), 3);
    assert_eq!(b.len(), 3);
    for c in a.as_vec() {
        assert!(b.contains(c));
    }
    assert!(a.contains(&item("~bug ", Some("d"))));
    assert!(a.contains(&item("~bug ", Some("other"))));
    assert!(a.contains(&item("~feature ", None)));
}

#[test]
fn empty_list_gives_empty_set() {
    let set = process_resource(Resource::Members, &Vec::new());
    assert_eq!(set.len(), 0);
}

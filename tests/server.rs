use gitlab_language_server::candidate::{RawField, RawRecord, Resource};
use gitlab_language_server::completion::{quick_actions, ItemKind};
use gitlab_language_server::remote::{gitlab_resource_url, FetchOutcome, GITLAB_API_BASE};
use gitlab_language_server::state::{CompletionError, InitError, LspState, ProjectParam};

fn label(name: &str) -> Option<RawRecord> {
    Some(RawRecord {
        name: RawField::Str(name.to_string()),
        username: RawField::Absent,
        title: RawField::Absent,
        description: RawField::Str("a label".to_string()),
        expired: RawField::Absent,
    })
}

fn member(username: &str) -> Option<RawRecord> {
    Some(RawRecord {
        name: RawField::Absent,
        username: RawField::Str(username.to_string()),
        title: RawField::Absent,
        description: RawField::Absent,
        expired: RawField::Absent,
    })
}

#[test]
fn empty_token_fails_before_any_fetch() {
    let mut st = LspState::new();
    let r = st.configure(Some(String::new()), ProjectParam::Str("g/p".to_string()));
    assert_eq!(r.err(), Some(InitError::MissingApiKey));
    assert!(st.config.api_key.is_none());
    let r = st.configure(None, ProjectParam::Str("g/p".to_string()));
    assert_eq!(r.err(), Some(InitError::MissingApiKey));
}

#[test]
fn project_option_must_be_a_string() {
    let mut st = LspState::new();
    let r = st.configure(Some("tok".to_string()), ProjectParam::NotString);
    assert_eq!(r.err(), Some(InitError::InvalidProject));
    let r = st.configure(Some("tok".to_string()), ProjectParam::Absent);
    assert_eq!(r.err(), Some(InitError::MissingProject));
    assert!(st.config.project.is_none());
    assert_eq!(
        InitError::MissingProject.message(),
        "Error: required configuration param 'project' not supplied"
    );
}

#[test]
fn configure_plans_three_fetches() {
    let mut st = LspState::new();
    let reqs = st
        .configure(Some("tok".to_string()), ProjectParam::Str("group/project".to_string()))
        .unwrap();
    assert_eq!(reqs.len(), 3);
    assert_eq!(reqs[0].kind, Resource::Labels);
    assert_eq!(reqs[1].kind, Resource::Milestones);
    assert_eq!(reqs[2].kind, Resource::Members);
    assert_eq!(
        reqs[0].url,
        "https://gitlab.com/api/v4/projects/group%2Fproject/labels?per_page=100"
    );
    assert_eq!(
        reqs[2].url,
        "https://gitlab.com/api/v4/projects/group%2Fproject/members/all?per_page=100"
    );
    assert!(reqs.iter().all(|r| r.token == "tok"));
    assert_eq!(st.config.project.as_deref(), Some("group/project"));
    assert_eq!(st.config.api_key.as_deref(), Some("tok"));
}

#[test]
fn resource_urls_strip_one_trailing_slash() {
    assert_eq!(
        gitlab_resource_url("https://host/api/", "a/b/c", Resource::Milestones),
        "https://host/api/projects/a%2Fb%2Fc/milestones?per_page=100"
    );
    assert_eq!(
        gitlab_resource_url(GITLAB_API_BASE, "42", Resource::Labels),
        "https://gitlab.com/api/v4/projects/42/labels?per_page=100"
    );
}

#[test]
fn failed_fetch_leaves_other_kinds_alone() {
    let mut st = LspState::new();
    st.store_fetch(Resource::Labels, &FetchOutcome::Fetched(vec![label("bug"), label("doc")]));
    st.store_fetch(Resource::Members, &FetchOutcome::Fetched(vec![member("alice")]));
    st.store_fetch(Resource::Milestones, &FetchOutcome::Failed);
    assert_eq!(st.candidates(Resource::Labels).len(), 2);
    assert_eq!(st.candidates(Resource::Members).len(), 1);
    assert_eq!(st.candidates(Resource::Milestones).len(), 0);
    st.store_fetch(Resource::Labels, &FetchOutcome::Failed);
    assert_eq!(st.candidates(Resource::Labels).len(), 2);
}

#[test]
fn completion_offers_members_with_edit_range() {
    let mut st = LspState::new();
    st.store_fetch(Resource::Members, &FetchOutcome::Fetched(vec![member("bart"), member("bob")]));
    st.did_open("/x.md".to_string(), "title\nfoo @bar baz\n".to_string());
    let items = st.completion(&"/x.md".to_string(), 1, 6).unwrap().unwrap();
    assert_eq!(items.len(), 2);
    for it in &items {
        assert_eq!(it.detail, "username");
        assert_eq!(it.kind, ItemKind::Constant);
        assert_eq!((it.line, it.start, it.end), (1, 4, 8));
        assert_eq!(it.label, it.new_text);
        assert_eq!(it.documentation, None);
    }
    let mut labels: Vec<&str> = items.iter().map(|i| i.label.as_str()).collect();
    labels.sort();
    assert_eq!(labels, vec!["@bart ", "@bob "]);
}

#[test]
fn completion_offers_quick_actions() {
    let mut st = LspState::new();
    st.did_open("/a".to_string(), "/bl".to_string());
    let items = st.completion(&"/a".to_string(), 0, 1).unwrap().unwrap();
    assert_eq!(items.len(), 8);
    assert_eq!(items[0].label, "/assign ");
    assert_eq!(items[0].documentation.as_deref(), Some("Assign users"));
    assert_eq!(items[7].label, "/title ");
    assert!(items.iter().all(|i| i.detail == "quick action" && i.kind == ItemKind::Keyword));
    assert_eq!((items[0].start, items[0].end), (0, 3));
    assert_eq!(quick_actions().len(), 8);
}

#[test]
fn completion_declines_and_errors() {
    let mut st = LspState::new();
    assert!(st.completion(&"/none".to_string(), 0, 0).unwrap().is_none());
    st.did_open("/a".to_string(), "plain text".to_string());
    assert!(st.completion(&"/a".to_string(), 0, 3).unwrap().is_none());
    assert_eq!(
        st.completion(&"/a".to_string(), 1, 0).err(),
        Some(CompletionError::LineOutOfRange)
    );
    let items = st.completion(&"/a".to_string(), 0, 0).unwrap();
    assert!(items.is_none());
}

#[test]
fn empty_cache_gives_no_items() {
    let mut st = LspState::new();
    st.did_open("/a".to_string(), "~".to_string());
    let items = st.completion(&"/a".to_string(), 0, 1).unwrap().unwrap();
    assert!(items.is_empty());
}

#[test]
fn change_replaces_whole_text() {
    let mut st = LspState::new();
    st.did_open("/a".to_string(), "old".to_string());
    st.did_change("/a".to_string(), &vec!["%m".to_string(), "ignored".to_string()]);
    assert_eq!(st.sources.get(&"/a".to_string()).map(|s| s.as_str()), Some("%m"));
    st.did_change("/a".to_string(), &Vec::new());
    assert_eq!(st.sources.get(&"/a".to_string()).map(|s| s.as_str()), Some(""));
    st.did_open("/b".to_string(), "b".to_string());
    assert_eq!(st.sources.get(&"/a".to_string()).map(|s| s.as_str()), Some(""));
    assert_eq!(st.sources.get(&"/b".to_string()).map(|s| s.as_str()), Some("b"));
}

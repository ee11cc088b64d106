use vstd::prelude::*;

use crate::candidate::{opt_view, CandidateView, CompletionItemData, Resource};

verus! {

/// The fixed quick actions, each with its completion text and description.
pub open spec fn quick_action_views() -> Seq<CandidateView> {
    seq![
        ("/assign "@, Some("Assign users"@)),
        ("/blocked_by "@, Some("Is blocked by other issues"@)),
        ("/blocks "@, Some("Blocks other issues"@)),
        ("/due "@, Some("Due on a certain date"@)),
        ("/relate "@, Some("Relates to other issues"@)),
        ("/label "@, Some("Add labels"@)),
        ("/milestone "@, Some("Add to milestone"@)),
        ("/title "@, Some("Set title"@)),
    ]
}

pub open spec fn views_of(s: Seq<CompletionItemData>) -> Seq<CandidateView> {
    s.map_values(|c: CompletionItemData| c@)
}

fn quick_action(completion: &str, description: &str) -> (r: CompletionItemData)
    ensures
        r@ == (completion@, Some(description@)),
{
    CompletionItemData {
        completion: String::from_str(completion),
        description: Some(String::from_str(description)),
    }
}

/// The quick-action candidates; they need no remote data.
pub fn quick_actions() -> (r: Vec<CompletionItemData>)
    ensures
        views_of(r@) == quick_action_views(),
{
    let r = vec![
        quick_action("/assign ", "Assign users"),
        quick_action("/blocked_by ", "Is blocked by other issues"),
        quick_action("/blocks ", "Blocks other issues"),
        quick_action("/due ", "Due on a certain date"),
        quick_action("/relate ", "Relates to other issues"),
        quick_action("/label ", "Add labels"),
        quick_action("/milestone ", "Add to milestone"),
        quick_action("/title ", "Set title"),
    ];
    assert(views_of(r@) =~= quick_action_views());
    r
}

/// How an editor should present an item.
#[derive(Clone, Copy, Debug, PartialEq, Eq, Structural)]
pub enum ItemKind {
    Constant,
    Keyword,
}

/// One completion item: shown text, detail, documentation, and the edit that
/// replaces `[start, end)` on `line` with `new_text`.
#[derive(Clone, Debug)]
pub struct CompletionEntry {
    pub label: String,
    pub detail: String,
    pub kind: ItemKind,
    pub documentation: Option<String>,
    pub line: u32,
    pub start: usize,
    pub end: usize,
    pub new_text: String,
}

/// The detail text shown beside the items of a kind.
pub open spec fn detail_text(kind: Resource) -> Seq<char> {
    match kind {
        Resource::Labels => "label"@,
        Resource::Members => "username"@,
        Resource::Milestones => "milestone"@,
        Resource::QuickActions => "quick action"@,
    }
}

pub open spec fn item_kind_of(kind: Resource) -> ItemKind {
    if kind is QuickActions {
        ItemKind::Keyword
    } else {
        ItemKind::Constant
    }
}

/// `e` is the item of candidate `c` for an edit of `[start, end)` on `line`.
pub open spec fn entry_for(
    e: CompletionEntry,
    c: CandidateView,
    kind: Resource,
    line: u32,
    start: int,
    end: int,
) -> bool {
    &&& e.label@ == c.0
    &&& e.new_text@ == c.0
    &&& e.detail@ == detail_text(kind)
    &&& e.kind == item_kind_of(kind)
    &&& opt_view(e.documentation) == c.1
    &&& e.line == line
    &&& e.start == start
    &&& e.end == end
}

fn detail_of(kind: Resource) -> (r: String)
    ensures
        r@ == detail_text(kind),
{
    match kind {
        Resource::Labels => String::from_str("label"),
        Resource::Members => String::from_str("username"),
        Resource::Milestones => String::from_str("milestone"),
        Resource::QuickActions => String::from_str("quick action"),
    }
}

fn clone_opt(o: &Option<String>) -> (r: Option<String>)
    ensures
        opt_view(r) == opt_view(*o),
{
    match o {
        Some(s) => Some(s.clone()),
        None => None,
    }
}

/// One item per candidate, in the candidates' order, each replacing
/// `[start, end)` on `line` with its completion text.
pub fn assemble(
    candidates: &Vec<CompletionItemData>,
    kind: Resource,
    line: u32,
    start: usize,
    end: usize,
) -> (r: Vec<CompletionEntry>)
    ensures
        r@.len() == candidates@.len(),
        forall|i: int|
            0 <= i < r@.len() ==> entry_for(
                #[trigger] r@[i],
                candidates@[i]@,
                kind,
                line,
                start as int,
                end as int,
            ),
{
    let mut r: Vec<CompletionEntry> = Vec::new();
    let mut i: usize = 0;
    while i < candidates.len()
        invariant
            i <= candidates@.len(),
            r@.len() == i,
            forall|j: int|
                0 <= j < i ==> entry_for(
                    #[trigger] r@[j],
                    candidates@[j]@,
                    kind,
                    line,
                    start as int,
                    end as int,
                ),
        decreases candidates@.len() - i,
    {
        let c = &candidates[i];
        r.push(
            CompletionEntry {
                label: c.completion.clone(),
                detail: detail_of(kind),
                kind: if kind == Resource::QuickActions {
                    ItemKind::Keyword
                } else {
                    ItemKind::Constant
                },
                documentation: clone_opt(&c.description),
                line,
                start,
                end,
                new_text: c.completion.clone(),
            },
        );
        i = i + 1;
    }
    r
}

} // verus!

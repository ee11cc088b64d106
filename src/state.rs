use vstd::prelude::*;

use crate::candidate::{
    normalized, opt_view, process_resource, CandidateSet, CandidateView, CompletionItemData,
    Resource,
};
use crate::completion::{
    assemble, entry_for, quick_action_views, quick_actions, views_of, CompletionEntry,
};
use crate::cursor::{context_of, line_at, line_count, line_of, resolve};
use crate::documents::DocumentStore;
use crate::remote::{
    gitlab_resource_url, resource_url_of, FetchOutcome, FetchRequest, GITLAB_API_BASE,
};
use crate::text::chars_of;

verus! {

/// The server's settings: the access token and the project whose data is offered.
#[derive(Debug)]
pub struct Config {
    pub api_key: Option<String>,
    pub project: Option<String>,
}

/// The `project` initialization option, as the client sent it.
#[derive(Clone, Debug)]
pub enum ProjectParam {
    Absent,
    NotString,
    Str(String),
}

/// Why initialization stopped.
#[derive(Clone, Copy, Debug, PartialEq, Eq, Structural)]
pub enum InitError {
    MissingApiKey,
    InvalidProject,
    MissingProject,
}

pub open spec fn init_message(e: InitError) -> Seq<char> {
    match e {
        InitError::MissingApiKey => "Error: no GITLAB_API_PRIVATE_TOKEN environment variable detected"@,
        InitError::InvalidProject => "Error: invalid configuration param 'project' supplied, expected string"@,
        InitError::MissingProject => "Error: required configuration param 'project' not supplied"@,
    }
}

impl InitError {
    /// The message reported to the client.
    pub fn message(&self) -> (r: String)
        ensures
            r@ == init_message(*self),
    {
        match self {
            InitError::MissingApiKey => String::from_str(
                "Error: no GITLAB_API_PRIVATE_TOKEN environment variable detected",
            ),
            InitError::InvalidProject => String::from_str(
                "Error: invalid configuration param 'project' supplied, expected string",
            ),
            InitError::MissingProject => String::from_str(
                "Error: required configuration param 'project' not supplied",
            ),
        }
    }
}

/// A completion request that names a line the document does not have.
#[derive(Clone, Copy, Debug, PartialEq, Eq, Structural)]
pub enum CompletionError {
    LineOutOfRange,
}

/// The state shared by all requests: settings, open documents, and the
/// candidate cache of each fetched resource kind.
pub struct LspState {
    pub config: Config,
    /// Mapping of path names to file contents.
    pub sources: DocumentStore,
    pub labels: CandidateSet,
    pub members: CandidateSet,
    pub milestones: CandidateSet,
}

/// The kinds fetched at initialization, in the order the requests are issued.
pub open spec fn fetch_order() -> Seq<Resource> {
    seq![Resource::Labels, Resource::Milestones, Resource::Members]
}

/// The text that a full-sync change sets: its first content change, or nothing.
pub open spec fn changed_text(changes: Seq<String>) -> Seq<char> {
    if changes.len() > 0 {
        changes[0]@
    } else {
        Seq::empty()
    }
}

impl LspState {
    /// The cached candidates of a fetched kind.
    pub open spec fn cache(&self, kind: Resource) -> CandidateSet {
        match kind {
            Resource::Labels => self.labels,
            Resource::Members => self.members,
            _ => self.milestones,
        }
    }

    pub open spec fn wf(&self) -> bool {
        &&& self.sources.wf()
        &&& self.labels.wf()
        &&& self.members.wf()
        &&& self.milestones.wf()
    }

    /// The candidates that completion offers for a kind, in the order items are produced.
    pub open spec fn offered(&self, kind: Resource) -> Seq<CandidateView> {
        if kind is QuickActions {
            quick_action_views()
        } else {
            views_of(self.cache(kind).entries())
        }
    }

    /// A state with no settings, no documents and empty caches.
    pub fn new() -> (r: Self)
        ensures
            r.wf(),
            r.config.api_key is None,
            r.config.project is None,
            r.sources@ == Map::<Seq<char>, Seq<char>>::empty(),
            r.cache(Resource::Labels)@ == Set::<CandidateView>::empty(),
            r.cache(Resource::Members)@ == Set::<CandidateView>::empty(),
            r.cache(Resource::Milestones)@ == Set::<CandidateView>::empty(),
    {
        LspState {
            config: Config { api_key: None, project: None },
            sources: DocumentStore::new(),
            labels: CandidateSet::new(),
            members: CandidateSet::new(),
            milestones: CandidateSet::new(),
        }
    }

    /// The cached candidates of a fetched kind.
    pub fn candidates(&self, kind: Resource) -> (r: &CandidateSet)
        requires
            kind.is_fetchable(),
        ensures
            *r == self.cache(kind),
    {
        match kind {
            Resource::Labels => &self.labels,
            Resource::Members => &self.members,
            _ => &self.milestones,
        }
    }

    /// Checks the token and the project option, stores them, and returns the
    /// fetches to perform: one per fetched kind. A missing or empty token, or a
    /// missing or non-string project, fails before any fetch is asked for and
    /// leaves the state as it was.
    pub fn configure(&mut self, token: Option<String>, project: ProjectParam) -> (r: Result<
        Vec<FetchRequest>,
        InitError,
    >)
        requires
            old(self).wf(),
        ensures
            final(self).wf(),
            match token {
                None => r == Err::<Vec<FetchRequest>, InitError>(InitError::MissingApiKey),
                Some(t) => if t@.len() == 0 {
                    r == Err::<Vec<FetchRequest>, InitError>(InitError::MissingApiKey)
                } else {
                    match project {
                        ProjectParam::Absent => r == Err::<Vec<FetchRequest>, InitError>(
                            InitError::MissingProject,
                        ),
                        ProjectParam::NotString => r == Err::<Vec<FetchRequest>, InitError>(
                            InitError::InvalidProject,
                        ),
                        ProjectParam::Str(p) => r is Ok && opt_view(final(self).config.api_key)
                            == Some(t@) && opt_view(final(self).config.project) == Some(p@) && (
                        r->Ok_0)@.len() == 3 && forall|i: int|
                            0 <= i < 3 ==> {
                                &&& (#[trigger] (r->Ok_0)@[i]).kind == fetch_order()[i]
                                &&& (r->Ok_0)@[i].url@ == resource_url_of(
                                    GITLAB_API_BASE@,
                                    p@,
                                    fetch_order()[i],
                                )
                                &&& (r->Ok_0)@[i].token@ == t@
                            },
                    }
                },
            },
            r is Err ==> opt_view(final(self).config.api_key) == opt_view(old(self).config.api_key)
                && opt_view(final(self).config.project) == opt_view(old(self).config.project),
            final(self).sources@ == old(self).sources@,
            final(self).cache(Resource::Labels) == old(self).cache(Resource::Labels),
            final(self).cache(Resource::Members) == old(self).cache(Resource::Members),
            final(self).cache(Resource::Milestones) == old(self).cache(Resource::Milestones),
    {
        let token = match token {
            Some(t) => t,
            None => return Err(InitError::MissingApiKey),
        };
        if token.as_str().unicode_len() == 0 {
            return Err(InitError::MissingApiKey);
        }
        let project = match project {
            ProjectParam::Str(p) => p,
            ProjectParam::NotString => return Err(InitError::InvalidProject),
            ProjectParam::Absent => return Err(InitError::MissingProject),
        };
        let mut requests: Vec<FetchRequest> = Vec::new();
        let kinds = [Resource::Labels, Resource::Milestones, Resource::Members];
        let mut i: usize = 0;
        while i < 3
            invariant
                i <= 3,
                kinds@ == fetch_order(),
                requests@.len() == i,
                forall|j: int|
                    0 <= j < i ==> {
                        &&& (#[trigger] requests@[j]).kind == fetch_order()[j]
                        &&& requests@[j].url@ == resource_url_of(
                            GITLAB_API_BASE@,
                            project@,
                            fetch_order()[j],
                        )
                        &&& requests@[j].token@ == token@
                    },
            decreases 3 - i,
        {
            let kind = kinds[i];
            requests.push(
                FetchRequest {
                    kind,
                    url: gitlab_resource_url(GITLAB_API_BASE, project.as_str(), kind),
                    token: token.clone(),
                },
            );
            i = i + 1;
        }
        self.config = Config { api_key: Some(token), project: Some(project) };
        Ok(requests)
    }

    /// Stores what one fetch brought into the cache of its kind. A failed
    /// fetch changes nothing, and no fetch touches the other kinds' caches.
    pub fn store_fetch(&mut self, kind: Resource, outcome: &FetchOutcome)
        requires
            old(self).wf(),
            kind.is_fetchable(),
        ensures
            final(self).wf(),
            match outcome {
                FetchOutcome::Fetched(raws) => final(self).cache(kind)@ == normalized(kind, raws@),
                FetchOutcome::Failed => final(self).cache(kind) == old(self).cache(kind),
            },
            forall|k: Resource|
                k.is_fetchable() && k != kind ==> #[trigger] final(self).cache(k) == old(self).cache(
                    k,
                ),
            final(self).sources@ == old(self).sources@,
            final(self).config == old(self).config,
    {
        match outcome {
            FetchOutcome::Fetched(raws) => {
                let values = process_resource(kind, raws);
                match kind {
                    Resource::Labels => self.labels = values,
                    Resource::Members => self.members = values,
                    _ => self.milestones = values,
                }
            },
            FetchOutcome::Failed => {},
        }
    }

    /// Records the text of a document that was opened.
    pub fn did_open(&mut self, path: String, text: String)
        requires
            old(self).wf(),
        ensures
            final(self).wf(),
            final(self).sources@ == old(self).sources@.insert(path@, text@),
            final(self).config == old(self).config,
            forall|k: Resource| #[trigger] final(self).cache(k) == old(self).cache(k),
    {
        self.sources.insert(path, text);
    }

    /// Replaces the text of a document with the first of its content changes
    /// (the whole new text), or with nothing where there is none.
    pub fn did_change(&mut self, path: String, changes: &Vec<String>)
        requires
            old(self).wf(),
        ensures
            final(self).wf(),
            final(self).sources@ == old(self).sources@.insert(path@, changed_text(changes@)),
            final(self).config == old(self).config,
            forall|k: Resource| #[trigger] final(self).cache(k) == old(self).cache(k),
    {
        let content = if changes.len() > 0 {
            changes[0].clone()
        } else {
            String::new()
        };
        self.sources.insert(path, content);
    }

    /// The completion items at `(line, character)` of the document at `path`.
    /// An unknown document, or a word that starts with no trigger character,
    /// gives `None`; a line the document does not have is an error.
    pub fn completion(&self, path: &String, line: u32, character: u32) -> (r: Result<
        Option<Vec<CompletionEntry>>,
        CompletionError,
    >)
        requires
            self.wf(),
        ensures
            !self.sources@.contains_key(path@) ==> r matches Ok(None),
            self.sources@.contains_key(path@) ==> {
                let text = self.sources@[path@];
                if line >= line_count(text) {
                    r == Err::<Option<Vec<CompletionEntry>>, CompletionError>(
                        CompletionError::LineOutOfRange,
                    )
                } else {
                    match context_of(line_of(text, line as int), character) {
                        None => r matches Ok(None),
                        Some((kind, start, end)) => r matches Ok(Some(items)) && items@.len()
                            == self.offered(kind).len() && forall|i: int|
                            0 <= i < items@.len() ==> entry_for(
                                #[trigger] items@[i],
                                self.offered(kind)[i],
                                kind,
                                line,
                                start,
                                end,
                            ),
                    }
                }
            },
    {
        let text = match self.sources.get(path) {
            Some(t) => t,
            None => return Ok(None),
        };
        let chars = chars_of(text.as_str());
        let current = match line_at(&chars, line as usize) {
            Some(l) => l,
            None => return Err(CompletionError::LineOutOfRange),
        };
        let ctx = match resolve(&current, character) {
            Some(c) => c,
            None => return Ok(None),
        };
        let items = match ctx.kind {
            Resource::QuickActions => assemble(&quick_actions(), ctx.kind, line, ctx.start, ctx.end),
            Resource::Labels => assemble(self.labels.as_vec(), ctx.kind, line, ctx.start, ctx.end),
            Resource::Members => assemble(self.members.as_vec(), ctx.kind, line, ctx.start, ctx.end),
            Resource::Milestones => assemble(
                self.milestones.as_vec(),
                ctx.kind,
                line,
                ctx.start,
                ctx.end,
            ),
        };
        Ok(Some(items))
    }
}

} // verus!

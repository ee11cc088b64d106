use vstd::prelude::*;

use crate::text::chars_of;

verus! {

/// The kinds of completion source: three fetched from the remote service, one fixed.
#[derive(Clone, Copy, Debug, PartialEq, Eq, Structural)]
pub enum Resource {
    Labels,
    Members,
    Milestones,
    QuickActions,
}

impl Resource {
    pub open spec fn is_fetchable(self) -> bool {
        !(self is QuickActions)
    }
}

/// A field of a remote record, reduced to what normalization reads.
#[derive(Clone, Debug)]
pub enum RawField {
    /// The record has no such field.
    Absent,
    Str(String),
    Bool(bool),
    /// Null, a number, an array or an object.
    Other,
}

/// One object of a remote resource list, holding the fields that any kind reads.
#[derive(Clone, Debug)]
pub struct RawRecord {
    pub name: RawField,
    pub username: RawField,
    pub title: RawField,
    pub description: RawField,
    pub expired: RawField,
}

/// A completion candidate; two are the same when both fields are equal.
#[derive(Clone, Debug)]
pub struct CompletionItemData {
    pub completion: String,
    pub description: Option<String>,
}

/// The mathematical value of a candidate.
pub type CandidateView = (Seq<char>, Option<Seq<char>>);

pub open spec fn opt_view(o: Option<String>) -> Option<Seq<char>> {
    match o {
        Some(s) => Some(s@),
        None => None,
    }
}

impl View for CompletionItemData {
    type V = CandidateView;

    open spec fn view(&self) -> CandidateView {
        (self.completion@, opt_view(self.description))
    }
}

/// The prefix that marks a resource kind in document text.
pub open spec fn sigil(kind: Resource) -> char {
    match kind {
        Resource::Labels => '~',
        Resource::Members => '@',
        Resource::Milestones => '%',
        Resource::QuickActions => '/',
    }
}

/// The field that holds the inserted value, by kind.
pub open spec fn value_field(kind: Resource, r: RawRecord) -> RawField {
    match kind {
        Resource::Labels => r.name,
        Resource::Members => r.username,
        _ => r.title,
    }
}

/// The field that holds the description, by kind.
pub open spec fn description_field(kind: Resource, r: RawRecord) -> RawField {
    match kind {
        Resource::Members => r.name,
        _ => r.description,
    }
}

/// A description is kept only when it is a non-empty string.
pub open spec fn kept_description(f: RawField) -> Option<Seq<char>> {
    match f {
        RawField::Str(d) => if d@.len() > 0 { Some(d@) } else { None },
        _ => None,
    }
}

/// Sigil, then the value (quoted when it holds a space), then one space.
pub open spec fn completion_text(sigil: char, v: Seq<char>) -> Seq<char> {
    if v.contains(' ') {
        seq![sigil, '"'] + v + seq!['"', ' ']
    } else {
        seq![sigil] + v + seq![' ']
    }
}

pub open spec fn is_expired(r: RawRecord) -> bool {
    r.expired == RawField::Bool(true)
}

/// The candidate that one record yields, if any.
pub open spec fn candidate_of(kind: Resource, r: RawRecord) -> Option<CandidateView> {
    if kind is Milestones && is_expired(r) {
        None
    } else {
        match value_field(kind, r) {
            RawField::Str(v) => Some(
                (completion_text(sigil(kind), v@), kept_description(description_field(kind, r))),
            ),
            _ => None,
        }
    }
}

/// The candidate of the `i`-th entry; an entry that is no object yields none.
pub open spec fn candidate_at(kind: Resource, raws: Seq<Option<RawRecord>>, i: int) -> Option<
    CandidateView,
> {
    match raws[i] {
        Some(r) => candidate_of(kind, r),
        None => None,
    }
}

/// The candidates of the first `n` entries.
pub open spec fn normalized_prefix(kind: Resource, raws: Seq<Option<RawRecord>>, n: int) -> Set<
    CandidateView,
> {
    Set::new(
        |c: CandidateView|
            exists|i: int| 0 <= i < n && #[trigger] candidate_at(kind, raws, i) == Some(c),
    )
}

/// The candidate set of a whole resource list.
pub open spec fn normalized(kind: Resource, raws: Seq<Option<RawRecord>>) -> Set<CandidateView> {
    normalized_prefix(kind, raws, raws.len() as int)
}

/// A set of candidates without duplicates.
pub struct CandidateSet {
    items: Vec<CompletionItemData>,
}

impl View for CandidateSet {
    type V = Set<CandidateView>;

    closed spec fn view(&self) -> Set<CandidateView> {
        self.items@.map_values(|c: CompletionItemData| c@).to_set()
    }
}

impl CandidateSet {
    /// The candidates in storage order.
    pub closed spec fn entries(&self) -> Seq<CompletionItemData> {
        self.items@
    }

    pub closed spec fn wf(&self) -> bool {
        forall|i: int, j: int|
            0 <= i < j < self.items@.len() ==> #[trigger] self.items@[i]@ != #[trigger] self.items@[j]@
    }

    /// The set holds exactly what its entries hold, each once.
    pub proof fn lemma_entries(&self)
        requires
            self.wf(),
        ensures
            forall|c: CandidateView|
                self@.contains(c) <==> exists|i: int|
                    0 <= i < self.entries().len() && #[trigger] self.entries()[i]@ == c,
            forall|i: int, j: int|
                0 <= i < j < self.entries().len() ==> #[trigger] self.entries()[i]@
                    != #[trigger] self.entries()[j]@,
    {
        assert forall|c: CandidateView|
            self@.contains(c) <==> exists|i: int|
                0 <= i < self.entries().len() && #[trigger] self.entries()[i]@ == c by {
            let s = self.items@.map_values(|x: CompletionItemData| x@);
            if self@.contains(c) {
                let i = choose|i: int| 0 <= i < s.len() && s[i] == c;
                assert(self.entries()[i]@ == c);
            }
            if exists|i: int| 0 <= i < self.entries().len() && #[trigger] self.entries()[i]@ == c {
                let i = choose|i: int| 0 <= i < self.entries().len() && #[trigger] self.entries()[i]@ == c;
                assert(s[i] == c);
            }
        }
    }

    pub fn new() -> (r: Self)
        ensures
            r.wf(),
            r@ == Set::<CandidateView>::empty(),
            r.entries().len() == 0,
    {
        let r = CandidateSet { items: Vec::new() };
        assert(r@ =~= Set::<CandidateView>::empty());
        r
    }

    /// The candidates, one entry each.
    pub fn as_vec(&self) -> (r: &Vec<CompletionItemData>)
        ensures
            r@ == self.entries(),
    {
        &self.items
    }

    pub fn len(&self) -> (r: usize)
        ensures
            r == self.entries().len(),
    {
        self.items.len()
    }

    pub fn contains(&self, c: &CompletionItemData) -> (r: bool)
        requires
            self.wf(),
        ensures
            r == self@.contains(c@),
    {
        proof {
            self.lemma_entries();
        }
        let mut i: usize = 0;
        while i < self.items.len()
            invariant
                self.wf(),
                i <= self.items@.len(),
                forall|j: int| 0 <= j < i ==> #[trigger] self.items@[j]@ != c@,
            decreases self.items@.len() - i,
        {
            if same_candidate(&self.items[i], c) {
                proof {
                    self.lemma_entries();
                    assert(self.entries()[i as int]@ == c@);
                }
                return true;
            }
            i = i + 1;
        }
        false
    }

    /// Adds `c` unless an equal candidate is already there.
    pub fn insert(&mut self, c: CompletionItemData)
        requires
            old(self).wf(),
        ensures
            final(self).wf(),
            final(self)@ == old(self)@.insert(c@),
    {
        proof {
            self.lemma_entries();
        }
        if !self.contains(&c) {
            let ghost s0 = self.items@;
            self.items.push(c);
            proof {
                assert(self.items@ == s0.push(c));
                assert forall|i: int, j: int|
                    0 <= i < j < self.items@.len() implies #[trigger] self.items@[i]@
                    != #[trigger] self.items@[j]@ by {
                    if j == s0.len() {
                        assert(old(self)@.contains(self.items@[i]@)) by {
                            assert(old(self).entries()[i]@ == self.items@[i]@);
                        }
                    }
                }
                self.lemma_entries();
                assert forall|d: CandidateView|
                    self@.contains(d) <==> #[trigger] old(self)@.insert(c@).contains(d) by {
                    if self@.contains(d) {
                        let i = choose|i: int|
                            0 <= i < self.entries().len() && #[trigger] self.entries()[i]@ == d;
                        if i < s0.len() {
                            assert(old(self).entries()[i]@ == d);
                        }
                    }
                    if old(self)@.contains(d) {
                        let i = choose|i: int|
                            0 <= i < old(self).entries().len() && #[trigger] old(self).entries()[i]@ == d;
                        assert(self.entries()[i]@ == d);
                    }
                    if d == c@ {
                        assert(self.entries()[s0.len() as int]@ == d);
                    }
                }
                assert(self@ =~= old(self)@.insert(c@));
            }
        }
    }
}

fn same_option(a: &Option<String>, b: &Option<String>) -> (r: bool)
    ensures
        r == (opt_view(*a) == opt_view(*b)),
{
    match (a, b) {
        (Some(x), Some(y)) => x.eq(y),
        (None, None) => true,
        _ => false,
    }
}

fn same_candidate(a: &CompletionItemData, b: &CompletionItemData) -> (r: bool)
    ensures
        r == (a@ == b@),
{
    a.completion == b.completion && same_option(&a.description, &b.description)
}

fn contains_space(s: &str) -> (r: bool)
    ensures
        r == s@.contains(' '),
{
    let cs = chars_of(s);
    let mut i: usize = 0;
    while i < cs.len()
        invariant
            cs@ == s@,
            i <= cs@.len(),
            forall|j: int| 0 <= j < i ==> cs@[j] != ' ',
        decreases cs@.len() - i,
    {
        if cs[i] == ' ' {
            return true;
        }
        i = i + 1;
    }
    false
}

fn sigil_str(kind: Resource) -> (r: &'static str)
    ensures
        r@ == seq![sigil(kind)],
{
    proof {
        reveal_strlit("~");
        reveal_strlit("@");
        reveal_strlit("%");
        reveal_strlit("/");
    }
    match kind {
        Resource::Labels => "~",
        Resource::Members => "@",
        Resource::Milestones => "%",
        Resource::QuickActions => "/",
    }
}

/// The completion text for `value`: the sigil, the value in double quotes
/// when it holds a space, and one trailing space.
pub fn make_completion(kind: Resource, value: &str) -> (r: String)
    ensures
        r@ == completion_text(sigil(kind), value@),
{
    proof {
        reveal_strlit("\"");
        reveal_strlit("\" ");
        reveal_strlit(" ");
    }
    let mut r = String::from_str(sigil_str(kind));
    if contains_space(value) {
        r.append("\"");
        r.append(value);
        r.append("\" ");
        assert(r@ =~= seq![sigil(kind), '"'] + value@ + seq!['"', ' ']);
    } else {
        r.append(value);
        r.append(" ");
        assert(r@ =~= seq![sigil(kind)] + value@ + seq![' ']);
    }
    r
}

fn description_of(f: &RawField) -> (r: Option<String>)
    ensures
        opt_view(r) == kept_description(*f),
{
    match f {
        RawField::Str(d) => {
            if d.as_str().unicode_len() > 0 {
                Some(d.clone())
            } else {
                None
            }
        },
        _ => None,
    }
}

/// The candidate that one record of a resource list yields, if any.
pub fn candidate_from(kind: Resource, r: &RawRecord) -> (c: Option<CompletionItemData>)
    requires
        kind.is_fetchable(),
    ensures
        match c {
            Some(x) => candidate_of(kind, *r) == Some(x@),
            None => candidate_of(kind, *r) is None,
        },
{
    if kind == Resource::Milestones {
        if let RawField::Bool(true) = r.expired {
            return None;
        }
    }
    let (value, description) = match kind {
        Resource::Labels => (&r.name, &r.description),
        Resource::Members => (&r.username, &r.name),
        _ => (&r.title, &r.description),
    };
    match value {
        RawField::Str(v) => Some(
            CompletionItemData {
                completion: make_completion(kind, v.as_str()),
                description: description_of(description),
            },
        ),
        _ => None,
    }
}

/// Normalizes a fetched resource list into its candidate set: records that
/// are no objects, lack a string value or are expired milestones are dropped,
/// and equal candidates collapse into one.
pub fn process_resource(kind: Resource, raws: &Vec<Option<RawRecord>>) -> (r: CandidateSet)
    requires
        kind.is_fetchable(),
    ensures
        r.wf(),
        r@ == normalized(kind, raws@),
{
    let mut r = CandidateSet::new();
    let mut i: usize = 0;
    assert(r@ =~= normalized_prefix(kind, raws@, 0));
    while i < raws.len()
        invariant
            kind.is_fetchable(),
            i <= raws@.len(),
            r.wf(),
            r@ == normalized_prefix(kind, raws@, i as int),
        decreases raws@.len() - i,
    {
        let ghost before = r@;
        let c = match &raws[i] {
            Some(rec) => candidate_from(kind, rec),
            None => None,
        };
        match c {
            Some(x) => {
                let ghost cv = x@;
                r.insert(x);
                assert(candidate_at(kind, raws@, i as int) == Some(cv));
                assert(r@ =~= normalized_prefix(kind, raws@, i + 1)) by {
                    assert forall|d: CandidateView|
                        #[trigger] normalized_prefix(kind, raws@, i + 1).contains(d) implies r@.contains(d) by {
                        let j = choose|j: int| 0 <= j < i + 1 && #[trigger] candidate_at(kind, raws@, j) == Some(d);
                        if j < i {
                            assert(before.contains(d));
                        }
                    }
                }
            },
            None => {
                assert(candidate_at(kind, raws@, i as int) is None);
                assert(r@ =~= normalized_prefix(kind, raws@, i + 1)) by {
                    assert forall|d: CandidateView|
                        #[trigger] normalized_prefix(kind, raws@, i + 1).contains(d) implies r@.contains(d) by {
                        let j = choose|j: int| 0 <= j < i + 1 && #[trigger] candidate_at(kind, raws@, j) == Some(d);
                        assert(j < i);
                    }
                }
            },
        }
        i = i + 1;
    }
    r
}

/// A completion text is the sigil, the value wrapped in double quotes exactly
/// when it holds a space, and a single trailing space.
pub proof fn lemma_completion_text(kind: Resource, v: Seq<char>)
    ensures
        v.contains(' ') ==> completion_text(sigil(kind), v) == seq![sigil(kind), '"'] + v + seq![
            '"',
            ' ',
        ],
        !v.contains(' ') ==> completion_text(sigil(kind), v) == seq![sigil(kind)] + v + seq![' '],
        completion_text(sigil(kind), v).len() >= 2,
        completion_text(sigil(kind), v).last() == ' ',
        completion_text(sigil(kind), v)[completion_text(sigil(kind), v).len() - 2] != ' ',
{
    let t = completion_text(sigil(kind), v);
    if v.contains(' ') {
        assert(t[t.len() - 2] == '"');
    } else if v.len() > 0 {
        assert(t[t.len() - 2] == v[v.len() - 1]);
        assert(v[v.len() - 1] != ' ');
    } else {
        assert(t[0] == sigil(kind));
    }
}

/// Every candidate of a resource list ends in exactly one space.
pub proof fn lemma_normalized_trailing_space(kind: Resource, raws: Seq<Option<RawRecord>>)
    ensures
        forall|c: CandidateView| #[trigger]
            normalized(kind, raws).contains(c) ==> c.0.len() >= 2 && c.0.last() == ' ' && c.0[c.0.len()
                - 2] != ' ',
{
    assert forall|c: CandidateView| #[trigger]
        normalized(kind, raws).contains(c) implies c.0.len() >= 2 && c.0.last() == ' ' && c.0[c.0.len()
            - 2] != ' ' by {
        let i = choose|i: int| 0 <= i < raws.len() && #[trigger] candidate_at(kind, raws, i) == Some(c);
        if let RawField::Str(v) = value_field(kind, raws[i]->0) {
            lemma_completion_text(kind, v@);
        }
    }
}

/// An expired milestone yields no candidate, and every milestone candidate
/// comes from a record that is not expired.
pub proof fn lemma_expired_milestones_dropped(raws: Seq<Option<RawRecord>>)
    ensures
        forall|r: RawRecord| is_expired(r) ==> #[trigger] candidate_of(Resource::Milestones, r) is None,
        forall|c: CandidateView| #[trigger]
            normalized(Resource::Milestones, raws).contains(c) ==> exists|i: int|
                0 <= i < raws.len() && raws[i] is Some && !is_expired(#[trigger] raws[i]->0)
                    && candidate_of(Resource::Milestones, raws[i]->0) == Some(c),
{
    assert forall|c: CandidateView| #[trigger]
        normalized(Resource::Milestones, raws).contains(c) implies exists|i: int|
            0 <= i < raws.len() && raws[i] is Some && !is_expired(#[trigger] raws[i]->0)
                && candidate_of(Resource::Milestones, raws[i]->0) == Some(c) by {
        let i = choose|i: int|
            0 <= i < raws.len() && #[trigger] candidate_at(Resource::Milestones, raws, i) == Some(c);
        assert(raws[i] is Some && !is_expired(raws[i]->0));
    }
}

/// Normalizing a list followed by a repeat of any of its entries gives the
/// same set as the list alone: duplicate records collapse into one candidate.
pub proof fn lemma_duplicates_collapse(kind: Resource, raws: Seq<Option<RawRecord>>, dup: Seq<
    Option<RawRecord>,
>)
    requires
        forall|j: int| 0 <= j < dup.len() ==> raws.contains(#[trigger] dup[j]),
    ensures
        normalized(kind, raws + dup) == normalized(kind, raws),
{
    let all = raws + dup;
    assert forall|c: CandidateView|
        normalized(kind, all).contains(c) <==> #[trigger] normalized(kind, raws).contains(c) by {
        if normalized(kind, all).contains(c) {
            let i = choose|i: int| 0 <= i < all.len() && #[trigger] candidate_at(kind, all, i) == Some(c);
            if i < raws.len() {
                assert(candidate_at(kind, raws, i) == Some(c));
            } else {
                assert(raws.contains(dup[i - raws.len()]));
                let k = choose|k: int| 0 <= k < raws.len() && raws[k] == dup[i - raws.len()];
                assert(candidate_at(kind, raws, k) == Some(c));
            }
        }
        if normalized(kind, raws).contains(c) {
            let i = choose|i: int| 0 <= i < raws.len() && #[trigger] candidate_at(kind, raws, i) == Some(c);
            assert(candidate_at(kind, all, i) == Some(c));
        }
    }
    assert(normalized(kind, all) =~= normalized(kind, raws));
}

/// Normalizing the same input again yields the same set: a list read twice
/// over gives what it gives once.
pub proof fn lemma_normalize_idempotent(kind: Resource, raws: Seq<Option<RawRecord>>)
    ensures
        normalized(kind, raws + raws) == normalized(kind, raws),
{
    assert forall|j: int| 0 <= j < raws.len() implies raws.contains(#[trigger] raws[j]) by {}
    lemma_duplicates_collapse(kind, raws, raws);
}

} // verus!

use vstd::prelude::*;

use crate::candidate::{RawRecord, Resource};
use crate::text::chars_of;

verus! {

/// The base address of the remote service's API.
pub const GITLAB_API_BASE: &'static str = "https://gitlab.com/api/v4";

/// A base address loses one trailing slash.
pub open spec fn strip_slash(b: Seq<char>) -> Seq<char> {
    if b.len() > 0 && b.last() == '/' {
        b.drop_last()
    } else {
        b
    }
}

/// A project identifier with each `/` percent-encoded.
pub open spec fn encode_project(p: Seq<char>) -> Seq<char>
    decreases p.len(),
{
    if p.len() == 0 {
        Seq::empty()
    } else {
        encode_project(p.drop_last()) + if p.last() == '/' {
            "%2F"@
        } else {
            seq![p.last()]
        }
    }
}

/// The API path of a fetched resource kind.
pub open spec fn resource_path(kind: Resource) -> Seq<char> {
    match kind {
        Resource::Labels => "labels"@,
        Resource::Members => "members/all"@,
        _ => "milestones"@,
    }
}

/// The address of the first page, of up to a hundred items, of a resource list.
pub open spec fn resource_url_of(base: Seq<char>, project: Seq<char>, kind: Resource) -> Seq<char> {
    strip_slash(base) + "/projects/"@ + encode_project(project) + "/"@ + resource_path(kind)
        + "?per_page=100"@
}

fn path_str(kind: Resource) -> (r: &'static str)
    ensures
        r@ == resource_path(kind),
{
    match kind {
        Resource::Labels => "labels",
        Resource::Members => "members/all",
        _ => "milestones",
    }
}

/// The address from which a resource kind of `project` is fetched.
pub fn gitlab_resource_url(api_base: &str, project: &str, kind: Resource) -> (r: String)
    requires
        kind.is_fetchable(),
    ensures
        r@ == resource_url_of(api_base@, project@, kind),
{
    let n = api_base.unicode_len();
    let base = if n > 0 && api_base.get_char(n - 1) == '/' {
        api_base.substring_char(0, n - 1)
    } else {
        api_base
    };
    assert(base@ =~= strip_slash(api_base@));
    let mut r = String::from_str(base);
    r.append("/projects/");
    let ghost head = r@;
    let cs = chars_of(project);
    let mut i: usize = 0;
    assert(project@.take(0) =~= Seq::<char>::empty());
    while i < cs.len()
        invariant
            cs@ == project@,
            i <= cs@.len(),
            r@ == head + encode_project(project@.take(i as int)),
        decreases cs@.len() - i,
    {
        assert(project@.take(i + 1).drop_last() =~= project@.take(i as int));
        if cs[i] == '/' {
            r.append("%2F");
        } else {
            r.append(project.substring_char(i, i + 1));
        }
        i = i + 1;
    }
    assert(project@.take(i as int) =~= project@);
    r.append("/");
    r.append(path_str(kind));
    r.append("?per_page=100");
    r
}

/// A fetch that initialization asks the caller to perform.
#[derive(Clone, Debug)]
pub struct FetchRequest {
    pub kind: Resource,
    pub url: String,
    pub token: String,
}

/// What came of one fetch: the objects of a resource list (`None` for an
/// entry that is no object), or a failure of transport or of shape.
#[derive(Clone, Debug)]
pub enum FetchOutcome {
    Fetched(Vec<Option<RawRecord>>),
    Failed,
}

} // verus!

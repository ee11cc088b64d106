use vstd::prelude::*;

use crate::candidate::Resource;

verus! {

/// The pieces of `s` between line feeds, the last one possibly empty.
pub open spec fn raw_split(s: Seq<char>) -> Seq<Seq<char>>
    decreases s.len(),
{
    if s.len() == 0 {
        seq![Seq::empty()]
    } else {
        let p = raw_split(s.drop_last());
        if s.last() == '\n' {
            p.push(Seq::empty())
        } else {
            p.update(p.len() - 1, p.last().push(s.last()))
        }
    }
}

/// A line ended by `\r\n` loses its carriage return.
pub open spec fn strip_cr(l: Seq<char>) -> Seq<char> {
    if l.len() > 0 && l.last() == '\r' {
        l.drop_last()
    } else {
        l
    }
}

/// The number of lines of a text; a final line feed ends a line, it does not start one.
pub open spec fn line_count(s: Seq<char>) -> int {
    if s.len() == 0 || s.last() == '\n' {
        raw_split(s).len() - 1
    } else {
        raw_split(s).len() as int
    }
}

/// Line `n` of a text, without its line ending.
pub open spec fn line_of(s: Seq<char>, n: int) -> Seq<char> {
    if n < raw_split(s).len() - 1 {
        strip_cr(raw_split(s)[n])
    } else {
        raw_split(s)[n]
    }
}

pub proof fn lemma_raw_split_len(s: Seq<char>)
    ensures
        raw_split(s).len() >= 1,
    decreases s.len(),
{
    if s.len() > 0 {
        lemma_raw_split_len(s.drop_last());
    }
}

/// The finished pieces of a prefix are pieces of the whole text.
pub proof fn lemma_raw_split_prefix(s: Seq<char>, j: int)
    requires
        0 <= j <= s.len(),
    ensures
        raw_split(s).len() >= raw_split(s.take(j)).len(),
        forall|k: int|
            0 <= k < raw_split(s.take(j)).len() - 1 ==> #[trigger] raw_split(s)[k] == raw_split(
                s.take(j),
            )[k],
    decreases s.len(),
{
    if j == s.len() {
        assert(s.take(j) =~= s);
    } else {
        let t = s.drop_last();
        assert(s.take(j) =~= t.take(j));
        lemma_raw_split_prefix(t, j);
        lemma_raw_split_len(t);
    }
}

fn strip_cr_vec(l: Vec<char>) -> (r: Vec<char>)
    ensures
        r@ == strip_cr(l@),
{
    let mut l = l;
    if l.len() > 0 && l[l.len() - 1] == '\r' {
        l.pop();
    }
    l
}

/// Line `n` of `text` as `str::lines` yields it, or `None` where the text
/// has no such line.
pub fn line_at(text: &Vec<char>, n: usize) -> (r: Option<Vec<char>>)
    ensures
        match r {
            Some(l) => n < line_count(text@) && l@ == line_of(text@, n as int),
            None => n >= line_count(text@),
        },
{
    let mut count: usize = 0;
    let mut cur: Vec<char> = Vec::new();
    let mut i: usize = 0;
    assert(text@.take(0) =~= Seq::<char>::empty());
    while i < text.len()
        invariant
            i <= text@.len(),
            count <= n,
            raw_split(text@.take(i as int)).len() == count + 1,
            raw_split(text@.take(i as int)).last() == cur@,
        decreases text@.len() - i,
    {
        let c = text[i];
        let ghost pre = text@.take(i as int);
        assert(text@.take(i + 1).drop_last() =~= pre);
        if c == '\n' {
            if count == n {
                proof {
                    lemma_raw_split_prefix(text@, i + 1);
                    lemma_raw_split_len(text@);
                    assert(raw_split(text@.take(i + 1))[n as int] == cur@);
                }
                return Some(strip_cr_vec(cur));
            }
            count = count + 1;
            cur = Vec::new();
        } else {
            cur.push(c);
        }
        i = i + 1;
    }
    assert(text@.take(i as int) =~= text@);
    if count < n || text.len() == 0 || text[text.len() - 1] == '\n' {
        None
    } else {
        Some(cur)
    }
}

/// Spaces and tabs separate words.
pub open spec fn is_boundary(c: char) -> bool {
    c == ' ' || c == '\t'
}

/// The index that is inspected: one before the cursor, and never below zero.
pub open spec fn lookup_index(character: u32) -> int {
    if character == 0 {
        0
    } else {
        character - 1
    }
}

/// Just past the last boundary before `i`, or zero.
pub open spec fn word_start(line: Seq<char>, i: int) -> int
    decreases i,
{
    if i <= 0 {
        0
    } else if is_boundary(line[i - 1]) {
        i
    } else {
        word_start(line, i - 1)
    }
}

/// The first boundary at or after `i`, or the end of the line.
pub open spec fn word_end(line: Seq<char>, i: int) -> int
    decreases line.len() - i,
{
    if i >= line.len() {
        line.len() as int
    } else if is_boundary(line[i]) {
        i
    } else {
        word_end(line, i + 1)
    }
}

/// The half-open range of the word under the cursor.
pub open spec fn span_of(line: Seq<char>, character: u32) -> (int, int) {
    let idx = lookup_index(character);
    if idx > line.len() {
        (idx, idx)
    } else {
        (word_start(line, idx), word_end(line, idx))
    }
}

/// The character that starts the word under the cursor, if the line has one there.
pub open spec fn trigger_of(line: Seq<char>, character: u32) -> Option<char> {
    let s = span_of(line, character).0;
    if s < line.len() {
        Some(line[s])
    } else {
        None
    }
}

/// The resource kind that a trigger character asks for.
pub open spec fn kind_of_trigger(c: char) -> Option<Resource> {
    if c == '/' {
        Some(Resource::QuickActions)
    } else if c == '@' {
        Some(Resource::Members)
    } else if c == '%' {
        Some(Resource::Milestones)
    } else if c == '~' {
        Some(Resource::Labels)
    } else {
        None
    }
}

/// What completion at a cursor asks for.
pub open spec fn context_of(line: Seq<char>, character: u32) -> Option<(Resource, int, int)> {
    match trigger_of(line, character) {
        Some(t) => match kind_of_trigger(t) {
            Some(k) => Some((k, span_of(line, character).0, span_of(line, character).1)),
            None => None,
        },
        None => None,
    }
}

/// The word under the cursor at `character` on `line`, as `[start, end)`.
/// Its start is zero when the cursor is at the start of the line.
pub fn word_span(line: &Vec<char>, character: u32) -> (r: (usize, usize))
    ensures
        r.0 == span_of(line@, character).0,
        r.1 == span_of(line@, character).1,
        r.0 <= r.1,
        character == 0 ==> r.0 == 0,
{
    let index: usize = if character == 0 {
        0
    } else {
        (character - 1) as usize
    };
    if index > line.len() {
        return (index, index);
    }
    let mut start: usize = index;
    while start > 0 && !(line[start - 1] == ' ' || line[start - 1] == '\t')
        invariant
            start <= index <= line@.len(),
            word_start(line@, start as int) == word_start(line@, index as int),
        decreases start,
    {
        start = start - 1;
    }
    let mut end: usize = index;
    while end < line.len() && !(line[end] == ' ' || line[end] == '\t')
        invariant
            index <= end <= line@.len(),
            word_end(line@, end as int) == word_end(line@, index as int),
        decreases line@.len() - end,
    {
        end = end + 1;
    }
    (start, end)
}

/// The trigger, resource kind and word range that completion at a cursor resolves to.
#[derive(Clone, Copy, Debug, PartialEq, Eq, Structural)]
pub struct CursorContext {
    pub kind: Resource,
    pub start: usize,
    pub end: usize,
}

/// The resource kind named by a trigger character, if any.
pub fn trigger_kind(c: char) -> (r: Option<Resource>)
    ensures
        r == kind_of_trigger(c),
{
    match c {
        '/' => Some(Resource::QuickActions),
        '@' => Some(Resource::Members),
        '%' => Some(Resource::Milestones),
        '~' => Some(Resource::Labels),
        _ => None,
    }
}

/// Resolves the cursor at `character` on `line`: the word under it, and the
/// resource kind that the word's first character asks for. `None` declines.
pub fn resolve(line: &Vec<char>, character: u32) -> (r: Option<CursorContext>)
    ensures
        match r {
            Some(ctx) => context_of(line@, character) == Some(
                (ctx.kind, ctx.start as int, ctx.end as int),
            ),
            None => context_of(line@, character) is None,
        },
{
    let (start, end) = word_span(line, character);
    if start >= line.len() {
        return None;
    }
    match trigger_kind(line[start]) {
        Some(kind) => Some(CursorContext { kind, start, end }),
        None => None,
    }
}

} // verus!

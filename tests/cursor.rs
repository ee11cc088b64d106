use gitlab_language_server::candidate::Resource;
use gitlab_language_server::cursor::{line_at, resolve, trigger_kind, word_span};

fn chars(s: &str) -> Vec<char> {
    s.chars().collect()
}

fn line(text: &str, n: usize) -> Option<String> {
    line_at(&chars(text), n).map(|l| l.into_iter().collect())
}

#[test]
fn word_range_covers_member_reference() {
    let l = chars("foo @bar baz");
    assert_eq!(word_span(&l, 6), (4, 8));
    let ctx = resolve(&l, 6).unwrap();
    assert_eq!(ctx.kind, Resource::Members);
    assert_eq!((ctx.start, ctx.end), (4, 8));
    assert_eq!(l[ctx.start], '@');
}

#[test]
fn cursor_at_column_zero_starts_word_at_zero() {
    for text in ["", "~label", "  indented", "\tx", "plain words"] {
        let (start, _) = word_span(&chars(text), 0);
        assert_eq!(start, 0);
    }
    let ctx = resolve(&chars("~label rest"), 0).unwrap();
    assert_eq!((ctx.kind, ctx.start, ctx.end), (Resource::Labels, 0, 6));
    assert!(resolve(&chars(""), 0).is_none());
}

#[test]
fn line_without_boundaries_is_one_word() {
    assert_eq!(word_span(&chars("%milestone"), 4), (0, 10));
}

#[test]
fn tabs_separate_words() {
    let ctx = resolve(&chars("a\t/due"), 4).unwrap();
    assert_eq!((ctx.kind, ctx.start, ctx.end), (Resource::QuickActions, 2, 6));
}

#[test]
fn other_first_characters_decline() {
    assert!(resolve(&chars("foo bar"), 6).is_none());
    assert!(resolve(&chars("foo "), 5).is_none());
    assert!(resolve(&chars("ab"), 40).is_none());
    assert_eq!(word_span(&chars("ab"), 40), (39, 39));
}

#[test]
fn trigger_characters_map_to_kinds() {
    assert_eq!(trigger_kind('/'), Some(Resource::QuickActions));
    assert_eq!(trigger_kind('@'), Some(Resource::Members));
    assert_eq!(trigger_kind('%'), Some(Resource::Milestones));
    assert_eq!(trigger_kind('~'), Some(Resource::Labels));
    assert_eq!(trigger_kind('#'), None);
}

#[test]
fn lines_split_like_str_lines() {
    let texts = ["", "one", "one\n", "one\ntwo", "a\r\nb\r\n", "a\n\nb", "x\r", "\n"];
    for t in texts {
        let expected: Vec<&str> = t.lines().collect();
        for n in 0..expected.len() {
            assert_eq!(line(t, n).as_deref(), Some(expected[n]));
        }
        assert_eq!(line(t, expected.len()), None);
    }
    assert_eq!(line("a\r\nb", 0).as_deref(), Some("a"));
}

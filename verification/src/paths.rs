//! Windows path text: the last component of a path and joining components.

use crate::text::{ascii_lower_char, chars_of, lower, string_from_chars};
use vstd::prelude::*;

verus! {

/// A path separator on Windows.
pub open spec fn is_separator(c: char) -> bool {
    c == '\\' || c == '/'
}

/// The path starts with a drive prefix such as `C:`.
pub open spec fn has_drive_prefix(s: Seq<char>) -> bool {
    &&& s.len() >= 2
    &&& s[1] == ':'
    &&& (('a' <= s[0] && s[0] <= 'z') || ('A' <= s[0] && s[0] <= 'Z'))
}

/// The characters after the last separator.
pub open spec fn after_last_separator(s: Seq<char>) -> Seq<char>
    decreases s.len(),
{
    if s.len() == 0 {
        s
    } else if is_separator(s.last()) {
        Seq::empty()
    } else {
        after_last_separator(s.drop_last()).push(s.last())
    }
}

/// The last normal component of a path without prefix: trailing separators
/// and `.` components are skipped; a final `..` or an empty path has none.
pub open spec fn last_component(s: Seq<char>) -> Option<Seq<char>>
    decreases s.len(),
{
    if s.len() == 0 {
        None
    } else if is_separator(s.last()) {
        last_component(s.drop_last())
    } else {
        let piece = after_last_separator(s);
        if piece == seq!['.'] {
            last_component(s.drop_last())
        } else if piece == seq!['.', '.'] {
            None
        } else {
            Some(piece)
        }
    }
}

/// The file name of a Windows path (`Path::file_name`): the last normal
/// component after an optional drive prefix.
pub open spec fn file_name_of(path: Seq<char>) -> Option<Seq<char>> {
    if has_drive_prefix(path) {
        last_component(path.skip(2))
    } else {
        last_component(path)
    }
}

/// `base` joined with the relative component `part` (`Path::join`): a
/// separator is added unless `base` is empty, already ends with one, or is a
/// bare drive prefix such as `C:` (which `part` then continues).
pub open spec fn join_path(base: Seq<char>, part: Seq<char>) -> Seq<char> {
    if base.len() == 0 || is_separator(base.last()) || (base.len() == 2 && has_drive_prefix(base)) {
        base + part
    } else {
        base.push('\\') + part
    }
}

/// Lowercasing keeps separators, dots and drive letters where they are.
proof fn lemma_lower_char_kinds(c: char)
    ensures
        is_separator(ascii_lower_char(c)) == is_separator(c),
        (ascii_lower_char(c) == '.') == (c == '.'),
        (('a' <= ascii_lower_char(c) && ascii_lower_char(c) <= 'z') || ('A' <= ascii_lower_char(c) && ascii_lower_char(
            c,
        ) <= 'Z')) == (('a' <= c && c <= 'z') || ('A' <= c && c <= 'Z')),
        (ascii_lower_char(c) == ':') == (c == ':'),
{
}

proof fn lemma_lower_drop_last(s: Seq<char>)
    requires
        s.len() > 0,
    ensures
        lower(s.drop_last()) == lower(s).drop_last(),
        lower(s).last() == ascii_lower_char(s.last()),
{
    assert(lower(s.drop_last()) =~= lower(s).drop_last());
}

proof fn lemma_after_last_separator_lower(s: Seq<char>)
    ensures
        after_last_separator(lower(s)) == lower(after_last_separator(s)),
    decreases s.len(),
{
    if s.len() > 0 {
        lemma_lower_drop_last(s);
        lemma_lower_char_kinds(s.last());
        lemma_after_last_separator_lower(s.drop_last());
        if !is_separator(s.last()) {
            assert(lower(after_last_separator(s.drop_last()).push(s.last())) =~= lower(
                after_last_separator(s.drop_last()),
            ).push(ascii_lower_char(s.last())));
        } else {
            assert(lower(Seq::<char>::empty()) =~= Seq::<char>::empty());
        }
    } else {
        assert(lower(s) =~= s);
    }
}

proof fn lemma_dots_lower(piece: Seq<char>)
    ensures
        (lower(piece) == seq!['.']) == (piece == seq!['.']),
        (lower(piece) == seq!['.', '.']) == (piece == seq!['.', '.']),
{
    assert(lower(piece).len() == piece.len());
    if piece.len() == 1 {
        lemma_lower_char_kinds(piece[0]);
        assert(lower(piece)[0] == ascii_lower_char(piece[0]));
        if lower(piece) == seq!['.'] {
            assert(piece =~= seq!['.']);
        }
        if piece == seq!['.'] {
            assert(lower(piece) =~= seq!['.']);
        }
    }
    if piece.len() == 2 {
        lemma_lower_char_kinds(piece[0]);
        lemma_lower_char_kinds(piece[1]);
        assert(lower(piece)[0] == ascii_lower_char(piece[0]));
        assert(lower(piece)[1] == ascii_lower_char(piece[1]));
        if lower(piece) == seq!['.', '.'] {
            assert(piece =~= seq!['.', '.']);
        }
        if piece == seq!['.', '.'] {
            assert(lower(piece) =~= seq!['.', '.']);
        }
    }
}

proof fn lemma_last_component_lower(s: Seq<char>)
    ensures
        last_component(lower(s)) == match last_component(s) {
            Some(n) => Some(lower(n)),
            None => None,
        },
    decreases s.len(),
{
    if s.len() > 0 {
        lemma_lower_drop_last(s);
        lemma_lower_char_kinds(s.last());
        lemma_last_component_lower(s.drop_last());
        lemma_after_last_separator_lower(s);
        lemma_dots_lower(after_last_separator(s));
    }
}

/// The file name of a lowercased path is the lowercased file name.
pub proof fn lemma_file_name_of_lower(path: Seq<char>)
    ensures
        file_name_of(lower(path)) == match file_name_of(path) {
            Some(n) => Some(lower(n)),
            None => None,
        },
{
    if path.len() >= 2 {
        lemma_lower_char_kinds(path[0]);
        lemma_lower_char_kinds(path[1]);
        assert(lower(path)[0] == ascii_lower_char(path[0]));
        assert(lower(path)[1] == ascii_lower_char(path[1]));
        assert(lower(path).skip(2) =~= lower(path.skip(2)));
        lemma_last_component_lower(path.skip(2));
    }
    lemma_last_component_lower(path);
}

fn is_sep(c: char) -> (r: bool)
    ensures
        r == is_separator(c),
{
    c == '\\' || c == '/'
}

/// Start of the text after the last separator in `v[start..end]`.
fn piece_start(v: &Vec<char>, start: usize, end: usize) -> (b: usize)
    requires
        start <= end <= v@.len(),
    ensures
        start <= b <= end,
        v@.subrange(b as int, end as int) == after_last_separator(v@.subrange(start as int, end as int)),
    decreases end - start,
{
    if end == start {
        assert(v@.subrange(start as int, end as int) =~= Seq::<char>::empty());
        end
    } else if is_sep(v[end - 1]) {
        assert(v@.subrange(end as int, end as int) =~= Seq::<char>::empty());
        end
    } else {
        let b = piece_start(v, start, end - 1);
        assert(v@.subrange(start as int, end - 1) =~= v@.subrange(start as int, end as int).drop_last());
        assert(v@.subrange(b as int, end as int) =~= v@.subrange(b as int, end - 1).push(v@[end - 1]));
        b
    }
}

fn last_component_of(v: &Vec<char>, start: usize, end: usize) -> (r: Option<Vec<char>>)
    requires
        start <= end <= v@.len(),
    ensures
        match r {
            Some(p) => last_component(v@.subrange(start as int, end as int)) == Some(p@),
            None => last_component(v@.subrange(start as int, end as int)) is None,
        },
    decreases end - start,
{
    let ghost s = v@.subrange(start as int, end as int);
    if end == start {
        return None;
    }
    assert(v@.subrange(start as int, end - 1) =~= s.drop_last());
    if is_sep(v[end - 1]) {
        return last_component_of(v, start, end - 1);
    }
    let b = piece_start(v, start, end);
    let len = end - b;
    if len == 1 && v[b] == '.' {
        assert(v@.subrange(b as int, end as int) =~= seq!['.']);
        return last_component_of(v, start, end - 1);
    }
    if len == 2 && v[b] == '.' && v[b + 1] == '.' {
        assert(v@.subrange(b as int, end as int) =~= seq!['.', '.']);
        return None;
    }
    let mut piece: Vec<char> = Vec::new();
    let mut k = b;
    while k < end
        invariant
            b <= k <= end,
            end <= v@.len(),
            piece@ == v@.subrange(b as int, k as int),
        decreases end - k,
    {
        piece.push(v[k]);
        assert(piece@ =~= v@.subrange(b as int, k + 1));
        k = k + 1;
    }
    proof {
        let p = v@.subrange(b as int, end as int);
        if p == seq!['.'] {
            assert(p.len() == 1 && p[0] == '.');
        }
        if p == seq!['.', '.'] {
            assert(p.len() == 2 && p[0] == '.' && p[1] == '.');
        }
    }
    Some(piece)
}

/// The file name of a Windows path, if it has one.
pub fn file_name_chars(path: &str) -> (r: Option<Vec<char>>)
    ensures
        match r {
            Some(p) => file_name_of(path@) == Some(p@),
            None => file_name_of(path@) is None,
        },
{
    let v = chars_of(path);
    let drive = v.len() >= 2 && v[1] == ':' && (('a' <= v[0] && v[0] <= 'z') || ('A' <= v[0] && v[0] <= 'Z'));
    let start: usize = if drive { 2 } else { 0 };
    assert(v@.subrange(start as int, v@.len() as int) =~= if drive { v@.skip(2) } else { v@ });
    last_component_of(&v, start, v.len())
}

/// `base` joined with `part`.
pub fn join(base: &str, part: &str) -> (r: String)
    ensures
        r@ == join_path(base@, part@),
{
    let mut v = chars_of(base);
    let n = v.len();
    let bare_drive = n == 2 && v[1] == ':' && (('a' <= v[0] && v[0] <= 'z') || ('A' <= v[0] && v[0] <= 'Z'));
    if n > 0 && !is_sep(v[n - 1]) && !bare_drive {
        v.push('\\');
    }
    let mut p = chars_of(part);
    v.append(&mut p);
    string_from_chars(&v)
}

} // verus!

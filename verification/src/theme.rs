//! Locating cursor theme files: the ordered search directories from the
//! environment, the `index.theme` inheritance parser, and the recursive
//! search over a theme's `Inherits` chain with cycle protection.

use vstd::prelude::*;

use crate::cursor::CursorError;

verus! {

/// Appends all bytes of `src` to `dst`.
pub fn push_all(dst: &mut Vec<u8>, src: &Vec<u8>)
    ensures
        final (dst)@ == old(dst)@ + src@,
{
    let mut i: usize = 0;
    while i < src.len()
        invariant
            i <= src@.len(),
            dst@ == old(dst)@ + src@.subrange(0, i as int),
        decreases src@.len() - i,
    {
        dst.push(src[i]);
        i = i + 1;
        proof {
            assert(dst@ =~= old(dst)@ + src@.subrange(0, i as int));
        }
    }
    proof {
        assert(old(dst)@ + src@.subrange(0, src@.len() as int) =~= old(dst)@ + src@);
    }
}

/// Copies a byte vector.
pub fn to_owned_bytes(v: &Vec<u8>) -> (r: Vec<u8>)
    ensures
        r@ == v@,
{
    let mut r: Vec<u8> = Vec::new();
    push_all(&mut r, v);
    proof {
        assert(Seq::<u8>::empty() + v@ =~= v@);
    }
    r
}

/// Whether two byte strings are equal.
pub fn bytes_eq(a: &Vec<u8>, b: &Vec<u8>) -> (r: bool)
    ensures
        r == (a@ == b@),
{
    if a.len() != b.len() {
        proof {
            assert(a@.len() != b@.len());
        }
        return false;
    }
    let mut i: usize = 0;
    while i < a.len()
        invariant
            i <= a@.len(),
            a@.len() == b@.len(),
            forall|j: int| 0 <= j < i ==> a@[j] == b@[j],
        decreases a@.len() - i,
    {
        if a[i] != b[i] {
            return false;
        }
        i = i + 1;
    }
    proof {
        assert(a@ =~= b@);
    }
    true
}

/// The colon-separated default search path used when the path variable is
/// unset: `~/.icons:/usr/share/icons:/usr/share/pixmaps:/usr/X11R6/lib/X11/icons`.
pub open spec fn spec_default_xcursor_path() -> Seq<u8> {
    seq![
        '~' as u8, '/' as u8, '.' as u8, 'i' as u8, 'c' as u8, 'o' as u8, 'n' as u8, 's' as u8,
        ':' as u8, '/' as u8, 'u' as u8, 's' as u8, 'r' as u8, '/' as u8, 's' as u8, 'h' as u8,
        'a' as u8, 'r' as u8, 'e' as u8, '/' as u8, 'i' as u8, 'c' as u8, 'o' as u8, 'n' as u8,
        's' as u8, ':' as u8, '/' as u8, 'u' as u8, 's' as u8, 'r' as u8, '/' as u8, 's' as u8,
        'h' as u8, 'a' as u8, 'r' as u8, 'e' as u8, '/' as u8, 'p' as u8, 'i' as u8, 'x' as u8,
        'm' as u8, 'a' as u8, 'p' as u8, 's' as u8, ':' as u8, '/' as u8, 'u' as u8, 's' as u8,
        'r' as u8, '/' as u8, 'X' as u8, '1' as u8, '1' as u8, 'R' as u8, '6' as u8, '/' as u8,
        'l' as u8, 'i' as u8, 'b' as u8, '/' as u8, 'X' as u8, '1' as u8, '1' as u8, '/' as u8,
        'i' as u8, 'c' as u8, 'o' as u8, 'n' as u8, 's' as u8,
    ]
}

/// The default search path as bytes.
pub fn default_xcursor_path() -> (r: Vec<u8>)
    ensures
        r@ == spec_default_xcursor_path(),
{
    let v: Vec<u8> = vec![
        '~' as u8, '/' as u8, '.' as u8, 'i' as u8, 'c' as u8, 'o' as u8, 'n' as u8, 's' as u8,
        ':' as u8, '/' as u8, 'u' as u8, 's' as u8, 'r' as u8, '/' as u8, 's' as u8, 'h' as u8,
        'a' as u8, 'r' as u8, 'e' as u8, '/' as u8, 'i' as u8, 'c' as u8, 'o' as u8, 'n' as u8,
        's' as u8, ':' as u8, '/' as u8, 'u' as u8, 's' as u8, 'r' as u8, '/' as u8, 's' as u8,
        'h' as u8, 'a' as u8, 'r' as u8, 'e' as u8, '/' as u8, 'p' as u8, 'i' as u8, 'x' as u8,
        'm' as u8, 'a' as u8, 'p' as u8, 's' as u8, ':' as u8, '/' as u8, 'u' as u8, 's' as u8,
        'r' as u8, '/' as u8, 'X' as u8, '1' as u8, '1' as u8, 'R' as u8, '6' as u8, '/' as u8,
        'l' as u8, 'i' as u8, 'b' as u8, '/' as u8, 'X' as u8, '1' as u8, '1' as u8, '/' as u8,
        'i' as u8, 'c' as u8, 'o' as u8, 'n' as u8, 's' as u8,
    ];
    v
}

/// The first index at or after `i` holding a colon, or `end`.
pub open spec fn colon_from(s: Seq<u8>, i: int, end: int) -> int
    decreases end - i,
{
    if i < 0 || i >= end {
        end
    } else if s[i] == 58 {
        i
    } else {
        colon_from(s, i + 1, end)
    }
}

/// The colon-separated pieces of `s[i..end]`, empty pieces included.
pub open spec fn split_colon(s: Seq<u8>, i: int, end: int) -> Seq<Seq<u8>>
    decreases end - i + 1,
    via split_colon_dec
{
    if i < 0 || i > end {
        Seq::empty()
    } else {
        let c = colon_from(s, i, end);
        if c < end {
            seq![s.subrange(i, c)] + split_colon(s, c + 1, end)
        } else {
            seq![s.subrange(i, end)]
        }
    }
}

#[via_fn]
proof fn split_colon_dec(s: Seq<u8>, i: int, end: int) {
    if 0 <= i <= end {
        lemma_colon_from_bounds(s, i, end);
    }
}

proof fn lemma_colon_from_bounds(s: Seq<u8>, i: int, end: int)
    requires
        0 <= i <= end,
    ensures
        i <= colon_from(s, i, end) <= end,
        colon_from(s, i, end) < end ==> s[colon_from(s, i, end)] == 58,
        forall|j: int| i <= j < colon_from(s, i, end) ==> s[j] != 58,
    decreases end - i,
{
    if i < end && s[i] != 58 {
        lemma_colon_from_bounds(s, i + 1, end);
    }
}

/// Finds the next colon at or after `i`.
fn scan_colon(s: &Vec<u8>, i: usize, end: usize) -> (r: usize)
    requires
        i <= end <= s@.len(),
    ensures
        r == colon_from(s@, i as int, end as int),
        i <= r <= end,
    decreases end - i,
{
    if i >= end {
        return end;
    }
    if s[i] == 58 {
        return i;
    }
    scan_colon(s, i + 1, end)
}

/// Copies `s[start..end]`.
fn sub_bytes(s: &Vec<u8>, start: usize, end: usize) -> (r: Vec<u8>)
    requires
        start <= end <= s@.len(),
    ensures
        r@ == s@.subrange(start as int, end as int),
{
    let mut r: Vec<u8> = Vec::new();
    let mut i: usize = start;
    while i < end
        invariant
            start <= i <= end <= s@.len(),
            r@ == s@.subrange(start as int, i as int),
        decreases end - i,
    {
        r.push(s[i]);
        i = i + 1;
        proof {
            assert(r@ =~= s@.subrange(start as int, i as int));
        }
    }
    r
}

/// Splits `s[i..]` on colons, keeping empty pieces.
fn split_colon_exec(s: &Vec<u8>, i: usize) -> (r: Vec<Vec<u8>>)
    requires
        i <= s@.len(),
    ensures
        r@.map_values(|p: Vec<u8>| p@) == split_colon(s@, i as int, s@.len() as int),
    decreases s@.len() - i,
{
    let end = s.len();
    let c = scan_colon(s, i, end);
    let piece = sub_bytes(s, i, c);
    if c < end {
        let rest = split_colon_exec(s, c + 1);
        let mut r: Vec<Vec<u8>> = Vec::new();
        r.push(piece);
        let mut k: usize = 0;
        let ghost rest_view = rest@.map_values(|p: Vec<u8>| p@);
        while k < rest.len()
            invariant
                k <= rest@.len(),
                rest_view == rest@.map_values(|p: Vec<u8>| p@),
                r@.len() == k + 1,
                r@[0]@ == s@.subrange(i as int, colon_from(s@, i as int, s@.len() as int)),
                forall|j: int| 1 <= j < r@.len() ==> (#[trigger] r@[j])@ == rest_view[j - 1],
            decreases rest@.len() - k,
        {
            r.push(to_owned_bytes(&rest[k]));
            k = k + 1;
        }
        proof {
            assert(r@.map_values(|p: Vec<u8>| p@) =~= seq![piece@] + rest_view);
        }
        r
    } else {
        let mut r: Vec<Vec<u8>> = Vec::new();
        r.push(piece);
        proof {
            assert(r@.map_values(|p: Vec<u8>| p@) =~= seq![
                s@.subrange(i as int, s@.len() as int),
            ]);
        }
        r
    }
}

/// One entry of the search path, expanded: a `~` prefix is replaced by the
/// home directory; an entry needing expansion is dropped when no home is set.
pub open spec fn expand_entry(piece: Seq<u8>, home: Option<Seq<u8>>) -> Option<Seq<u8>> {
    if piece.len() > 0 && piece[0] == '~' as u8 {
        match home {
            Some(h) => Some(h + piece.subrange(1, piece.len() as int)),
            None => None,
        }
    } else {
        Some(piece)
    }
}

/// The expanded search directories of a path string: pieces split on colons,
/// each expanded, dropped entries removed, order preserved.
pub open spec fn spec_cursor_paths(pieces: Seq<Seq<u8>>, home: Option<Seq<u8>>) -> Seq<Seq<u8>>
    decreases pieces.len(),
{
    if pieces.len() == 0 {
        Seq::empty()
    } else {
        let rest = spec_cursor_paths(pieces.drop_last(), home);
        match expand_entry(pieces.last(), home) {
            Some(p) => rest.push(p),
            None => rest,
        }
    }
}

/// Computes the ordered cursor search directories from the environment state:
/// the path variable (or the built-in default when unset) split on colons,
/// with `~` entries expanded through the home variable, or dropped — never
/// failing — when no home is set. First-listed directories keep priority.
pub fn find_cursor_paths(cursor_paths: Option<&Vec<u8>>, home: Option<&Vec<u8>>) -> (r: Vec<
    Vec<u8>,
>)
    ensures
        ({
            let raw = match cursor_paths {
                Some(cp) => cp@,
                None => spec_default_xcursor_path(),
            };
            let home_view = match home {
                Some(h) => Some(h@),
                None => None::<Seq<u8>>,
            };
            r@.map_values(|p: Vec<u8>| p@) == spec_cursor_paths(
                split_colon(raw, 0, raw.len() as int),
                home_view,
            )
        }),
{
    let raw: Vec<u8> = match cursor_paths {
        Some(cp) => to_owned_bytes(cp),
        None => default_xcursor_path(),
    };
    let pieces = split_colon_exec(&raw, 0);
    let ghost pieces_view = pieces@.map_values(|p: Vec<u8>| p@);
    let ghost home_view = match home {
        Some(h) => Some(h@),
        None => None::<Seq<u8>>,
    };
    let mut r: Vec<Vec<u8>> = Vec::new();
    let mut i: usize = 0;
    while i < pieces.len()
        invariant
            i <= pieces@.len(),
            pieces_view == pieces@.map_values(|p: Vec<u8>| p@),
            home_view == match home {
                Some(h) => Some(h@),
                None => None::<Seq<u8>>,
            },
            r@.map_values(|p: Vec<u8>| p@) == spec_cursor_paths(
                pieces_view.subrange(0, i as int),
                home_view,
            ),
        decreases pieces@.len() - i,
    {
        let piece = &pieces[i];
        proof {
            assert(pieces_view.subrange(0, i + 1).drop_last() =~= pieces_view.subrange(
                0,
                i as int,
            ));
            assert(pieces_view.subrange(0, i + 1).last() == pieces_view[i as int]);
        }
        if piece.len() > 0 && piece[0] == '~' as u8 {
            match home {
                Some(h) => {
                    let mut full = to_owned_bytes(h);
                    let tail = sub_bytes(piece, 1, piece.len());
                    push_all(&mut full, &tail);
                    r.push(full);
                },
                None => {
                    // The entry cannot be expanded; it is skipped and the
                    // remaining entries still apply.
                },
            }
        } else {
            r.push(to_owned_bytes(piece));
        }
        proof {
            assert(r@.map_values(|p: Vec<u8>| p@) =~= spec_cursor_paths(
                pieces_view.subrange(0, i + 1),
                home_view,
            ));
        }
        i = i + 1;
    }
    proof {
        assert(pieces_view.subrange(0, pieces_view.len() as int) =~= pieces_view);
    }
    r
}

/// Whether a byte separates parent theme names in an `Inherits` list.
pub open spec fn is_token_sep(b: u8) -> bool {
    b == 32 || b == 9 || b == 10 || b == 59 || b == 44
}

/// The first index at or after `i` holding a newline, or `end`.
pub open spec fn newline_from(s: Seq<u8>, i: int, end: int) -> int
    decreases end - i,
{
    if i < 0 || i >= end {
        end
    } else if s[i] == 10 {
        i
    } else {
        newline_from(s, i + 1, end)
    }
}

/// The first index at or after `i` holding a token separator, or `end`.
pub open spec fn sep_from(s: Seq<u8>, i: int, end: int) -> int
    decreases end - i,
{
    if i < 0 || i >= end {
        end
    } else if is_token_sep(s[i]) {
        i
    } else {
        sep_from(s, i + 1, end)
    }
}

/// The first index at or after `i` holding a byte other than a space, or
/// `end`.
pub open spec fn nonspace_from(s: Seq<u8>, i: int, end: int) -> int
    decreases end - i,
{
    if i < 0 || i >= end {
        end
    } else if s[i] == 32 {
        nonspace_from(s, i + 1, end)
    } else {
        i
    }
}

proof fn lemma_newline_from_bounds(s: Seq<u8>, i: int, end: int)
    requires
        0 <= i <= end,
    ensures
        i <= newline_from(s, i, end) <= end,
    decreases end - i,
{
    if i < end && s[i] != 10 {
        lemma_newline_from_bounds(s, i + 1, end);
    }
}

proof fn lemma_sep_from_bounds(s: Seq<u8>, i: int, end: int)
    requires
        0 <= i <= end,
    ensures
        i <= sep_from(s, i, end) <= end,
    decreases end - i,
{
    if i < end && !is_token_sep(s[i]) {
        lemma_sep_from_bounds(s, i + 1, end);
    }
}

/// The whitespace/semicolon/comma-separated tokens of `s[i..end]`, empty
/// tokens dropped.
pub open spec fn split_tokens(s: Seq<u8>, i: int, end: int) -> Seq<Seq<u8>>
    decreases end - i,
    via split_tokens_dec
{
    if i < 0 || i >= end {
        Seq::empty()
    } else if is_token_sep(s[i]) {
        split_tokens(s, i + 1, end)
    } else {
        let e = sep_from(s, i + 1, end);
        seq![s.subrange(i, e)] + split_tokens(s, e, end)
    }
}

#[via_fn]
proof fn split_tokens_dec(s: Seq<u8>, i: int, end: int) {
    if 0 <= i && i < end && !is_token_sep(s[i]) {
        lemma_sep_from_bounds(s, i + 1, end);
    }
}

/// The literal token `Inherits`.
pub open spec fn spec_inherits_lit() -> Seq<u8> {
    seq!['I' as u8, 'n' as u8, 'h' as u8, 'e' as u8, 'r' as u8, 'i' as u8, 't' as u8, 's' as u8]
}

/// The parent list declared on a single line `s[i..line_end)`, or `None` when
/// the line does not begin with `Inherits`, optional spaces and an equals
/// sign.
pub open spec fn parse_inherits_line(s: Seq<u8>, i: int, line_end: int) -> Option<Seq<Seq<u8>>> {
    if line_end - i >= 8 && s.subrange(i, i + 8) == spec_inherits_lit() {
        let sp = nonspace_from(s, i + 8, line_end);
        if sp < line_end && s[sp] == 61 {
            Some(split_tokens(s, sp + 1, line_end))
        } else {
            None
        }
    } else {
        None
    }
}

/// The parent list of the first `Inherits` line at or after `i`, or `None`
/// when no line up to `end` declares one.
pub open spec fn spec_parents_from(s: Seq<u8>, i: int, end: int) -> Option<Seq<Seq<u8>>>
    decreases end - i,
    via spec_parents_from_dec
{
    if i < 0 || i >= end {
        None
    } else {
        let nl = newline_from(s, i, end);
        let line_end = if nl < end {
            nl + 1
        } else {
            end
        };
        match parse_inherits_line(s, i, line_end) {
            Some(ps) => Some(ps),
            None => spec_parents_from(s, line_end, end),
        }
    }
}

#[via_fn]
proof fn spec_parents_from_dec(s: Seq<u8>, i: int, end: int) {
    if 0 <= i && i < end {
        lemma_newline_from_bounds(s, i, end);
    }
}

/// The parent themes an `index.theme` file declares: the flat list on the
/// first `Inherits` line, or `None` when no such line exists. The file is
/// treated as a flat list rather than a nested INI hierarchy, matching legacy
/// cursor tooling.
pub open spec fn spec_parent_themes(s: Seq<u8>) -> Option<Seq<Seq<u8>>> {
    spec_parents_from(s, 0, s.len() as int)
}

/// Finds the next newline at or after `i`.
fn scan_newline(s: &Vec<u8>, i: usize, end: usize) -> (r: usize)
    requires
        i <= end <= s@.len(),
    ensures
        r == newline_from(s@, i as int, end as int),
        i <= r <= end,
    decreases end - i,
{
    if i >= end {
        return end;
    }
    if s[i] == 10 {
        return i;
    }
    scan_newline(s, i + 1, end)
}

/// Finds the next token separator at or after `i`.
fn scan_sep(s: &Vec<u8>, i: usize, end: usize) -> (r: usize)
    requires
        i <= end <= s@.len(),
    ensures
        r == sep_from(s@, i as int, end as int),
        i <= r <= end,
    decreases end - i,
{
    if i >= end {
        return end;
    }
    let b = s[i];
    if b == 32 || b == 9 || b == 10 || b == 59 || b == 44 {
        return i;
    }
    scan_sep(s, i + 1, end)
}

/// Finds the first byte other than a space at or after `i`.
fn scan_nonspace(s: &Vec<u8>, i: usize, end: usize) -> (r: usize)
    requires
        i <= end <= s@.len(),
    ensures
        r == nonspace_from(s@, i as int, end as int),
        i <= r <= end,
    decreases end - i,
{
    if i >= end {
        return end;
    }
    if s[i] == 32 {
        return scan_nonspace(s, i + 1, end);
    }
    i
}

/// Collects the tokens of `s[i..end]`.
fn tokens_exec(s: &Vec<u8>, i: usize, end: usize) -> (r: Vec<Vec<u8>>)
    requires
        i <= end <= s@.len(),
    ensures
        r@.map_values(|p: Vec<u8>| p@) == split_tokens(s@, i as int, end as int),
    decreases end - i,
{
    if i >= end {
        let r: Vec<Vec<u8>> = Vec::new();
        proof {
            assert(r@.map_values(|p: Vec<u8>| p@) =~= split_tokens(s@, i as int, end as int));
        }
        return r;
    }
    let b = s[i];
    if b == 32 || b == 9 || b == 10 || b == 59 || b == 44 {
        return tokens_exec(s, i + 1, end);
    }
    let e = scan_sep(s, i + 1, end);
    let token = sub_bytes(s, i, e);
    let rest = tokens_exec(s, e, end);
    let mut r: Vec<Vec<u8>> = Vec::new();
    let ghost token_view = token@;
    r.push(token);
    let ghost rest_view = rest@.map_values(|p: Vec<u8>| p@);
    let mut k: usize = 0;
    while k < rest.len()
        invariant
            k <= rest@.len(),
            rest_view == rest@.map_values(|p: Vec<u8>| p@),
            r@.len() == k + 1,
            r@[0]@ == token_view,
            forall|j: int| 1 <= j < r@.len() ==> (#[trigger] r@[j])@ == rest_view[j - 1],
        decreases rest@.len() - k,
    {
        r.push(to_owned_bytes(&rest[k]));
        k = k + 1;
    }
    proof {
        assert(r@.map_values(|p: Vec<u8>| p@) =~= seq![token_view] + rest_view);
    }
    r
}

/// Extracts the parent theme list an `index.theme` file declares: the first
/// line beginning with the literal token `Inherits`, optional spaces and an
/// equals sign gives a flat, whitespace/semicolon/comma-separated list of
/// parent theme names; `None` when no such line exists.
pub fn find_parent_themes(contents: &Vec<u8>) -> (r: Option<Vec<Vec<u8>>>)
    ensures
        ({
            let sp = spec_parent_themes(contents@);
            &&& (r is Some <==> sp is Some)
            &&& match (r, sp) {
                (Some(v), Some(ps)) => v@.map_values(|p: Vec<u8>| p@) == ps,
                _ => true,
            }
        }),
{
    parents_from_exec(contents, 0)
}

/// Scans lines at or after `i` for the first `Inherits` declaration.
fn parents_from_exec(s: &Vec<u8>, i: usize) -> (r: Option<Vec<Vec<u8>>>)
    requires
        i <= s@.len(),
    ensures
        ({
            let sp = spec_parents_from(s@, i as int, s@.len() as int);
            &&& (r is Some <==> sp is Some)
            &&& match (r, sp) {
                (Some(v), Some(ps)) => v@.map_values(|p: Vec<u8>| p@) == ps,
                _ => true,
            }
        }),
    decreases s@.len() - i,
{
    let end = s.len();
    if i >= end {
        return None;
    }
    let nl = scan_newline(s, i, end);
    let line_end = if nl < end {
        nl + 1
    } else {
        end
    };
    if line_end - i >= 8 && s[i] == 'I' as u8 && s[i + 1] == 'n' as u8 && s[i + 2] == 'h' as u8
        && s[i + 3] == 'e' as u8 && s[i + 4] == 'r' as u8 && s[i + 5] == 'i' as u8 && s[i + 6]
        == 't' as u8 && s[i + 7] == 's' as u8 {
        proof {
            assert(s@.subrange(i as int, i + 8) =~= spec_inherits_lit());
        }
        let sp = scan_nonspace(s, i + 8, line_end);
        if sp < line_end && s[sp] == 61 {
            return Some(tokens_exec(s, sp + 1, line_end));
        }
    } else {
        proof {
            if line_end - i >= 8 {
                assert(s@.subrange(i as int, i + 8) != spec_inherits_lit()) by {
                    if s@.subrange(i as int, i + 8) == spec_inherits_lit() {
                        assert(s@.subrange(i as int, i + 8)[0] == 'I' as u8);
                        assert(s@.subrange(i as int, i + 8)[1] == 'n' as u8);
                        assert(s@.subrange(i as int, i + 8)[2] == 'h' as u8);
                        assert(s@.subrange(i as int, i + 8)[3] == 'e' as u8);
                        assert(s@.subrange(i as int, i + 8)[4] == 'r' as u8);
                        assert(s@.subrange(i as int, i + 8)[5] == 'i' as u8);
                        assert(s@.subrange(i as int, i + 8)[6] == 't' as u8);
                        assert(s@.subrange(i as int, i + 8)[7] == 's' as u8);
                    }
                }
            }
        }
    }
    parents_from_exec(s, line_end)
}

/// A snapshot of the cursor-relevant part of the filesystem: the readable
/// files as (path, contents) pairs, earlier entries shadowing later ones.
pub struct ThemeFs {
    pub files: Vec<(Vec<u8>, Vec<u8>)>,
}

/// The contents of the first file recorded under a path, if any.
pub open spec fn fs_lookup(files: Seq<(Vec<u8>, Vec<u8>)>, path: Seq<u8>) -> Option<Seq<u8>>
    decreases files.len(),
{
    if files.len() == 0 {
        None
    } else if files[0].0@ == path {
        Some(files[0].1@)
    } else {
        fs_lookup(files.drop_first(), path)
    }
}

proof fn lemma_fs_lookup_skip(files: Seq<(Vec<u8>, Vec<u8>)>, path: Seq<u8>, i: int)
    requires
        0 <= i <= files.len(),
        forall|j: int| 0 <= j < i ==> (#[trigger] files[j]).0@ != path,
    ensures
        fs_lookup(files, path) == fs_lookup(files.skip(i), path),
    decreases i,
{
    if i > 0 {
        lemma_fs_lookup_skip(files.drop_first(), path, i - 1);
        assert(files.drop_first().skip(i - 1) =~= files.skip(i));
    } else {
        assert(files.skip(0) =~= files);
    }
}

/// A found file came from some entry of the snapshot.
proof fn lemma_fs_lookup_member(files: Seq<(Vec<u8>, Vec<u8>)>, path: Seq<u8>)
    requires
        fs_lookup(files, path) is Some,
    ensures
        exists|i: int|
            0 <= i < files.len() && (#[trigger] files[i]).0@ == path && files[i].1@ == fs_lookup(
                files,
                path,
            )->Some_0,
    decreases files.len(),
{
    if files[0].0@ == path {
        assert(files[0].0@ == path && files[0].1@ == fs_lookup(files, path)->Some_0);
    } else {
        lemma_fs_lookup_member(files.drop_first(), path);
        let i = choose|i: int|
            0 <= i < files.drop_first().len() && (#[trigger] files.drop_first()[i]).0@ == path
                && files.drop_first()[i].1@ == fs_lookup(files.drop_first(), path)->Some_0;
        assert(files[i + 1].0@ == path && files[i + 1].1@ == fs_lookup(files, path)->Some_0);
    }
}

impl ThemeFs {
    /// Looks up the contents recorded for a path.
    pub fn lookup<'a>(&'a self, path: &Vec<u8>) -> (r: Option<&'a Vec<u8>>)
        ensures
            match r {
                Some(c) => fs_lookup(self.files@, path@) == Some(c@),
                None => fs_lookup(self.files@, path@) is None,
            },
    {
        let mut i: usize = 0;
        while i < self.files.len()
            invariant
                i <= self.files@.len(),
                forall|j: int| 0 <= j < i ==> (#[trigger] self.files@[j]).0@ != path@,
            decreases self.files@.len() - i,
        {
            if bytes_eq(&self.files[i].0, path) {
                proof {
                    lemma_fs_lookup_skip(self.files@, path@, i as int);
                    assert(self.files@.skip(i as int)[0] == self.files@[i as int]);
                }
                return Some(&self.files[i].1);
            }
            i = i + 1;
        }
        proof {
            lemma_fs_lookup_skip(self.files@, path@, self.files@.len() as int);
            assert(self.files@.skip(self.files@.len() as int) =~= Seq::<(Vec<u8>, Vec<u8>)>::empty());
        }
        None
    }
}

/// The path separator.
pub open spec fn spec_slash() -> Seq<u8> {
    seq!['/' as u8]
}

/// The path segment between a theme directory and its cursor files.
pub open spec fn spec_cursors_seg() -> Seq<u8> {
    seq![
        '/' as u8, 'c' as u8, 'u' as u8, 'r' as u8, 's' as u8, 'o' as u8, 'r' as u8, 's' as u8,
        '/' as u8,
    ]
}

/// The file name of a theme's inheritance declaration.
pub open spec fn spec_index_seg() -> Seq<u8> {
    seq![
        '/' as u8, 'i' as u8, 'n' as u8, 'd' as u8, 'e' as u8, 'x' as u8, '.' as u8, 't' as u8,
        'h' as u8, 'e' as u8, 'm' as u8, 'e' as u8,
    ]
}

/// The name of the fallback theme.
pub open spec fn spec_default_theme() -> Seq<u8> {
    seq!['d' as u8, 'e' as u8, 'f' as u8, 'a' as u8, 'u' as u8, 'l' as u8, 't' as u8]
}

/// The path of a cursor file: `<path>/<theme>/cursors/<name>`.
pub open spec fn spec_cursor_path(path: Seq<u8>, theme: Seq<u8>, name: Seq<u8>) -> Seq<u8> {
    path + spec_slash() + theme + spec_cursors_seg() + name
}

/// The path of a theme's `index.theme` file.
pub open spec fn spec_index_path(path: Seq<u8>, theme: Seq<u8>) -> Seq<u8> {
    path + spec_slash() + theme + spec_index_seg()
}

/// The name of the fallback theme as bytes.
pub fn default_theme() -> (r: Vec<u8>)
    ensures
        r@ == spec_default_theme(),
{
    let v: Vec<u8> = vec![
        'd' as u8, 'e' as u8, 'f' as u8, 'a' as u8, 'u' as u8, 'l' as u8, 't' as u8,
    ];
    v
}

/// Builds the path of a cursor file.
fn make_cursor_path(path: &Vec<u8>, theme: &Vec<u8>, name: &Vec<u8>) -> (r: Vec<u8>)
    ensures
        r@ == spec_cursor_path(path@, theme@, name@),
{
    let mut r = to_owned_bytes(path);
    r.push('/' as u8);
    push_all(&mut r, theme);
    let seg: Vec<u8> = vec![
        '/' as u8, 'c' as u8, 'u' as u8, 'r' as u8, 's' as u8, 'o' as u8, 'r' as u8, 's' as u8,
        '/' as u8,
    ];
    push_all(&mut r, &seg);
    push_all(&mut r, name);
    proof {
        assert(r@ =~= spec_cursor_path(path@, theme@, name@));
    }
    r
}

/// Builds the path of a theme's `index.theme` file.
fn make_index_path(path: &Vec<u8>, theme: &Vec<u8>) -> (r: Vec<u8>)
    ensures
        r@ == spec_index_path(path@, theme@),
{
    let mut r = to_owned_bytes(path);
    r.push('/' as u8);
    push_all(&mut r, theme);
    let seg: Vec<u8> = vec![
        '/' as u8, 'i' as u8, 'n' as u8, 'd' as u8, 'e' as u8, 'x' as u8, '.' as u8, 't' as u8,
        'h' as u8, 'e' as u8, 'm' as u8, 'e' as u8,
    ];
    push_all(&mut r, &seg);
    proof {
        assert(r@ =~= spec_index_path(path@, theme@));
    }
    r
}

/// The themes whose pairing with `name` was already attempted.
pub open spec fn visited_set(v: Seq<(Vec<u8>, Vec<u8>)>, name: Seq<u8>) -> Set<Seq<u8>> {
    Set::new(
        |t: Seq<u8>|
            exists|i: int| 0 <= i < v.len() && (#[trigger] v[i]).0@ == t && v[i].1@ == name,
    )
}

/// Every visited theme lies in the universe.
pub open spec fn visited_in(v: Seq<(Vec<u8>, Vec<u8>)>, u: Set<Seq<u8>>) -> bool {
    forall|i: int| 0 <= i < v.len() ==> u.contains((#[trigger] v[i]).0@)
}

/// The parents an entry's contents declare, or nothing.
pub open spec fn parents_of(files: Seq<(Vec<u8>, Vec<u8>)>, i: int) -> Seq<Seq<u8>> {
    match spec_parent_themes(files[i].1@) {
        Some(ps) => ps,
        None => Seq::empty(),
    }
}

/// Every parent theme any file declares lies in the universe.
pub open spec fn parents_closed(files: Seq<(Vec<u8>, Vec<u8>)>, u: Set<Seq<u8>>) -> bool {
    forall|i: int, j: int|
        0 <= i < files.len() && 0 <= j < parents_of(files, i).len() ==> u.contains(
            #[trigger] parents_of(files, i)[j],
        )
}

/// All parent themes declared anywhere in the snapshot, in file order.
pub open spec fn parents_seq(files: Seq<(Vec<u8>, Vec<u8>)>) -> Seq<Seq<u8>>
    decreases files.len(),
{
    if files.len() == 0 {
        Seq::empty()
    } else {
        parents_seq(files.drop_last()) + parents_of(files, files.len() - 1)
    }
}

proof fn lemma_parents_seq_member(files: Seq<(Vec<u8>, Vec<u8>)>, i: int, j: int)
    requires
        0 <= i < files.len(),
        0 <= j < parents_of(files, i).len(),
    ensures
        parents_seq(files).contains(parents_of(files, i)[j]),
    decreases files.len(),
{
    if i == files.len() - 1 {
        let w = parents_seq(files.drop_last()).len() + j;
        assert(parents_seq(files)[w] == parents_of(files, i)[j]);
    } else {
        lemma_parents_seq_member(files.drop_last(), i, j);
        assert(parents_of(files.drop_last(), i) == parents_of(files, i));
        let w = choose|w: int|
            0 <= w < parents_seq(files.drop_last()).len() && parents_seq(files.drop_last())[w]
                == parents_of(files, i)[j];
        assert(parents_seq(files)[w] == parents_of(files, i)[j]);
    }
}

/// The finite universe a search for a theme can ever touch: the theme itself,
/// the fallback theme, and every parent any file declares.
pub open spec fn theme_universe(files: Seq<(Vec<u8>, Vec<u8>)>, theme0: Seq<u8>) -> Set<Seq<u8>> {
    parents_seq(files).to_set().insert(theme0).insert(spec_default_theme())
}

proof fn lemma_theme_universe_ok(files: Seq<(Vec<u8>, Vec<u8>)>, theme0: Seq<u8>)
    ensures
        theme_universe(files, theme0).finite(),
        theme_universe(files, theme0).contains(theme0),
        theme_universe(files, theme0).contains(spec_default_theme()),
        parents_closed(files, theme_universe(files, theme0)),
{
    broadcast use vstd::seq_lib::seq_to_set_is_finite;
    broadcast use vstd::set::group_set_axioms;

    assert forall|i: int, j: int|
        0 <= i < files.len() && 0 <= j < parents_of(files, i).len() implies theme_universe(
        files,
        theme0,
    ).contains(#[trigger] parents_of(files, i)[j]) by {
        lemma_parents_seq_member(files, i, j);
        assert(parents_seq(files).to_set().contains(parents_of(files, i)[j]));
    }
}

/// Whether the pairing of `theme` and `name` was already attempted.
fn visited_contains(v: &Vec<(Vec<u8>, Vec<u8>)>, theme: &Vec<u8>, name: &Vec<u8>) -> (r: bool)
    ensures
        r == visited_set(v@, name@).contains(theme@),
{
    let mut i: usize = 0;
    while i < v.len()
        invariant
            i <= v@.len(),
            forall|j: int| 0 <= j < i ==> !((#[trigger] v@[j]).0@ == theme@ && v@[j].1@ == name@),
        decreases v@.len() - i,
    {
        if bytes_eq(&v[i].0, theme) && bytes_eq(&v[i].1, name) {
            proof {
                assert(visited_set(v@, name@).contains(theme@));
            }
            return true;
        }
        i = i + 1;
    }
    proof {
        assert(!visited_set(v@, name@).contains(theme@));
    }
    false
}

proof fn lemma_visited_set_push(v: Seq<(Vec<u8>, Vec<u8>)>, p: (Vec<u8>, Vec<u8>), name: Seq<u8>)
    ensures
        p.1@ == name ==> visited_set(v.push(p), name) == visited_set(v, name).insert(p.0@),
        p.1@ != name ==> visited_set(v.push(p), name) == visited_set(v, name),
        forall|n: Seq<u8>| visited_set(v, n).subset_of(#[trigger] visited_set(v.push(p), n)),
{
    assert forall|n: Seq<u8>| visited_set(v, n).subset_of(#[trigger] visited_set(v.push(p), n)) by {
        assert forall|t: Seq<u8>| visited_set(v, n).contains(t) implies visited_set(
            v.push(p),
            n,
        ).contains(t) by {
            let i = choose|i: int| 0 <= i < v.len() && (#[trigger] v[i]).0@ == t && v[i].1@ == n;
            assert(v.push(p)[i].0@ == t && v.push(p)[i].1@ == n);
        }
    }
    if p.1@ == name {
        assert(visited_set(v.push(p), name) =~= visited_set(v, name).insert(p.0@)) by {
            assert forall|t: Seq<u8>| visited_set(v.push(p), name).contains(t) implies visited_set(
                v,
                name,
            ).insert(p.0@).contains(t) by {
                let i = choose|i: int|
                    0 <= i < v.push(p).len() && (#[trigger] v.push(p)[i]).0@ == t && v.push(p)[i].1@
                        == name;
                if i < v.len() {
                    assert(v[i].0@ == t && v[i].1@ == name);
                } else {
                    assert(t == p.0@);
                }
            }
            assert forall|t: Seq<u8>|
                visited_set(v, name).insert(p.0@).contains(t) implies visited_set(
                v.push(p),
                name,
            ).contains(t) by {
                if t == p.0@ {
                    assert(v.push(p)[v.len() as int].0@ == t && v.push(p)[v.len() as int].1@
                        == name);
                } else {
                    let i = choose|i: int|
                        0 <= i < v.len() && (#[trigger] v[i]).0@ == t && v[i].1@ == name;
                    assert(v.push(p)[i].0@ == t && v.push(p)[i].1@ == name);
                }
            }
        }
    } else {
        assert(visited_set(v.push(p), name) =~= visited_set(v, name)) by {
            assert forall|t: Seq<u8>| visited_set(v.push(p), name).contains(t) implies visited_set(
                v,
                name,
            ).contains(t) by {
                let i = choose|i: int|
                    0 <= i < v.push(p).len() && (#[trigger] v.push(p)[i]).0@ == t && v.push(p)[i].1@
                        == name;
                assert(i < v.len());
                assert(v[i].0@ == t && v[i].1@ == name);
            }
        }
    }
}

proof fn lemma_visited_subset_of_universe(v: Seq<(Vec<u8>, Vec<u8>)>, u: Set<Seq<u8>>, name: Seq<u8>)
    requires
        visited_in(v, u),
    ensures
        visited_set(v, name).subset_of(u),
{
    assert forall|t: Seq<u8>| visited_set(v, name).contains(t) implies u.contains(t) by {
        let i = choose|i: int| 0 <= i < v.len() && (#[trigger] v[i]).0@ == t && v[i].1@ == name;
        assert(u.contains(v[i].0@));
    }
}

/// No search path holds a cursor file for this (theme, name) pair.
pub open spec fn all_miss(
    files: Seq<(Vec<u8>, Vec<u8>)>,
    paths: Seq<Vec<u8>>,
    th: Seq<u8>,
    n: Seq<u8>,
) -> bool {
    forall|i: int|
        0 <= i < paths.len() ==> fs_lookup(
            files,
            spec_cursor_path((#[trigger] paths[i])@, th, n),
        ) is None
}

/// Every pair visited in `v1` but not in `v0` was searched without a hit.
pub open spec fn news_missed(
    files: Seq<(Vec<u8>, Vec<u8>)>,
    paths: Seq<Vec<u8>>,
    v0: Seq<(Vec<u8>, Vec<u8>)>,
    v1: Seq<(Vec<u8>, Vec<u8>)>,
) -> bool {
    forall|th: Seq<u8>, n: Seq<u8>|
        #[trigger] visited_set(v1, n).contains(th) && !visited_set(v0, n).contains(th)
            ==> all_miss(files, paths, th, n)
}

/// The first tier of the search: the requested theme, or the fallback theme
/// when none was requested.
pub open spec fn spec_search_theme(theme: Option<Vec<u8>>) -> Seq<u8> {
    match theme {
        Some(t) => t@,
        None => spec_default_theme(),
    }
}

/// The parents the search derives for a theme, looking from path index `i`
/// onward: the list declared by the first `index.theme` that exists and holds
/// an `Inherits` line.
pub open spec fn theme_parents_from(
    files: Seq<(Vec<u8>, Vec<u8>)>,
    paths: Seq<Vec<u8>>,
    th: Seq<u8>,
    i: int,
) -> Seq<Seq<u8>>
    decreases paths.len() - i,
{
    if i < 0 || i >= paths.len() {
        Seq::empty()
    } else {
        match fs_lookup(files, spec_index_path(paths[i]@, th)) {
            Some(c) => match spec_parent_themes(c) {
                Some(ps) => ps,
                None => theme_parents_from(files, paths, th, i + 1),
            },
            None => theme_parents_from(files, paths, th, i + 1),
        }
    }
}

/// The parents the search derives for a theme.
pub open spec fn theme_parents(
    files: Seq<(Vec<u8>, Vec<u8>)>,
    paths: Seq<Vec<u8>>,
    th: Seq<u8>,
) -> Seq<Seq<u8>> {
    theme_parents_from(files, paths, th, 0)
}

proof fn lemma_theme_parents_prefix_miss(
    files: Seq<(Vec<u8>, Vec<u8>)>,
    paths: Seq<Vec<u8>>,
    th: Seq<u8>,
    i: int,
)
    requires
        0 <= i <= paths.len(),
        forall|k: int|
            0 <= k < i ==> match fs_lookup(files, spec_index_path((#[trigger] paths[k])@, th)) {
                Some(c) => spec_parent_themes(c) is None,
                None => true,
            },
    ensures
        theme_parents(files, paths, th) == theme_parents_from(files, paths, th, i),
    decreases i,
{
    if i > 0 {
        lemma_theme_parents_prefix_miss(files, paths, th, i - 1);
    }
}

/// `th` lies at most `n` inheritance steps below `root`.
pub open spec fn reachable_in(
    files: Seq<(Vec<u8>, Vec<u8>)>,
    paths: Seq<Vec<u8>>,
    root: Seq<u8>,
    th: Seq<u8>,
    n: nat,
) -> bool
    decreases n,
{
    if th == root {
        true
    } else if n == 0 {
        false
    } else {
        exists|j: int|
            0 <= j < theme_parents(files, paths, root).len() && reachable_in(
                files,
                paths,
                #[trigger] theme_parents(files, paths, root)[j],
                th,
                (n - 1) as nat,
            )
    }
}

/// `th` lies on the inheritance chain of `root`: it is `root` itself or a
/// theme reached by following declared parents.
pub open spec fn reachable(
    files: Seq<(Vec<u8>, Vec<u8>)>,
    paths: Seq<Vec<u8>>,
    root: Seq<u8>,
    th: Seq<u8>,
) -> bool {
    exists|n: nat| reachable_in(files, paths, root, th, n)
}

/// Every theme visited in `v1` but not `v0` has all its declared parents
/// visited in `v1` too, under the same candidate name.
pub open spec fn news_closed(
    files: Seq<(Vec<u8>, Vec<u8>)>,
    paths: Seq<Vec<u8>>,
    name: Seq<u8>,
    v0: Seq<(Vec<u8>, Vec<u8>)>,
    v1: Seq<(Vec<u8>, Vec<u8>)>,
) -> bool {
    forall|th: Seq<u8>, j: int|
        visited_set(v1, name).contains(th) && !visited_set(v0, name).contains(th) && 0 <= j
            < theme_parents(files, paths, th).len() ==> visited_set(v1, name).contains(
            #[trigger] theme_parents(files, paths, th)[j],
        )
}

/// A visited set that contains a root and is closed under declared parents
/// contains the root's whole inheritance chain.
proof fn lemma_closure_visited(
    files: Seq<(Vec<u8>, Vec<u8>)>,
    paths: Seq<Vec<u8>>,
    name: Seq<u8>,
    v: Seq<(Vec<u8>, Vec<u8>)>,
    root: Seq<u8>,
    th: Seq<u8>,
    n: nat,
)
    requires
        visited_set(v, name).contains(root),
        news_closed(files, paths, name, Seq::<(Vec<u8>, Vec<u8>)>::empty(), v),
        reachable_in(files, paths, root, th, n),
    ensures
        visited_set(v, name).contains(th),
    decreases n,
{
    if th != root {
        let j = choose|j: int|
            0 <= j < theme_parents(files, paths, root).len() && reachable_in(
                files,
                paths,
                #[trigger] theme_parents(files, paths, root)[j],
                th,
                (n - 1) as nat,
            );
        assert(!visited_set(Seq::<(Vec<u8>, Vec<u8>)>::empty(), name).contains(root));
        assert(visited_set(v, name).contains(theme_parents(files, paths, root)[j]));
        lemma_closure_visited(
            files,
            paths,
            name,
            v,
            theme_parents(files, paths, root)[j],
            th,
            (n - 1) as nat,
        );
    }
}

/// Every candidate name before position `j` misses on every search path for
/// every theme on the root's inheritance chain.
pub open spec fn earlier_names_miss_chain(
    files: Seq<(Vec<u8>, Vec<u8>)>,
    paths: Seq<Vec<u8>>,
    root: Seq<u8>,
    names: Seq<Vec<u8>>,
    j: int,
) -> bool {
    forall|j2: int, th: Seq<u8>, n: nat|
        0 <= j2 < j && #[trigger] reachable_in(files, paths, root, th, n) ==> all_miss(
            files,
            paths,
            th,
            (#[trigger] names[j2])@,
        )
}

/// Searches for `<path>/<theme>/cursors/<name>` along the search paths,
/// recursing into the theme's declared parents; a (theme, name) pair is
/// attempted at most once, so a cyclic `Inherits` graph still terminates.
fn open_cursor_file(
    fs: &ThemeFs,
    paths: &Vec<Vec<u8>>,
    theme: &Vec<u8>,
    name: &Vec<u8>,
    visited: &mut Vec<(Vec<u8>, Vec<u8>)>,
    Ghost(u): Ghost<Set<Seq<u8>>>,
) -> (r: Option<Vec<u8>>)
    requires
        u.finite(),
        u.contains(theme@),
        parents_closed(fs.files@, u),
        visited_in(old(visited)@, u),
    ensures
        visited_in(final (visited)@, u),
        forall|n: Seq<u8>|
            visited_set(old(visited)@, n).subset_of(#[trigger] visited_set(final (visited)@, n)),
        forall|n: Seq<u8>|
            n != name@ ==> #[trigger] visited_set(final (visited)@, n) == visited_set(
                old(visited)@,
                n,
            ),
        visited_set(final (visited)@, name@).contains(theme@),
        r matches Some(p) ==> fs_lookup(fs.files@, p@) is Some,
        r matches Some(p) ==> exists|i: int, th: Seq<u8>|
            0 <= i < paths@.len() && reachable(fs.files@, paths@, theme@, th) && p@
                == #[trigger] spec_cursor_path(paths@[i]@, th, name@),
        (!visited_set(old(visited)@, name@).contains(theme@) && exists|i: int|
            0 <= i < paths@.len() && fs_lookup(
                fs.files@,
                spec_cursor_path((#[trigger] paths@[i])@, theme@, name@),
            ) is Some) ==> r is Some,
        r is None ==> news_missed(fs.files@, paths@, old(visited)@, final (visited)@),
        r is None ==> news_closed(fs.files@, paths@, name@, old(visited)@, final (visited)@),
    decreases u.difference(visited_set(visited@, name@)).len(),
{
    broadcast use vstd::set_lib::lemma_set_subset_finite;

    if visited_contains(visited, theme, name) {
        return None;
    }
    let ghost v0 = visited@;
    visited.push((to_owned_bytes(theme), to_owned_bytes(name)));
    proof {
        lemma_visited_set_push(v0, (visited@[v0.len() as int].0, visited@[v0.len() as int].1), name@);
        assert(visited@ == v0.push(visited@[v0.len() as int]));
        assert(visited_set(visited@, name@) == visited_set(v0, name@).insert(theme@));
        assert forall|n: Seq<u8>|
            n != name@ implies #[trigger] visited_set(visited@, n) == visited_set(v0, n) by {
            lemma_visited_set_push(
                v0,
                (visited@[v0.len() as int].0, visited@[v0.len() as int].1),
                n,
            );
        }
    }
    let ghost v1 = visited@;
    let mut parents: Option<Vec<Vec<u8>>> = None;
    let mut i: usize = 0;
    while i < paths.len()
        invariant
            i <= paths@.len(),
            visited@ == v1,
            u.contains(theme@),
            visited_in(visited@, u),
            forall|n: Seq<u8>|
                visited_set(old(visited)@, n).subset_of(#[trigger] visited_set(visited@, n)),
            forall|n: Seq<u8>|
                n != name@ ==> #[trigger] visited_set(visited@, n) == visited_set(
                    old(visited)@,
                    n,
                ),
            visited_set(visited@, name@).contains(theme@),
            forall|j: int|
                0 <= j < i ==> fs_lookup(
                    fs.files@,
                    spec_cursor_path((#[trigger] paths@[j])@, theme@, name@),
                ) is None,
            parents is None ==> forall|k: int|
                0 <= k < i ==> match fs_lookup(
                    fs.files@,
                    spec_index_path((#[trigger] paths@[k])@, theme@),
                ) {
                    Some(c) => spec_parent_themes(c) is None,
                    None => true,
                },
            parents matches Some(ps) ==> ps@.map_values(|p: Vec<u8>| p@) == theme_parents(
                fs.files@,
                paths@,
                theme@,
            ),
            parents matches Some(ps) ==> exists|e: int|
                0 <= e < fs.files@.len() && (spec_parent_themes((#[trigger] fs.files@[e]).1@)
                    matches Some(psv) && ps@.map_values(|p: Vec<u8>| p@) == psv),
        decreases paths@.len() - i,
    {
        let cursor_file = make_cursor_path(&paths[i], theme, name);
        if fs.lookup(&cursor_file).is_some() {
            proof {
                assert(cursor_file@ == spec_cursor_path(paths@[i as int]@, theme@, name@));
                assert(reachable_in(fs.files@, paths@, theme@, theme@, 0));
                assert(reachable(fs.files@, paths@, theme@, theme@));
            }
            return Some(cursor_file);
        }
        if parents.is_none() {
            let index_file = make_index_path(&paths[i], theme);
            if let Some(contents) = fs.lookup(&index_file) {
                let found = find_parent_themes(contents);
                proof {
                    if found is Some {
                        lemma_fs_lookup_member(fs.files@, index_file@);
                        lemma_theme_parents_prefix_miss(fs.files@, paths@, theme@, i as int);
                        assert(theme_parents_from(fs.files@, paths@, theme@, i as int)
                            == spec_parent_themes(contents@)->Some_0);
                    }
                }
                parents = found;
            }
        }
        i = i + 1;
    }
    proof {
        assert(all_miss(fs.files@, paths@, theme@, name@));
        assert(news_missed(fs.files@, paths@, v0, visited@)) by {
            assert forall|th: Seq<u8>, n: Seq<u8>|
                #[trigger] visited_set(visited@, n).contains(th) && !visited_set(
                    v0,
                    n,
                ).contains(th) implies all_miss(fs.files@, paths@, th, n) by {
                lemma_visited_set_push(v0, (visited@[v0.len() as int]), n);
                assert(visited@ == v0.push(visited@[v0.len() as int]));
                if n == name@ {
                    assert(visited_set(visited@, n) == visited_set(v0, n).insert(theme@));
                    assert(th == theme@);
                } else {
                    assert(visited_set(visited@, n) == visited_set(v0, n));
                }
            }
        }
        if parents is None {
            lemma_theme_parents_prefix_miss(fs.files@, paths@, theme@, paths@.len() as int);
            assert(theme_parents(fs.files@, paths@, theme@).len() == 0);
        }
    }
    if let Some(ps) = parents {
        proof {
            let e = choose|e: int|
                0 <= e < fs.files@.len() && (spec_parent_themes((#[trigger] fs.files@[e]).1@)
                    matches Some(psv) && ps@.map_values(|p: Vec<u8>| p@) == psv);
            assert(parents_of(fs.files@, e) == ps@.map_values(|p: Vec<u8>| p@));
            assert forall|j: int| 0 <= j < ps@.len() implies u.contains((#[trigger] ps@[j])@) by {
                assert(parents_of(fs.files@, e)[j] == ps@[j]@);
                assert(u.contains(parents_of(fs.files@, e)[j]));
            }
        }
        let mut j: usize = 0;
        while j < ps.len()
            invariant
                j <= ps@.len(),
                u.finite(),
                u.contains(theme@),
                parents_closed(fs.files@, u),
                forall|jj: int| 0 <= jj < ps@.len() ==> u.contains((#[trigger] ps@[jj])@),
                ps@.map_values(|p: Vec<u8>| p@) == theme_parents(fs.files@, paths@, theme@),
                visited_in(visited@, u),
                forall|n: Seq<u8>|
                    visited_set(old(visited)@, n).subset_of(#[trigger] visited_set(visited@, n)),
                forall|n: Seq<u8>|
                    n != name@ ==> #[trigger] visited_set(visited@, n) == visited_set(
                        old(visited)@,
                        n,
                    ),
                forall|n: Seq<u8>|
                    visited_set(v1, n).subset_of(#[trigger] visited_set(visited@, n)),
                visited_set(visited@, name@).contains(theme@),
                forall|jj: int|
                    0 <= jj < j ==> visited_set(visited@, name@).contains((#[trigger] ps@[jj])@),
                visited_set(v1, name@) == visited_set(v0, name@).insert(theme@),
                !visited_set(v0, name@).contains(theme@),
                v0 == old(visited)@,
                news_missed(fs.files@, paths@, v0, visited@),
                news_closed(fs.files@, paths@, name@, v1, visited@),
            decreases ps@.len() - j,
        {
            proof {
                broadcast use vstd::set::group_set_axioms;

                lemma_visited_subset_of_universe(visited@, u, name@);
                assert(visited_set(v1, name@).subset_of(visited_set(visited@, name@)));
                assert(u.difference(visited_set(visited@, name@)).subset_of(
                    u.difference(visited_set(v1, name@)),
                )) by {
                    assert forall|t: Seq<u8>|
                        u.difference(visited_set(visited@, name@)).contains(
                            t,
                        ) implies u.difference(visited_set(v1, name@)).contains(t) by {
                        if visited_set(v1, name@).contains(t) {
                            assert(visited_set(visited@, name@).contains(t));
                        }
                    }
                }
                u.lemma_set_insert_diff_decreases(visited_set(v0, name@), theme@);
                vstd::set_lib::lemma_len_subset(
                    u.difference(visited_set(visited@, name@)),
                    u.difference(visited_set(v1, name@)),
                );
            }
            let ghost vpre = visited@;
            let r = open_cursor_file(fs, paths, &ps[j], name, visited, Ghost(u));
            proof {
                assert forall|n: Seq<u8>|
                    visited_set(old(visited)@, n).subset_of(
                        #[trigger] visited_set(visited@, n),
                    ) by {
                    assert(visited_set(old(visited)@, n).subset_of(visited_set(vpre, n)));
                    assert(visited_set(vpre, n).subset_of(visited_set(visited@, n)));
                    assert forall|t: Seq<u8>|
                        visited_set(old(visited)@, n).contains(t) implies visited_set(
                        visited@,
                        n,
                    ).contains(t) by {
                        assert(visited_set(vpre, n).contains(t));
                    }
                }
                assert forall|n: Seq<u8>|
                    visited_set(v1, n).subset_of(#[trigger] visited_set(visited@, n)) by {
                    assert(visited_set(v1, n).subset_of(visited_set(vpre, n)));
                    assert(visited_set(vpre, n).subset_of(visited_set(visited@, n)));
                    assert forall|t: Seq<u8>|
                        visited_set(v1, n).contains(t) implies visited_set(
                        visited@,
                        n,
                    ).contains(t) by {
                        assert(visited_set(vpre, n).contains(t));
                    }
                }
                assert forall|n: Seq<u8>|
                    n != name@ implies #[trigger] visited_set(visited@, n) == visited_set(
                    old(visited)@,
                    n,
                ) by {
                    assert(visited_set(visited@, n) == visited_set(vpre, n));
                    assert(visited_set(vpre, n) == visited_set(old(visited)@, n));
                }
                assert(visited_set(visited@, name@).contains(theme@)) by {
                    assert(visited_set(vpre, name@).contains(theme@));
                    assert(visited_set(vpre, name@).subset_of(visited_set(visited@, name@)));
                }
                assert(visited_set(visited@, name@).contains(ps@[j as int]@));
                assert forall|jj: int|
                    0 <= jj < j + 1 implies visited_set(visited@, name@).contains(
                    (#[trigger] ps@[jj])@,
                ) by {
                    if jj < j {
                        assert(visited_set(vpre, name@).contains(ps@[jj]@));
                        assert(visited_set(vpre, name@).subset_of(visited_set(visited@, name@)));
                    }
                }
                if r is None {
                    assert(news_missed(fs.files@, paths@, v0, visited@)) by {
                        assert forall|th: Seq<u8>, n: Seq<u8>|
                            #[trigger] visited_set(visited@, n).contains(th) && !visited_set(
                                v0,
                                n,
                            ).contains(th) implies all_miss(fs.files@, paths@, th, n) by {
                            if visited_set(vpre, n).contains(th) {
                                assert(all_miss(fs.files@, paths@, th, n));
                            } else {
                                assert(all_miss(fs.files@, paths@, th, n));
                            }
                        }
                    }
                    assert(news_closed(fs.files@, paths@, name@, v1, visited@)) by {
                        assert forall|th: Seq<u8>, jp: int|
                            visited_set(visited@, name@).contains(th) && !visited_set(
                                v1,
                                name@,
                            ).contains(th) && 0 <= jp < theme_parents(
                                fs.files@,
                                paths@,
                                th,
                            ).len() implies visited_set(visited@, name@).contains(
                            #[trigger] theme_parents(fs.files@, paths@, th)[jp],
                        ) by {
                            if visited_set(vpre, name@).contains(th) {
                                assert(visited_set(vpre, name@).contains(
                                    theme_parents(fs.files@, paths@, th)[jp],
                                ));
                                assert(visited_set(vpre, name@).subset_of(
                                    visited_set(visited@, name@),
                                ));
                            } else {
                                assert(visited_set(visited@, name@).contains(
                                    theme_parents(fs.files@, paths@, th)[jp],
                                ));
                            }
                        }
                    }
                }
            }
            if r.is_some() {
                proof {
                    let (wi, wth): (int, Seq<u8>) = choose|wi: int, wth: Seq<u8>|
                        0 <= wi < paths@.len() && reachable(fs.files@, paths@, ps@[j as int]@, wth)
                            && r->Some_0@ == spec_cursor_path(paths@[wi]@, wth, name@);
                    let wn = choose|wn: nat|
                        reachable_in(fs.files@, paths@, ps@[j as int]@, wth, wn);
                    assert(theme_parents(fs.files@, paths@, theme@)[j as int] == ps@[j as int]@);
                    assert(reachable_in(fs.files@, paths@, theme@, wth, wn + 1));
                    assert(reachable(fs.files@, paths@, theme@, wth));
                    assert(r->Some_0@ == spec_cursor_path(paths@[wi]@, wth, name@));
                }
                return r;
            }
            j = j + 1;
        }
        proof {
            assert(news_closed(fs.files@, paths@, name@, v0, visited@)) by {
                assert forall|th: Seq<u8>, jp: int|
                    visited_set(visited@, name@).contains(th) && !visited_set(
                        v0,
                        name@,
                    ).contains(th) && 0 <= jp < theme_parents(
                        fs.files@,
                        paths@,
                        th,
                    ).len() implies visited_set(visited@, name@).contains(
                    #[trigger] theme_parents(fs.files@, paths@, th)[jp],
                ) by {
                    if th == theme@ {
                        assert(theme_parents(fs.files@, paths@, th)[jp] == ps@[jp]@);
                        assert(visited_set(visited@, name@).contains(ps@[jp]@));
                    } else {
                        assert(!visited_set(v1, name@).contains(th));
                        assert(visited_set(visited@, name@).contains(
                            theme_parents(fs.files@, paths@, th)[jp],
                        ));
                    }
                }
            }
        }
    } else {
        proof {
            assert(news_closed(fs.files@, paths@, name@, v0, visited@)) by {
                assert forall|th: Seq<u8>, jp: int|
                    visited_set(visited@, name@).contains(th) && !visited_set(
                        v0,
                        name@,
                    ).contains(th) && 0 <= jp < theme_parents(
                        fs.files@,
                        paths@,
                        th,
                    ).len() implies visited_set(visited@, name@).contains(
                    #[trigger] theme_parents(fs.files@, paths@, th)[jp],
                ) by {
                    assert(th == theme@);
                    assert(theme_parents(fs.files@, paths@, th).len() == 0);
                }
            }
        }
    }
    None
}

/// Tries each candidate name in priority order against one theme, walking its
/// inheritance chain, so a theme implementing only part of the name set is
/// preferred over any fallback tier.
fn search_names(
    fs: &ThemeFs,
    paths: &Vec<Vec<u8>>,
    theme: &Vec<u8>,
    names: &Vec<Vec<u8>>,
    visited: &mut Vec<(Vec<u8>, Vec<u8>)>,
    Ghost(u): Ghost<Set<Seq<u8>>>,
) -> (r: Option<Vec<u8>>)
    requires
        u.finite(),
        u.contains(theme@),
        parents_closed(fs.files@, u),
        visited_in(old(visited)@, u),
        news_missed(fs.files@, paths@, Seq::<(Vec<u8>, Vec<u8>)>::empty(), old(visited)@),
        forall|n: Seq<u8>|
            news_closed(fs.files@, paths@, n, Seq::<(Vec<u8>, Vec<u8>)>::empty(), old(visited)@),
    ensures
        visited_in(final (visited)@, u),
        forall|n: Seq<u8>|
            visited_set(old(visited)@, n).subset_of(#[trigger] visited_set(final (visited)@, n)),
        r matches Some(p) ==> fs_lookup(fs.files@, p@) is Some,
        r matches Some(p) ==> exists|i: int, j: int, th: Seq<u8>|
            {
                &&& 0 <= i < paths@.len()
                &&& 0 <= j < names@.len()
                &&& reachable(fs.files@, paths@, theme@, th)
                &&& p@ == #[trigger] spec_cursor_path(paths@[i]@, th, names@[j]@)
                &&& earlier_names_miss_chain(fs.files@, paths@, theme@, names@, j)
            },
        r is None ==> news_missed(
            fs.files@,
            paths@,
            Seq::<(Vec<u8>, Vec<u8>)>::empty(),
            final (visited)@,
        ),
        r is None ==> forall|n: Seq<u8>|
            news_closed(fs.files@, paths@, n, Seq::<(Vec<u8>, Vec<u8>)>::empty(), final (visited)@),
        r is None ==> forall|j: int|
            0 <= j < names@.len() ==> visited_set(final (visited)@, (#[trigger] names@[j])@).contains(
                theme@,
            ),
{
    let mut j: usize = 0;
    while j < names.len()
        invariant
            j <= names@.len(),
            u.finite(),
            u.contains(theme@),
            parents_closed(fs.files@, u),
            visited_in(visited@, u),
            forall|n: Seq<u8>|
                visited_set(old(visited)@, n).subset_of(#[trigger] visited_set(visited@, n)),
            news_missed(fs.files@, paths@, Seq::<(Vec<u8>, Vec<u8>)>::empty(), visited@),
            forall|n: Seq<u8>|
                news_closed(fs.files@, paths@, n, Seq::<(Vec<u8>, Vec<u8>)>::empty(), visited@),
            forall|jj: int|
                0 <= jj < j ==> visited_set(visited@, (#[trigger] names@[jj])@).contains(theme@),
        decreases names@.len() - j,
    {
        let ghost vpre = visited@;
        let r = open_cursor_file(fs, paths, theme, &names[j], visited, Ghost(u));
        proof {
            assert forall|n: Seq<u8>|
                visited_set(old(visited)@, n).subset_of(#[trigger] visited_set(visited@, n)) by {
                assert(visited_set(old(visited)@, n).subset_of(visited_set(vpre, n)));
                assert(visited_set(vpre, n).subset_of(visited_set(visited@, n)));
                assert forall|t: Seq<u8>|
                    visited_set(old(visited)@, n).contains(t) implies visited_set(
                    visited@,
                    n,
                ).contains(t) by {
                    assert(visited_set(vpre, n).contains(t));
                }
            }
            assert forall|jj: int|
                0 <= jj < j implies visited_set(visited@, (#[trigger] names@[jj])@).contains(
                theme@,
            ) by {
                assert(visited_set(vpre, names@[jj]@).contains(theme@));
                assert(visited_set(vpre, names@[jj]@).subset_of(
                    visited_set(visited@, names@[jj]@),
                ));
            }
        }
        if r.is_some() {
            proof {
                assert(earlier_names_miss_chain(fs.files@, paths@, theme@, names@, j as int)) by {
                    assert forall|j2: int, th: Seq<u8>, nn: nat|
                        0 <= j2 < j && #[trigger] reachable_in(
                            fs.files@,
                            paths@,
                            theme@,
                            th,
                            nn,
                        ) implies all_miss(fs.files@, paths@, th, (#[trigger] names@[j2])@) by {
                        assert(visited_set(vpre, names@[j2]@).contains(theme@));
                        assert(news_closed(
                            fs.files@,
                            paths@,
                            names@[j2]@,
                            Seq::<(Vec<u8>, Vec<u8>)>::empty(),
                            vpre,
                        ));
                        lemma_closure_visited(
                            fs.files@,
                            paths@,
                            names@[j2]@,
                            vpre,
                            theme@,
                            th,
                            nn,
                        );
                        assert(!visited_set(
                            Seq::<(Vec<u8>, Vec<u8>)>::empty(),
                            names@[j2]@,
                        ).contains(th));
                    }
                }
                let (wi, wth): (int, Seq<u8>) = choose|wi: int, wth: Seq<u8>|
                    0 <= wi < paths@.len() && reachable(fs.files@, paths@, theme@, wth)
                        && r->Some_0@ == spec_cursor_path(paths@[wi]@, wth, names@[j as int]@);
                assert(r->Some_0@ == spec_cursor_path(paths@[wi]@, wth, names@[j as int]@));
            }
            return r;
        }
        proof {
            assert(news_missed(
                fs.files@,
                paths@,
                Seq::<(Vec<u8>, Vec<u8>)>::empty(),
                visited@,
            )) by {
                assert forall|th: Seq<u8>, n: Seq<u8>|
                    #[trigger] visited_set(visited@, n).contains(th) && !visited_set(
                        Seq::<(Vec<u8>, Vec<u8>)>::empty(),
                        n,
                    ).contains(th) implies all_miss(fs.files@, paths@, th, n) by {
                    if visited_set(vpre, n).contains(th) {
                        assert(all_miss(fs.files@, paths@, th, n));
                    } else {
                        assert(all_miss(fs.files@, paths@, th, n));
                    }
                }
            }
            assert forall|n: Seq<u8>|
                news_closed(
                    fs.files@,
                    paths@,
                    n,
                    Seq::<(Vec<u8>, Vec<u8>)>::empty(),
                    visited@,
                ) by {
                if n == names@[j as int]@ {
                    assert forall|th: Seq<u8>, jp: int|
                        visited_set(visited@, n).contains(th) && !visited_set(
                            Seq::<(Vec<u8>, Vec<u8>)>::empty(),
                            n,
                        ).contains(th) && 0 <= jp < theme_parents(
                            fs.files@,
                            paths@,
                            th,
                        ).len() implies visited_set(visited@, n).contains(
                        #[trigger] theme_parents(fs.files@, paths@, th)[jp],
                    ) by {
                        if visited_set(vpre, n).contains(th) {
                            assert(news_closed(
                                fs.files@,
                                paths@,
                                n,
                                Seq::<(Vec<u8>, Vec<u8>)>::empty(),
                                vpre,
                            ));
                            assert(visited_set(vpre, n).contains(
                                theme_parents(fs.files@, paths@, th)[jp],
                            ));
                            assert(visited_set(vpre, n).subset_of(visited_set(visited@, n)));
                        } else {
                            assert(visited_set(visited@, n).contains(
                                theme_parents(fs.files@, paths@, th)[jp],
                            ));
                        }
                    }
                } else {
                    assert(visited_set(visited@, n) == visited_set(vpre, n));
                    assert(news_closed(
                        fs.files@,
                        paths@,
                        n,
                        Seq::<(Vec<u8>, Vec<u8>)>::empty(),
                        vpre,
                    ));
                    assert forall|th: Seq<u8>, jp: int|
                        visited_set(visited@, n).contains(th) && !visited_set(
                            Seq::<(Vec<u8>, Vec<u8>)>::empty(),
                            n,
                        ).contains(th) && 0 <= jp < theme_parents(
                            fs.files@,
                            paths@,
                            th,
                        ).len() implies visited_set(visited@, n).contains(
                        #[trigger] theme_parents(fs.files@, paths@, th)[jp],
                    ) by {
                        assert(visited_set(vpre, n).contains(th));
                        assert(visited_set(vpre, n).contains(
                            theme_parents(fs.files@, paths@, th)[jp],
                        ));
                    }
                }
            }
        }
        j = j + 1;
    }
    None
}

/// Every candidate name misses on every search path for every theme on the
/// root's inheritance chain: this tier of the search found nothing.
pub open spec fn tier_misses(
    files: Seq<(Vec<u8>, Vec<u8>)>,
    paths: Seq<Vec<u8>>,
    root: Seq<u8>,
    names: Seq<Vec<u8>>,
) -> bool {
    forall|j: int, th: Seq<u8>, n: nat|
        0 <= j < names.len() && #[trigger] reachable_in(files, paths, root, th, n) ==> all_miss(
            files,
            paths,
            th,
            (#[trigger] names[j])@,
        )
}

/// The requested theme as an owned value, for the search's specification.
pub open spec fn spec_theme_of(theme: Option<&Vec<u8>>) -> Option<Vec<u8>> {
    match theme {
        Some(t) => Some(*t),
        None => None,
    }
}

/// What `open_cursor` promises. A `NotFound` result means every candidate
/// name misses for every theme on the requested theme's inheritance chain and
/// on the fallback theme's chain, across all search paths. Any other result
/// is the decode outcome of a snapshot file that is a cursor file of some
/// candidate name under a theme reachable from the tier being searched; the
/// requested theme's tier comes first — a fallback-tier result implies the
/// whole first tier missed — and within a tier every higher-priority
/// candidate name missed across the tier's whole chain.
pub open spec fn open_cursor_post(
    files: Seq<(Vec<u8>, Vec<u8>)>,
    names: Seq<Vec<u8>>,
    theme: Option<Vec<u8>>,
    scales: Seq<crate::scale::Scale>,
    sizes: Seq<u32>,
    paths: Seq<Vec<u8>>,
    r: Result<crate::xcursor::OpenCursorResult, CursorError>,
) -> bool {
    let t0 = spec_search_theme(theme);
    &&& (r == Err::<crate::xcursor::OpenCursorResult, CursorError>(CursorError::NotFound) ==> {
        &&& tier_misses(files, paths, t0, names)
        &&& tier_misses(files, paths, spec_default_theme(), names)
    })
    &&& (r != Err::<crate::xcursor::OpenCursorResult, CursorError>(CursorError::NotFound)
        ==> exists|fi: int, i: int, j: int, th: Seq<u8>|
        {
            &&& 0 <= fi < files.len()
            &&& 0 <= i < paths.len()
            &&& 0 <= j < names.len()
            &&& (#[trigger] files[fi]).0@ == #[trigger] spec_cursor_path(
                paths[i]@,
                th,
                names[j]@,
            )
            &&& crate::xcursor::decode_post(files[fi].1@, scales, sizes, r)
            &&& {
                ||| (reachable(files, paths, t0, th) && earlier_names_miss_chain(
                    files,
                    paths,
                    t0,
                    names,
                    j,
                ))
                ||| (reachable(files, paths, spec_default_theme(), th)
                    && earlier_names_miss_chain(files, paths, spec_default_theme(), names, j)
                    && tier_misses(files, paths, t0, names))
            }
        })
}

/// Locates and decodes a cursor for the candidate names: each name is tried
/// against the given theme (when one is set), then the whole search is
/// retried with the literal fallback theme `default`; the first file found is
/// decoded for the cross product of the requested scales and sizes. Fails
/// with `NotFound` when no file exists anywhere along the search.
pub fn open_cursor(
    fs: &ThemeFs,
    names: &Vec<Vec<u8>>,
    theme: Option<&Vec<u8>>,
    scales: &Vec<crate::scale::Scale>,
    sizes: &Vec<u32>,
    paths: &Vec<Vec<u8>>,
) -> (r: Result<crate::xcursor::OpenCursorResult, CursorError>)
    requires
        forall|i: int| 0 <= i < scales@.len() ==> (#[trigger] scales@[i]).wf(),
    ensures
        open_cursor_post(fs.files@, names@, spec_theme_of(theme), scales@, sizes@, paths@, r),
{
    let ghost t0 = spec_search_theme(spec_theme_of(theme));
    let ghost u = theme_universe(fs.files@, t0);
    proof {
        lemma_theme_universe_ok(fs.files@, t0);
    }
    let mut visited: Vec<(Vec<u8>, Vec<u8>)> = Vec::new();
    let mut file: Option<Vec<u8>> = None;
    if let Some(t) = theme {
        file = search_names(fs, paths, t, names, &mut visited, Ghost(u));
    }
    let ghost phase1_file = file;
    let ghost v_mid = visited@;
    if file.is_none() {
        let def = default_theme();
        file = search_names(fs, paths, &def, names, &mut visited, Ghost(u));
        proof {
            if file is None {
                assert(tier_misses(fs.files@, paths@, spec_default_theme(), names@)) by {
                    assert forall|j: int, th: Seq<u8>, nn: nat|
                        0 <= j < names@.len() && #[trigger] reachable_in(
                            fs.files@,
                            paths@,
                            spec_default_theme(),
                            th,
                            nn,
                        ) implies all_miss(fs.files@, paths@, th, (#[trigger] names@[j])@) by {
                        assert(visited_set(visited@, names@[j]@).contains(spec_default_theme()));
                        lemma_closure_visited(
                            fs.files@,
                            paths@,
                            names@[j]@,
                            visited@,
                            spec_default_theme(),
                            th,
                            nn,
                        );
                        assert(!visited_set(
                            Seq::<(Vec<u8>, Vec<u8>)>::empty(),
                            names@[j]@,
                        ).contains(th));
                    }
                }
                assert(tier_misses(fs.files@, paths@, t0, names@)) by {
                    if theme is Some {
                        assert forall|j: int, th: Seq<u8>, nn: nat|
                            0 <= j < names@.len() && #[trigger] reachable_in(
                                fs.files@,
                                paths@,
                                t0,
                                th,
                                nn,
                            ) implies all_miss(fs.files@, paths@, th, (#[trigger] names@[j])@) by {
                            assert(visited_set(v_mid, names@[j]@).contains(t0));
                            lemma_closure_visited(
                                fs.files@,
                                paths@,
                                names@[j]@,
                                v_mid,
                                t0,
                                th,
                                nn,
                            );
                            assert(!visited_set(
                                Seq::<(Vec<u8>, Vec<u8>)>::empty(),
                                names@[j]@,
                            ).contains(th));
                        }
                    } else {
                        assert(t0 == spec_default_theme());
                    }
                }
            } else {
                if theme is Some {
                    assert(tier_misses(fs.files@, paths@, t0, names@)) by {
                        assert forall|j: int, th: Seq<u8>, nn: nat|
                            0 <= j < names@.len() && #[trigger] reachable_in(
                                fs.files@,
                                paths@,
                                t0,
                                th,
                                nn,
                            ) implies all_miss(fs.files@, paths@, th, (#[trigger] names@[j])@) by {
                            assert(visited_set(v_mid, names@[j]@).contains(t0));
                            lemma_closure_visited(
                                fs.files@,
                                paths@,
                                names@[j]@,
                                v_mid,
                                t0,
                                th,
                                nn,
                            );
                            assert(!visited_set(
                                Seq::<(Vec<u8>, Vec<u8>)>::empty(),
                                names@[j]@,
                            ).contains(th));
                        }
                    }
                }
            }
        }
    }
    let file = match file {
        Some(f) => f,
        None => {
            return Err(CursorError::NotFound);
        },
    };
    let contents = match fs.lookup(&file) {
        Some(c) => c,
        None => {
            proof {
                assert(false);
            }
            vstd::pervasive::unreached()
        },
    };
    let r = crate::xcursor::parser_cursor_file(contents, scales, sizes);
    proof {
        lemma_fs_lookup_member(fs.files@, file@);
        let fi = choose|fi: int|
            0 <= fi < fs.files@.len() && (#[trigger] fs.files@[fi]).0@ == file@
                && fs.files@[fi].1@ == fs_lookup(fs.files@, file@)->Some_0;
        assert(fs.files@[fi].1@ == contents@);
        assert(crate::xcursor::decode_post(fs.files@[fi].1@, scales@, sizes@, r));
        if phase1_file is Some {
            let (wi, wj, wth): (int, int, Seq<u8>) = choose|wi: int, wj: int, wth: Seq<u8>|
                {
                    &&& 0 <= wi < paths@.len()
                    &&& 0 <= wj < names@.len()
                    &&& reachable(fs.files@, paths@, t0, wth)
                    &&& file@ == spec_cursor_path(paths@[wi]@, wth, names@[wj]@)
                    &&& earlier_names_miss_chain(fs.files@, paths@, t0, names@, wj)
                };
            assert(fs.files@[fi].0@ == spec_cursor_path(paths@[wi]@, wth, names@[wj]@));
        } else {
            let (wi, wj, wth): (int, int, Seq<u8>) = choose|wi: int, wj: int, wth: Seq<u8>|
                {
                    &&& 0 <= wi < paths@.len()
                    &&& 0 <= wj < names@.len()
                    &&& reachable(fs.files@, paths@, spec_default_theme(), wth)
                    &&& file@ == spec_cursor_path(paths@[wi]@, wth, names@[wj]@)
                    &&& earlier_names_miss_chain(
                        fs.files@,
                        paths@,
                        spec_default_theme(),
                        names@,
                        wj,
                    )
                };
            assert(fs.files@[fi].0@ == spec_cursor_path(paths@[wi]@, wth, names@[wj]@));
            if theme is None {
                assert(t0 == spec_default_theme());
                assert(reachable(fs.files@, paths@, t0, wth));
                assert(earlier_names_miss_chain(fs.files@, paths@, t0, names@, wj));
            }
        }
    }
    r
}

/// Law: the theme search always returns — its recursion is bounded by the
/// finite set of (theme, name) pairs drawn from the requested theme, the
/// fallback theme and the declared parents, each attempted at most once — and
/// over an inheritance graph with cycles or duplicate edges in which no theme
/// reachable from the requested theme or from the fallback theme holds a
/// cursor file for any candidate name, the result is `NotFound`.
pub proof fn lemma_unreachable_cursor_means_not_found(
    files: Seq<(Vec<u8>, Vec<u8>)>,
    names: Seq<Vec<u8>>,
    theme: Option<Vec<u8>>,
    scales: Seq<crate::scale::Scale>,
    sizes: Seq<u32>,
    paths: Seq<Vec<u8>>,
    r: Result<crate::xcursor::OpenCursorResult, CursorError>,
)
    requires
        open_cursor_post(files, names, theme, scales, sizes, paths, r),
        forall|fi: int, i: int, j: int, th: Seq<u8>|
            0 <= fi < files.len() && 0 <= i < paths.len() && 0 <= j < names.len() && reachable(
                files,
                paths,
                spec_search_theme(theme),
                th,
            ) ==> (#[trigger] files[fi]).0@ != #[trigger] spec_cursor_path(
                paths[i]@,
                th,
                names[j]@,
            ),
        forall|fi: int, i: int, j: int, th: Seq<u8>|
            0 <= fi < files.len() && 0 <= i < paths.len() && 0 <= j < names.len() && reachable(
                files,
                paths,
                spec_default_theme(),
                th,
            ) ==> (#[trigger] files[fi]).0@ != #[trigger] spec_cursor_path(
                paths[i]@,
                th,
                names[j]@,
            ),
    ensures
        r == Err::<crate::xcursor::OpenCursorResult, CursorError>(CursorError::NotFound),
{
    let t0 = spec_search_theme(theme);
    if r != Err::<crate::xcursor::OpenCursorResult, CursorError>(CursorError::NotFound) {
        let (fi, i, j, th): (int, int, int, Seq<u8>) = choose|fi: int, i: int, j: int, th: Seq<u8>|
            {
                &&& 0 <= fi < files.len()
                &&& 0 <= i < paths.len()
                &&& 0 <= j < names.len()
                &&& (#[trigger] files[fi]).0@ == #[trigger] spec_cursor_path(
                    paths[i]@,
                    th,
                    names[j]@,
                )
                &&& crate::xcursor::decode_post(files[fi].1@, scales, sizes, r)
                &&& {
                    ||| (reachable(files, paths, t0, th) && earlier_names_miss_chain(
                        files,
                        paths,
                        t0,
                        names,
                        j,
                    ))
                    ||| (reachable(files, paths, spec_default_theme(), th)
                        && earlier_names_miss_chain(files, paths, spec_default_theme(), names, j)
                        && tier_misses(files, paths, t0, names))
                }
            };
        assert(files[fi].0@ != spec_cursor_path(paths[i]@, th, names[j]@));
    }
}

} // verus!

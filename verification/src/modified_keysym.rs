//! Parsing a modified key combination out of a configuration string: a
//! dash-separated list of modifier names around exactly one key name, like
//! `ctrl-alt-t`.

use vstd::prelude::*;

verus! {

/// The shift modifier bit.
pub const SHIFT: u32 = 1;

/// The lock modifier bit.
pub const LOCK: u32 = 2;

/// The control modifier bit.
pub const CTRL: u32 = 4;

/// The first freely assignable modifier bit.
pub const MOD1: u32 = 8;

/// The second freely assignable modifier bit.
pub const MOD2: u32 = 16;

/// The third freely assignable modifier bit.
pub const MOD3: u32 = 32;

/// The fourth freely assignable modifier bit.
pub const MOD4: u32 = 64;

/// The fifth freely assignable modifier bit.
pub const MOD5: u32 = 128;

/// The caps-lock alias of the lock modifier.
pub const CAPS: u32 = 2;

/// The alt alias of the first assignable modifier.
pub const ALT: u32 = 8;

/// The num-lock alias of the second assignable modifier.
pub const NUM: u32 = 16;

/// The logo alias of the fourth assignable modifier.
pub const LOGO: u32 = 64;

/// A key together with the modifiers held with it.
#[derive(Copy, Clone, Debug, PartialEq, Eq, Structural)]
pub struct ModifiedKeySym {
    pub mods: u32,
    pub sym: u32,
}

/// The byte range a parsed value came from, for error reporting.
#[derive(Copy, Clone, Debug, PartialEq, Eq, Structural)]
pub struct Span {
    pub lo: u64,
    pub hi: u64,
}

/// Failures while parsing a modified key combination.
#[derive(Debug)]
pub enum ModifiedKeysymParserError {
    /// The configuration value is not a string.
    Expected,
    /// More than one non-modifier key was named.
    MoreThanOneSym,
    /// No non-modifier key was named.
    MissingSym,
    /// A name is neither a modifier nor a known key.
    UnknownKeysym(Vec<u8>),
}

impl ModifiedKeysymParserError {
    /// A human-readable description of the error.
    pub fn message(&self) -> (r: &'static str)
        ensures
            r@.len() > 0,
    {
        let s: &'static str = match self {
            ModifiedKeysymParserError::Expected => "expected a string",
            ModifiedKeysymParserError::MoreThanOneSym => "you cannot use more than one non-modifier key",
            ModifiedKeysymParserError::MissingSym => "you must specify exactly one non-modifier key",
            ModifiedKeysymParserError::UnknownKeysym(_) => "unknown keysym",
        };
        proof {
            reveal_strlit("expected a string");
            reveal_strlit("you cannot use more than one non-modifier key");
            reveal_strlit("you must specify exactly one non-modifier key");
            reveal_strlit("unknown keysym");
        }
        s
    }
}

/// The modifier bit a name stands for, or `None` for a non-modifier name.
pub open spec fn spec_modifier(part: Seq<u8>) -> Option<u32> {
    if part == seq!['s' as u8, 'h' as u8, 'i' as u8, 'f' as u8, 't' as u8] {
        Some(SHIFT)
    } else if part == seq!['l' as u8, 'o' as u8, 'c' as u8, 'k' as u8] {
        Some(LOCK)
    } else if part == seq!['c' as u8, 't' as u8, 'r' as u8, 'l' as u8] {
        Some(CTRL)
    } else if part == seq!['m' as u8, 'o' as u8, 'd' as u8, '1' as u8] {
        Some(MOD1)
    } else if part == seq!['m' as u8, 'o' as u8, 'd' as u8, '2' as u8] {
        Some(MOD2)
    } else if part == seq!['m' as u8, 'o' as u8, 'd' as u8, '3' as u8] {
        Some(MOD3)
    } else if part == seq!['m' as u8, 'o' as u8, 'd' as u8, '4' as u8] {
        Some(MOD4)
    } else if part == seq!['m' as u8, 'o' as u8, 'd' as u8, '5' as u8] {
        Some(MOD5)
    } else if part == seq!['c' as u8, 'a' as u8, 'p' as u8, 's' as u8] {
        Some(CAPS)
    } else if part == seq!['a' as u8, 'l' as u8, 't' as u8] {
        Some(ALT)
    } else if part == seq!['n' as u8, 'u' as u8, 'm' as u8] {
        Some(NUM)
    } else if part == seq!['l' as u8, 'o' as u8, 'g' as u8, 'o' as u8] {
        Some(LOGO)
    } else {
        None
    }
}

/// The keysym recorded for a name at or after entry `i`, first match winning.
pub open spec fn keysym_lookup_from(tbl: Seq<(Vec<u8>, u32)>, i: int, part: Seq<u8>) -> Option<u32>
    decreases tbl.len() - i,
{
    if i < 0 || i >= tbl.len() {
        None
    } else if tbl[i].0@ == part {
        Some(tbl[i].1)
    } else {
        keysym_lookup_from(tbl, i + 1, part)
    }
}

/// The keysym recorded for a name.
pub open spec fn keysym_lookup(tbl: Seq<(Vec<u8>, u32)>, part: Seq<u8>) -> Option<u32> {
    keysym_lookup_from(tbl, 0, part)
}

/// The first index at or after `i` holding a dash, or `end`.
pub open spec fn dash_from(s: Seq<u8>, i: int, end: int) -> int
    decreases end - i,
{
    if i < 0 || i >= end {
        end
    } else if s[i] == 45 {
        i
    } else {
        dash_from(s, i + 1, end)
    }
}

/// The dash-separated pieces of `s[i..end]`, empty pieces included.
pub open spec fn split_dash(s: Seq<u8>, i: int, end: int) -> Seq<Seq<u8>>
    decreases end - i + 1,
    via split_dash_dec
{
    if i < 0 || i > end {
        Seq::empty()
    } else {
        let c = dash_from(s, i, end);
        if c < end {
            seq![s.subrange(i, c)] + split_dash(s, c + 1, end)
        } else {
            seq![s.subrange(i, end)]
        }
    }
}

proof fn lemma_dash_from_bounds(s: Seq<u8>, i: int, end: int)
    requires
        0 <= i <= end,
    ensures
        i <= dash_from(s, i, end) <= end,
    decreases end - i,
{
    if i < end && s[i] != 45 {
        lemma_dash_from_bounds(s, i + 1, end);
    }
}

#[via_fn]
proof fn split_dash_dec(s: Seq<u8>, i: int, end: int) {
    if 0 <= i <= end {
        lemma_dash_from_bounds(s, i, end);
    }
}

/// What parsing the parts from position `i` onward yields, with the modifier
/// bits and the key seen so far: each part ORs in its modifier bit or names
/// the one key; a second key or an unknown name fails, and so does reaching
/// the end without a key.
pub open spec fn parse_result_matches(
    tbl: Seq<(Vec<u8>, u32)>,
    parts: Seq<Seq<u8>>,
    i: int,
    mods: u32,
    sym: Option<u32>,
    r: Result<ModifiedKeySym, (ModifiedKeysymParserError, Span)>,
    span: Span,
) -> bool
    decreases parts.len() - i,
{
    if i < 0 || i >= parts.len() {
        match sym {
            Some(s) => r == Ok::<ModifiedKeySym, (ModifiedKeysymParserError, Span)>(
                ModifiedKeySym { mods, sym: s },
            ),
            None => r matches Err((e, sp)) && e is MissingSym && sp == span,
        }
    } else {
        match spec_modifier(parts[i]) {
            Some(m) => parse_result_matches(tbl, parts, i + 1, mods | m, sym, r, span),
            None => match keysym_lookup(tbl, parts[i]) {
                Some(k) => if sym is None {
                    parse_result_matches(tbl, parts, i + 1, mods, Some(k), r, span)
                } else {
                    r matches Err((e, sp)) && e is MoreThanOneSym && sp == span
                },
                None => r matches Err((e, sp)) && (e matches
                    ModifiedKeysymParserError::UnknownKeysym(p) && p@ == parts[i]) && sp == span,
            },
        }
    }
}

/// Looks a name up in the keysym table.
fn keysym_find(tbl: &Vec<(Vec<u8>, u32)>, i: usize, part: &Vec<u8>) -> (r: Option<u32>)
    requires
        i <= tbl@.len(),
    ensures
        r == keysym_lookup_from(tbl@, i as int, part@),
    decreases tbl@.len() - i,
{
    if i >= tbl.len() {
        return None;
    }
    if crate::theme::bytes_eq(&tbl[i].0, part) {
        return Some(tbl[i].1);
    }
    keysym_find(tbl, i + 1, part)
}

/// The modifier bit a name stands for.
fn modifier_of(part: &Vec<u8>) -> (r: Option<u32>)
    ensures
        r == spec_modifier(part@),
{
    let shift: Vec<u8> = vec!['s' as u8, 'h' as u8, 'i' as u8, 'f' as u8, 't' as u8];
    let lock: Vec<u8> = vec!['l' as u8, 'o' as u8, 'c' as u8, 'k' as u8];
    let ctrl: Vec<u8> = vec!['c' as u8, 't' as u8, 'r' as u8, 'l' as u8];
    let mod1: Vec<u8> = vec!['m' as u8, 'o' as u8, 'd' as u8, '1' as u8];
    let mod2: Vec<u8> = vec!['m' as u8, 'o' as u8, 'd' as u8, '2' as u8];
    let mod3: Vec<u8> = vec!['m' as u8, 'o' as u8, 'd' as u8, '3' as u8];
    let mod4: Vec<u8> = vec!['m' as u8, 'o' as u8, 'd' as u8, '4' as u8];
    let mod5: Vec<u8> = vec!['m' as u8, 'o' as u8, 'd' as u8, '5' as u8];
    let caps: Vec<u8> = vec!['c' as u8, 'a' as u8, 'p' as u8, 's' as u8];
    let alt: Vec<u8> = vec!['a' as u8, 'l' as u8, 't' as u8];
    let num: Vec<u8> = vec!['n' as u8, 'u' as u8, 'm' as u8];
    let logo: Vec<u8> = vec!['l' as u8, 'o' as u8, 'g' as u8, 'o' as u8];
    if crate::theme::bytes_eq(part, &shift) {
        Some(SHIFT)
    } else if crate::theme::bytes_eq(part, &lock) {
        Some(LOCK)
    } else if crate::theme::bytes_eq(part, &ctrl) {
        Some(CTRL)
    } else if crate::theme::bytes_eq(part, &mod1) {
        Some(MOD1)
    } else if crate::theme::bytes_eq(part, &mod2) {
        Some(MOD2)
    } else if crate::theme::bytes_eq(part, &mod3) {
        Some(MOD3)
    } else if crate::theme::bytes_eq(part, &mod4) {
        Some(MOD4)
    } else if crate::theme::bytes_eq(part, &mod5) {
        Some(MOD5)
    } else if crate::theme::bytes_eq(part, &caps) {
        Some(CAPS)
    } else if crate::theme::bytes_eq(part, &alt) {
        Some(ALT)
    } else if crate::theme::bytes_eq(part, &num) {
        Some(NUM)
    } else if crate::theme::bytes_eq(part, &logo) {
        Some(LOGO)
    } else {
        None
    }
}

/// Finds the next dash at or after `i`.
fn scan_dash(s: &Vec<u8>, i: usize, end: usize) -> (r: usize)
    requires
        i <= end <= s@.len(),
    ensures
        r == dash_from(s@, i as int, end as int),
        i <= r <= end,
    decreases end - i,
{
    if i >= end {
        return end;
    }
    if s[i] == 45 {
        return i;
    }
    scan_dash(s, i + 1, end)
}

/// Splits `s[i..]` on dashes, keeping empty pieces.
fn split_dash_exec(s: &Vec<u8>, i: usize) -> (r: Vec<Vec<u8>>)
    requires
        i <= s@.len(),
    ensures
        r@.map_values(|p: Vec<u8>| p@) == split_dash(s@, i as int, s@.len() as int),
    decreases s@.len() - i,
{
    let end = s.len();
    let c = scan_dash(s, i, end);
    let mut piece: Vec<u8> = Vec::new();
    let mut k: usize = i;
    while k < c
        invariant
            i <= k <= c <= s@.len(),
            piece@ == s@.subrange(i as int, k as int),
        decreases c - k,
    {
        piece.push(s[k]);
        k = k + 1;
        proof {
            assert(piece@ =~= s@.subrange(i as int, k as int));
        }
    }
    if c < end {
        let rest = split_dash_exec(s, c + 1);
        let mut r: Vec<Vec<u8>> = Vec::new();
        let ghost piece_view = piece@;
        r.push(piece);
        let ghost rest_view = rest@.map_values(|p: Vec<u8>| p@);
        let mut k2: usize = 0;
        while k2 < rest.len()
            invariant
                k2 <= rest@.len(),
                rest_view == rest@.map_values(|p: Vec<u8>| p@),
                r@.len() == k2 + 1,
                r@[0]@ == piece_view,
                forall|j: int| 1 <= j < r@.len() ==> (#[trigger] r@[j])@ == rest_view[j - 1],
            decreases rest@.len() - k2,
        {
            r.push(crate::theme::to_owned_bytes(&rest[k2]));
            k2 = k2 + 1;
        }
        proof {
            assert(r@.map_values(|p: Vec<u8>| p@) =~= seq![piece_view] + rest_view);
        }
        r
    } else {
        let mut r: Vec<Vec<u8>> = Vec::new();
        r.push(piece);
        proof {
            assert(r@.map_values(|p: Vec<u8>| p@) =~= seq![s@.subrange(i as int, end as int)]);
        }
        r
    }
}

/// Parses the parts from position `i` onward.
fn parse_parts(
    tbl: &Vec<(Vec<u8>, u32)>,
    parts: &Vec<Vec<u8>>,
    i: usize,
    mods: u32,
    sym: Option<u32>,
    span: Span,
) -> (r: Result<ModifiedKeySym, (ModifiedKeysymParserError, Span)>)
    requires
        i <= parts@.len(),
    ensures
        parse_result_matches(
            tbl@,
            parts@.map_values(|p: Vec<u8>| p@),
            i as int,
            mods,
            sym,
            r,
            span,
        ),
    decreases parts@.len() - i,
{
    let ghost parts_view = parts@.map_values(|p: Vec<u8>| p@);
    if i >= parts.len() {
        return match sym {
            Some(s) => Ok(ModifiedKeySym { mods, sym: s }),
            None => Err((ModifiedKeysymParserError::MissingSym, span)),
        };
    }
    let part = &parts[i];
    match modifier_of(part) {
        Some(m) => parse_parts(tbl, parts, i + 1, mods | m, sym, span),
        None => match keysym_find(tbl, 0, part) {
            Some(k) => {
                if sym.is_none() {
                    parse_parts(tbl, parts, i + 1, mods, Some(k), span)
                } else {
                    Err((ModifiedKeysymParserError::MoreThanOneSym, span))
                }
            },
            None => {
                let owned = crate::theme::to_owned_bytes(part);
                Err((ModifiedKeysymParserError::UnknownKeysym(owned), span))
            },
        },
    }
}

/// The parser of modified key combinations.
pub struct ModifiedKeysymParser;

impl ModifiedKeysymParser {
    /// Parses a dash-separated combination of modifier names and exactly one
    /// key name, resolving key names through the given keysym table.
    pub fn parse_string(
        &self,
        tbl: &Vec<(Vec<u8>, u32)>,
        span: Span,
        string: &Vec<u8>,
    ) -> (r: Result<ModifiedKeySym, (ModifiedKeysymParserError, Span)>)
        ensures
            parse_result_matches(
                tbl@,
                split_dash(string@, 0, string@.len() as int),
                0,
                0,
                None::<u32>,
                r,
                span,
            ),
    {
        let parts = split_dash_exec(string, 0);
        parse_parts(tbl, &parts, 0, 0, None, span)
    }
}

} // verus!

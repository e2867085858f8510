//! Search-path resolution, `index.theme` parsing, and the theme search with
//! inheritance and cycle protection.

use jay::cursor::CursorError;
use jay::scale::Scale;
use jay::theme::find_cursor_paths;
use jay::theme::find_parent_themes;
use jay::theme::open_cursor;
use jay::theme::ThemeFs;

fn b(s: &str) -> Vec<u8> {
    s.as_bytes().to_vec()
}

fn push_u32(v: &mut Vec<u8>, x: u32) {
    v.extend_from_slice(&x.to_le_bytes());
}

/// A minimal well-formed cursor file with one 1x1 chunk of the given size.
fn tiny_cursor_file(size: u32, delay: u32) -> Vec<u8> {
    let mut v = Vec::new();
    push_u32(&mut v, 0x72756358);
    push_u32(&mut v, 16);
    push_u32(&mut v, 1);
    push_u32(&mut v, 1);
    push_u32(&mut v, 0xfffd0002);
    push_u32(&mut v, size);
    push_u32(&mut v, 28);
    push_u32(&mut v, 36);
    push_u32(&mut v, 0xfffd0002);
    push_u32(&mut v, size);
    push_u32(&mut v, 1);
    push_u32(&mut v, 1);
    push_u32(&mut v, 1);
    push_u32(&mut v, 0);
    push_u32(&mut v, 0);
    push_u32(&mut v, delay);
    for _ in 0..4 {
        v.push(0);
    }
    v
}

#[test]
fn tilde_expands_through_home() {
    let paths = find_cursor_paths(Some(&b("~/.icons:/usr/share/icons")), Some(&b("/home/u")));
    assert_eq!(paths.len(), 2);
    assert_eq!(paths[0], b("/home/u/.icons"));
    assert_eq!(paths[1], b("/usr/share/icons"));
}

#[test]
fn tilde_entry_is_skipped_without_home() {
    let paths = find_cursor_paths(Some(&b("~/.icons:/usr/share/icons")), None);
    assert_eq!(paths.len(), 1);
    assert_eq!(paths[0], b("/usr/share/icons"));
}

#[test]
fn unset_path_variable_uses_the_default_list() {
    let paths = find_cursor_paths(None, Some(&b("/home/u")));
    assert_eq!(paths.len(), 4);
    assert_eq!(paths[0], b("/home/u/.icons"));
    assert_eq!(paths[1], b("/usr/share/icons"));
    assert_eq!(paths[2], b("/usr/share/pixmaps"));
    assert_eq!(paths[3], b("/usr/X11R6/lib/X11/icons"));
}

#[test]
fn inherits_line_is_parsed_as_a_flat_list() {
    let parents = find_parent_themes(&b("[Icon Theme]\nInherits = Alpha;Beta,Gamma\n")).unwrap();
    assert_eq!(parents.len(), 3);
    assert_eq!(parents[0], b("Alpha"));
    assert_eq!(parents[1], b("Beta"));
    assert_eq!(parents[2], b("Gamma"));
}

#[test]
fn only_the_first_inherits_line_counts() {
    let parents = find_parent_themes(&b("Inherits=First\nInherits=Second\n")).unwrap();
    assert_eq!(parents.len(), 1);
    assert_eq!(parents[0], b("First"));
}

#[test]
fn inherits_without_equals_is_ignored() {
    assert!(find_parent_themes(&b("Inherits First\n")).is_none());
    assert!(find_parent_themes(&b("Name=X\nComment=Y\n")).is_none());
    assert!(find_parent_themes(&b("")).is_none());
}

#[test]
fn last_line_without_newline_still_counts() {
    let parents = find_parent_themes(&b("Name=X\nInherits=Tail")).unwrap();
    assert_eq!(parents.len(), 1);
    assert_eq!(parents[0], b("Tail"));
}

#[test]
fn cursor_found_in_the_named_theme() {
    let fs = ThemeFs {
        files: vec![(b("/p/Mine/cursors/left_ptr"), tiny_cursor_file(24, 7))],
    };
    let r = open_cursor(
        &fs,
        &vec![b("default"), b("left_ptr")],
        Some(&b("Mine")),
        &vec![Scale::from_int(1)],
        &vec![24],
        &vec![b("/p")],
    );
    let res = r.unwrap();
    assert_eq!(res.images.len(), 1);
    assert_eq!(res.images[0][0].1.delay, 7);
}

#[test]
fn cursor_found_through_inheritance() {
    let fs = ThemeFs {
        files: vec![
            (b("/p/Child/index.theme"), b("Inherits=Parent\n")),
            (b("/p/Parent/cursors/left_ptr"), tiny_cursor_file(24, 9)),
        ],
    };
    let r = open_cursor(
        &fs,
        &vec![b("left_ptr")],
        Some(&b("Child")),
        &vec![Scale::from_int(1)],
        &vec![24],
        &vec![b("/p")],
    );
    let res = r.unwrap();
    assert_eq!(res.images[0][0].1.delay, 9);
}

#[test]
fn falls_back_to_the_default_theme() {
    let fs = ThemeFs {
        files: vec![(b("/p/default/cursors/watch"), tiny_cursor_file(24, 11))],
    };
    let r = open_cursor(
        &fs,
        &vec![b("wait"), b("watch")],
        Some(&b("Missing")),
        &vec![Scale::from_int(1)],
        &vec![24],
        &vec![b("/p")],
    );
    let res = r.unwrap();
    assert_eq!(res.images[0][0].1.delay, 11);
}

#[test]
fn cyclic_inheritance_terminates_with_not_found() {
    // Alpha inherits Beta and Beta inherits Alpha; neither holds the cursor,
    // so the search ends with NotFound instead of looping.
    let fs = ThemeFs {
        files: vec![
            (b("/p/Alpha/index.theme"), b("Inherits=Beta\n")),
            (b("/p/Beta/index.theme"), b("Inherits=Alpha\n")),
        ],
    };
    let r = open_cursor(
        &fs,
        &vec![b("left_ptr")],
        Some(&b("Alpha")),
        &vec![Scale::from_int(1)],
        &vec![24],
        &vec![b("/p")],
    );
    assert_eq!(r.unwrap_err(), CursorError::NotFound);
}

#[test]
fn earlier_candidate_name_wins_over_later() {
    let fs = ThemeFs {
        files: vec![
            (b("/p/T/cursors/second"), tiny_cursor_file(24, 2)),
            (b("/p/T/cursors/first"), tiny_cursor_file(24, 1)),
        ],
    };
    let r = open_cursor(
        &fs,
        &vec![b("first"), b("second")],
        Some(&b("T")),
        &vec![Scale::from_int(1)],
        &vec![24],
        &vec![b("/p")],
    );
    assert_eq!(r.unwrap().images[0][0].1.delay, 1);
}

#[test]
fn earlier_search_path_wins_over_later() {
    let fs = ThemeFs {
        files: vec![
            (b("/q/T/cursors/x"), tiny_cursor_file(24, 2)),
            (b("/p/T/cursors/x"), tiny_cursor_file(24, 1)),
        ],
    };
    let r = open_cursor(
        &fs,
        &vec![b("x")],
        Some(&b("T")),
        &vec![Scale::from_int(1)],
        &vec![24],
        &vec![b("/p"), b("/q")],
    );
    assert_eq!(r.unwrap().images[0][0].1.delay, 1);
}

#[test]
fn nothing_anywhere_is_not_found() {
    let fs = ThemeFs { files: vec![] };
    let r = open_cursor(
        &fs,
        &vec![b("left_ptr")],
        None,
        &vec![Scale::from_int(1)],
        &vec![24],
        &vec![b("/p")],
    );
    assert_eq!(r.unwrap_err(), CursorError::NotFound);
}

#[test]
fn empty_inherits_list_is_still_a_declaration() {
    let parents = find_parent_themes(&b("Inherits=;\n")).unwrap();
    assert!(parents.is_empty());
}

#[test]
fn empty_path_entries_are_kept() {
    let paths = find_cursor_paths(Some(&b("/a::/b")), None);
    assert_eq!(paths.len(), 3);
    assert_eq!(paths[0], b("/a"));
    assert_eq!(paths[1], b(""));
    assert_eq!(paths[2], b("/b"));
}

#[test]
fn spaces_after_inherits_are_allowed() {
    let parents = find_parent_themes(&b("Inherits   =One Two\n")).unwrap();
    assert_eq!(parents, vec![b("One"), b("Two")]);
}

#[test]
fn earlier_name_in_a_parent_beats_a_later_direct_name() {
    // The first candidate name exists only under a declared parent, the
    // second directly under the theme; the candidate order still wins, so the
    // inherited file of the first name is used.
    let fs = ThemeFs {
        files: vec![
            (b("/p/T/index.theme"), b("Inherits=P\n")),
            (b("/p/P/cursors/first"), tiny_cursor_file(24, 1)),
            (b("/p/T/cursors/second"), tiny_cursor_file(24, 2)),
        ],
    };
    let r = open_cursor(
        &fs,
        &vec![b("first"), b("second")],
        Some(&b("T")),
        &vec![Scale::from_int(1)],
        &vec![24],
        &vec![b("/p")],
    );
    assert_eq!(r.unwrap().images[0][0].1.delay, 1);
}

#[test]
fn named_theme_chain_beats_the_fallback_theme() {
    // The requested theme reaches the file through a parent, so the fallback
    // theme's direct file is never consulted.
    let fs = ThemeFs {
        files: vec![
            (b("/p/T/index.theme"), b("Inherits=P\n")),
            (b("/p/P/cursors/x"), tiny_cursor_file(24, 1)),
            (b("/p/default/cursors/x"), tiny_cursor_file(24, 2)),
        ],
    };
    let r = open_cursor(
        &fs,
        &vec![b("x")],
        Some(&b("T")),
        &vec![Scale::from_int(1)],
        &vec![24],
        &vec![b("/p")],
    );
    assert_eq!(r.unwrap().images[0][0].1.delay, 1);
}

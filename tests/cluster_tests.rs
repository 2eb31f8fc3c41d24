use textbuf::clusters::{
    find_in_clusters, mark_matches, remove_cluster, render_clusters, splice, split_at_cluster,
};
use textbuf::text::{grapheme_count, graphemes};
use textbuf::Type;

fn clusters(parts: &[&str]) -> Vec<Vec<char>> {
    parts.iter().map(|p| p.chars().collect()).collect()
}

#[test]
fn graphemes_group_combining_marks() {
    let g = graphemes("ae\u{301}\u{1F1EB}\u{1F1F7}\r\n");
    assert_eq!(g, clusters(&["a", "e\u{301}", "\u{1F1EB}\u{1F1F7}", "\r\n"]));
    assert_eq!(grapheme_count("ae\u{301}"), 2);
    assert_eq!(grapheme_count(""), 0);
}

#[test]
fn splice_puts_character_before_cluster() {
    let g = clusters(&["a", "e\u{301}", "b"]);
    assert_eq!(splice(&g, 1, 'x'), "axe\u{301}b");
    assert_eq!(splice(&g, 3, 'x'), "ae\u{301}bx");
    assert_eq!(splice(&g, 9, 'x'), "ae\u{301}bx");
}

#[test]
fn remove_cluster_drops_whole_cluster() {
    let g = clusters(&["a", "e\u{301}", "b"]);
    assert_eq!(remove_cluster(&g, 1), "ab");
    assert_eq!(remove_cluster(&g, 3), "ae\u{301}b");
}

#[test]
fn split_at_cluster_gives_both_parts() {
    let g = clusters(&["a", "e\u{301}", "b"]);
    assert_eq!(split_at_cluster(&g, 2), ("ae\u{301}".to_string(), "b".to_string()));
    assert_eq!(split_at_cluster(&g, 0), ("".to_string(), "ae\u{301}b".to_string()));
    assert_eq!(split_at_cluster(&g, 5), ("ae\u{301}b".to_string(), "".to_string()));
}

#[test]
fn find_in_clusters_maps_to_cluster_index() {
    let g = clusters(&["x", "e\u{301}", "a", "b", "a", "b"]);
    let q: Vec<char> = "ab".chars().collect();
    assert_eq!(find_in_clusters(&g, &q, 0, true), Some(2));
    assert_eq!(find_in_clusters(&g, &q, 3, true), Some(4));
    assert_eq!(find_in_clusters(&g, &q, 6, false), Some(4));
    assert_eq!(find_in_clusters(&g, &q, 5, false), Some(2));
    assert_eq!(find_in_clusters(&g, &q, 7, true), None);
    let inside: Vec<char> = "\u{301}".chars().collect();
    assert_eq!(find_in_clusters(&g, &inside, 0, true), None);
    assert_eq!(find_in_clusters(&g, &[].to_vec(), 0, true), None);
}

#[test]
fn mark_matches_marks_each_occurrence() {
    let g = clusters(&["a", "b", "a", "b", "c"]);
    let q: Vec<char> = "ab".chars().collect();
    let mut h = vec![Type::Normal; 5];
    mark_matches(&mut h, &g, &q, 2);
    assert_eq!(
        h,
        vec![Type::Match, Type::Match, Type::Match, Type::Match, Type::Normal]
    );
    let mut short = vec![Type::Number; 3];
    mark_matches(&mut short, &g, &q, 2);
    assert_eq!(short, vec![Type::Match; 3]);
    let mut untouched = vec![Type::Number; 5];
    mark_matches(&mut untouched, &g, &q, 0);
    assert_eq!(untouched, vec![Type::Number; 5]);
}

#[test]
fn render_clusters_uses_first_character() {
    let g = clusters(&["e\u{301}", "\t"]);
    let h = vec![Type::Comment, Type::Comment, Type::Comment];
    let grey = "\u{1b}[38;2;128;128;128m";
    let white = "\u{1b}[38;2;255;255;255m";
    assert_eq!(render_clusters(&g, &h, 0, 5), format!("{white}{grey}e {}", "\u{1b}[39m"));
}

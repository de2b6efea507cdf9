use wdt::args::{TraversalError, WDTArgs};
use wdt::listing::{plan_level, DirEntry, Listing};
use wdt::render::{compose_line, format_name};
use wdt::style::{colored_prefix, get_prefix_symbol};
use wdt::tree::{working_directory_tree, Node};

fn unstyled() {
    colored::control::set_override(false);
}

fn request(path: &str, depth: u32, leaf: bool, hide_dotfiles: bool) -> WDTArgs<'_> {
    WDTArgs { path, depth, indent: 0, leaf, hide_dotfiles }
}

/// `/tmp/t` with the directory `a` (holding `x.txt`) and the file `b.txt`.
fn small_tree() -> Node {
    Node::dir("t", vec![Node::dir("a", vec![Node::file("x.txt")]), Node::file("b.txt")])
}

/// Three levels of directories, dotfiles and a directory that cannot be read.
fn deep_tree() -> Node {
    Node::dir(
        "root",
        vec![
            Node::dir(
                "src",
                vec![
                    Node::dir("bin", vec![Node::file("wdt.rs"), Node::file(".swp")]),
                    Node::file("lib.rs"),
                ],
            ),
            Node::dir(".git", vec![Node::file("HEAD"), Node::dir("refs", vec![Node::file("main")])]),
            Node::unreadable("secret"),
            Node::file(".gitignore"),
            Node::dir("empty", Vec::new()),
            Node::file("README.md"),
        ],
    )
}

fn lines(args: &WDTArgs, root: &Node) -> Vec<String> {
    match working_directory_tree(args, root) {
        Ok(lines) => lines,
        Err(e) => panic!("refused: {}", e.message()),
    }
}

#[test]
fn depth_one_lists_the_entries_of_the_root_only() {
    unstyled();
    let got = lines(&request("/tmp/t", 1, false, true), &small_tree());
    assert_eq!(got, vec!["╭ a/", "╰ b.txt"]);
}

#[test]
fn depth_two_lists_the_grandchildren_indented() {
    unstyled();
    let got = lines(&request("/tmp/t", 2, false, true), &small_tree());
    assert_eq!(got, vec!["╭ a/", "  ╰ x.txt", "╰ b.txt"]);
}

#[test]
fn depth_zero_lists_nothing() {
    unstyled();
    let got = lines(&request("/tmp/t", 0, false, true), &small_tree());
    assert!(got.is_empty());
}

#[test]
fn depth_beyond_the_tree_lists_all_of_it() {
    unstyled();
    let got = lines(&request("/tmp/t", 9, false, true), &small_tree());
    assert_eq!(got, vec!["╭ a/", "  ╰ x.txt", "╰ b.txt"]);
}

#[test]
fn leaf_mode_lists_every_entry_whatever_the_depth() {
    unstyled();
    let expected = vec![
        "╭ src/",
        "  ├ bin/",
        "    ╰ wdt.rs",
        "  ╰ lib.rs",
        "├ secret/",
        "├ empty/",
        "╰ README.md",
    ];
    for depth in [0, 1, 2, 50] {
        assert_eq!(lines(&request("root", depth, true, true), &deep_tree()), expected);
    }
}

#[test]
fn leaf_mode_with_dotfiles_shown() {
    unstyled();
    let got = lines(&request("root", 1, true, false), &deep_tree());
    assert_eq!(
        got,
        vec![
            "╭ src/",
            "  ├ bin/",
            "    ├ wdt.rs",
            "    ╰ .swp",
            "  ╰ lib.rs",
            "├ .git/",
            "  ├ HEAD",
            "  ╰ refs/",
            "    ╰ main",
            "├ secret/",
            "├ .gitignore",
            "├ empty/",
            "╰ README.md",
        ]
    );
}

#[test]
fn bounded_listing_stops_at_its_depth() {
    unstyled();
    let one = lines(&request("root", 1, false, true), &deep_tree());
    assert_eq!(one, vec!["╭ src/", "├ secret/", "├ empty/", "╰ README.md"]);
    let two = lines(&request("root", 2, false, true), &deep_tree());
    assert_eq!(
        two,
        vec!["╭ src/", "  ├ bin/", "  ╰ lib.rs", "├ secret/", "├ empty/", "╰ README.md"]
    );
    assert!(one.iter().all(|line| !line.starts_with(' ')));
    assert!(two.iter().all(|line| !line.starts_with("    ")));
}

#[test]
fn one_line_for_every_entry_visited() {
    unstyled();
    // shown at the root: src, secret, empty, README.md; below src: bin, lib.rs; below bin: wdt.rs
    assert_eq!(lines(&request("root", 1, false, true), &deep_tree()).len(), 4);
    assert_eq!(lines(&request("root", 2, false, true), &deep_tree()).len(), 6);
    assert_eq!(lines(&request("root", 3, false, true), &deep_tree()).len(), 7);
    assert_eq!(lines(&request("root", 1, true, true), &deep_tree()).len(), 7);
    // with the dotfiles: .git, .gitignore, HEAD, refs, main, .swp more
    assert_eq!(lines(&request("root", 1, false, false), &deep_tree()).len(), 6);
    assert_eq!(lines(&request("root", 3, false, false), &deep_tree()).len(), 13);
}

#[test]
fn hidden_dotfile_is_left_out_of_lines_and_counts() {
    unstyled();
    let root = Node::dir("d", vec![Node::file(".hidden"), Node::file("visible.txt")]);
    assert_eq!(lines(&request("d", 1, false, true), &root), vec!["╰ visible.txt"]);
    let root = Node::dir("d", vec![Node::file("visible.txt"), Node::file(".hidden")]);
    assert_eq!(lines(&request("d", 1, false, true), &root), vec!["╰ visible.txt"]);
}

#[test]
fn shown_dotfile_counts_for_the_glyphs() {
    unstyled();
    let root = Node::dir("d", vec![Node::file(".hidden"), Node::file("visible.txt")]);
    assert_eq!(lines(&request("d", 1, false, false), &root), vec!["╭ .hidden", "╰ visible.txt"]);
}

#[test]
fn directory_of_dotfiles_only_lists_nothing() {
    unstyled();
    let root = Node::dir("d", vec![Node::file(".a"), Node::dir(".b", vec![Node::file("c")])]);
    assert!(lines(&request("d", 5, false, true), &root).is_empty());
}

#[test]
fn only_entry_of_the_root_gets_the_closing_corner() {
    unstyled();
    let root = Node::dir("d", vec![Node::file("alone")]);
    assert_eq!(lines(&request("d", 1, false, true), &root), vec!["╰ alone"]);
}

#[test]
fn empty_directory_lists_nothing() {
    unstyled();
    let root = Node::dir("d", Vec::new());
    assert!(lines(&request("d", 3, true, true), &root).is_empty());
}

#[test]
fn root_that_is_no_directory_is_refused() {
    unstyled();
    let root = Node::file("b.txt");
    for (depth, leaf) in [(1, false), (0, false), (1, true)] {
        match working_directory_tree(&request("/tmp/t/b.txt", depth, leaf, true), &root) {
            Err(e) => {
                assert!(matches!(&e, TraversalError::NotADirectory(p) if p == "/tmp/t/b.txt"));
                assert_eq!(e.message(), "/tmp/t/b.txt is not a directory");
            },
            Ok(lines) => panic!("listed: {:?}", lines),
        }
    }
}

#[test]
fn unreadable_root_lists_nothing_and_ends_well() {
    unstyled();
    let root = Node::unreadable("locked");
    assert!(lines(&request("locked", 3, false, true), &root).is_empty());
}

#[test]
fn unreadable_directory_is_passed_over() {
    unstyled();
    let root = Node::dir(
        "d",
        vec![Node::unreadable("locked"), Node::dir("open", vec![Node::file("f")]), Node::file("z")],
    );
    assert_eq!(
        lines(&request("d", 2, false, true), &root),
        vec!["╭ locked/", "├ open/", "  ╰ f", "╰ z"]
    );
}

#[test]
fn listing_starts_at_the_indent_of_the_request() {
    unstyled();
    let args = WDTArgs { path: "d", depth: 2, indent: 2, leaf: false, hide_dotfiles: true };
    assert_eq!(
        lines(&args, &small_tree()),
        vec!["    ├ a/", "      ╰ x.txt", "    ╰ b.txt"]
    );
}

#[test]
fn plain_lines() {
    unstyled();
    assert_eq!(format_name(false, "b.txt", 0, 1, 2, false), "╰ b.txt");
    assert_eq!(format_name(true, "a", 0, 0, 2, false), "╭ a/");
    assert_eq!(format_name(true, "a", 0, 0, 2, true), "╭ a/");
    assert_eq!(format_name(false, "x.txt", 1, 0, 1, false), "  ╰ x.txt");
    assert_eq!(format_name(false, "m", 3, 1, 3, true), "      ├ m");
    assert_eq!(format_name(false, "", 0, 0, 1, false), "╰ ");
}

#[test]
fn composed_lines() {
    assert_eq!(compose_line(0, "╭", "a", true), "╭ a/");
    assert_eq!(compose_line(2, "+", "name with space", false), "    + name with space");
    assert_eq!(compose_line(1, "", "", true), "   /");
}

#[test]
fn plain_prefixes() {
    unstyled();
    assert_eq!(colored_prefix("╭", 0), "╭");
    assert_eq!(colored_prefix("anything", 4), "anything");
    assert_eq!(get_prefix_symbol(0, 0, 2), "╭");
    assert_eq!(get_prefix_symbol(0, 1, 3), "├");
    assert_eq!(get_prefix_symbol(5, 2, 3), "╰");
    assert_eq!(get_prefix_symbol(0, 0, 1), "╰");
}

fn entry(name: &str, is_dir: bool) -> DirEntry {
    DirEntry { name: name.to_string(), path: format!("/tmp/t/{}", name), is_dir }
}

#[test]
fn plan_of_one_level() {
    unstyled();
    let listing = Listing::Entries(vec![
        entry(".git", true),
        entry("a", true),
        entry(".hidden", false),
        entry("b.txt", false),
    ]);
    let args = request("/tmp/t", 2, false, true);
    let steps = plan_level(&args, &listing);
    assert_eq!(steps.len(), 2);
    assert_eq!(steps[0].index, 1);
    assert_eq!(steps[0].line, "╭ a/");
    let child = steps[0].descend.expect("a directory is descended into");
    assert_eq!(child.path, "/tmp/t/a");
    assert_eq!(child.depth, 1);
    assert_eq!(child.indent, 1);
    assert!(!child.leaf);
    assert!(child.hide_dotfiles);
    assert_eq!(steps[1].index, 3);
    assert_eq!(steps[1].line, "╰ b.txt");
    assert!(steps[1].descend.is_none());
}

#[test]
fn plan_with_dotfiles_shown() {
    unstyled();
    let listing = Listing::Entries(vec![entry(".git", true), entry("b.txt", false)]);
    let args = WDTArgs { path: "/tmp/t", depth: 1, indent: 1, leaf: true, hide_dotfiles: false };
    let steps = plan_level(&args, &listing);
    assert_eq!(steps.len(), 2);
    assert_eq!(steps[0].index, 0);
    assert_eq!(steps[0].line, "  ├ .git/");
    let child = steps[0].descend.expect("a directory is descended into");
    assert_eq!(child.path, "/tmp/t/.git");
    assert_eq!(child.depth, 1);
    assert_eq!(child.indent, 2);
    assert!(child.leaf);
    assert!(!child.hide_dotfiles);
    assert_eq!(steps[1].line, "  ╰ b.txt");
}

#[test]
fn plan_of_a_level_at_the_last_level_of_budget() {
    unstyled();
    let listing = Listing::Entries(vec![entry("a", true)]);
    let args = request("/tmp/t", 1, false, true);
    let steps = plan_level(&args, &listing);
    assert_eq!(steps.len(), 1);
    let child = steps[0].descend.expect("a directory is descended into");
    assert_eq!(child.depth, 0);
    assert!(matches!(child.enter(true), Ok(false)));
    assert!(plan_level(&child, &listing).is_empty());
}

#[test]
fn plan_of_an_unreadable_directory_is_empty() {
    unstyled();
    assert!(plan_level(&request("/tmp/t", 3, false, true), &Listing::Unreadable).is_empty());
    assert!(plan_level(&request("/tmp/t", 3, true, false), &Listing::Unreadable).is_empty());
}

#[test]
fn plan_with_the_budget_spent_is_empty() {
    unstyled();
    let listing = Listing::Entries(vec![entry("a", true), entry("b.txt", false)]);
    assert!(plan_level(&request("/tmp/t", 0, false, true), &listing).is_empty());
    assert_eq!(plan_level(&request("/tmp/t", 0, true, true), &listing).len(), 2);
}

use clap_core::completions::{
    all_subcommand_names, all_subcommands, get_all_subcommand_paths, subcommands_of, CommandNode,
};
use clap_core::text::{text_less, underscored_path, with_last_segment};

fn node(name: &str, bin_name: &str, aliases: &[(&str, bool)], subs: Vec<CommandNode>) -> CommandNode {
    CommandNode {
        name: name.to_string(),
        bin_name: bin_name.to_string(),
        aliases: if aliases.is_empty() {
            None
        } else {
            Some(aliases.iter().map(|&(a, v)| (a.to_string(), v)).collect())
        },
        subcommands: subs,
    }
}

fn pairs(v: &[(&str, &str)]) -> Vec<(String, String)> {
    v.iter().map(|&(a, b)| (a.to_string(), b.to_string())).collect()
}

fn strings(v: &[&str]) -> Vec<String> {
    v.iter().map(|s| s.to_string()).collect()
}

// rustup
// ├── toolchain
// │   ├── install (alias i)
// │   └── list (hidden alias ls)
// └── update (alias list)
fn sample() -> CommandNode {
    let install = node("install", "rustup toolchain install", &[("i", true)], vec![]);
    let list = node("list", "rustup toolchain list", &[("ls", false)], vec![]);
    let toolchain = node("toolchain", "rustup toolchain", &[], vec![install, list]);
    let update = node("update", "rustup update", &[("list", true)], vec![]);
    node("rustup", "rustup", &[], vec![toolchain, update])
}

#[test]
fn leaf_entries_include_visible_aliases() {
    let n = node("install", "rustup toolchain install", &[("i", true)], vec![]);
    assert_eq!(
        subcommands_of(&n),
        pairs(&[("install", "rustup toolchain install"), ("i", "rustup toolchain i")])
    );
}

#[test]
fn leaf_entries_skip_hidden_aliases() {
    let n = node("list", "rustup toolchain list", &[("ls", false), ("l", true)], vec![]);
    assert_eq!(
        subcommands_of(&n),
        pairs(&[("list", "rustup toolchain list"), ("l", "rustup toolchain l")])
    );
}

#[test]
fn alias_of_a_top_level_command_keeps_the_root() {
    let n = node("update", "rustup update", &[("up", true)], vec![]);
    assert_eq!(subcommands_of(&n), pairs(&[("update", "rustup update"), ("up", "rustup up")]));
}

#[test]
fn immediate_entries_list_children_then_their_aliases() {
    let t = sample();
    assert_eq!(
        subcommands_of(&t),
        pairs(&[
            ("toolchain", "rustup toolchain"),
            ("update", "rustup update"),
            ("list", "rustup list"),
        ])
    );
}

#[test]
fn all_entries_go_depth_first_and_keep_duplicates() {
    let t = sample();
    assert_eq!(
        all_subcommands(&t),
        pairs(&[
            ("toolchain", "rustup toolchain"),
            ("update", "rustup update"),
            ("list", "rustup list"),
            ("install", "rustup toolchain install"),
            ("i", "rustup toolchain i"),
            ("list", "rustup toolchain list"),
            ("install", "rustup toolchain install"),
            ("i", "rustup toolchain i"),
            ("list", "rustup toolchain list"),
            ("update", "rustup update"),
            ("list", "rustup list"),
        ])
    );
}

#[test]
fn all_names_are_sorted_and_distinct() {
    let t = sample();
    assert_eq!(
        all_subcommand_names(&t),
        strings(&["i", "install", "list", "toolchain", "update"])
    );
}

#[test]
fn all_names_of_a_lone_command() {
    let n = node("app", "app", &[("b", true), ("a", true)], vec![]);
    assert_eq!(all_subcommand_names(&n), strings(&["a", "app", "b"]));
}

#[test]
fn childless_root_has_no_leaf_paths() {
    let n = node("install", "rustup toolchain install", &[("i", true)], vec![]);
    assert_eq!(get_all_subcommand_paths(&n, true), Vec::<String>::new());
    assert_eq!(
        get_all_subcommand_paths(&n, false),
        strings(&["rustup_toolchain_install", "rustup_toolchain_i"])
    );
}

#[test]
fn leaf_paths_of_a_tree() {
    let t = sample();
    assert_eq!(
        get_all_subcommand_paths(&t, true),
        strings(&[
            "rustup_toolchain_install",
            "rustup_toolchain_i",
            "rustup_toolchain_list",
            "rustup_update",
            "rustup_list",
        ])
    );
}

#[test]
fn last_segment_is_replaced() {
    assert_eq!(
        with_last_segment(&"rustup toolchain install".to_string(), &"i".to_string()),
        "rustup toolchain i"
    );
    assert_eq!(with_last_segment(&"app sub".to_string(), &"s".to_string()), "app s");
    assert_eq!(with_last_segment(&"app".to_string(), &"a".to_string()), "a");
}

#[test]
fn spaces_become_underscores() {
    assert_eq!(underscored_path(&"a b c".to_string()), "a_b_c");
    assert_eq!(underscored_path(&"".to_string()), "");
}

#[test]
fn text_order_is_lexicographic() {
    let s = |x: &str| x.to_string();
    assert!(text_less(&s("a"), &s("b")));
    assert!(text_less(&s("ab"), &s("abc")));
    assert!(text_less(&s(""), &s("a")));
    assert!(!text_less(&s("abc"), &s("ab")));
    assert!(!text_less(&s("same"), &s("same")));
    assert!(text_less(&s("Zed"), &s("apple")));
}

use clap_core::option::{Arg, ArgKind, OptBuilder};
use clap_core::settings::{ArgFlags, ArgSettings};
use vec_map::VecMap;

fn strings(v: &[&str]) -> Vec<String> {
    v.iter().map(|s| s.to_string()).collect()
}

#[test]
fn optbuilder_display1() {
    let mut o = OptBuilder::new("opt");
    o.long = Some("option".to_string());
    o.settings.set(ArgSettings::Multiple);

    assert_eq!(&*o.render(), "--option <opt>...");
}

#[test]
fn optbuilder_display2() {
    let mut v_names = VecMap::new();
    v_names.insert(0, "file".to_string());
    v_names.insert(1, "name".to_string());

    let mut o2 = OptBuilder::new("opt");
    o2.short = Some('o');
    o2.val_names = Some(v_names);

    assert_eq!(&*o2.render(), "-o <file> <name>");
}

#[test]
fn optbuilder_display3() {
    let mut v_names = VecMap::new();
    v_names.insert(0, "file".to_string());
    v_names.insert(1, "name".to_string());

    let mut o2 = OptBuilder::new("opt");
    o2.short = Some('o');
    o2.val_names = Some(v_names);
    o2.settings.set(ArgSettings::Multiple);

    assert_eq!(&*o2.render(), "-o <file> <name>");
}

#[test]
fn optbuilder_display_single_alias() {
    let mut o = OptBuilder::new("opt");
    o.long = Some("option".to_string());
    o.aliases = Some(vec![("als".to_string(), true)]);

    assert_eq!(&*o.render(), "--option <opt>");
}

#[test]
fn optbuilder_display_multiple_aliases() {
    let mut o = OptBuilder::new("opt");
    o.long = Some("option".to_string());
    o.aliases = Some(vec![
        ("als_not_visible".to_string(), false),
        ("als2".to_string(), true),
        ("als3".to_string(), true),
        ("als4".to_string(), true),
    ]);
    assert_eq!(&*o.render(), "--option <opt>");
}

#[test]
fn single_visible_alias_is_listed() {
    let mut o = OptBuilder::new("opt");
    o.long = Some("option".to_string());
    o.aliases = Some(vec![("als".to_string(), true)]);
    assert_eq!(o.aliases(), Some(strings(&["als"])));
}

#[test]
fn hidden_aliases_are_not_listed() {
    let mut o = OptBuilder::new("opt");
    o.long = Some("option".to_string());
    o.aliases = Some(vec![
        ("hidden".to_string(), false),
        ("a2".to_string(), true),
        ("a3".to_string(), true),
        ("a4".to_string(), true),
    ]);
    assert_eq!(o.aliases(), Some(strings(&["a2", "a3", "a4"])));
}

#[test]
fn no_visible_alias_gives_none() {
    let mut o = OptBuilder::new("opt");
    assert_eq!(o.aliases(), None);
    o.aliases = Some(vec![]);
    assert_eq!(o.aliases(), None);
    o.aliases = Some(vec![("h".to_string(), false)]);
    assert_eq!(o.aliases(), None);
}

#[test]
fn aliases_leave_usage_unchanged() {
    let mut o = OptBuilder::new("opt");
    o.short = Some('x');
    let before = o.render();
    o.aliases = Some(vec![("y".to_string(), true), ("z".to_string(), false)]);
    assert_eq!(o.render(), before);
    assert_eq!(before, "-x <opt>");
}

#[test]
fn single_named_slot_with_multiple_gets_ellipsis() {
    let mut v_names = VecMap::new();
    v_names.insert(0, "file".to_string());
    let mut o = OptBuilder::new("opt");
    o.short = Some('o');
    o.val_names = Some(v_names);
    assert_eq!(o.render(), "-o <file>");
    o.settings.set(ArgSettings::Multiple);
    assert_eq!(o.render(), "-o <file>...");
}

#[test]
fn named_slots_follow_key_order() {
    let mut v_names = VecMap::new();
    v_names.insert(5, "last".to_string());
    v_names.insert(0, "first".to_string());
    v_names.insert(2, "mid".to_string());
    let mut o = OptBuilder::new("opt");
    o.long = Some("files".to_string());
    o.val_names = Some(v_names);
    assert_eq!(o.render(), "--files <first> <mid> <last>");
}

#[test]
fn long_switch_wins_over_short() {
    let mut o = OptBuilder::new("opt");
    o.short = Some('o');
    o.long = Some("option".to_string());
    assert_eq!(o.render(), "--option <opt>");
}

#[test]
fn value_count_repeats_the_name() {
    let mut o = OptBuilder::new("pt");
    o.long = Some("point".to_string());
    o.num_vals = Some(3);
    assert_eq!(o.render(), "--point <pt> <pt> <pt>");
    o.settings.set(ArgSettings::Multiple);
    assert_eq!(o.render(), "--point <pt> <pt> <pt>");
}

#[test]
fn value_names_win_over_value_count() {
    let mut v_names = VecMap::new();
    v_names.insert(0, "x".to_string());
    v_names.insert(1, "y".to_string());
    let mut o = OptBuilder::new("pt");
    o.short = Some('p');
    o.num_vals = Some(3);
    o.val_names = Some(v_names);
    assert_eq!(o.render(), "-p <x> <y>");
}

#[test]
fn empty_value_names_fall_back_to_the_name() {
    let mut o = OptBuilder::new("opt");
    o.short = Some('o');
    o.val_names = Some(VecMap::new());
    assert_eq!(o.render(), "-o <opt>");
}

fn arg(required: bool) -> Arg {
    let mut settings = ArgFlags::new();
    if required {
        settings.set(ArgSettings::Required);
    }
    let mut v_names = VecMap::new();
    v_names.insert(0, "file".to_string());
    Arg {
        name: "cfg".to_string(),
        help: Some("config file".to_string()),
        settings,
        requires: Some(strings(&["input", "output"])),
        overrides: None,
        blacklist: Some(strings(&["quiet"])),
        r_unless: None,
        short: Some('c'),
        long: Some("config".to_string()),
        aliases: Some(vec![("conf".to_string(), true)]),
        disp_ord: 4,
        val_names: Some(v_names),
        num_vals: Some(1),
        max_vals: Some(2),
        min_vals: None,
        possible_vals: None,
        val_delim: Some(','),
        default_val: Some("a.toml".to_string()),
    }
}

#[test]
fn from_required_arg_collects_requirements() {
    let a = arg(true);
    let mut reqs = strings(&["base"]);
    let o = OptBuilder::from_arg(&a, &mut reqs);
    assert_eq!(reqs, strings(&["base", "input", "output"]));
    assert_eq!(o.name(), "cfg");
    assert_eq!(o.kind(), ArgKind::Opt);
    assert!(o.is_set(ArgSettings::Required));
    assert!(!o.is_set(ArgSettings::Multiple));
    assert_eq!(o.short(), Some('c'));
    assert_eq!(o.long().map(|s| s.as_str()), Some("config"));
    assert_eq!(o.help().map(|s| s.as_str()), Some("config file"));
    assert_eq!(o.requirements(), Some(&strings(&["input", "output"])));
    assert_eq!(o.blacklist(), Some(&strings(&["quiet"])));
    assert_eq!(o.overrides(), None);
    assert_eq!(o.required_unless(), None);
    assert_eq!(o.possible_vals(), None);
    assert_eq!(o.num_vals(), Some(1));
    assert_eq!(o.max_vals(), Some(2));
    assert_eq!(o.min_vals(), None);
    assert_eq!(o.val_delim(), Some(','));
    assert_eq!(o.default_val().map(|s| s.as_str()), Some("a.toml"));
    assert_eq!(o.disp_ord(), 4);
    assert_eq!(o.val_names().map(|m| m.len()), Some(1));
    assert_eq!(o.aliases(), Some(strings(&["conf"])));
    assert!(o.has_switch());
    assert!(o.takes_value());
    assert!(o.longest_filter());
    assert_eq!(o.render(), "--config <file>");
}

#[test]
fn from_optional_arg_leaves_requirements() {
    let a = arg(false);
    let mut reqs = strings(&["base"]);
    let o = OptBuilder::from_arg(&a, &mut reqs);
    assert_eq!(reqs, strings(&["base"]));
    assert!(!o.is_set(ArgSettings::Required));
}

#[test]
fn setting_a_flag_keeps_others() {
    let mut o = OptBuilder::new("opt");
    assert!(!o.is_set(ArgSettings::Hidden));
    o.set(ArgSettings::Hidden);
    o.set(ArgSettings::Global);
    assert!(o.is_set(ArgSettings::Hidden));
    assert!(o.is_set(ArgSettings::Global));
    assert!(!o.is_set(ArgSettings::Multiple));
}

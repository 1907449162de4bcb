use stryde_index::icons::{icon_probe_plan, resolve_first, IconProbe};

#[test]
fn plan_starts_with_the_direct_probes_largest_first() {
    let plan = icon_probe_plan("editor");
    assert_eq!(plan.len(), 14);
    let expected = [
        "/usr/share/icons/breeze/apps/64/editor.svg",
        "/usr/share/icons/breeze/apps/48/editor.svg",
        "/usr/share/icons/breeze/apps/32/editor.svg",
    ];
    for (slot, want) in expected.iter().enumerate() {
        match &plan[slot] {
            IconProbe::Direct { path } => assert_eq!(path, want),
            _ => panic!("the first probes must test the direct paths"),
        }
    }
}

#[test]
fn plan_tries_each_theme_largest_first() {
    let plan = icon_probe_plan("editor");
    let expected = [
        ("Breeze", 64),
        ("Breeze", 48),
        ("Breeze", 32),
        ("Papirus", 64),
        ("Papirus", 48),
        ("Papirus", 32),
        ("Adwaita", 64),
        ("Adwaita", 48),
        ("Adwaita", 32),
    ];
    for (slot, (want_theme, want_size)) in expected.iter().enumerate() {
        match &plan[3 + slot] {
            IconProbe::Themed { name, theme, size } => {
                assert_eq!(name, "editor");
                assert_eq!(theme, want_theme);
                assert_eq!(size, want_size);
            },
            _ => panic!("probes after the direct ones must be themed lookups"),
        }
    }
}

#[test]
fn plan_ends_with_symbolic_then_generic() {
    let plan = icon_probe_plan("editor");
    match &plan[12] {
        IconProbe::Plain { name, size } => {
            assert_eq!(name, "editor-symbolic");
            assert_eq!(*size, 32);
        },
        _ => panic!("the next-to-last probe must be the symbolic variant"),
    }
    match &plan[13] {
        IconProbe::Plain { name, size } => {
            assert_eq!(name, "application-x-executable");
            assert_eq!(*size, 48);
        },
        _ => panic!("the last probe must be the generic fallback"),
    }
}

#[test]
fn symbolic_hit_beats_the_generic_fallback() {
    // A token that resolves only as its -symbolic variant: every earlier
    // probe misses, the generic fallback would also answer, and the
    // resolution must be the symbolic path.
    let mut outcomes: Vec<Option<String>> = vec![None; 12];
    outcomes.push(Some("/theme/editor-symbolic.svg".to_string()));
    outcomes.push(Some("/theme/application-x-executable.png".to_string()));
    assert_eq!(resolve_first(&outcomes), Some("/theme/editor-symbolic.svg".to_string()));
}

#[test]
fn first_success_wins() {
    let outcomes = vec![None, Some("early".to_string()), Some("late".to_string())];
    assert_eq!(resolve_first(&outcomes), Some("early".to_string()));
}

#[test]
fn all_misses_resolve_to_nothing() {
    let outcomes: Vec<Option<String>> = vec![None; 14];
    assert_eq!(resolve_first(&outcomes), None);
    assert_eq!(resolve_first(&vec![]), None);
}

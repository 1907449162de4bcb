use stryde_index::registry::{
    get_text, get_u32, get_uninstall_key_programs, get_windows_apps, registry_uninstall_roots,
    strip_icon_index, AttrValue, ProductEntry, RawSubkey, Software, SoftwareType,
};

fn text(key: &str, value: &str) -> (String, AttrValue) {
    (key.to_string(), AttrValue::Text(value.to_string()))
}

fn num(key: &str, value: u32) -> (String, AttrValue) {
    (key.to_string(), AttrValue::Num(value))
}

fn regular_subkey(name: &str) -> RawSubkey {
    RawSubkey {
        name: name.to_string(),
        attrs: vec![
            text("DisplayName", "Some Tool"),
            text("DisplayVersion", "1.2"),
            text("InstallLocation", "C:\\Tools\\Some"),
            text("DisplayIcon", "C:\\Tools\\Some\\tool.exe,0"),
            text("UninstallString", "C:\\Tools\\Some\\unins.exe"),
        ],
    }
}

#[test]
fn roots_are_fixed_ones_then_one_per_profile() {
    let sids = vec!["S-1-5-21-111".to_string(), "S-1-5-21-222".to_string()];
    let roots = registry_uninstall_roots(&sids);
    assert_eq!(
        roots,
        vec![
            "HKEY_LOCAL_MACHINE\\SOFTWARE\\Microsoft\\Windows\\CurrentVersion\\Uninstall",
            "HKEY_LOCAL_MACHINE\\SOFTWARE\\WOW6432Node\\Microsoft\\Windows\\CurrentVersion\\Uninstall",
            "HKEY_CURRENT_USER\\SOFTWARE\\Microsoft\\Windows\\CurrentVersion\\Uninstall",
            "HKEY_USERS\\S-1-5-21-111\\Software\\Microsoft\\Windows\\CurrentVersion\\Uninstall",
            "HKEY_USERS\\S-1-5-21-222\\Software\\Microsoft\\Windows\\CurrentVersion\\Uninstall",
        ]
    );
    assert_eq!(registry_uninstall_roots(&vec![]).len(), 3);
}

#[test]
fn collects_a_regular_program() {
    let programs = get_uninstall_key_programs(&vec![regular_subkey("SomeTool")], &vec![], false);
    assert_eq!(programs.len(), 1);
    assert_eq!(programs[0].name, "Some Tool");
    assert_eq!(programs[0].version, "1.2");
    assert_eq!(programs[0].install_location, "C:\\Tools\\Some");
    assert_eq!(programs[0].software_type, SoftwareType::Regular);
}

#[test]
fn kb_named_subkey_follows_the_include_updates_flag() {
    let update = regular_subkey("HotPatchKB123456");
    let excluded = get_uninstall_key_programs(&vec![update.clone()], &vec![], false);
    assert!(excluded.is_empty());
    let included = get_uninstall_key_programs(&vec![update], &vec![], true);
    assert_eq!(included.len(), 1);
    assert_eq!(included[0].name, "Some Tool");
}

#[test]
fn five_digit_kb_suffix_is_no_update() {
    let programs = get_uninstall_key_programs(&vec![regular_subkey("KB12345")], &vec![], false);
    assert_eq!(programs.len(), 1);
}

#[test]
fn parent_key_marks_an_update() {
    let mut subkey = regular_subkey("Child");
    subkey.attrs.push(text("ParentKeyName", "SomeParent"));
    assert!(get_uninstall_key_programs(&vec![subkey.clone()], &vec![], false).is_empty());
    assert_eq!(get_uninstall_key_programs(&vec![subkey], &vec![], true).len(), 1);
}

#[test]
fn update_release_types_mark_an_update() {
    for release in ["Security Update", "Update Rollup", "Hotfix"] {
        let mut subkey = regular_subkey("Plain");
        subkey.attrs.push(text("ReleaseType", release));
        assert!(get_uninstall_key_programs(&vec![subkey], &vec![], false).is_empty());
    }
    let mut fine = regular_subkey("Plain");
    fine.attrs.push(text("ReleaseType", "Release"));
    assert_eq!(get_uninstall_key_programs(&vec![fine], &vec![], false).len(), 1);
}

#[test]
fn system_component_is_always_dropped() {
    let mut subkey = regular_subkey("Shiny");
    subkey.attrs.push(num("SystemComponent", 1));
    assert!(get_uninstall_key_programs(&vec![subkey.clone()], &vec![], false).is_empty());
    assert!(get_uninstall_key_programs(&vec![subkey], &vec![], true).is_empty());
}

#[test]
fn regular_needs_name_and_uninstall_command() {
    let mut nameless = regular_subkey("X");
    nameless.attrs.retain(|pair| pair.0 != "DisplayName");
    assert!(get_uninstall_key_programs(&vec![nameless], &vec![], false).is_empty());

    let mut no_uninstall = regular_subkey("X");
    no_uninstall.attrs.retain(|pair| pair.0 != "UninstallString");
    assert!(get_uninstall_key_programs(&vec![no_uninstall], &vec![], false).is_empty());
}

#[test]
fn installer_entry_resolves_through_the_products_table() {
    let subkey = RawSubkey {
        name: "ABC123".to_string(),
        attrs: vec![
            num("WindowsInstaller", 1),
            text("DisplayName", "Fallback Name"),
            text("DisplayIcon", "C:\\fallback.ico"),
            text("InstallLocation", "C:\\Apps\\Abc"),
        ],
    };
    let products = vec![ProductEntry {
        key: "ABC123".to_string(),
        name: "Proper Name".to_string(),
        icon: "C:\\proper.ico".to_string(),
    }];
    let programs = get_uninstall_key_programs(&vec![subkey], &products, false);
    assert_eq!(programs.len(), 1);
    assert_eq!(programs[0].name, "Proper Name");
    assert_eq!(programs[0].icon, "C:\\proper.ico");
    assert_eq!(programs[0].software_type, SoftwareType::WindowsInstaller);
}

#[test]
fn installer_entry_falls_back_to_its_own_attributes() {
    let subkey = RawSubkey {
        name: "NotInTable".to_string(),
        attrs: vec![
            num("WindowsInstaller", 1),
            text("DisplayName", "Fallback Name"),
            text("DisplayIcon", "C:\\fallback.ico"),
        ],
    };
    let programs = get_uninstall_key_programs(&vec![subkey], &vec![], false);
    assert_eq!(programs.len(), 1);
    assert_eq!(programs[0].name, "Fallback Name");
    assert_eq!(programs[0].icon, "C:\\fallback.ico");
}

#[test]
fn installer_entry_without_any_name_is_dropped() {
    let subkey = RawSubkey {
        name: "Unnamed".to_string(),
        attrs: vec![num("WindowsInstaller", 1), text("DisplayIcon", "C:\\i.ico")],
    };
    assert!(get_uninstall_key_programs(&vec![subkey], &vec![], true).is_empty());
}

#[test]
fn attribute_reads_default_when_missing_or_mistyped() {
    let attrs = vec![text("DisplayName", "N"), num("SystemComponent", 1)];
    assert_eq!(get_u32(&attrs, "WindowsInstaller"), 0);
    assert_eq!(get_u32(&attrs, "DisplayName"), 0);
    assert_eq!(get_text(&attrs, "SystemComponent"), "");
    assert_eq!(get_text(&attrs, "Anything"), "");
    assert_eq!(get_text(&attrs, "DisplayName"), "N");
    assert_eq!(get_u32(&attrs, "SystemComponent"), 1);
}

fn software(install_location: &str, icon: &str) -> Software {
    Software {
        name: "Thing".to_string(),
        version: "1.0".to_string(),
        install_location: install_location.to_string(),
        icon: icon.to_string(),
        software_type: SoftwareType::Regular,
    }
}

#[test]
fn icon_resource_suffix_is_stripped() {
    assert_eq!(strip_icon_index("C:\\app\\icon.dll,2"), "C:\\app\\icon.dll");
    assert_eq!(strip_icon_index("C:\\app\\icon.ico"), "C:\\app\\icon.ico");
    assert_eq!(strip_icon_index("a,b,c"), "a");
}

#[test]
fn record_carries_the_stripped_icon_path() {
    let apps = get_windows_apps(vec![software("C:\\Apps\\T", "C:\\app\\icon.dll,2")]);
    assert_eq!(apps.len(), 1);
    assert_eq!(apps[0].icon_path.as_deref(), Some("C:\\app\\icon.dll"));
    assert_eq!(apps[0].launch_command.as_deref(), Some("C:\\app\\icon.dll"));
    assert_eq!(apps[0].name, "Thing");
    assert_eq!(apps[0].description, None);
    assert_eq!(apps[0].type_file.as_deref(), Some("Application"));
    assert_eq!(apps[0].terminal, Some(false));
}

#[test]
fn empty_install_location_yields_no_record() {
    let apps = get_windows_apps(vec![software("", "C:\\a.ico"), software("C:\\B", "b.ico")]);
    assert_eq!(apps.len(), 1);
    assert_eq!(apps[0].icon_path.as_deref(), Some("b.ico"));
}

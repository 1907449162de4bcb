use stryde_index::desktop::{normalize_entry, parse_entry_content, EntryKind, ParsedEntry};

fn plain_entry() -> ParsedEntry {
    ParsedEntry {
        name: "Files".to_string(),
        comment: Some("Browse files".to_string()),
        icon: Some("system-file-manager".to_string()),
        hidden: None,
        no_display: None,
        kind: EntryKind::Application,
        command: Some("nautilus %U".to_string()),
        terminal: Some(false),
    }
}

#[test]
fn normalizes_a_plain_application() {
    let record = normalize_entry(&plain_entry(), Some("/icons/fm.svg".to_string())).unwrap();
    assert_eq!(record.name, "Files");
    assert_eq!(record.description.as_deref(), Some("Browse files"));
    assert_eq!(record.launch_command.as_deref(), Some("nautilus "));
    assert_eq!(record.icon_path.as_deref(), Some("/icons/fm.svg"));
    assert_eq!(record.type_file.as_deref(), Some("Application"));
    assert_eq!(record.terminal, Some(false));
}

#[test]
fn hidden_entry_yields_no_record() {
    let mut entry = plain_entry();
    entry.hidden = Some(true);
    assert!(normalize_entry(&entry, None).is_none());
}

#[test]
fn no_display_entry_yields_no_record() {
    let mut entry = plain_entry();
    entry.no_display = Some(true);
    assert!(normalize_entry(&entry, Some("/icons/fm.svg".to_string())).is_none());
}

#[test]
fn absent_launch_command_yields_no_record() {
    let mut entry = plain_entry();
    entry.command = None;
    assert!(normalize_entry(&entry, None).is_none());
}

#[test]
fn command_empty_after_stripping_yields_no_record() {
    let mut entry = plain_entry();
    entry.command = Some("%u%F".to_string());
    assert!(normalize_entry(&entry, None).is_none());
    entry.command = Some(String::new());
    assert!(normalize_entry(&entry, None).is_none());
    // One space survives stripping: the command is not empty, so it stays.
    entry.command = Some("%u %F".to_string());
    let record = normalize_entry(&entry, None).unwrap();
    assert_eq!(record.launch_command.as_deref(), Some(" "));
}

#[test]
fn non_application_kinds_yield_no_record() {
    for kind in [EntryKind::Link, EntryKind::Directory, EntryKind::Unknown] {
        let mut entry = plain_entry();
        entry.kind = kind;
        assert!(normalize_entry(&entry, None).is_none());
    }
}

#[test]
fn missing_description_and_icon_become_empty_not_absent() {
    let mut entry = plain_entry();
    entry.comment = None;
    entry.terminal = None;
    let record = normalize_entry(&entry, None).unwrap();
    assert_eq!(record.description.as_deref(), Some(""));
    assert_eq!(record.icon_path.as_deref(), Some(""));
    assert_eq!(record.terminal, Some(false));
}

#[test]
fn parses_a_desktop_entry_text() {
    let content = "[Desktop Entry]\n\
                   Type=Application\n\
                   Name=Sample App\n\
                   Comment=Does things\n\
                   Exec=sample %u --verbose %f\n\
                   Terminal=true\n";
    let record = parse_entry_content(content).unwrap();
    assert_eq!(record.name, "Sample App");
    assert_eq!(record.description.as_deref(), Some("Does things"));
    assert_eq!(record.launch_command.as_deref(), Some("sample  --verbose "));
    assert_eq!(record.type_file.as_deref(), Some("Application"));
    assert_eq!(record.terminal, Some(true));
}

#[test]
fn parses_hidden_entry_to_nothing() {
    let content = "[Desktop Entry]\n\
                   Type=Application\n\
                   Name=Shy App\n\
                   Exec=shy\n\
                   Hidden=true\n";
    assert!(parse_entry_content(content).is_none());
}

#[test]
fn unparseable_text_yields_no_record_and_no_panic() {
    assert!(parse_entry_content("not a desktop entry at all").is_none());
}

#[test]
fn link_entry_text_yields_no_record() {
    let content = "[Desktop Entry]\n\
                   Type=Link\n\
                   Name=A Link\n\
                   URL=https://example.org\n";
    assert!(parse_entry_content(content).is_none());
}

//! The desktop-entry normalizer: parse one desktop-entry text, apply the
//! visibility and launchability filters, strip the launch placeholders, and
//! build at most one application record from it.
//!
//! Parsing the desktop-entry grammar is delegated to its parser crate
//! behind one trusted call whose result is deterministic in the text alone;
//! every rule applied to the parsed fields is verified here.

use crate::icons::get_icon_path;
use crate::model::{AppList, AppListView};
use crate::text::{remove_all, trim, trimmed};
use freedesktop_file_parser::EntryType;
use vstd::prelude::*;
use vstd::string::*;

verus! {

/// The kind a desktop entry declares.
#[derive(Debug, Clone, Copy, PartialEq, Eq, Structural)]
pub enum EntryKind {
    Application,
    Link,
    Directory,
    Unknown,
}

/// The fields of one parsed desktop entry that normalization reads, as
/// plain values. `command` and `terminal` are the application fields; they
/// are absent for the other kinds.
#[derive(Debug, Clone)]
pub struct ParsedEntry {
    pub name: String,
    pub comment: Option<String>,
    pub icon: Option<String>,
    pub hidden: Option<bool>,
    pub no_display: Option<bool>,
    pub kind: EntryKind,
    pub command: Option<String>,
    pub terminal: Option<bool>,
}

/// The mathematical value of a `ParsedEntry`.
pub struct ParsedEntryView {
    pub name: Seq<char>,
    pub comment: Option<Seq<char>>,
    pub icon: Option<Seq<char>>,
    pub hidden: Option<bool>,
    pub no_display: Option<bool>,
    pub kind: EntryKind,
    pub command: Option<Seq<char>>,
    pub terminal: Option<bool>,
}

impl View for ParsedEntry {
    type V = ParsedEntryView;

    open spec fn view(&self) -> ParsedEntryView {
        ParsedEntryView {
            name: self.name@,
            comment: self.comment.deep_view(),
            icon: self.icon.deep_view(),
            hidden: self.hidden,
            no_display: self.no_display,
            kind: self.kind,
            command: self.command.deep_view(),
            terminal: self.terminal,
        }
    }
}

impl DeepView for ParsedEntry {
    type V = ParsedEntryView;

    open spec fn deep_view(&self) -> ParsedEntryView {
        self.view()
    }
}

/// What parsing a desktop-entry text yields. The parse is a function of the
/// text alone; this name stands for its result.
pub uninterp spec fn desktop_parse(content: Seq<char>) -> Option<ParsedEntry>;

/// Relies on freedesktop_file_parser::parse: deterministic in the given
/// text alone. On success the fields the normalizer reads are moved out one
/// for one; a text that does not parse yields nothing.
#[verifier::external_body]
fn parse_desktop(content: &str) -> (r: Option<ParsedEntry>)
    ensures
        r == desktop_parse(content@),
{
    let f = match freedesktop_file_parser::parse(content) { Ok(f) => f, Err(_) => return None };
    let e = f.entry;
    let (kind, command, terminal) = match e.entry_type {
        EntryType::Application(a) => (EntryKind::Application, a.exec, a.terminal),
        EntryType::Link(_) => (EntryKind::Link, None, None),
        EntryType::Directory => (EntryKind::Directory, None, None),
        EntryType::Unknown => (EntryKind::Unknown, None, None),
    };
    Some(ParsedEntry { name: e.name.default, comment: e.comment.map(|c| c.default),
        icon: e.icon.map(|i| i.content), hidden: e.hidden, no_display: e.no_display,
        kind, command, terminal })
}

/// The launch string with every placeholder occurrence removed, one
/// placeholder after the other in this fixed order.
pub open spec fn strip_placeholders_spec(s: Seq<char>) -> Seq<char> {
    remove_all(
        remove_all(
            remove_all(
                remove_all(remove_all(remove_all(remove_all(s, "%u"@), "%f"@), "%U"@), "%F"@),
                "%i"@,
            ),
            "%c"@,
        ),
        "%k"@,
    )
}

/// Remove every occurrence of the launch placeholders `%u`, `%f`, `%U`,
/// `%F`, `%i`, `%c`, `%k` from a launch string, spacing untouched.
pub fn strip_exec_placeholders(s: &str) -> (r: String)
    ensures
        r@ == strip_placeholders_spec(s@),
{
    proof {
        reveal_strlit("%u");
        reveal_strlit("%f");
        reveal_strlit("%U");
        reveal_strlit("%F");
        reveal_strlit("%i");
        reveal_strlit("%c");
        reveal_strlit("%k");
    }
    let r = crate::text::replace_remove(s, "%u");
    let r = crate::text::replace_remove(r.as_str(), "%f");
    let r = crate::text::replace_remove(r.as_str(), "%U");
    let r = crate::text::replace_remove(r.as_str(), "%F");
    let r = crate::text::replace_remove(r.as_str(), "%i");
    let r = crate::text::replace_remove(r.as_str(), "%c");
    let r = crate::text::replace_remove(r.as_str(), "%k");
    r
}

/// The icon token of a parsed entry: its icon text, trimmed; empty when the
/// entry names no icon.
pub open spec fn icon_token_spec(p: ParsedEntryView) -> Seq<char> {
    match p.icon {
        Some(ic) => trimmed(ic),
        None => Seq::empty(),
    }
}

/// Extract the icon token to resolve.
pub fn icon_token(entry: &ParsedEntry) -> (r: String)
    ensures
        r@ == icon_token_spec(entry@),
{
    match &entry.icon {
        Some(ic) => trim(ic.as_str()).to_owned(),
        None => String::new(),
    }
}

/// The normalization rule for one parsed entry, given what icon resolution
/// answered. An entry flagged hidden or no-display yields nothing; so does
/// any kind but an application; so does an entry whose launch command is
/// absent, or empty once the placeholders are stripped. Otherwise: one
/// record, with an empty text standing in for a missing description or an
/// unresolved icon, and a terminal flag that defaults to false.
pub open spec fn normalize_spec(p: ParsedEntryView, icon_path: Option<Seq<char>>) -> Option<
    AppListView,
> {
    if p.hidden == Some(true) || p.no_display == Some(true) {
        None
    } else if p.kind != EntryKind::Application {
        None
    } else {
        match p.command {
            Some(cmd) => {
                let stripped = strip_placeholders_spec(cmd);
                if stripped.len() == 0 {
                    None
                } else {
                    Some(
                        AppListView {
                            name: p.name,
                            description: Some(
                                match p.comment {
                                    Some(c) => c,
                                    None => Seq::empty(),
                                },
                            ),
                            launch_command: Some(stripped),
                            icon_path: Some(
                                match icon_path {
                                    Some(ip) => ip,
                                    None => Seq::empty(),
                                },
                            ),
                            type_file: Some("Application"@),
                            terminal: Some(
                                match p.terminal {
                                    Some(t) => t,
                                    None => false,
                                },
                            ),
                        },
                    )
                }
            },
            None => None,
        }
    }
}

/// Normalize one parsed entry into at most one record, with the icon
/// resolution's answer handed in.
pub fn normalize_entry(entry: &ParsedEntry, icon_path: Option<String>) -> (r: Option<AppList>)
    ensures
        r.deep_view() == normalize_spec(entry@, icon_path.deep_view()),
{
    if matches!(entry.hidden, Some(true)) || matches!(entry.no_display, Some(true)) {
        return None;
    }
    if entry.kind != EntryKind::Application {
        return None;
    }
    match &entry.command {
        Some(cmd) => {
            let stripped = strip_exec_placeholders(cmd.as_str());
            if stripped.as_str().is_empty() {
                None
            } else {
                Some(
                    AppList {
                        name: entry.name.clone(),
                        description: Some(
                            match &entry.comment {
                                Some(c) => c.clone(),
                                None => String::new(),
                            },
                        ),
                        launch_command: Some(stripped),
                        icon_path: Some(
                            match icon_path {
                                Some(ip) => ip,
                                None => String::new(),
                            },
                        ),
                        type_file: Some("Application".to_owned()),
                        terminal: Some(
                            match entry.terminal {
                                Some(t) => t,
                                None => false,
                            },
                        ),
                    },
                )
            }
        },
        None => None,
    }
}

/// Parse one desktop-entry text and normalize it: at most one record. The
/// icon path inside the record is whatever the filesystem-dependent icon
/// resolution answered for the entry's icon token; every other field is
/// pinned by the parse of the text alone.
pub fn parse_entry_content(content: &str) -> (r: Option<AppList>)
    ensures
        match desktop_parse(content@) {
            Some(p) => exists|ip: Option<Seq<char>>| r.deep_view() == normalize_spec(p@, ip),
            None => r.deep_view() == None::<AppListView>,
        },
{
    match parse_desktop(content) {
        None => None,
        Some(entry) => {
            let token = icon_token(&entry);
            let icon_path = get_icon_path(token.as_str());
            let ghost ip = icon_path.deep_view();
            let r = normalize_entry(&entry, icon_path);
            proof {
                assert(r.deep_view() == normalize_spec(entry@, ip));
            }
            r
        },
    }
}

/// The records of a batch of desktop-entry texts, in order, given one icon
/// answer per text: each text contributes its normalized record, or nothing
/// when it does not parse or the filters drop it.
pub open spec fn normalized_records(
    contents: Seq<Seq<char>>,
    icons: Seq<Option<Seq<char>>>,
) -> Seq<AppListView>
    decreases contents.len(),
{
    if contents.len() == 0 {
        Seq::empty()
    } else {
        normalized_records(contents.drop_last(), icons.drop_last()) + (
        match desktop_parse(contents.last()) {
            Some(p) => match normalize_spec(p@, icons.last()) {
                Some(a) => seq![a],
                None => Seq::empty(),
            },
            None => Seq::empty(),
        })
    }
}

/// Normalize a whole batch of desktop-entry texts. The shell reads each
/// candidate file and hands the texts in; a file whose text does not parse
/// or whose entry the filters drop contributes nothing, and never aborts
/// the batch. The records are exactly the batch rule applied to every text,
/// with one filesystem-dependent icon answer per text.
pub fn parse_data(contents: &Vec<String>) -> (r: Vec<AppList>)
    ensures
        exists|icons: Seq<Option<Seq<char>>>|
            icons.len() == contents@.len() && r.deep_view() == normalized_records(
                contents.deep_view(),
                icons,
            ),
{
    let mut out: Vec<AppList> = Vec::new();
    let ghost mut icons: Seq<Option<Seq<char>>> = Seq::empty();
    let mut i: usize = 0;
    proof {
        assert(contents.deep_view().take(0) =~= Seq::<Seq<char>>::empty());
    }
    while i < contents.len()
        invariant
            i <= contents@.len(),
            contents.deep_view().len() == contents@.len(),
            icons.len() == i,
            out.deep_view() == normalized_records(contents.deep_view().take(i as int), icons),
        decreases contents@.len() - i,
    {
        let ghost prev = out.deep_view();
        let ghost prev_icons = icons;
        let app = parse_entry_content(contents[i].as_str());
        proof {
            assert(contents.deep_view()[i as int] == contents@[i as int]@);
        }
        match app {
            Some(record) => {
                proof {
                    let p = desktop_parse(contents.deep_view()[i as int]).unwrap();
                    let ip = choose|ip: Option<Seq<char>>|
                        app.deep_view() == normalize_spec(p@, ip);
                    icons = icons.push(ip);
                }
                out.push(record);
                proof {
                    assert(out.deep_view() =~= prev + seq![out.deep_view()[prev.len() as int]]);
                }
            },
            None => {
                proof {
                    if desktop_parse(contents.deep_view()[i as int]) is Some {
                        let p = desktop_parse(contents.deep_view()[i as int]).unwrap();
                        let ip = choose|ip: Option<Seq<char>>|
                            app.deep_view() == normalize_spec(p@, ip);
                        icons = icons.push(ip);
                    } else {
                        icons = icons.push(None);
                    }
                    assert(out.deep_view() =~= prev + Seq::<AppListView>::empty());
                }
            },
        }
        proof {
            assert(contents.deep_view().take(i + 1).drop_last() =~= contents.deep_view().take(
                i as int,
            ));
            assert(contents.deep_view().take(i + 1).last() == contents.deep_view()[i as int]);
            assert(icons.drop_last() =~= prev_icons);
        }
        i += 1;
    }
    proof {
        assert(contents.deep_view().take(contents@.len() as int) =~= contents.deep_view());
    }
    out
}

/// Law: the visibility filter. An entry flagged hidden or no-display never
/// yields a record, whatever its other fields and whatever icon resolution
/// answered.
pub proof fn lemma_hidden_never_listed(p: ParsedEntryView, icon_path: Option<Seq<char>>)
    requires
        p.hidden == Some(true) || p.no_display == Some(true),
    ensures
        normalize_spec(p, icon_path) is None,
{
}

/// Law: the launchability filter. An entry with no launch command, or whose
/// launch command is empty once the placeholders are stripped, never yields
/// a record.
pub proof fn lemma_unlaunchable_never_listed(p: ParsedEntryView, icon_path: Option<Seq<char>>)
    requires
        p.command is None || strip_placeholders_spec(p.command.unwrap()).len() == 0,
    ensures
        normalize_spec(p, icon_path) is None,
{
}

} // verus!

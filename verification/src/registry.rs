//! The registry-based collector: classify uninstall subkeys, exclude system
//! components and OS updates, resolve installer products, and normalize the
//! survivors into application records.
//!
//! A subkey is modeled as its name plus the typed attributes the collector
//! reads, with get-or-default semantics; the shell that talks to the host
//! registry hands these in as plain values, so the whole rule set here is
//! verified and can be exercised against an in-memory store.

use crate::model::{AppList, AppListView};
use crate::text::{find_char, find_first, is_digit_char, lemma_find_char_bounds, str_eq};
use vstd::prelude::*;
use vstd::string::*;

verus! {

/// One typed registry attribute value: a number or a text.
/// Reading an attribute at the other type yields the default, as a typed
/// registry read does.
#[derive(Debug, Clone)]
pub enum AttrValue {
    Num(u32),
    Text(String),
}

/// The mathematical value of an `AttrValue`.
pub enum AttrValueView {
    Num(u32),
    Text(Seq<char>),
}

impl View for AttrValue {
    type V = AttrValueView;

    open spec fn view(&self) -> AttrValueView {
        match self {
            AttrValue::Num(v) => AttrValueView::Num(*v),
            AttrValue::Text(t) => AttrValueView::Text(t@),
        }
    }
}

impl DeepView for AttrValue {
    type V = AttrValueView;

    open spec fn deep_view(&self) -> AttrValueView {
        self.view()
    }
}

/// One raw uninstall subkey: its key name and its attributes.
#[derive(Debug, Clone)]
pub struct RawSubkey {
    pub name: String,
    pub attrs: Vec<(String, AttrValue)>,
}

/// The mathematical value of a `RawSubkey`.
pub struct RawSubkeyView {
    pub name: Seq<char>,
    pub attrs: Seq<(Seq<char>, AttrValueView)>,
}

impl View for RawSubkey {
    type V = RawSubkeyView;

    open spec fn view(&self) -> RawSubkeyView {
        RawSubkeyView { name: self.name@, attrs: self.attrs.deep_view() }
    }
}

impl DeepView for RawSubkey {
    type V = RawSubkeyView;

    open spec fn deep_view(&self) -> RawSubkeyView {
        self.view()
    }
}

/// One entry of the installer-products table, keyed by the uninstall
/// subkey's own name.
#[derive(Debug, Clone)]
pub struct ProductEntry {
    pub key: String,
    pub name: String,
    pub icon: String,
}

/// The mathematical value of a `ProductEntry`.
pub struct ProductEntryView {
    pub key: Seq<char>,
    pub name: Seq<char>,
    pub icon: Seq<char>,
}

impl View for ProductEntry {
    type V = ProductEntryView;

    open spec fn view(&self) -> ProductEntryView {
        ProductEntryView { key: self.key@, name: self.name@, icon: self.icon@ }
    }
}

impl DeepView for ProductEntry {
    type V = ProductEntryView;

    open spec fn deep_view(&self) -> ProductEntryView {
        self.view()
    }
}

/// The three kinds a subkey classifies into.
#[derive(Debug, Clone, Copy, PartialEq, Eq, Structural)]
pub enum SoftwareType {
    Regular,
    SystemComponent,
    WindowsInstaller,
}

/// One classified installed program, before it becomes a record.
#[derive(Debug, Clone)]
pub struct Software {
    pub name: String,
    pub version: String,
    pub install_location: String,
    pub icon: String,
    pub software_type: SoftwareType,
}

/// The mathematical value of a `Software`.
pub struct SoftwareView {
    pub name: Seq<char>,
    pub version: Seq<char>,
    pub install_location: Seq<char>,
    pub icon: Seq<char>,
    pub software_type: SoftwareType,
}

impl View for Software {
    type V = SoftwareView;

    open spec fn view(&self) -> SoftwareView {
        SoftwareView {
            name: self.name@,
            version: self.version@,
            install_location: self.install_location@,
            icon: self.icon@,
            software_type: self.software_type,
        }
    }
}

impl DeepView for Software {
    type V = SoftwareView;

    open spec fn deep_view(&self) -> SoftwareView {
        self.view()
    }
}

/// The fixed registry roots: the machine-wide uninstall keys (native and
/// 32-bit views) and the current user's, each as one textual path with its
/// hive spelled out.
pub open spec fn fixed_registry_roots() -> Seq<Seq<char>> {
    seq![
        "HKEY_LOCAL_MACHINE\\SOFTWARE\\Microsoft\\Windows\\CurrentVersion\\Uninstall"@,
        "HKEY_LOCAL_MACHINE\\SOFTWARE\\WOW6432Node\\Microsoft\\Windows\\CurrentVersion\\Uninstall"@,
        "HKEY_CURRENT_USER\\SOFTWARE\\Microsoft\\Windows\\CurrentVersion\\Uninstall"@,
    ]
}

/// The uninstall key of one user profile, under the users hive.
pub open spec fn user_root_path(sid: Seq<char>) -> Seq<char> {
    "HKEY_USERS\\"@ + sid + "\\Software\\Microsoft\\Windows\\CurrentVersion\\Uninstall"@
}

/// One derived root per known user profile, in profile order.
pub open spec fn user_root_paths(user_sids: Seq<Seq<char>>) -> Seq<Seq<char>>
    decreases user_sids.len(),
{
    if user_sids.len() == 0 {
        Seq::empty()
    } else {
        user_root_paths(user_sids.drop_last()).push(user_root_path(user_sids.last()))
    }
}

/// The registry locator's answer: the fixed machine-wide and current-user
/// roots, then one root per enumerated user profile, in order.
pub open spec fn registry_roots_spec(user_sids: Seq<Seq<char>>) -> Seq<Seq<char>> {
    fixed_registry_roots() + user_root_paths(user_sids)
}

/// Compute the registry roots to scan: the fixed roots, then one per user
/// profile. The shell enumerates the profiles under the users hive and
/// hands their identifiers in.
pub fn registry_uninstall_roots(user_sids: &Vec<String>) -> (r: Vec<String>)
    ensures
        r.deep_view() == registry_roots_spec(user_sids.deep_view()),
{
    let mut roots: Vec<String> = Vec::new();
    roots.push("HKEY_LOCAL_MACHINE\\SOFTWARE\\Microsoft\\Windows\\CurrentVersion\\Uninstall".to_owned());
    roots.push(
        "HKEY_LOCAL_MACHINE\\SOFTWARE\\WOW6432Node\\Microsoft\\Windows\\CurrentVersion\\Uninstall".to_owned(),
    );
    roots.push("HKEY_CURRENT_USER\\SOFTWARE\\Microsoft\\Windows\\CurrentVersion\\Uninstall".to_owned());
    let ghost head = roots.deep_view();
    let mut i: usize = 0;
    proof {
        assert(head =~= fixed_registry_roots());
        assert(user_sids.deep_view().take(0) =~= Seq::<Seq<char>>::empty());
        assert(roots.deep_view() =~= head + user_root_paths(user_sids.deep_view().take(0)));
    }
    while i < user_sids.len()
        invariant
            i <= user_sids@.len(),
            user_sids.deep_view().len() == user_sids@.len(),
            head == fixed_registry_roots(),
            roots.deep_view() == head + user_root_paths(user_sids.deep_view().take(i as int)),
        decreases user_sids@.len() - i,
    {
        let ghost prev = roots.deep_view();
        let mut root = "HKEY_USERS\\".to_owned();
        root.append(user_sids[i].as_str());
        root.append("\\Software\\Microsoft\\Windows\\CurrentVersion\\Uninstall");
        proof {
            assert(root@ == user_root_path(user_sids.deep_view()[i as int]));
            assert(user_sids.deep_view().take(i + 1).drop_last() =~= user_sids.deep_view().take(
                i as int,
            ));
            assert(user_sids.deep_view().take(i + 1).last() == user_sids.deep_view()[i as int]);
        }
        roots.push(root);
        proof {
            assert(roots.deep_view() =~= prev.push(user_root_path(
                user_sids.deep_view()[i as int],
            )));
        }
        i += 1;
    }
    proof {
        assert(user_sids.deep_view().take(user_sids@.len() as int) =~= user_sids.deep_view());
    }
    roots
}

/// The numeric attribute under `key`, or 0 when it is absent or textual.
pub open spec fn attr_u32(attrs: Seq<(Seq<char>, AttrValueView)>, key: Seq<char>) -> u32
    decreases attrs.len(),
{
    if attrs.len() == 0 {
        0
    } else if attrs[0].0 == key {
        match attrs[0].1 {
            AttrValueView::Num(v) => v,
            AttrValueView::Text(_) => 0,
        }
    } else {
        attr_u32(attrs.drop_first(), key)
    }
}

/// The text attribute under `key`, or the empty text when it is absent or
/// numeric.
pub open spec fn attr_text(attrs: Seq<(Seq<char>, AttrValueView)>, key: Seq<char>) -> Seq<char>
    decreases attrs.len(),
{
    if attrs.len() == 0 {
        Seq::empty()
    } else if attrs[0].0 == key {
        match attrs[0].1 {
            AttrValueView::Num(_) => Seq::empty(),
            AttrValueView::Text(t) => t,
        }
    } else {
        attr_text(attrs.drop_first(), key)
    }
}

/// Read a numeric attribute with get-or-default semantics.
pub fn get_u32(attrs: &Vec<(String, AttrValue)>, key: &str) -> (r: u32)
    ensures
        r == attr_u32(attrs.deep_view(), key@),
{
    let mut i: usize = 0;
    proof {
        assert(attrs.deep_view().skip(0) =~= attrs.deep_view());
    }
    while i < attrs.len()
        invariant
            i <= attrs@.len(),
            attrs.deep_view().len() == attrs@.len(),
            attr_u32(attrs.deep_view().skip(i as int), key@) == attr_u32(attrs.deep_view(), key@),
        decreases attrs@.len() - i,
    {
        proof {
            assert(attrs.deep_view().skip(i as int)[0] == attrs.deep_view()[i as int]);
            assert(attrs.deep_view().skip(i as int).drop_first() =~= attrs.deep_view().skip(
                i + 1,
            ));
        }
        if str_eq(attrs[i].0.as_str(), key) {
            match &attrs[i].1 {
                AttrValue::Num(v) => {
                    return *v;
                },
                AttrValue::Text(_) => {
                    return 0;
                },
            }
        }
        i += 1;
    }
    0
}

/// Read a text attribute with get-or-default semantics.
pub fn get_text(attrs: &Vec<(String, AttrValue)>, key: &str) -> (r: String)
    ensures
        r@ == attr_text(attrs.deep_view(), key@),
{
    let mut i: usize = 0;
    proof {
        assert(attrs.deep_view().skip(0) =~= attrs.deep_view());
    }
    while i < attrs.len()
        invariant
            i <= attrs@.len(),
            attrs.deep_view().len() == attrs@.len(),
            attr_text(attrs.deep_view().skip(i as int), key@) == attr_text(attrs.deep_view(), key@),
        decreases attrs@.len() - i,
    {
        proof {
            assert(attrs.deep_view().skip(i as int)[0] == attrs.deep_view()[i as int]);
            assert(attrs.deep_view().skip(i as int).drop_first() =~= attrs.deep_view().skip(
                i + 1,
            ));
        }
        if str_eq(attrs[i].0.as_str(), key) {
            match &attrs[i].1 {
                AttrValue::Num(_) => {
                    return String::new();
                },
                AttrValue::Text(t) => {
                    return t.clone();
                },
            }
        }
        i += 1;
    }
    String::new()
}

/// The subkey's classification, from its two boolean-like flags.
pub open spec fn software_type_of(sk: RawSubkeyView) -> SoftwareType {
    if attr_u32(sk.attrs, "SystemComponent"@) == 1 {
        SoftwareType::SystemComponent
    } else if attr_u32(sk.attrs, "WindowsInstaller"@) == 1 {
        SoftwareType::WindowsInstaller
    } else {
        SoftwareType::Regular
    }
}

/// The name ends in `KB` followed by six decimal digits: the shape of an
/// OS-update subkey name.
pub open spec fn is_kb_update_name(s: Seq<char>) -> bool {
    &&& s.len() >= 8
    &&& s[s.len() - 8] == 'K'
    &&& s[s.len() - 7] == 'B'
    &&& forall|i: int| s.len() - 6 <= i < s.len() ==> is_digit_char(#[trigger] s[i])
}

/// Test a subkey name for the OS-update shape: `KB` plus six decimal
/// digits, at the very end.
fn ends_in_kb_update(name: &str) -> (r: bool)
    ensures
        r == is_kb_update_name(name@),
{
    let n = name.unicode_len();
    if n < 8 {
        return false;
    }
    if name.get_char(n - 8) != 'K' || name.get_char(n - 7) != 'B' {
        return false;
    }
    let mut k: usize = 0;
    while k < 6
        invariant
            n == name@.len(),
            n >= 8,
            k <= 6,
            forall|j: int| 0 <= j < k ==> is_digit_char(#[trigger] name@[n - 6 + j]),
        decreases 6 - k,
    {
        let c = name.get_char(n - 6 + k);
        if !('0' <= c && c <= '9') {
            return false;
        }
        k += 1;
    }
    proof {
        assert forall|i: int| n - 6 <= i < n implies is_digit_char(#[trigger] name@[i]) by {
            assert(is_digit_char(name@[n - 6 + (i - (n - 6))]));
        }
    }
    true
}

/// One of the release-type strings that mark an OS update.
pub open spec fn update_release_type(t: Seq<char>) -> bool {
    t == "Security Update"@ || t == "Update Rollup"@ || t == "Hotfix"@
}

/// The update-exclusion rule: a subkey counts as an OS update when its name
/// has the `KB` shape, or it declares a parent key, or its release type is
/// one of the update categories.
pub open spec fn is_update_subkey(sk: RawSubkeyView) -> bool {
    ||| is_kb_update_name(sk.name)
    ||| attr_text(sk.attrs, "ParentKeyName"@).len() > 0
    ||| update_release_type(attr_text(sk.attrs, "ReleaseType"@))
}

/// The installer-products table entry under `key`: its name and icon, or
/// empty texts when the key is absent.
pub open spec fn product_lookup(products: Seq<ProductEntryView>, key: Seq<char>) -> (Seq<
    char,
>, Seq<char>)
    decreases products.len(),
{
    if products.len() == 0 {
        (Seq::empty(), Seq::empty())
    } else if products[0].key == key {
        (products[0].name, products[0].icon)
    } else {
        product_lookup(products.drop_first(), key)
    }
}

/// Look a subkey name up in the installer-products table.
pub fn lookup_product(products: &Vec<ProductEntry>, key: &str) -> (r: (String, String))
    ensures
        r.deep_view() == product_lookup(products.deep_view(), key@),
{
    let mut i: usize = 0;
    proof {
        assert(products.deep_view().skip(0) =~= products.deep_view());
    }
    while i < products.len()
        invariant
            i <= products@.len(),
            products.deep_view().len() == products@.len(),
            product_lookup(products.deep_view().skip(i as int), key@) == product_lookup(
                products.deep_view(),
                key@,
            ),
        decreases products@.len() - i,
    {
        proof {
            assert(products.deep_view().skip(i as int)[0] == products.deep_view()[i as int]);
            assert(products.deep_view().skip(i as int).drop_first() =~= products.deep_view().skip(
                i + 1,
            ));
        }
        if str_eq(products[i].key.as_str(), key) {
            return (products[i].name.clone(), products[i].icon.clone());
        }
        i += 1;
    }
    (String::new(), String::new())
}

/// What a subkey yields once system components and excluded updates are
/// already out: a Regular entry needs a non-empty uninstall command and a
/// non-empty name; a WindowsInstaller entry resolves name and icon through
/// the products table first and falls back to its own attributes, and needs
/// a name from one of the two.
pub open spec fn record_of(sk: RawSubkeyView, products: Seq<ProductEntryView>) -> Option<
    SoftwareView,
> {
    let version = attr_text(sk.attrs, "DisplayVersion"@);
    let install_location = attr_text(sk.attrs, "InstallLocation"@);
    if software_type_of(sk) == SoftwareType::Regular {
        let name = attr_text(sk.attrs, "DisplayName"@);
        if attr_text(sk.attrs, "UninstallString"@).len() > 0 && name.len() > 0 {
            Some(
                SoftwareView {
                    name,
                    version,
                    install_location,
                    icon: attr_text(sk.attrs, "DisplayIcon"@),
                    software_type: SoftwareType::Regular,
                },
            )
        } else {
            None
        }
    } else {
        let looked = product_lookup(products, sk.name);
        let name = if looked.0.len() > 0 {
            looked.0
        } else {
            attr_text(sk.attrs, "DisplayName"@)
        };
        let icon = if looked.1.len() > 0 {
            looked.1
        } else {
            attr_text(sk.attrs, "DisplayIcon"@)
        };
        if name.len() > 0 {
            Some(
                SoftwareView {
                    name,
                    version,
                    install_location,
                    icon,
                    software_type: SoftwareType::WindowsInstaller,
                },
            )
        } else {
            None
        }
    }
}

/// The whole per-subkey rule: drop system components outright, drop updates
/// unless they are asked for, then apply the per-kind record rule.
pub open spec fn subkey_record(
    sk: RawSubkeyView,
    products: Seq<ProductEntryView>,
    include_updates: bool,
) -> Option<SoftwareView> {
    if software_type_of(sk) == SoftwareType::SystemComponent {
        None
    } else if is_update_subkey(sk) && !include_updates {
        None
    } else {
        record_of(sk, products)
    }
}

/// Every record the subkeys yield, in subkey order.
pub open spec fn collected_programs(
    subkeys: Seq<RawSubkeyView>,
    products: Seq<ProductEntryView>,
    include_updates: bool,
) -> Seq<SoftwareView>
    decreases subkeys.len(),
{
    if subkeys.len() == 0 {
        Seq::empty()
    } else {
        collected_programs(subkeys.drop_last(), products, include_updates) + (
        match subkey_record(subkeys.last(), products, include_updates) {
            Some(s) => seq![s],
            None => Seq::empty(),
        })
    }
}

/// Classify one subkey and build its program entry, if it yields one.
fn classify_subkey(sk: &RawSubkey, products: &Vec<ProductEntry>, include_updates: bool) -> (r:
    Option<Software>)
    ensures
        r.deep_view() == subkey_record(sk@, products.deep_view(), include_updates),
{
    if get_u32(&sk.attrs, "SystemComponent") == 1 {
        return None;
    }
    let is_update = ends_in_kb_update(sk.name.as_str()) || !get_text(
        &sk.attrs,
        "ParentKeyName",
    ).as_str().is_empty() || {
        let release_type = get_text(&sk.attrs, "ReleaseType");
        str_eq(release_type.as_str(), "Security Update") || str_eq(
            release_type.as_str(),
            "Update Rollup",
        ) || str_eq(release_type.as_str(), "Hotfix")
    };
    if is_update && !include_updates {
        return None;
    }
    let version = get_text(&sk.attrs, "DisplayVersion");
    let install_location = get_text(&sk.attrs, "InstallLocation");
    if get_u32(&sk.attrs, "WindowsInstaller") != 1 {
        let name = get_text(&sk.attrs, "DisplayName");
        let uninstall = get_text(&sk.attrs, "UninstallString");
        if !uninstall.as_str().is_empty() && !name.as_str().is_empty() {
            Some(
                Software {
                    name,
                    version,
                    install_location,
                    icon: get_text(&sk.attrs, "DisplayIcon"),
                    software_type: SoftwareType::Regular,
                },
            )
        } else {
            None
        }
    } else {
        let looked = lookup_product(products, sk.name.as_str());
        let name = if !looked.0.as_str().is_empty() {
            looked.0
        } else {
            get_text(&sk.attrs, "DisplayName")
        };
        let icon = if !looked.1.as_str().is_empty() {
            looked.1
        } else {
            get_text(&sk.attrs, "DisplayIcon")
        };
        if !name.as_str().is_empty() {
            Some(
                Software {
                    name,
                    version,
                    install_location,
                    icon,
                    software_type: SoftwareType::WindowsInstaller,
                },
            )
        } else {
            None
        }
    }
}

/// Walk the subkeys of one uninstall root and collect every installed
/// program they describe, applying the classification, update-exclusion and
/// name rules to each.
pub fn get_uninstall_key_programs(
    subkeys: &Vec<RawSubkey>,
    products: &Vec<ProductEntry>,
    include_updates: bool,
) -> (r: Vec<Software>)
    ensures
        r.deep_view() == collected_programs(
            subkeys.deep_view(),
            products.deep_view(),
            include_updates,
        ),
{
    let mut out: Vec<Software> = Vec::new();
    let mut i: usize = 0;
    proof {
        assert(subkeys.deep_view().take(0) =~= Seq::<RawSubkeyView>::empty());
        assert(out.deep_view() =~= collected_programs(
            subkeys.deep_view().take(0),
            products.deep_view(),
            include_updates,
        ));
    }
    while i < subkeys.len()
        invariant
            i <= subkeys@.len(),
            subkeys.deep_view().len() == subkeys@.len(),
            out.deep_view() == collected_programs(
                subkeys.deep_view().take(i as int),
                products.deep_view(),
                include_updates,
            ),
        decreases subkeys@.len() - i,
    {
        let ghost prev = out.deep_view();
        let record = classify_subkey(&subkeys[i], products, include_updates);
        proof {
            assert(subkeys.deep_view()[i as int] == subkeys@[i as int]@);
            assert(subkeys.deep_view().take(i + 1).drop_last() =~= subkeys.deep_view().take(
                i as int,
            ));
            assert(subkeys.deep_view().take(i + 1).last() == subkeys.deep_view()[i as int]);
        }
        match record {
            Some(program) => {
                out.push(program);
                proof {
                    assert(out.deep_view() =~= prev + seq![out.deep_view()[prev.len() as int]]);
                }
            },
            None => {
                proof {
                    assert(out.deep_view() =~= prev + Seq::<SoftwareView>::empty());
                }
            },
        }
        i += 1;
    }
    proof {
        assert(subkeys.deep_view().take(subkeys@.len() as int) =~= subkeys.deep_view());
    }
    out
}

/// The icon path without a trailing `,<index>` resource suffix: the text
/// before the first comma, or the whole text when there is none.
pub open spec fn icon_without_index(icon: Seq<char>) -> Seq<char> {
    match find_char(icon, ',') {
        Some(i) => icon.subrange(0, i),
        None => icon,
    }
}

/// Strip a trailing `,<index>` resource suffix from an icon path.
pub fn strip_icon_index(icon: &str) -> (r: String)
    ensures
        r@ == icon_without_index(icon@),
{
    proof {
        lemma_find_char_bounds(icon@, ',');
    }
    match find_first(icon, ',') {
        Some(i) => icon.substring_char(0, i).to_owned(),
        None => icon.to_owned(),
    }
}

/// What one classified program contributes to the record list: nothing when
/// its install location is empty (not a genuinely installed, launchable
/// program); otherwise a record named after it, whose launch command and
/// icon path are both its icon path without the resource-index suffix.
pub open spec fn app_of_software(s: SoftwareView) -> Option<AppListView> {
    if s.install_location.len() > 0 {
        Some(
            AppListView {
                name: s.name,
                description: None,
                launch_command: Some(icon_without_index(s.icon)),
                icon_path: Some(icon_without_index(s.icon)),
                type_file: Some("Application"@),
                terminal: Some(false),
            },
        )
    } else {
        None
    }
}

/// The records of a whole program list, in order.
pub open spec fn windows_apps_spec(programs: Seq<SoftwareView>) -> Seq<AppListView>
    decreases programs.len(),
{
    if programs.len() == 0 {
        Seq::empty()
    } else {
        windows_apps_spec(programs.drop_last()) + (match app_of_software(programs.last()) {
            Some(a) => seq![a],
            None => Seq::empty(),
        })
    }
}

/// Turn the classified programs into application records: drop those
/// without an install location, strip the icon's resource-index suffix, and
/// tag each record as an application without a terminal.
pub fn get_windows_apps(programs: Vec<Software>) -> (r: Vec<AppList>)
    ensures
        r.deep_view() == windows_apps_spec(programs.deep_view()),
{
    let mut out: Vec<AppList> = Vec::new();
    let mut i: usize = 0;
    proof {
        assert(programs.deep_view().take(0) =~= Seq::<SoftwareView>::empty());
        assert(out.deep_view() =~= windows_apps_spec(programs.deep_view().take(0)));
    }
    while i < programs.len()
        invariant
            i <= programs@.len(),
            programs.deep_view().len() == programs@.len(),
            out.deep_view() == windows_apps_spec(programs.deep_view().take(i as int)),
        decreases programs@.len() - i,
    {
        let ghost prev = out.deep_view();
        proof {
            assert(programs.deep_view()[i as int] == programs@[i as int]@);
            assert(programs.deep_view().take(i + 1).drop_last() =~= programs.deep_view().take(
                i as int,
            ));
            assert(programs.deep_view().take(i + 1).last() == programs.deep_view()[i as int]);
        }
        let program = &programs[i];
        if !program.install_location.as_str().is_empty() {
            let path = strip_icon_index(program.icon.as_str());
            out.push(
                AppList {
                    name: program.name.clone(),
                    description: None,
                    launch_command: Some(path.clone()),
                    icon_path: Some(path),
                    type_file: Some("Application".to_owned()),
                    terminal: Some(false),
                },
            );
            proof {
                assert(out.deep_view() =~= prev + seq![out.deep_view()[prev.len() as int]]);
                assert(out.deep_view()[prev.len() as int] == app_of_software(
                    programs.deep_view()[i as int],
                ).unwrap());
            }
        } else {
            proof {
                assert(out.deep_view() =~= prev + Seq::<AppListView>::empty());
            }
        }
        i += 1;
    }
    proof {
        assert(programs.deep_view().take(programs@.len() as int) =~= programs.deep_view());
    }
    out
}

/// Law: a subkey whose SystemComponent flag is set yields no record,
/// whatever its other attributes and whether or not updates are included.
pub proof fn lemma_system_component_excluded(
    sk: RawSubkeyView,
    products: Seq<ProductEntryView>,
    include_updates: bool,
)
    requires
        attr_u32(sk.attrs, "SystemComponent"@) == 1,
    ensures
        subkey_record(sk, products, include_updates) is None,
{
}

/// Law: update exclusion. A subkey whose name ends in `KB` plus six digits
/// is dropped when updates are excluded; when they are included, the update
/// rule plays no part and the outcome is the plain per-kind record rule.
pub proof fn lemma_update_exclusion(sk: RawSubkeyView, products: Seq<ProductEntryView>)
    requires
        is_kb_update_name(sk.name),
    ensures
        subkey_record(sk, products, false) is None,
        subkey_record(sk, products, true) == (if software_type_of(sk)
            == SoftwareType::SystemComponent {
            None
        } else {
            record_of(sk, products)
        }),
{
}

} // verus!

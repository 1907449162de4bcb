//! The icon resolver: turn a textual icon token into a concrete file path
//! through a deterministic, ordered fallback search — first a direct probe
//! of the default theme's files, then indexed lookups across named themes,
//! then the token's `-symbolic` variant, then one generic fallback. First
//! success wins and no further step is attempted.
//!
//! What each probe answers depends on the filesystem, so the probes stand
//! behind trusted calls that promise nothing; the plan that orders them and
//! the first-success rule are verified exactly.

use vstd::prelude::*;
use vstd::string::*;

verus! {

/// One step of the fallback search.
#[derive(Debug, Clone)]
pub enum IconProbe {
    /// Test a literal file path for existence.
    Direct { path: String },
    /// Look the name up in one named theme at one size.
    Themed { name: String, theme: String, size: u16 },
    /// Look the name up in the default theme at one size.
    Plain { name: String, size: u16 },
}

/// The mathematical value of an `IconProbe`.
#[verifier::ext_equal]
pub enum IconProbeView {
    Direct { path: Seq<char> },
    Themed { name: Seq<char>, theme: Seq<char>, size: u16 },
    Plain { name: Seq<char>, size: u16 },
}

impl View for IconProbe {
    type V = IconProbeView;

    open spec fn view(&self) -> IconProbeView {
        match self {
            IconProbe::Direct { path } => IconProbeView::Direct { path: path@ },
            IconProbe::Themed { name, theme, size } => IconProbeView::Themed {
                name: name@,
                theme: theme@,
                size: *size,
            },
            IconProbe::Plain { name, size } => IconProbeView::Plain { name: name@, size: *size },
        }
    }
}

impl DeepView for IconProbe {
    type V = IconProbeView;

    open spec fn deep_view(&self) -> IconProbeView {
        self.view()
    }
}

/// The file the direct probe tests: the default theme's "apps" category at
/// one pixel size.
pub open spec fn direct_probe_path(size_label: Seq<char>, name: Seq<char>) -> Seq<char> {
    "/usr/share/icons/breeze/apps/"@ + size_label + "/"@ + name + ".svg"@
}

/// Build the direct probe's path.
fn direct_path(size_label: &str, name: &str) -> (r: String)
    ensures
        r@ == direct_probe_path(size_label@, name@),
{
    let mut s = "/usr/share/icons/breeze/apps/".to_owned();
    s.append(size_label);
    s.append("/");
    s.append(name);
    s.append(".svg");
    s
}

/// The whole ordered fallback plan for one icon token: direct probes at the
/// small fixed sizes from largest down, then each named fallback theme at
/// each size from largest down, then the `-symbolic` variant once, then the
/// generic executable icon once, last.
pub open spec fn icon_probe_plan_spec(name: Seq<char>) -> Seq<IconProbeView> {
    seq![
        IconProbeView::Direct { path: direct_probe_path("64"@, name) },
        IconProbeView::Direct { path: direct_probe_path("48"@, name) },
        IconProbeView::Direct { path: direct_probe_path("32"@, name) },
        IconProbeView::Themed { name, theme: "Breeze"@, size: 64u16 },
        IconProbeView::Themed { name, theme: "Breeze"@, size: 48u16 },
        IconProbeView::Themed { name, theme: "Breeze"@, size: 32u16 },
        IconProbeView::Themed { name, theme: "Papirus"@, size: 64u16 },
        IconProbeView::Themed { name, theme: "Papirus"@, size: 48u16 },
        IconProbeView::Themed { name, theme: "Papirus"@, size: 32u16 },
        IconProbeView::Themed { name, theme: "Adwaita"@, size: 64u16 },
        IconProbeView::Themed { name, theme: "Adwaita"@, size: 48u16 },
        IconProbeView::Themed { name, theme: "Adwaita"@, size: 32u16 },
        IconProbeView::Plain { name: name + "-symbolic"@, size: 32u16 },
        IconProbeView::Plain { name: "application-x-executable"@, size: 48u16 },
    ]
}

/// Build the fallback plan for one icon token.
pub fn icon_probe_plan(name: &str) -> (r: Vec<IconProbe>)
    ensures
        r.deep_view() == icon_probe_plan_spec(name@),
{
    let mut plan: Vec<IconProbe> = Vec::new();
    plan.push(IconProbe::Direct { path: direct_path("64", name) });
    plan.push(IconProbe::Direct { path: direct_path("48", name) });
    plan.push(IconProbe::Direct { path: direct_path("32", name) });
    plan.push(IconProbe::Themed { name: name.to_owned(), theme: "Breeze".to_owned(), size: 64 });
    plan.push(IconProbe::Themed { name: name.to_owned(), theme: "Breeze".to_owned(), size: 48 });
    plan.push(IconProbe::Themed { name: name.to_owned(), theme: "Breeze".to_owned(), size: 32 });
    plan.push(IconProbe::Themed { name: name.to_owned(), theme: "Papirus".to_owned(), size: 64 });
    plan.push(IconProbe::Themed { name: name.to_owned(), theme: "Papirus".to_owned(), size: 48 });
    plan.push(IconProbe::Themed { name: name.to_owned(), theme: "Papirus".to_owned(), size: 32 });
    plan.push(IconProbe::Themed { name: name.to_owned(), theme: "Adwaita".to_owned(), size: 64 });
    plan.push(IconProbe::Themed { name: name.to_owned(), theme: "Adwaita".to_owned(), size: 48 });
    plan.push(IconProbe::Themed { name: name.to_owned(), theme: "Adwaita".to_owned(), size: 32 });
    let mut symbolic = name.to_owned();
    symbolic.append("-symbolic");
    plan.push(IconProbe::Plain { name: symbolic, size: 32 });
    plan.push(IconProbe::Plain { name: "application-x-executable".to_owned(), size: 48 });
    proof {
        assert(plan.deep_view() =~~= icon_probe_plan_spec(name@));
    }
    plan
}

/// Relies on std::path::Path::exists: whether a file stands at the literal
/// path on this host at this moment. The answer depends on the filesystem,
/// so nothing is promised of it.
#[verifier::external_body]
fn path_exists(path: &str) -> bool {
    std::path::Path::new(path).exists()
}

/// Relies on freedesktop_icons::lookup with a named theme: searches the
/// host's icon-theme directories. The answer depends on the filesystem, so
/// nothing is promised of it.
#[verifier::external_body]
fn lookup_icon_themed(name: &str, theme: &str, size: u16) -> Option<String> {
    freedesktop_icons::lookup(name).with_theme(theme).with_size(size).find().map(
        |p| p.to_string_lossy().into_owned(),
    )
}

/// Relies on freedesktop_icons::lookup in its default (hicolor) theme:
/// searches the host's icon-theme directories. The answer depends on the
/// filesystem, so nothing is promised of it.
#[verifier::external_body]
fn lookup_icon_plain(name: &str, size: u16) -> Option<String> {
    freedesktop_icons::lookup(name).with_size(size).find().map(
        |p| p.to_string_lossy().into_owned(),
    )
}

/// Execute one step of the plan. The answer depends on the filesystem; of
/// a direct probe it can still be said that a hit is the probed path itself.
fn run_probe(probe: &IconProbe) -> (r: Option<String>)
    ensures
        match probe@ {
            IconProbeView::Direct { path } => r.deep_view() == None::<Seq<char>> || r.deep_view()
                == Some(path),
            _ => true,
        },
{
    match probe {
        IconProbe::Direct { path } => {
            if path_exists(path.as_str()) {
                Some(path.clone())
            } else {
                None
            }
        },
        IconProbe::Themed { name, theme, size } => lookup_icon_themed(
            name.as_str(),
            theme.as_str(),
            *size,
        ),
        IconProbe::Plain { name, size } => lookup_icon_plain(name.as_str(), *size),
    }
}

/// The first answered probe's path, in plan order; nothing when every probe
/// misses.
pub open spec fn first_some(outcomes: Seq<Option<Seq<char>>>) -> Option<Seq<char>>
    decreases outcomes.len(),
{
    if outcomes.len() == 0 {
        None
    } else if outcomes[0] is Some {
        outcomes[0]
    } else {
        first_some(outcomes.drop_first())
    }
}

/// `first_some` answers from the earliest `Some`.
pub proof fn lemma_first_some_at(outcomes: Seq<Option<Seq<char>>>, i: int)
    requires
        0 <= i < outcomes.len(),
        forall|k: int| 0 <= k < i ==> outcomes[k] is None,
        outcomes[i] is Some,
    ensures
        first_some(outcomes) == outcomes[i],
    decreases i,
{
    if i > 0 {
        lemma_first_some_at(outcomes.drop_first(), i - 1);
    }
}

/// `first_some` misses only when every probe missed.
pub proof fn lemma_first_some_none(outcomes: Seq<Option<Seq<char>>>)
    requires
        forall|k: int| 0 <= k < outcomes.len() ==> outcomes[k] is None,
    ensures
        first_some(outcomes) == None::<Seq<char>>,
    decreases outcomes.len(),
{
    if outcomes.len() > 0 {
        lemma_first_some_none(outcomes.drop_first());
    }
}

/// Pick the first answered probe from a full list of probe outcomes: the
/// resolution rule, exactly, over given outcomes.
pub fn resolve_first(outcomes: &Vec<Option<String>>) -> (r: Option<String>)
    ensures
        r.deep_view() == first_some(outcomes.deep_view()),
{
    let mut i: usize = 0;
    proof {
        assert(outcomes.deep_view().skip(0) =~= outcomes.deep_view());
    }
    while i < outcomes.len()
        invariant
            i <= outcomes@.len(),
            outcomes.deep_view().len() == outcomes@.len(),
            first_some(outcomes.deep_view().skip(i as int)) == first_some(outcomes.deep_view()),
        decreases outcomes@.len() - i,
    {
        proof {
            assert(outcomes.deep_view().skip(i as int)[0] == outcomes.deep_view()[i as int]);
            assert(outcomes.deep_view().skip(i as int).drop_first() =~= outcomes.deep_view().skip(
                i + 1,
            ));
        }
        match &outcomes[i] {
            Some(path) => {
                return Some(path.clone());
            },
            None => {
            },
        }
        i += 1;
    }
    proof {
        assert(outcomes.deep_view().skip(outcomes@.len() as int) =~= Seq::<
            Option<Seq<char>>,
        >::empty());
    }
    None
}

/// Outcome vectors the probe plan can produce: one outcome per planned
/// probe, and a direct probe either misses or answers with exactly its
/// planned literal path — a lookup's answer stays open.
pub open spec fn plan_consistent_outcomes(
    name: Seq<char>,
    outcomes: Seq<Option<Seq<char>>>,
) -> bool {
    &&& outcomes.len() == icon_probe_plan_spec(name).len()
    &&& forall|i: int|
        0 <= i < outcomes.len() ==> match #[trigger] icon_probe_plan_spec(name)[i] {
            IconProbeView::Direct { path } => outcomes[i] is None || outcomes[i] == Some(path),
            IconProbeView::Themed { .. } => true,
            IconProbeView::Plain { .. } => true,
        }
}

/// Resolve an icon token to a concrete file path: run the fallback plan in
/// order and answer with the first probe that succeeds. The lookups read the
/// filesystem, so which probe succeeds cannot be pinned here; what is
/// promised is the first-success shape over outcomes the plan can produce:
/// in particular, an answer from the direct stage is one of the planned
/// literal paths, never an arbitrary text.
pub fn get_icon_path(icon_name: &str) -> (r: Option<String>)
    ensures
        exists|outcomes: Seq<Option<Seq<char>>>|
            plan_consistent_outcomes(icon_name@, outcomes) && r.deep_view() == first_some(
                outcomes,
            ),
{
    let plan = icon_probe_plan(icon_name);
    let n = plan.len();
    let mut i: usize = 0;
    while i < n
        invariant
            n == plan@.len(),
            plan.deep_view() == icon_probe_plan_spec(icon_name@),
            i <= n,
        decreases n - i,
    {
        let hit = run_probe(&plan[i]);
        match hit {
            Some(path) => {
                proof {
                    let plan_spec = icon_probe_plan_spec(icon_name@);
                    let witness = Seq::new(
                        plan_spec.len(),
                        |j: int| if j == i { Some(path@) } else { None },
                    );
                    lemma_first_some_at(witness, i as int);
                    assert(plan.deep_view()[i as int] == plan@[i as int]@);
                    assert forall|k: int| 0 <= k < witness.len() implies match #[trigger] plan_spec[k] {
                        IconProbeView::Direct { path: p } => witness[k] is None || witness[k]
                            == Some(p),
                        IconProbeView::Themed { .. } => true,
                        IconProbeView::Plain { .. } => true,
                    } by {}
                    assert(plan_consistent_outcomes(icon_name@, witness));
                }
                return Some(path);
            },
            None => {
            },
        }
        i += 1;
    }
    proof {
        let plan_spec = icon_probe_plan_spec(icon_name@);
        let witness = Seq::new(plan_spec.len(), |j: int| None::<Seq<char>>);
        lemma_first_some_none(witness);
        assert(plan_consistent_outcomes(icon_name@, witness));
    }
    None
}

/// Law: the fallback order of icon resolution. When every probe before the
/// `-symbolic` step misses — every direct probe and every themed lookup —
/// and the symbolic variant resolves, the resolver's answer is the symbolic
/// variant's path: the generic executable fallback, though it stands last
/// in the plan and may also resolve, is never reached.
pub proof fn lemma_symbolic_beats_generic(
    name: Seq<char>,
    outcomes: Seq<Option<Seq<char>>>,
    p: Seq<char>,
)
    requires
        outcomes.len() == icon_probe_plan_spec(name).len(),
        forall|i: int| 0 <= i < outcomes.len() - 2 ==> outcomes[i] is None,
        outcomes[outcomes.len() - 2] == Some(p),
    ensures
        icon_probe_plan_spec(name)[outcomes.len() - 2] == (IconProbeView::Plain {
            name: name + "-symbolic"@,
            size: 32u16,
        }),
        first_some(outcomes) == Some(p),
{
    lemma_first_some_at(outcomes, outcomes.len() - 2);
}

} // verus!

//! The source locator and file collector: compute the ordered, deduplicated
//! set of candidate directories to scan, and keep exactly the listed entries
//! that are desktop-entry files.
//!
//! The locator's contract is purely "candidate paths": directories that do
//! not exist are not removed here — the collector skips them. Paths are
//! treated as plain `/`-separated text.

use crate::text::{split_at_char, split_char_spec, str_eq};
use vstd::prelude::*;
use vstd::string::*;

verus! {

/// The fixed list of well-known system directories, in search order.
pub open spec fn fixed_search_paths() -> Seq<Seq<char>> {
    seq![
        "/usr/share/applications"@,
        "/usr/share/xsessions"@,
        "/etc/xdg/autostart"@,
        "/var/lib/snapd/desktop/applications"@,
    ]
}

/// The per-user data directory: `.local/share/applications` under the home
/// directory, or the bare relative path when no home is known.
pub open spec fn local_share_path(home: Option<Seq<char>>) -> Seq<char> {
    match home {
        Some(h) => if h.len() > 0 {
            h + "/.local/share/applications"@
        } else {
            ".local/share/applications"@
        },
        None => ".local/share/applications"@,
    }
}

/// The directories of the colon-separated search-path variable, or the one
/// default directory when the variable is unset.
pub open spec fn xdg_data_dirs(xdg: Option<Seq<char>>) -> Seq<Seq<char>> {
    split_char_spec(
        match xdg {
            Some(v) => v,
            None => "/usr/share"@,
        },
        ':',
    )
}

/// Every candidate directory in insertion order, duplicates included: the
/// fixed list, then the per-user directory, then the search-path variable.
pub open spec fn search_path_candidates(
    xdg: Option<Seq<char>>,
    home: Option<Seq<char>>,
) -> Seq<Seq<char>> {
    fixed_search_paths().push(local_share_path(home)) + xdg_data_dirs(xdg)
}

/// The sequence with every later duplicate dropped: an element stays
/// exactly when it does not already stand earlier.
pub open spec fn dedup_first(s: Seq<Seq<char>>) -> Seq<Seq<char>>
    decreases s.len(),
{
    if s.len() == 0 {
        s
    } else if s.drop_last().contains(s.last()) {
        dedup_first(s.drop_last())
    } else {
        dedup_first(s.drop_last()).push(s.last())
    }
}

/// The locator's answer: the candidates, deduplicated, insertion order kept.
pub open spec fn located_search_paths(
    xdg: Option<Seq<char>>,
    home: Option<Seq<char>>,
) -> Seq<Seq<char>> {
    dedup_first(search_path_candidates(xdg, home))
}

/// Deduplication keeps membership: exactly the input's elements remain.
pub proof fn lemma_dedup_first_membership(s: Seq<Seq<char>>, x: Seq<char>)
    ensures
        dedup_first(s).contains(x) == s.contains(x),
    decreases s.len(),
{
    if s.len() > 0 {
        let t = s.drop_last();
        lemma_dedup_first_membership(t, x);
        if t.contains(x) {
            let i = choose|i: int| 0 <= i < t.len() && t[i] == x;
            assert(s[i] == x);
            assert(s.contains(x));
        }
        if s.contains(x) && !t.contains(x) {
            let i = choose|i: int| 0 <= i < s.len() && s[i] == x;
            if i < s.len() - 1 {
                assert(t[i] == x);
                assert(false);
            }
            assert(s.last() == x);
        }
        if t.contains(s.last()) {
            if s.contains(x) && !t.contains(x) {
                assert(s.last() == x);
            }
        } else {
            let d = dedup_first(t);
            let pushed = d.push(s.last());
            if s.contains(x) {
                if t.contains(x) {
                    let j = choose|j: int| 0 <= j < d.len() && d[j] == x;
                    assert(pushed[j] == x);
                    assert(pushed.contains(x));
                } else {
                    assert(pushed[d.len() as int] == x);
                    assert(pushed.contains(x));
                }
            }
            if pushed.contains(x) {
                let j = choose|j: int| 0 <= j < pushed.len() && pushed[j] == x;
                if j < d.len() {
                    assert(d[j] == x);
                    assert(d.contains(x));
                } else {
                    assert(s[s.len() - 1] == x);
                    assert(s.contains(x));
                }
            }
        }
    }
}

/// Deduplication leaves no element twice.
pub proof fn lemma_dedup_first_distinct(s: Seq<Seq<char>>)
    ensures
        forall|i: int, j: int|
            0 <= i < j < dedup_first(s).len() ==> dedup_first(s)[i] != dedup_first(s)[j],
    decreases s.len(),
{
    if s.len() > 0 {
        let t = s.drop_last();
        lemma_dedup_first_distinct(t);
        if !t.contains(s.last()) {
            let d = dedup_first(t);
            let pushed = d.push(s.last());
            assert forall|i: int, j: int| 0 <= i < j < pushed.len() implies pushed[i]
                != pushed[j] by {
                if j == d.len() {
                    assert(d.contains(d[i]));
                    lemma_dedup_first_membership(t, d[i]);
                }
            }
        }
    }
}

/// Law: the locator's answer is an ordered set — no directory stands in it
/// twice, and exactly the candidate directories stand in it.
pub proof fn lemma_search_paths_are_a_set(xdg: Option<Seq<char>>, home: Option<Seq<char>>)
    ensures
        forall|i: int, j: int|
            0 <= i < j < located_search_paths(xdg, home).len() ==> located_search_paths(xdg, home)[i]
                != located_search_paths(xdg, home)[j],
        forall|x: Seq<char>|
            #[trigger] located_search_paths(xdg, home).contains(x) == search_path_candidates(
                xdg,
                home,
            ).contains(x),
{
    lemma_dedup_first_distinct(search_path_candidates(xdg, home));
    assert forall|x: Seq<char>|
        #[trigger] located_search_paths(xdg, home).contains(x) == search_path_candidates(
            xdg,
            home,
        ).contains(x) by {
        lemma_dedup_first_membership(search_path_candidates(xdg, home), x);
    }
}

/// Whether `x` already stands among the first `upto` items.
fn contains_prefix(items: &Vec<String>, upto: usize, x: &str) -> (b: bool)
    requires
        upto <= items@.len(),
    ensures
        b == items.deep_view().take(upto as int).contains(x@),
{
    let mut k: usize = 0;
    while k < upto
        invariant
            upto <= items@.len(),
            items.deep_view().len() == items@.len(),
            k <= upto,
            forall|j: int| 0 <= j < k ==> items.deep_view()[j] != x@,
        decreases upto - k,
    {
        if str_eq(items[k].as_str(), x) {
            proof {
                assert(items.deep_view().take(upto as int)[k as int] == x@);
            }
            return true;
        }
        k += 1;
    }
    proof {
        assert forall|j: int| 0 <= j < upto implies items.deep_view().take(upto as int)[j]
            != x@ by {}
    }
    false
}

/// Drop every later duplicate, keeping insertion order.
pub fn dedup_paths(items: &Vec<String>) -> (r: Vec<String>)
    ensures
        r.deep_view() == dedup_first(items.deep_view()),
{
    let mut out: Vec<String> = Vec::new();
    let mut i: usize = 0;
    proof {
        assert(items.deep_view().take(0) =~= Seq::<Seq<char>>::empty());
        assert(out.deep_view() =~= dedup_first(items.deep_view().take(0)));
    }
    while i < items.len()
        invariant
            i <= items@.len(),
            items.deep_view().len() == items@.len(),
            out.deep_view() == dedup_first(items.deep_view().take(i as int)),
        decreases items@.len() - i,
    {
        let ghost prev = out.deep_view();
        proof {
            assert(items.deep_view().take(i + 1).drop_last() =~= items.deep_view().take(i as int));
            assert(items.deep_view().take(i + 1).last() == items.deep_view()[i as int]);
        }
        if !contains_prefix(items, i, items[i].as_str()) {
            out.push(items[i].clone());
            proof {
                assert(out.deep_view() =~= prev.push(items.deep_view()[i as int]));
            }
        }
        i += 1;
    }
    proof {
        assert(items.deep_view().take(items@.len() as int) =~= items.deep_view());
    }
    out
}

/// Compute the ordered, deduplicated candidate directories from the
/// search-path variable's value and the home directory, both handed in as
/// plain values (`None` when unset).
pub fn get_default_search_paths(xdg_data_dirs_value: Option<&str>, home: Option<&str>) -> (r: Vec<
    String,
>)
    ensures
        r.deep_view() == located_search_paths(
            xdg_data_dirs_value.deep_view(),
            home.deep_view(),
        ),
{
    let mut candidates: Vec<String> = Vec::new();
    candidates.push("/usr/share/applications".to_owned());
    candidates.push("/usr/share/xsessions".to_owned());
    candidates.push("/etc/xdg/autostart".to_owned());
    candidates.push("/var/lib/snapd/desktop/applications".to_owned());
    let local_share = match home {
        Some(h) => {
            if !h.is_empty() {
                let mut s = h.to_owned();
                s.append("/.local/share/applications");
                s
            } else {
                ".local/share/applications".to_owned()
            }
        },
        None => ".local/share/applications".to_owned(),
    };
    candidates.push(local_share);
    proof {
        assert(candidates.deep_view() =~= fixed_search_paths().push(
            local_share_path(home.deep_view()),
        ));
    }
    let ghost head = candidates.deep_view();
    let pieces = split_at_char(
        match xdg_data_dirs_value {
            Some(v) => v,
            None => "/usr/share",
        },
        ':',
    );
    let mut j: usize = 0;
    proof {
        assert(pieces.deep_view().take(0) =~= Seq::<Seq<char>>::empty());
        assert(candidates.deep_view() =~= head + pieces.deep_view().take(0));
    }
    while j < pieces.len()
        invariant
            j <= pieces@.len(),
            pieces.deep_view().len() == pieces@.len(),
            candidates.deep_view() == head + pieces.deep_view().take(j as int),
        decreases pieces@.len() - j,
    {
        let ghost prev = candidates.deep_view();
        candidates.push(pieces[j].clone());
        proof {
            assert(candidates.deep_view() =~= prev.push(pieces.deep_view()[j as int]));
            assert(pieces.deep_view().take(j + 1) =~= pieces.deep_view().take(j as int).push(
                pieces.deep_view()[j as int],
            ));
            assert(prev.push(pieces.deep_view()[j as int]) =~= head + pieces.deep_view().take(
                j + 1,
            ));
        }
        j += 1;
    }
    proof {
        assert(pieces.deep_view().take(pieces@.len() as int) =~= pieces.deep_view());
        assert(candidates.deep_view() =~= search_path_candidates(
            xdg_data_dirs_value.deep_view(),
            home.deep_view(),
        ));
    }
    dedup_paths(&candidates)
}

/// Relies on dirs::home_dir: the user's home directory as the platform
/// reports it. The answer depends on the environment, so nothing is
/// promised of it.
#[verifier::external_body]
fn home_dir_path() -> Option<String> {
    dirs::home_dir().map(|p| p.to_string_lossy().into_owned())
}

/// Compute the candidate directories on this host: the home directory is
/// looked up here, the search-path variable's value is handed in by the
/// shell. The answer is the locator rule applied to that value and to
/// whatever home directory the host reported.
pub fn host_search_paths(xdg_data_dirs_value: Option<&str>) -> (r: Vec<String>)
    ensures
        exists|home: Option<Seq<char>>|
            r.deep_view() == located_search_paths(xdg_data_dirs_value.deep_view(), home),
{
    let home = home_dir_path();
    let r = match &home {
        Some(h) => get_default_search_paths(xdg_data_dirs_value, Some(h.as_str())),
        None => get_default_search_paths(xdg_data_dirs_value, None),
    };
    proof {
        assert(r.deep_view() == located_search_paths(
            xdg_data_dirs_value.deep_view(),
            home.deep_view(),
        ));
    }
    r
}

/// One directory entry the collector examines: its path and whether it is a
/// regular file.
#[derive(Debug, Clone)]
pub struct FileEntry {
    pub path: String,
    pub is_file: bool,
}

/// The mathematical value of a `FileEntry`.
pub struct FileEntryView {
    pub path: Seq<char>,
    pub is_file: bool,
}

impl View for FileEntry {
    type V = FileEntryView;

    open spec fn view(&self) -> FileEntryView {
        FileEntryView { path: self.path@, is_file: self.is_file }
    }
}

impl DeepView for FileEntry {
    type V = FileEntryView;

    open spec fn deep_view(&self) -> FileEntryView {
        self.view()
    }
}

/// One candidate directory as the shell listed it: whether it exists and
/// could be read, and its direct children (no recursion).
#[derive(Debug, Clone)]
pub struct DirListing {
    pub found: bool,
    pub entries: Vec<FileEntry>,
}

/// The mathematical value of a `DirListing`.
pub struct DirListingView {
    pub found: bool,
    pub entries: Seq<FileEntryView>,
}

impl View for DirListing {
    type V = DirListingView;

    open spec fn view(&self) -> DirListingView {
        DirListingView { found: self.found, entries: self.entries.deep_view() }
    }
}

impl DeepView for DirListing {
    type V = DirListingView;

    open spec fn deep_view(&self) -> DirListingView {
        self.view()
    }
}

/// The position of the last `c` in `s`, if any.
pub open spec fn last_index_of(s: Seq<char>, c: char) -> Option<int>
    decreases s.len(),
{
    if s.len() == 0 {
        None
    } else if s.last() == c {
        Some(s.len() - 1)
    } else {
        last_index_of(s.drop_last(), c)
    }
}

/// The final `/`-separated component of a path.
pub open spec fn file_name_part(p: Seq<char>) -> Seq<char> {
    match last_index_of(p, '/') {
        Some(i) => if 0 <= i < p.len() {
            p.subrange(i + 1, p.len() as int)
        } else {
            p
        },
        None => p,
    }
}

/// The path names a desktop-entry file: its final component has the
/// extension `desktop` — text after a last dot that is not the component's
/// first character.
pub open spec fn has_desktop_extension(p: Seq<char>) -> bool {
    let f = file_name_part(p);
    match last_index_of(f, '.') {
        Some(i) => 0 < i < f.len() && f.subrange(i + 1, f.len() as int) == "desktop"@,
        None => false,
    }
}

proof fn lemma_last_index_truncate(s: Seq<char>, c: char, j: int)
    requires
        0 <= j <= s.len(),
        forall|k: int| j <= k < s.len() ==> s[k] != c,
    ensures
        last_index_of(s, c) == last_index_of(s.take(j), c),
    decreases s.len() - j,
{
    if j < s.len() {
        assert(s.take(s.len() as int) =~= s);
        assert(s.take(j + 1).drop_last() =~= s.take(j));
        lemma_last_index_truncate(s, c, j + 1);
        if j + 1 == s.len() {
            assert(s.take(j + 1) =~= s);
            assert(s.drop_last() =~= s.take(j));
        } else {
            assert(last_index_of(s.take(j + 1), c) == last_index_of(s.take(j), c));
        }
    } else {
        assert(s.take(j) =~= s);
    }
}

/// Find the last `c`, scanning from the end.
fn find_last(s: &str, c: char) -> (r: Option<usize>)
    ensures
        match r {
            Some(i) => last_index_of(s@, c) == Some(i as int) && i < s@.len(),
            None => last_index_of(s@, c) == None::<int>,
        },
{
    let n = s.unicode_len();
    let mut j: usize = n;
    while j > 0
        invariant
            n == s@.len(),
            j <= n,
            forall|k: int| j <= k < n ==> s@[k] != c,
        decreases j,
    {
        if s.get_char(j - 1) == c {
            proof {
                lemma_last_index_truncate(s@, c, j as int);
                assert(s@.take(j as int).last() == s@[j - 1]);
            }
            return Some(j - 1);
        }
        j -= 1;
    }
    proof {
        lemma_last_index_truncate(s@, c, 0);
        assert(s@.take(0) =~= Seq::<char>::empty());
    }
    None
}

/// Whether the path names a desktop-entry file.
pub fn has_desktop_ext(path: &str) -> (b: bool)
    ensures
        b == has_desktop_extension(path@),
{
    proof {
        reveal_strlit("desktop");
    }
    let n = path.unicode_len();
    let name = match find_last(path, '/') {
        Some(i) => path.substring_char(i + 1, n),
        None => path,
    };
    proof {
        assert(name@ == file_name_part(path@));
    }
    let m = name.unicode_len();
    let ghost f = file_name_part(path@);
    match find_last(name, '.') {
        Some(i) => {
            proof {
                assert(last_index_of(f, '.') == Some(i as int));
            }
            if i == 0 {
                proof {
                    assert(!has_desktop_extension(path@));
                }
                false
            } else if i + 1 >= m {
                proof {
                    assert(f.subrange(i + 1, f.len() as int) =~= Seq::<char>::empty());
                    assert(f.subrange(i + 1, f.len() as int) != "desktop"@);
                    assert(!has_desktop_extension(path@));
                }
                false
            } else {
                let r = str_eq(name.substring_char(i + 1, m), "desktop");
                proof {
                    assert(r == has_desktop_extension(path@));
                }
                r
            }
        },
        None => {
            proof {
                assert(!has_desktop_extension(path@));
            }
            false
        },
    }
}

/// The desktop-entry files among one directory's entries, in listed order.
pub open spec fn listing_files(es: Seq<FileEntryView>) -> Seq<Seq<char>>
    decreases es.len(),
{
    if es.len() == 0 {
        Seq::empty()
    } else {
        listing_files(es.drop_last()) + (if es.last().is_file && has_desktop_extension(
            es.last().path,
        ) {
            seq![es.last().path]
        } else {
            Seq::empty()
        })
    }
}

/// Every desktop-entry file across the listings, in order; a directory that
/// was not found contributes nothing.
pub open spec fn all_candidate_files(ls: Seq<DirListingView>) -> Seq<Seq<char>>
    decreases ls.len(),
{
    if ls.len() == 0 {
        Seq::empty()
    } else {
        all_candidate_files(ls.drop_last()) + (if ls.last().found {
            listing_files(ls.last().entries)
        } else {
            Seq::empty()
        })
    }
}

/// The collector's answer: the candidate files, deduplicated across all
/// directories.
pub open spec fn collected_desktop_files(ls: Seq<DirListingView>) -> Seq<Seq<char>> {
    dedup_first(all_candidate_files(ls))
}

/// Law: the collector's aggregate is an ordered set — no file stands in it
/// twice, and exactly the kept candidate files stand in it.
pub proof fn lemma_collected_files_are_a_set(ls: Seq<DirListingView>)
    ensures
        forall|i: int, j: int|
            0 <= i < j < collected_desktop_files(ls).len() ==> collected_desktop_files(ls)[i]
                != collected_desktop_files(ls)[j],
        forall|x: Seq<char>|
            #[trigger] collected_desktop_files(ls).contains(x) == all_candidate_files(ls).contains(
                x,
            ),
{
    lemma_dedup_first_distinct(all_candidate_files(ls));
    assert forall|x: Seq<char>|
        #[trigger] collected_desktop_files(ls).contains(x) == all_candidate_files(ls).contains(
            x,
        ) by {
        lemma_dedup_first_membership(all_candidate_files(ls), x);
    }
}

/// Collect every desktop-entry file from the listed directories: keep the
/// direct children that are regular files with the `desktop` extension,
/// silently skip directories that were not found, and deduplicate across
/// all of them. The shell lists each candidate directory and hands the
/// listings in; one unreadable directory never fails the pass.
pub fn get_all_apps(listings: &Vec<DirListing>) -> (r: Vec<String>)
    ensures
        r.deep_view() == collected_desktop_files(listings.deep_view()),
{
    let mut candidates: Vec<String> = Vec::new();
    let mut i: usize = 0;
    proof {
        assert(listings.deep_view().take(0) =~= Seq::<DirListingView>::empty());
        assert(candidates.deep_view() =~= all_candidate_files(listings.deep_view().take(0)));
    }
    while i < listings.len()
        invariant
            i <= listings@.len(),
            listings.deep_view().len() == listings@.len(),
            candidates.deep_view() == all_candidate_files(listings.deep_view().take(i as int)),
        decreases listings@.len() - i,
    {
        let ghost before_dir = candidates.deep_view();
        let listing = &listings[i];
        if listing.found {
            let mut j: usize = 0;
            proof {
                assert(listing.entries.deep_view().take(0) =~= Seq::<FileEntryView>::empty());
                assert(candidates.deep_view() =~= before_dir + listing_files(
                    listing.entries.deep_view().take(0),
                ));
            }
            while j < listing.entries.len()
                invariant
                    j <= listing.entries@.len(),
                    listing.entries.deep_view().len() == listing.entries@.len(),
                    candidates.deep_view() == before_dir + listing_files(
                        listing.entries.deep_view().take(j as int),
                    ),
                decreases listing.entries@.len() - j,
            {
                let ghost prev = candidates.deep_view();
                proof {
                    assert(listing.entries.deep_view().take(j + 1).drop_last()
                        =~= listing.entries.deep_view().take(j as int));
                    assert(listing.entries.deep_view().take(j + 1).last()
                        == listing.entries.deep_view()[j as int]);
                }
                let entry = &listing.entries[j];
                if entry.is_file && has_desktop_ext(entry.path.as_str()) {
                    candidates.push(entry.path.clone());
                    proof {
                        assert(candidates.deep_view() =~= prev.push(
                            listing.entries.deep_view()[j as int].path,
                        ));
                        assert(candidates.deep_view() =~= before_dir + listing_files(
                            listing.entries.deep_view().take(j + 1),
                        ));
                    }
                } else {
                    proof {
                        assert(candidates.deep_view() =~= before_dir + listing_files(
                            listing.entries.deep_view().take(j + 1),
                        ));
                    }
                }
                j += 1;
            }
            proof {
                assert(listing.entries.deep_view().take(listing.entries@.len() as int)
                    =~= listing.entries.deep_view());
            }
        }
        proof {
            assert(listings.deep_view().take(i + 1).drop_last() =~= listings.deep_view().take(
                i as int,
            ));
            assert(listings.deep_view().take(i + 1).last() == listings.deep_view()[i as int]);
            assert(listings.deep_view()[i as int] == listings@[i as int]@);
            assert(candidates.deep_view() =~= all_candidate_files(
                listings.deep_view().take(i + 1),
            ));
        }
        i += 1;
    }
    proof {
        assert(listings.deep_view().take(listings@.len() as int) =~= listings.deep_view());
    }
    dedup_paths(&candidates)
}

} // verus!

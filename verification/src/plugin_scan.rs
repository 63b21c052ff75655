//! Scanning directories for external plugins: which directories are scanned, in what order
//! their entries are looked at, and what is loaded of them.

use vstd::prelude::*;

use crate::paths;
use crate::plugins::{ExternalPluginBundle, ExternalPluginBundleError};
use crate::text;

verus! {

// ---------------------------------------------------------------------------
// Which directories

/// The directories that a user has configured, without the blank ones.
pub open spec fn configured(directories: Seq<Seq<char>>) -> Seq<Seq<char>>
    decreases directories.len(),
{
    if directories.len() == 0 {
        Seq::empty()
    } else {
        let earlier = configured(directories.drop_last());
        let directory = text::trim(directories.last());
        if directory.len() == 0 {
            earlier
        } else {
            earlier.push(directory)
        }
    }
}

/// The directories that a user has configured, without the white space around each and without
/// the blank ones.
pub fn configured_directories(directories: &Vec<String>) -> (kept: Vec<String>)
    ensures
        text::views(kept@) == configured(text::views(directories@)),
{
    let ghost all = text::views(directories@);
    let mut kept: Vec<String> = Vec::new();
    let mut i: usize = 0;
    assert(all.take(0) == Seq::<Seq<char>>::empty());
    assert(text::views(kept@) == configured(all.take(0)));
    while i < directories.len()
        invariant
            all == text::views(directories@),
            i <= directories@.len(),
            text::views(kept@) == configured(all.take(i as int)),
        decreases directories@.len() - i,
    {
        assert(all.take(i + 1).drop_last() == all.take(i as int));
        let ghost before = text::views(kept@);
        let directory = text::trimmed(directories[i].as_str());
        if !directory.as_str().is_empty() {
            kept.push(directory);
            assert(text::views(kept@) == before.push(directory@));
        }
        i = i + 1;
    }
    assert(all.take(i as int) == all);
    kept
}

/// The item at `i` is the first with its key.
pub open spec fn first_of_its_kind(keys: Seq<Seq<char>>, i: int) -> bool {
    0 <= i < keys.len() && forall|j: int| 0 <= j < i ==> keys[j] != keys[i]
}

/// The keys of paths.
pub open spec fn path_keys(canonical: Seq<Seq<char>>) -> Seq<Seq<char>> {
    canonical.map_values(|path: Seq<char>| paths::path_key(path))
}

/// `kept` lists, in order, the items that are the first with their key.
pub open spec fn keeps_first_of_each(keys: Seq<Seq<char>>, kept: Seq<usize>) -> bool {
    &&& forall|a: int, b: int| 0 <= a < b < kept.len() ==> kept[a] < kept[b]
    &&& forall|a: int| 0 <= a < kept.len() ==> first_of_its_kind(keys, #[trigger] kept[a] as int)
    &&& forall|i: int| #[trigger]
        first_of_its_kind(keys, i) ==> exists|a: int| 0 <= a < kept.len() && kept[a] == i
}

/// Which directories are scanned, given their canonical paths: of those that lead to the same
/// place the first.
pub fn distinct_directories(canonical: &Vec<String>) -> (kept: Vec<usize>)
    ensures
        keeps_first_of_each(path_keys(text::views(canonical@)), kept@),
{
    let ghost all = path_keys(text::views(canonical@));
    let mut keys: Vec<String> = Vec::new();
    let mut kept: Vec<usize> = Vec::new();
    let mut i: usize = 0;
    while i < canonical.len()
        invariant
            all == path_keys(text::views(canonical@)),
            i <= canonical@.len(),
            text::views(keys@) == all.take(i as int),
            forall|a: int, b: int| 0 <= a < b < kept@.len() ==> kept@[a] < kept@[b],
            forall|a: int|
                0 <= a < kept@.len() ==> kept@[a] < i && first_of_its_kind(
                    all,
                    #[trigger] kept@[a] as int,
                ),
            forall|j: int|
                j < i && #[trigger] first_of_its_kind(all, j) ==> exists|a: int|
                    0 <= a < kept@.len() && kept@[a] == j,
        decreases canonical@.len() - i,
    {
        let ghost known = text::views(keys@);
        let ghost kept_before = kept@;
        let key = paths::normalize_path_key(canonical[i].as_str());
        assert(key@ == all[i as int]);
        let seen = text::holds_text(&keys, key.as_str());
        if !seen {
            assert(first_of_its_kind(all, i as int)) by {
                assert forall|j: int| 0 <= j < i implies all[j] != all[i as int] by {
                    assert(known[j] == all[j]);
                }
            }
            kept.push(i);
            assert(kept@[kept@.len() - 1] == i);
        } else {
            assert(!first_of_its_kind(all, i as int)) by {
                let j = choose|j: int| 0 <= j < known.len() && known[j] == key@;
                assert(all[j] == all[i as int]);
            }
        }
        keys.push(key);
        assert(text::views(keys@) == known.push(key@));
        assert(text::views(keys@) == all.take(i + 1));
        assert forall|j: int| j < i + 1 && #[trigger] first_of_its_kind(all, j) implies exists|a: int|
            0 <= a < kept@.len() && kept@[a] == j by {
            if j < i {
                let a = choose|a: int| 0 <= a < kept_before.len() && kept_before[a] == j;
                assert(kept@[a] == j);
            }
        }
        i = i + 1;
    }
    kept
}

/// No place is scanned twice, and none is left out: each key is the key of exactly one of the
/// directories that are scanned.
pub proof fn every_place_is_scanned_once(keys: Seq<Seq<char>>, kept: Seq<usize>, i: int)
    requires
        keeps_first_of_each(keys, kept),
        0 <= i < keys.len(),
    ensures
        exists|a: int| 0 <= a < kept.len() && keys[#[trigger] kept[a] as int] == keys[i],
        forall|a: int, b: int|
            0 <= a < b < kept.len() ==> keys[#[trigger] kept[a] as int]
                != keys[#[trigger] kept[b] as int],
    decreases i,
{
    if first_of_its_kind(keys, i) {
        let a = choose|a: int| 0 <= a < kept.len() && kept[a] == i;
        assert(keys[kept[a] as int] == keys[i]);
    } else {
        let j = choose|j: int| 0 <= j < i && keys[j] == keys[i];
        every_place_is_scanned_once(keys, kept, j);
        let a = choose|a: int| 0 <= a < kept.len() && keys[#[trigger] kept[a] as int] == keys[j];
        assert(keys[kept[a] as int] == keys[i]);
    }
    assert forall|a: int, b: int| 0 <= a < b < kept.len() implies keys[#[trigger] kept[a] as int]
        != keys[#[trigger] kept[b] as int] by {
        assert(first_of_its_kind(keys, kept[b] as int));
    }
}

// ---------------------------------------------------------------------------
// In what order

/// The entry at `left` is looked at before the one at `right`: by name, and in the given order
/// where the names are the same.
pub open spec fn looked_at_before(names: Seq<Seq<char>>, left: int, right: int) -> bool {
    text::before(names[left], names[right]) || (names[left] == names[right] && left < right)
}

/// `order` lists every index below `count` once.
pub open spec fn lists_all(order: Seq<usize>, count: int) -> bool {
    &&& order.len() == count
    &&& order.no_duplicates()
    &&& forall|k: int| 0 <= k < order.len() ==> #[trigger] order[k] < count
    &&& forall|i: usize| i < count ==> #[trigger] order.contains(i)
}

/// `order` puts its indices in the order of the names.
pub open spec fn in_name_order(names: Seq<Seq<char>>, order: Seq<usize>) -> bool {
    forall|a: int, b: int|
        0 <= a < b < order.len() ==> looked_at_before(names, order[a] as int, order[b] as int)
}

proof fn lemma_looked_at_before(names: Seq<Seq<char>>, a: int, b: int, c: int)
    ensures
        a != b ==> looked_at_before(names, a, b) != looked_at_before(names, b, a),
        looked_at_before(names, a, b) && looked_at_before(names, b, c) ==> looked_at_before(
            names,
            a,
            c,
        ),
{
    text::text_order_is_total(names[a], names[b], names[c]);
    text::text_order_is_total(names[a], names[b], names[b]);
}

/// The order in which entries with these names are looked at.
pub open spec fn name_order(names: Seq<Seq<char>>) -> Seq<usize> {
    choose|order: Seq<usize>| lists_all(order, names.len() as int) && in_name_order(names, order)
}

/// There is only one order in which the entries of a directory are looked at.
pub proof fn entry_order_is_unique(names: Seq<Seq<char>>, order: Seq<usize>)
    requires
        lists_all(order, names.len() as int),
        in_name_order(names, order),
    ensures
        order == name_order(names),
{
    lemma_same_order(names, order, name_order(names), order.len() as int);
}

proof fn lemma_same_order(names: Seq<Seq<char>>, left: Seq<usize>, right: Seq<usize>, count: int)
    requires
        lists_all(left, names.len() as int),
        in_name_order(names, left),
        lists_all(right, names.len() as int),
        in_name_order(names, right),
        0 <= count <= names.len(),
    ensures
        forall|k: int| 0 <= k < count ==> left[k] == right[k],
    decreases count,
{
    if count > 0 {
        let last = count - 1;
        lemma_same_order(names, left, right, last);
        let a = left[last];
        let b = right[last];
        if a != b {
            assert(right.contains(a) && left.contains(b));
            let m = choose|m: int| 0 <= m < right.len() && right[m] == a;
            let n = choose|n: int| 0 <= n < left.len() && left[n] == b;
            assert(m > last) by {
                if m < last {
                    assert(left[m] == a);
                }
            }
            assert(n > last) by {
                if n < last {
                    assert(right[n] == b);
                }
            }
            lemma_looked_at_before(names, a as int, b as int, b as int);
            assert(looked_at_before(names, right[last] as int, right[m] as int));
            assert(looked_at_before(names, left[last] as int, left[n] as int));
        }
    }
}

/// The order in which the entries of a directory are looked at: by name. Entries with the same
/// name stay in the given order.
pub fn entry_order(names: &Vec<String>) -> (order: Vec<usize>)
    ensures
        lists_all(order@, names@.len() as int),
        in_name_order(text::views(names@), order@),
        order@ == name_order(text::views(names@)),
{
    let ghost all = text::views(names@);
    let mut order: Vec<usize> = Vec::new();
    let mut i: usize = 0;
    while i < names.len()
        invariant
            all == text::views(names@),
            i <= names@.len(),
            lists_all(order@, i as int),
            in_name_order(all, order@),
        decreases names@.len() - i,
    {
        let mut at: usize = order.len();
        while at > 0 && text::is_before(names[i].as_str(), names[order[at - 1]].as_str())
            invariant
                all == text::views(names@),
                i < names@.len(),
                at <= order@.len(),
                lists_all(order@, i as int),
                in_name_order(all, order@),
                forall|k: int|
                    at <= k < order@.len() ==> text::before(
                        all[i as int],
                        all[#[trigger] order@[k] as int],
                    ),
            decreases at,
        {
            at = at - 1;
        }
        let ghost before = order@;
        assert forall|k: int| 0 <= k < at implies looked_at_before(
            all,
            #[trigger] before[k] as int,
            i as int,
        ) by {
            let last = before[at - 1] as int;
            lemma_looked_at_before(all, last, i as int, i as int);
            if k < at - 1 {
                lemma_looked_at_before(all, before[k] as int, last, i as int);
            }
        }
        order.insert(at, i);
        assert(order@ == before.insert(at as int, i));
        assert(lists_all(order@, i + 1)) by {
            assert forall|a: int, b: int|
                0 <= a < order@.len() && 0 <= b < order@.len() && a != b implies order@[a]
                != order@[b] by {
                let pa = if a < at { a } else { a - 1 };
                let pb = if b < at { b } else { b - 1 };
                if a != at {
                    assert(order@[a] == before[pa]);
                }
                if b != at {
                    assert(order@[b] == before[pb]);
                }
            }
            assert forall|k: int| 0 <= k < order@.len() implies #[trigger] order@[k] < i + 1 by {
                if k != at {
                    assert(order@[k] == before[if k < at { k } else { k - 1 }]);
                }
            }
            assert forall|j: usize| j < i + 1 implies #[trigger] order@.contains(j) by {
                if j == i {
                    assert(order@[at as int] == j);
                } else {
                    assert(before.contains(j));
                    let k = choose|k: int| 0 <= k < before.len() && before[k] == j;
                    assert(order@[if k < at { k } else { k + 1 }] == j);
                }
            }
        }
        assert(in_name_order(all, order@)) by {
            assert forall|a: int, b: int| 0 <= a < b < order@.len() implies looked_at_before(
                all,
                order@[a] as int,
                order@[b] as int,
            ) by {
                if a < at && b < at {
                    assert(order@[a] == before[a] && order@[b] == before[b]);
                } else if a < at && b == at {
                    assert(order@[a] == before[a]);
                } else if a < at {
                    assert(order@[a] == before[a] && order@[b] == before[b - 1]);
                } else if a == at {
                    assert(order@[b] == before[b - 1]);
                } else {
                    assert(order@[a] == before[a - 1] && order@[b] == before[b - 1]);
                }
            }
        }
        i = i + 1;
    }
    proof {
        entry_order_is_unique(all, order@);
    }
    order
}

// ---------------------------------------------------------------------------
// What is loaded

/// What to do with a directory that is scanned.
#[derive(Debug, Clone, Copy, PartialEq, Eq, Structural)]
pub enum DirectoryPlan {
    /// There is nothing to scan yet.
    Skip,
    /// The directory is a plugin itself.
    LoadAsPlugin,
    /// The entries of the directory may be plugins.
    ScanEntries,
}

/// A directory that does not exist is passed over, one with a manifest is a plugin, and of any
/// other the entries are scanned.
pub open spec fn directory_plan(exists: bool, has_manifest: bool) -> DirectoryPlan {
    if !exists {
        DirectoryPlan::Skip
    } else if has_manifest {
        DirectoryPlan::LoadAsPlugin
    } else {
        DirectoryPlan::ScanEntries
    }
}

pub fn plan_directory(exists: bool, has_manifest: bool) -> (plan: DirectoryPlan)
    ensures
        plan == directory_plan(exists, has_manifest),
{
    if !exists {
        DirectoryPlan::Skip
    } else if has_manifest {
        DirectoryPlan::LoadAsPlugin
    } else {
        DirectoryPlan::ScanEntries
    }
}

/// What is known of an entry of a directory that is scanned.
#[derive(Debug, Clone, Copy, PartialEq, Eq, Structural)]
pub struct EntryFacts {
    pub is_file: bool,
    pub is_zip: bool,
    pub is_directory: bool,
    pub has_manifest: bool,
}

/// What to do with an entry of a directory that is scanned.
#[derive(Debug, Clone, Copy, PartialEq, Eq, Structural)]
pub enum EntryPlan {
    LoadArchive,
    LoadDirectory,
    Ignore,
}

/// A zip file is loaded as an archive and a directory with a manifest as a plugin; nothing else
/// is a plugin.
pub open spec fn entry_plan(entry: EntryFacts) -> EntryPlan {
    if entry.is_file && entry.is_zip {
        EntryPlan::LoadArchive
    } else if entry.is_directory && entry.has_manifest {
        EntryPlan::LoadDirectory
    } else {
        EntryPlan::Ignore
    }
}

pub fn plan_entry(entry: EntryFacts) -> (plan: EntryPlan)
    ensures
        plan == entry_plan(entry),
{
    if entry.is_file && entry.is_zip {
        EntryPlan::LoadArchive
    } else if entry.is_directory && entry.has_manifest {
        EntryPlan::LoadDirectory
    } else {
        EntryPlan::Ignore
    }
}

/// An entry of a directory that is scanned: its name, and what is known of it, or why it could
/// not be inspected.
#[derive(Debug)]
pub struct ScannedEntry {
    pub name: String,
    pub inspected: Result<EntryFacts, String>,
}

/// A step of a scan, for the entry at an index.
#[derive(Debug)]
pub enum ScanStep {
    LoadArchive(usize),
    LoadDirectory(usize),
    /// The entry could not be inspected.
    Report(usize, String),
}

pub enum ScanStepModel {
    LoadArchive { entry: usize },
    LoadDirectory { entry: usize },
    Report { entry: usize, error: Seq<char> },
}

impl ScanStep {
    pub open spec fn model(self) -> ScanStepModel {
        match self {
            ScanStep::LoadArchive(entry) => ScanStepModel::LoadArchive { entry },
            ScanStep::LoadDirectory(entry) => ScanStepModel::LoadDirectory { entry },
            ScanStep::Report(entry, error) => ScanStepModel::Report { entry, error: error@ },
        }
    }
}

pub open spec fn step_models(steps: Seq<ScanStep>) -> Seq<ScanStepModel> {
    steps.map_values(|step: ScanStep| step.model())
}

/// The names of entries.
pub open spec fn entry_names(entries: Seq<ScannedEntry>) -> Seq<Seq<char>> {
    entries.map_values(|entry: ScannedEntry| entry.name@)
}

/// What is done with the entry at an index, if anything.
pub open spec fn step_for(entries: Seq<ScannedEntry>, index: usize) -> Option<ScanStepModel> {
    match entries[index as int].inspected {
        Err(error) => Some(ScanStepModel::Report { entry: index, error: error@ }),
        Ok(facts) => match entry_plan(facts) {
            EntryPlan::LoadArchive => Some(ScanStepModel::LoadArchive { entry: index }),
            EntryPlan::LoadDirectory => Some(ScanStepModel::LoadDirectory { entry: index }),
            EntryPlan::Ignore => None,
        },
    }
}

/// What is done with the entries of a directory, in the given order.
pub open spec fn steps_in_order(entries: Seq<ScannedEntry>, order: Seq<usize>) -> Seq<ScanStepModel>
    decreases order.len(),
{
    if order.len() == 0 {
        Seq::empty()
    } else {
        let earlier = steps_in_order(entries, order.drop_last());
        match step_for(entries, order.last()) {
            Some(step) => earlier.push(step),
            None => earlier,
        }
    }
}

/// Every entry is dealt with, and nothing else is: the steps are exactly those for the entries
/// that the order lists.
pub proof fn every_entry_is_dealt_with(
    entries: Seq<ScannedEntry>,
    order: Seq<usize>,
    index: usize,
    step: ScanStepModel,
)
    requires
        lists_all(order, entries.len() as int),
        index < entries.len(),
    ensures
        step_for(entries, index) == Some(step) ==> steps_in_order(entries, order).contains(step),
        steps_in_order(entries, order).contains(step) ==> exists|other: usize|
            other < entries.len() && #[trigger] step_for(entries, other) == Some(step),
{
    lemma_steps(entries, order, step);
    assert(order.contains(index));
    if step_for(entries, index) == Some(step) {
        let k = choose|k: int| 0 <= k < order.len() && order[k] == index;
        assert(step_for(entries, order[k]) == Some(step));
    }
    if steps_in_order(entries, order).contains(step) {
        let k = choose|k: int|
            0 <= k < order.len() && #[trigger] step_for(entries, order[k]) == Some(step);
        assert(order[k] < entries.len());
    }
}

proof fn lemma_steps(entries: Seq<ScannedEntry>, order: Seq<usize>, step: ScanStepModel)
    ensures
        steps_in_order(entries, order).contains(step) <==> exists|k: int|
            0 <= k < order.len() && #[trigger] step_for(entries, order[k]) == Some(step),
    decreases order.len(),
{
    if order.len() > 0 {
        let shorter = order.drop_last();
        let earlier = steps_in_order(entries, shorter);
        let all = steps_in_order(entries, order);
        lemma_steps(entries, shorter, step);
        assert(forall|k: int| 0 <= k < shorter.len() ==> shorter[k] == order[k]);
        if all.contains(step) {
            let i = choose|i: int| 0 <= i < all.len() && all[i] == step;
            if i < earlier.len() {
                assert(earlier[i] == step);
                let k = choose|k: int|
                    0 <= k < shorter.len() && #[trigger] step_for(entries, shorter[k]) == Some(step);
                assert(step_for(entries, order[k]) == Some(step));
            } else {
                assert(step_for(entries, order[order.len() - 1]) == Some(step));
            }
        }
        if exists|k: int| 0 <= k < order.len() && #[trigger] step_for(entries, order[k]) == Some(
            step,
        ) {
            let k = choose|k: int|
                0 <= k < order.len() && #[trigger] step_for(entries, order[k]) == Some(step);
            if k < shorter.len() {
                assert(step_for(entries, shorter[k]) == Some(step));
                let i = choose|i: int| 0 <= i < earlier.len() && earlier[i] == step;
                assert(all[i] == step);
            } else {
                assert(all[earlier.len() as int] == step);
            }
        }
    }
}

/// What is done with the entries of a directory that is scanned: they are looked at by name, and
/// those that are no plugins are passed over.
pub fn plan_scan(entries: &Vec<ScannedEntry>) -> (steps: Vec<ScanStep>)
    ensures
        step_models(steps@) == steps_in_order(entries@, name_order(entry_names(entries@))),
{
    let mut names: Vec<String> = Vec::new();
    let mut i: usize = 0;
    while i < entries.len()
        invariant
            i <= entries@.len(),
            names@.len() == i,
            forall|j: int| 0 <= j < i ==> #[trigger] names@[j]@ == entries@[j].name@,
        decreases entries@.len() - i,
    {
        names.push(entries[i].name.clone());
        i = i + 1;
    }
    assert(text::views(names@) == entry_names(entries@));
    let order = entry_order(&names);
    let mut steps: Vec<ScanStep> = Vec::new();
    let mut k: usize = 0;
    assert(order@.take(0) == Seq::<usize>::empty());
    assert(step_models(steps@) == steps_in_order(entries@, order@.take(0)));
    while k < order.len()
        invariant
            k <= order@.len(),
            lists_all(order@, entries@.len() as int),
            step_models(steps@) == steps_in_order(entries@, order@.take(k as int)),
        decreases order@.len() - k,
    {
        assert(order@.take(k + 1).drop_last() == order@.take(k as int));
        let ghost before = step_models(steps@);
        let index: usize = order[k];
        match &entries[index].inspected {
            Err(error) => {
                let error = error.clone();
                let ghost step = ScanStepModel::Report { entry: index, error: error@ };
                steps.push(ScanStep::Report(index, error));
                assert(step_models(steps@) == before.push(step));
            },
            Ok(facts) => match plan_entry(*facts) {
                EntryPlan::LoadArchive => {
                    steps.push(ScanStep::LoadArchive(index));
                    assert(step_models(steps@) == before.push(
                        ScanStepModel::LoadArchive { entry: index },
                    ));
                },
                EntryPlan::LoadDirectory => {
                    steps.push(ScanStep::LoadDirectory(index));
                    assert(step_models(steps@) == before.push(
                        ScanStepModel::LoadDirectory { entry: index },
                    ));
                },
                EntryPlan::Ignore => {},
            },
        }
        k = k + 1;
    }
    assert(order@.take(k as int) == order@);
    steps
}

/// The bundles and errors that a scan has come upon, in order.
#[derive(Debug)]
pub struct ScanReport {
    pub bundles: Vec<ExternalPluginBundle>,
    pub errors: Vec<ExternalPluginBundleError>,
}

/// `after` has one more error than `before`.
pub open spec fn error_added(
    before: ScanReport,
    after: ScanReport,
    name: Seq<char>,
    message: Seq<char>,
) -> bool {
    &&& after.bundles@ == before.bundles@
    &&& after.errors@.len() == before.errors@.len() + 1
    &&& after.errors@.drop_last() == before.errors@
    &&& after.errors@.last().archive_name@ == name
    &&& after.errors@.last().message@ == message
}

impl ScanReport {
    pub fn new() -> (report: Self)
        ensures
            report.bundles@.len() == 0,
            report.errors@.len() == 0,
    {
        ScanReport { bundles: Vec::new(), errors: Vec::new() }
    }

    fn add_error(&mut self, name: String, message: String)
        ensures
            error_added(*old(self), *final(self), name@, message@),
    {
        let ghost before = self.errors@;
        self.errors.push(ExternalPluginBundleError { archive_name: name, message });
        assert(self.errors@.drop_last() == before);
    }

    /// Records what became of loading the plugin at `name`.
    pub fn record_plugin(&mut self, name: String, outcome: Result<ExternalPluginBundle, String>)
        ensures
            match outcome {
                Ok(bundle) => {
                    &&& final(self).bundles@ == old(self).bundles@.push(bundle)
                    &&& final(self).errors@ == old(self).errors@
                },
                Err(message) => error_added(*old(self), *final(self), name@, message@),
            },
    {
        match outcome {
            Ok(bundle) => {
                self.bundles.push(bundle);
            },
            Err(message) => {
                self.add_error(name, message);
            },
        }
    }

    /// Records that a directory could not be listed.
    pub fn record_unlisted_directory(&mut self, name: String, error: &str)
        ensures
            error_added(
                *old(self),
                *final(self),
                name@,
                "Could not read plugins directory: "@ + error@,
            ),
    {
        self.add_error(name, text::chained("Could not read plugins directory: ", error));
    }

    /// Records that an entry could not be inspected.
    pub fn record_uninspected_entry(&mut self, name: String, error: &str)
        ensures
            error_added(
                *old(self),
                *final(self),
                name@,
                "Could not inspect plugin entry: "@ + error@,
            ),
    {
        self.add_error(name, text::chained("Could not inspect plugin entry: ", error));
    }
}

// ---------------------------------------------------------------------------
// Laws

/// Every directory that a user has configured counts, without the white space around it, unless it
/// is blank; they stay in their order.
pub proof fn configured_directories_count_unless_blank(
    directories: Seq<Seq<char>>,
    directory: Seq<char>,
)
    ensures
        configured(Seq::empty()).len() == 0,
        text::trim(directory).len() > 0 ==> configured(directories.push(directory)) == configured(
            directories,
        ).push(text::trim(directory)),
        text::trim(directory).len() == 0 ==> configured(directories.push(directory)) == configured(
            directories,
        ),
{
    assert(directories.push(directory).drop_last() == directories);
}

/// A directory is scanned exactly where none in front of it has the same path but for the kind of
/// its slashes, and the directories that are scanned stay in their order.
pub proof fn the_first_of_the_same_path_is_scanned(
    canonical: Seq<Seq<char>>,
    kept: Seq<usize>,
    i: usize,
)
    requires
        keeps_first_of_each(path_keys(canonical), kept),
        i < canonical.len(),
    ensures
        kept.contains(i) <==> forall|j: int|
            0 <= j < i ==> text::replace_char(#[trigger] canonical[j], '\\', "/"@)
                != text::replace_char(canonical[i as int], '\\', "/"@),
        forall|a: int, b: int| 0 <= a < b < kept.len() ==> kept[a] < kept[b],
        forall|a: int| 0 <= a < kept.len() ==> #[trigger] kept[a] < canonical.len(),
{
    let keys = path_keys(canonical);
    assert(keys.len() == canonical.len());
    assert(forall|j: int|
        0 <= j < canonical.len() ==> #[trigger] keys[j] == text::replace_char(
            canonical[j],
            '\\',
            "/"@,
        ));
    if kept.contains(i) {
        let a = choose|a: int| 0 <= a < kept.len() && kept[a] == i;
        assert(first_of_its_kind(keys, kept[a] as int));
        assert forall|j: int| 0 <= j < i implies text::replace_char(
            #[trigger] canonical[j],
            '\\',
            "/"@,
        ) != text::replace_char(canonical[i as int], '\\', "/"@) by {
            assert(keys[j] != keys[i as int]);
        }
    }
    if forall|j: int|
        0 <= j < i ==> text::replace_char(#[trigger] canonical[j], '\\', "/"@)
            != text::replace_char(canonical[i as int], '\\', "/"@) {
        assert forall|j: int| 0 <= j < i implies keys[j] != keys[i as int] by {
            assert(canonical[j] == canonical[j]);
        }
        assert(first_of_its_kind(keys, i as int));
        let a = choose|a: int| 0 <= a < kept.len() && kept[a] == i;
        assert(kept[a] == i);
    }
    assert forall|a: int| 0 <= a < kept.len() implies #[trigger] kept[a] < canonical.len() by {
        assert(first_of_its_kind(keys, kept[a] as int));
    }
}

/// Entries are looked at by name, and entries with the same name in the given order; each is
/// looked at once.
pub proof fn entries_are_looked_at_by_name(
    names: Seq<Seq<char>>,
    order: Seq<usize>,
    a: int,
    b: int,
)
    requires
        lists_all(order, names.len() as int),
        in_name_order(names, order),
    ensures
        order == name_order(names),
        order.len() == names.len(),
        0 <= a < b < order.len() ==> {
            let left = order[a];
            let right = order[b];
            &&& left != right
            &&& text::before(names[left as int], names[right as int]) || (names[left as int]
                == names[right as int] && left < right)
        },
        forall|i: usize| i < names.len() ==> #[trigger] order.contains(i),
{
    entry_order_is_unique(names, order);
    if 0 <= a < b < order.len() {
        assert(looked_at_before(names, order[a] as int, order[b] as int));
    }
}

/// A directory that exists is a plugin where a manifest lies in it, and is searched where none
/// does; one that does not exist is passed over.
pub proof fn directories_are_plugins_or_searched(has_manifest: bool)
    ensures
        directory_plan(false, has_manifest) == DirectoryPlan::Skip,
        directory_plan(true, true) == DirectoryPlan::LoadAsPlugin,
        directory_plan(true, false) == DirectoryPlan::ScanEntries,
{
}

/// Files that are zip archives and directories with a manifest are loaded, and nothing else is. An
/// entry that could not be inspected is reported.
pub proof fn archives_and_plugin_directories_are_loaded(entries: Seq<ScannedEntry>, index: usize)
    requires
        index < entries.len(),
    ensures
        ({
            let entry = entries[index as int];
            let facts = entry.inspected->Ok_0;
            let step = step_for(entries, index);
            &&& entry.inspected is Err ==> step == Some(
                ScanStepModel::Report { entry: index, error: entry.inspected->Err_0@ },
            )
            &&& entry.inspected is Ok ==> {
                &&& facts.is_file && facts.is_zip ==> step == Some(
                    ScanStepModel::LoadArchive { entry: index },
                ) && entry_plan(facts) == EntryPlan::LoadArchive
                &&& !(facts.is_file && facts.is_zip) && facts.is_directory && facts.has_manifest
                    ==> step == Some(ScanStepModel::LoadDirectory { entry: index }) && entry_plan(
                    facts,
                ) == EntryPlan::LoadDirectory
                &&& !(facts.is_file && facts.is_zip) && !(facts.is_directory && facts.has_manifest)
                    ==> step is None && entry_plan(facts) == EntryPlan::Ignore
            }
        }),
{
}

/// The steps of a scan follow the order of the entries: each entry adds its own step, if it has
/// one, at the end.
pub proof fn steps_follow_the_entries(
    entries: Seq<ScannedEntry>,
    order: Seq<usize>,
    index: usize,
)
    ensures
        steps_in_order(entries, Seq::empty()).len() == 0,
        steps_in_order(entries, order.push(index)) == if step_for(entries, index) is Some {
            steps_in_order(entries, order).push(step_for(entries, index)->0)
        } else {
            steps_in_order(entries, order)
        },
{
    assert(order.push(index).drop_last() == order);
}

/// Steps and entries are shown as they are.
pub proof fn scans_show_their_steps(
    steps: Seq<ScanStep>,
    entries: Seq<ScannedEntry>,
    entry: usize,
    error: String,
    at: int,
)
    ensures
        step_models(steps).len() == steps.len(),
        0 <= at < steps.len() ==> step_models(steps)[at] == steps[at].model(),
        entry_names(entries).len() == entries.len(),
        0 <= at < entries.len() ==> entry_names(entries)[at] == entries[at].name@,
        ScanStep::LoadArchive(entry).model() == (ScanStepModel::LoadArchive { entry }),
        ScanStep::LoadDirectory(entry).model() == (ScanStepModel::LoadDirectory { entry }),
        ScanStep::Report(entry, error).model() == (ScanStepModel::Report { entry, error: error@ }),
{
}

/// A report with one more error keeps what it had, and ends in the error with its name and its
/// message.
pub proof fn reports_grow_by_one_error(
    before: ScanReport,
    after: ScanReport,
    name: Seq<char>,
    message: Seq<char>,
)
    requires
        error_added(before, after, name, message),
    ensures
        after.bundles@ == before.bundles@,
        after.errors@.len() == before.errors@.len() + 1,
        forall|i: int| 0 <= i < before.errors@.len() ==> after.errors@[i] == before.errors@[i],
        after.errors@[before.errors@.len() as int].archive_name@ == name,
        after.errors@[before.errors@.len() as int].message@ == message,
{
    assert forall|i: int| 0 <= i < before.errors@.len() implies after.errors@[i]
        == before.errors@[i] by {
        assert(after.errors@.drop_last()[i] == after.errors@[i]);
    }
}

} // verus!

//! Which experiments a command acts on.

use vstd::prelude::*;
use vstd::string::*;

use crate::conf;
use crate::config;
use crate::experiments::enabled;
use crate::experiments::names::{self, ExperimentName};
use crate::experiments::target::{self, Profiles, ProfilesView, Target, TargetView};
use crate::log;
use crate::order;
use crate::text;

verus! {

pub const ENABLED_CONF: &'static str = "enabled.conf";

pub const COMPOSE_FILE: &'static str = "docker-compose.yml";

/// Where the compose file of the experiment `name` stands.
pub open spec fn compose_path(dir: Seq<char>, name: Seq<char>) -> Seq<char> {
    config::path_below(config::path_below(dir, name), COMPOSE_FILE@)
}

pub fn compose_file(dir: &str, name: &ExperimentName) -> (r: String)
    ensures
        r@ == compose_path(dir@, name@),
{
    config::join_path(config::join_path(dir, name.as_str()).as_str(), COMPOSE_FILE)
}

/// `targets`, with `target` among them: merged into the one of its name, if there is one.
pub open spec fn merged_into(targets: Seq<TargetView>, target: TargetView) -> Seq<TargetView> {
    if enabled::names_experiment(targets, target.name) {
        targets.map_values(
            |other: TargetView|
                if other.name == target.name {
                    TargetView {
                        profiles: target::merged_profiles(other.profiles, target.profiles),
                        ..other
                    }
                } else {
                    other
                },
        )
    } else {
        targets.push(target)
    }
}

/// `targets` with an experiment that is named more than once as one entry.
pub open spec fn merged_targets(targets: Seq<TargetView>) -> Seq<TargetView>
    decreases targets.len(),
{
    if targets.len() == 0 {
        targets
    } else {
        merged_into(merged_targets(targets.drop_last()), targets.last())
    }
}

/// Merging leaves each experiment on the list once.
pub proof fn merging_leaves_each_name_once(targets: Seq<TargetView>)
    ensures
        enabled::distinct_names(merged_targets(targets)),
    decreases targets.len(),
{
    if targets.len() > 0 {
        merging_leaves_each_name_once(targets.drop_last());
    }
}

/// Whether a service of the profile `name` runs under `profiles`.
pub open spec fn activates(profiles: ProfilesView, name: Seq<char>) -> bool {
    match profiles {
        ProfilesView::NoProfiles => false,
        ProfilesView::All => true,
        ProfilesView::Named(list) => list.contains(name),
    }
}

proof fn lemma_united(mine: Seq<Seq<char>>, other: Seq<Seq<char>>, name: Seq<char>)
    ensures
        target::united(mine, other).contains(name) <==> mine.contains(name) || other.contains(name),
    decreases other.len(),
{
    if other.len() > 0 {
        let before = target::united(mine, other.drop_last());
        lemma_united(mine, other.drop_last(), name);
        assert(other =~= other.drop_last().push(other.last()));
        vstd::seq_lib::lemma_seq_contains_after_push(other.drop_last(), other.last(), name);
        vstd::seq_lib::lemma_seq_contains_after_push(before, other.last(), name);
    }
}

/// Merged profiles activate what either of the two does, and nothing else.
pub proof fn merged_profiles_are_the_union(mine: ProfilesView, other: ProfilesView, name: Seq<char>)
    ensures
        activates(target::merged_profiles(mine, other), name) <==> activates(mine, name)
            || activates(other, name),
{
    if let (ProfilesView::Named(a), ProfilesView::Named(b)) = (mine, other) {
        lemma_united(a, b, name);
    }
}

/// Whether one of `targets` asks for the profile `profile` of the experiment `name`.
pub open spec fn asks_for(targets: Seq<TargetView>, name: Seq<char>, profile: Seq<char>) -> bool {
    exists|i: int|
        0 <= i < targets.len() && #[trigger] targets[i].name == name && activates(
            targets[i].profiles,
            profile,
        )
}

/// Merging loses no experiment and no profile, and adds none.
pub proof fn merging_keeps_what_is_asked_for(
    targets: Seq<TargetView>,
    name: Seq<char>,
    profile: Seq<char>,
)
    ensures
        enabled::names_experiment(merged_targets(targets), name) <==> enabled::names_experiment(
            targets,
            name,
        ),
        asks_for(merged_targets(targets), name, profile) <==> asks_for(targets, name, profile),
    decreases targets.len(),
{
    if targets.len() > 0 {
        let last = targets.last();
        let init = targets.drop_last();
        let before = merged_targets(init);
        let after = merged_targets(targets);
        merging_keeps_what_is_asked_for(init, name, profile);
        merging_keeps_what_is_asked_for(init, last.name, profile);
        assert(forall|i: int| 0 <= i < init.len() ==> init[i] == targets[i]);
        assert(targets[targets.len() - 1] == last);
        assert forall|i: int| 0 <= i < before.len() implies activates(
            #[trigger] target::merged_profiles(before[i].profiles, last.profiles),
            profile,
        ) == (activates(before[i].profiles, profile) || activates(last.profiles, profile)) by {
            merged_profiles_are_the_union(before[i].profiles, last.profiles, profile);
        }
        if enabled::names_experiment(before, last.name) {
            let k = choose|k: int| 0 <= k < before.len() && #[trigger] before[k].name == last.name;
            assert(after.len() == before.len());
            assert(forall|i: int|
                0 <= i < before.len() ==> (#[trigger] after[i]).name == before[i].name);
            assert(after[k].name == last.name);
            if enabled::names_experiment(before, name) {
                let j = choose|j: int| 0 <= j < before.len() && #[trigger] before[j].name == name;
                assert(after[j].name == name);
            }
            if asks_for(before, name, profile) {
                let j = choose|j: int|
                    0 <= j < before.len() && #[trigger] before[j].name == name && activates(
                        before[j].profiles,
                        profile,
                    );
                assert(after[j].name == name && activates(after[j].profiles, profile));
            }
        } else {
            assert(after == before.push(last));
            assert(after[before.len() as int] == last);
            if enabled::names_experiment(before, name) {
                let j = choose|j: int| 0 <= j < before.len() && #[trigger] before[j].name == name;
                assert(after[j].name == name);
            }
            if asks_for(before, name, profile) {
                let j = choose|j: int|
                    0 <= j < before.len() && #[trigger] before[j].name == name && activates(
                        before[j].profiles,
                        profile,
                    );
                assert(after[j] == before[j]);
            }
        }
        if enabled::names_experiment(init, name) {
            let j = choose|j: int| 0 <= j < init.len() && #[trigger] init[j].name == name;
            assert(targets[j].name == name);
        }
        if asks_for(init, name, profile) {
            let j = choose|j: int|
                0 <= j < init.len() && #[trigger] init[j].name == name && activates(
                    init[j].profiles,
                    profile,
                );
            assert(targets[j].name == name);
        }
    }
}

/// Collapses an experiment named more than once into one entry whose profiles are the union.
///
/// `start slam:gpu slam:debug` is one `up` with both profiles, not two conflicting ones: a stack
/// can only be brought up once per invocation, so the alternative is picking a winner.
pub fn merge_duplicates(targets: Vec<Target>) -> (r: Vec<Target>)
    ensures
        target::target_views(r@) == merged_targets(target::target_views(targets@)),
{
    let ghost views = target::target_views(targets@);
    let mut merged: Vec<Target> = Vec::new();
    let mut i: usize = 0;
    assert(views.take(0) =~= Seq::<TargetView>::empty());
    assert(target::target_views(merged@) =~= Seq::<TargetView>::empty());
    while i < targets.len()
        invariant
            i <= targets@.len(),
            views == target::target_views(targets@),
            target::target_views(merged@) == merged_targets(views.take(i as int)),
        decreases targets@.len() - i,
    {
        let ghost before = target::target_views(merged@);
        proof {
            merging_leaves_each_name_once(views.take(i as int));
            assert(views.take(i + 1).drop_last() =~= views.take(i as int));
            assert(views.take(i + 1).last() == targets@[i as int]@);
        }
        let mut at: usize = 0;
        while at < merged.len() && !text::same(
            merged[at].name.as_str(),
            targets[i].name.as_str(),
        )
            invariant
                at <= merged@.len(),
                i < targets@.len(),
                before == target::target_views(merged@),
                forall|j: int| 0 <= j < at ==> #[trigger] before[j].name != targets@[i as int]@.name,
            decreases merged@.len() - at,
        {
            assert(before[at as int] == merged@[at as int]@);
            at = at + 1;
        }
        if at < merged.len() {
            assert(before[at as int] == merged@[at as int]@);
            assert(before[at as int].name == targets@[i as int]@.name);
            let profiles: Profiles = merged[at].profiles.clone().merged(
                targets[i].profiles.clone(),
            );
            let target: Target = Target::new(merged[at].name.clone(), profiles);
            merged.set(at, target);
        } else {
            merged.push(targets[i].clone());
        }
        assert(target::target_views(merged@) =~= merged_into(before, targets@[i as int]@));
        i = i + 1;
    }
    assert(views.take(i as int) =~= views);
    merged
}

/// What to act on when the command line named nothing.
#[derive(Debug, Clone, Copy, PartialEq, Eq)]
pub enum Fallback {
    /// `enabled.conf`, with the profiles configured there.
    Enabled,
    /// Every stack directory that has a compose file.
    EverythingOnDisk,
}

/// What stands in the experiments directory.
#[derive(Debug, Clone, PartialEq, Eq)]
pub struct Disk {
    /// The names of the directory's entries: none if there is no such directory.
    pub entries: Vec<String>,
    /// The text of `enabled.conf`, if there is one.
    pub enabled_conf: Option<String>,
    /// The compose files that exist, as paths.
    pub compose_files: Vec<String>,
}

/// What a `Disk` holds.
#[verifier::ext_equal]
pub struct DiskView {
    pub entries: Seq<Seq<char>>,
    pub enabled_conf: Option<Seq<char>>,
    pub compose_files: Seq<Seq<char>>,
}

impl View for Disk {
    type V = DiskView;

    open spec fn view(&self) -> DiskView {
        DiskView {
            entries: text::views(self.entries@),
            enabled_conf: match self.enabled_conf {
                Some(text) => Some(text@),
                None => None,
            },
            compose_files: text::views(self.compose_files@),
        }
    }
}

/// Whether `list` holds `s`.
pub(crate) fn holds(list: &Vec<String>, s: &str) -> (r: bool)
    ensures
        r == text::views(list@).contains(s@),
{
    let ghost views = text::views(list@);
    let mut i: usize = 0;
    while i < list.len()
        invariant
            i <= list@.len(),
            views == text::views(list@),
            forall|j: int| 0 <= j < i ==> #[trigger] views[j] != s@,
        decreases list@.len() - i,
    {
        assert(views[i as int] == list@[i as int]@);
        if text::same(list[i].as_str(), s) {
            return true;
        }
        i = i + 1;
    }
    false
}

/// Whether the experiment `name` has a compose file among `files`.
pub open spec fn has_stack(files: Seq<Seq<char>>, dir: Seq<char>, name: Seq<char>) -> bool {
    files.contains(compose_path(dir, name))
}

pub(crate) fn stack_exists(files: &Vec<String>, dir: &str, name: &ExperimentName) -> (r: bool)
    ensures
        r == has_stack(text::views(files@), dir@, name@),
{
    holds(files, compose_file(dir, name).as_str())
}

/// The names of the stacks in `dir`: the entries that are experiments with a compose file.
pub open spec fn stack_names(disk: DiskView, dir: Seq<char>) -> Seq<Seq<char>> {
    disk.entries.filter(
        |name: Seq<char>|
            names::valid_experiment_name(name) && has_stack(disk.compose_files, dir, name),
    )
}

/// Every experiment directory that has a compose file, in name order.
///
/// Directory names that are not valid experiment names are ignored rather than reported: `/data`
/// is shared with docker, RAUC and journald, and whatever else lands in there is not ours to
/// complain about.
pub fn on_disk(dir: &str, disk: &Disk) -> (r: Vec<ExperimentName>)
    ensures
        names::name_views(r@) == order::arranged(stack_names(disk@, dir@)),
{
    broadcast use text::lemma_views_push;

    let ghost keep = |name: Seq<char>|
        names::valid_experiment_name(name) && has_stack(disk@.compose_files, dir@, name);
    let ghost views = disk@.entries;
    let mut found: Vec<String> = Vec::new();
    let mut i: usize = 0;
    proof {
        reveal(Seq::filter);
        assert(views.take(0) =~= Seq::<Seq<char>>::empty());
        assert(text::views(found@) =~= Seq::<Seq<char>>::empty());
    }
    while i < disk.entries.len()
        invariant
            i <= disk.entries@.len(),
            views == text::views(disk.entries@),
            keep == (|name: Seq<char>|
                names::valid_experiment_name(name) && has_stack(disk@.compose_files, dir@, name)),
            text::views(found@) == views.take(i as int).filter(keep),
            forall|j: int|
                0 <= j < found@.len() ==> names::valid_experiment_name(#[trigger] found@[j]@),
        decreases disk.entries@.len() - i,
    {
        proof {
            reveal(Seq::filter);
            assert(views.take(i + 1).drop_last() =~= views.take(i as int));
            assert(views.take(i + 1).last() == disk.entries@[i as int]@);
        }
        if let Ok(name) = ExperimentName::new(disk.entries[i].as_str()) {
            if stack_exists(&disk.compose_files, dir, &name) {
                found.push(disk.entries[i].clone());
            }
        }
        i = i + 1;
    }
    assert(views.take(i as int) =~= views);
    sort_names(found)
}

/// The experiments of the names `found`, in order.
pub(crate) fn sort_names(found: Vec<String>) -> (r: Vec<ExperimentName>)
    requires
        forall|i: int| 0 <= i < found@.len() ==> names::valid_experiment_name(#[trigger] found@[i]@),
    ensures
        names::name_views(r@) == order::arranged(text::views(found@)),
{
    let ghost given = text::views(found@);
    let sorted: Vec<String> = order::sort(found);
    let ghost all = text::views(sorted@);
    proof {
        broadcast use vstd::seq_lib::group_seq_properties;

        assert forall|i: int| 0 <= i < all.len() implies names::valid_experiment_name(
            #[trigger] all[i],
        ) by {
            assert(all.to_multiset().count(all[i]) > 0);
            assert(given.contains(all[i]));
            let j = choose|j: int| 0 <= j < given.len() && given[j] == all[i];
            assert(names::valid_experiment_name(found@[j]@));
        }
    }
    let mut out: Vec<ExperimentName> = Vec::new();
    let mut i: usize = 0;
    while i < sorted.len()
        invariant
            i <= sorted@.len(),
            all == text::views(sorted@),
            forall|i: int|
                0 <= i < all.len() ==> names::valid_experiment_name(#[trigger] all[i]),
            names::name_views(out@) == all.take(i as int),
        decreases sorted@.len() - i,
    {
        assert(names::valid_experiment_name(all[i as int]));
        let ghost before = names::name_views(out@);
        if let Ok(name) = ExperimentName::new(sorted[i].as_str()) {
            out.push(name);
            assert(names::name_views(out@) =~= before.push(all[i as int]));
        }
        assert(all.take(i + 1) =~= all.take(i as int).push(all[i as int]));
        i = i + 1;
    }
    assert(all.take(i as int) =~= all);
    out
}

/// What to act on, and what to log of how it was chosen.
#[derive(Debug, Clone, PartialEq, Eq)]
pub struct Selection {
    pub dir: String,
    pub targets: Vec<Target>,
    pub notices: Vec<String>,
}

/// What a `Selection` holds.
#[verifier::ext_equal]
pub struct SelectionView {
    pub dir: Seq<char>,
    pub targets: Seq<TargetView>,
    pub notices: Seq<Seq<char>>,
}

impl View for Selection {
    type V = SelectionView;

    open spec fn view(&self) -> SelectionView {
        SelectionView {
            dir: self.dir@,
            targets: target::target_views(self.targets@),
            notices: text::views(self.notices@),
        }
    }
}

/// The ones of `targets` that have a compose file.
pub open spec fn present(
    targets: Seq<TargetView>,
    files: Seq<Seq<char>>,
    dir: Seq<char>,
) -> Seq<TargetView> {
    targets.filter(|target: TargetView| has_stack(files, dir, target.name))
}

/// The ones of `targets` that have none.
pub open spec fn missing(
    targets: Seq<TargetView>,
    files: Seq<Seq<char>>,
    dir: Seq<char>,
) -> Seq<TargetView> {
    targets.filter(|target: TargetView| !has_stack(files, dir, target.name))
}

/// Parts `targets` into those that have a compose file and those that have none.
fn part(targets: Vec<Target>, files: &Vec<String>, dir: &str) -> (r: (Vec<Target>, Vec<Target>))
    ensures
        target::target_views(r.0@) == present(
            target::target_views(targets@),
            text::views(files@),
            dir@,
        ),
        target::target_views(r.1@) == missing(
            target::target_views(targets@),
            text::views(files@),
            dir@,
        ),
        target::target_views(r.1@).len() == 0 ==> target::target_views(r.0@)
            == target::target_views(targets@),
{
    let ghost views = target::target_views(targets@);
    let ghost keep = |target: TargetView| has_stack(text::views(files@), dir@, target.name);
    let ghost drop = |target: TargetView| !has_stack(text::views(files@), dir@, target.name);
    let mut kept: Vec<Target> = Vec::new();
    let mut dropped: Vec<Target> = Vec::new();
    let mut i: usize = 0;
    proof {
        reveal(Seq::filter);
        assert(views.take(0) =~= Seq::<TargetView>::empty());
        assert(target::target_views(kept@) =~= Seq::<TargetView>::empty());
        assert(target::target_views(dropped@) =~= Seq::<TargetView>::empty());
    }
    while i < targets.len()
        invariant
            i <= targets@.len(),
            views == target::target_views(targets@),
            keep == (|target: TargetView| has_stack(text::views(files@), dir@, target.name)),
            drop == (|target: TargetView| !has_stack(text::views(files@), dir@, target.name)),
            target::target_views(kept@) == views.take(i as int).filter(keep),
            target::target_views(dropped@) == views.take(i as int).filter(drop),
            target::target_views(dropped@).len() == 0 ==> target::target_views(kept@) == views.take(
                i as int,
            ),
        decreases targets@.len() - i,
    {
        proof {
            reveal(Seq::filter);
            assert(views.take(i + 1).drop_last() =~= views.take(i as int));
            assert(views.take(i + 1) =~= views.take(i as int).push(views[i as int]));
            assert(views.take(i + 1).last() == targets@[i as int]@);
        }
        let ghost before = target::target_views(kept@);
        let ghost others = target::target_views(dropped@);
        if stack_exists(files, dir, &targets[i].name) {
            kept.push(targets[i].clone());
            assert(target::target_views(kept@) =~= before.push(views[i as int]));
        } else {
            dropped.push(targets[i].clone());
            assert(target::target_views(dropped@) =~= others.push(views[i as int]));
        }
        i = i + 1;
    }
    assert(views.take(i as int) =~= views);
    (kept, dropped)
}

/// What is said of a named experiment without a compose file.
pub open spec fn missing_line(dir: Seq<char>, name: Seq<char>) -> Seq<char> {
    "  "@ + name + ": "@ + compose_path(dir, name) + " does not exist"@
}

/// What is said of named experiments without a compose file.
pub open spec fn missing_message(dir: Seq<char>, missing: Seq<TargetView>) -> Seq<char> {
    "no compose file for "@ + text::decimal(missing.len())
        + " of the named experiments (nothing was done):\n"@ + text::joined(
        missing.map_values(|target: TargetView| missing_line(dir, target.name)),
        "\n"@,
    )
}

fn describe_missing(dir: &str, missing: &Vec<Target>) -> (r: String)
    ensures
        r@ == missing_message(dir@, target::target_views(missing@)),
{
    let ghost views = target::target_views(missing@);
    let mut lines: Vec<String> = Vec::new();
    let mut i: usize = 0;
    while i < missing.len()
        invariant
            i <= missing@.len(),
            lines@.len() == i,
            forall|j: int|
                0 <= j < i ==> (#[trigger] lines@[j])@ == missing_line(dir@, missing@[j]@.name),
        decreases missing@.len() - i,
    {
        let name: &ExperimentName = &missing[i].name;
        lines.push(
            text::cat5(
                "  ",
                name.as_str(),
                ": ",
                compose_file(dir, name).as_str(),
                " does not exist",
            ),
        );
        i = i + 1;
    }
    assert(text::views(lines@) =~= views.map_values(
        |target: TargetView| missing_line(dir@, target.name),
    ));
    text::cat4(
        "no compose file for ",
        text::to_decimal(missing.len() as u64).as_str(),
        " of the named experiments (nothing was done):\n",
        text::join(&lines, "\n").as_str(),
    )
}

/// What is logged of the entries of `enabled.conf`: each that was rejected, and each that has no
/// compose file.
pub open spec fn enabled_report(
    list: enabled::EnabledView,
    files: Seq<Seq<char>>,
    dir: Seq<char>,
) -> Seq<Seq<char>> {
    let path = config::path_below(dir, ENABLED_CONF@);
    let rejected = list.warnings.map_values(
        |problem: Seq<char>| log::warn_line(path + ": "@ + problem),
    );
    if list.targets.len() == 0 {
        rejected.push(log::info_line("no experiments enabled in "@ + path))
    } else {
        rejected + missing(list.targets, files, dir).map_values(
            |target: TargetView|
                log::warn_line(
                    "skipping '"@ + target.name + "': no compose file at "@ + compose_path(
                        dir,
                        target.name,
                    ),
                ),
        )
    }
}

/// What `enabled.conf` asks for: its entries, but for those with no compose file, which are
/// dropped with a warning.
pub fn enabled_targets(dir: &str, disk: &Disk) -> (r: (Vec<Target>, Vec<String>))
    ensures
        target::target_views(r.0@) == present(
            enabled::enabled_of(conf::text_of(disk@.enabled_conf)).targets,
            disk@.compose_files,
            dir@,
        ),
        text::views(r.1@) == enabled_report(
            enabled::enabled_of(conf::text_of(disk@.enabled_conf)),
            disk@.compose_files,
            dir@,
        ),
{
    let path: String = config::join_path(dir, ENABLED_CONF);
    let list: enabled::EnabledList = match &disk.enabled_conf {
        Some(text) => enabled::parse_enabled(text.as_str()),
        None => enabled::parse_enabled(""),
    };
    proof {
        reveal_strlit("");
        assert(disk.enabled_conf is None ==> conf::text_of(disk@.enabled_conf) =~= ""@);
    }
    let ghost view = list@;
    let ghost rejected = view.warnings.map_values(
        |problem: Seq<char>| log::warn_line(path@ + ": "@ + problem),
    );
    let mut notices: Vec<String> = Vec::new();
    let mut i: usize = 0;
    while i < list.warnings.len()
        invariant
            i <= list.warnings@.len(),
            notices@.len() == i,
            forall|j: int|
                0 <= j < i ==> (#[trigger] notices@[j])@ == log::warn_line(
                    path@ + ": "@ + list.warnings@[j]@,
                ),
        decreases list.warnings@.len() - i,
    {
        let msg: String = text::cat3(path.as_str(), ": ", list.warnings[i].as_str());
        notices.push(log::warn(msg.as_str()));
        i = i + 1;
    }
    assert(text::views(notices@) =~= rejected);
    let targets: Vec<Target> = list.targets;
    if targets.len() == 0 {
        let msg: String = text::cat2("no experiments enabled in ", path.as_str());
        notices.push(log::info(msg.as_str()));
        proof {
            text::lemma_views_push(notices@.drop_last(), notices@.last());
            assert(notices@ =~= notices@.drop_last().push(notices@.last()));
            assert(text::views(notices@.drop_last()) =~= rejected);
            reveal(Seq::filter);
            assert(target::target_views(targets@) =~= Seq::<TargetView>::empty());
        }
        return (targets, notices);
    }
    let (kept, dropped): (Vec<Target>, Vec<Target>) = part(targets, &disk.compose_files, dir);
    let ghost skipped = target::target_views(dropped@).map_values(
        |target: TargetView|
            log::warn_line(
                "skipping '"@ + target.name + "': no compose file at "@ + compose_path(
                    dir@,
                    target.name,
                ),
            ),
    );
    let mut i: usize = 0;
    while i < dropped.len()
        invariant
            i <= dropped@.len(),
            skipped == target::target_views(dropped@).map_values(
                |target: TargetView|
                    log::warn_line(
                        "skipping '"@ + target.name + "': no compose file at "@ + compose_path(
                            dir@,
                            target.name,
                        ),
                    ),
            ),
            text::views(notices@) == rejected + skipped.take(i as int),
        decreases dropped@.len() - i,
    {
        let name: &ExperimentName = &dropped[i].name;
        let msg: String = text::cat4(
            "skipping '",
            name.as_str(),
            "': no compose file at ",
            compose_file(dir, name).as_str(),
        );
        let notice: String = log::warn(msg.as_str());
        proof {
            text::lemma_views_push(notices@, notice);
            assert(skipped[i as int] == notice@);
            assert((rejected + skipped.take(i as int)).push(notice@) =~= rejected + skipped.take(
                i + 1,
            ));
        }
        notices.push(notice);
        i = i + 1;
    }
    assert(skipped.take(i as int) =~= skipped);
    (kept, notices)
}

/// The stacks in `dir`, as targets about whose profiles nothing was said.
pub open spec fn stack_targets(disk: DiskView, dir: Seq<char>) -> Seq<TargetView> {
    order::arranged(stack_names(disk, dir)).map_values(
        |name: Seq<char>| TargetView { name, profiles: ProfilesView::NoProfiles },
    )
}

/// What a command acts on that names nothing.
pub open spec fn fallback_selection(
    fallback: Fallback,
    disk: DiskView,
    dir: Seq<char>,
) -> SelectionView {
    match fallback {
        Fallback::Enabled => {
            let list = enabled::enabled_of(conf::text_of(disk.enabled_conf));
            SelectionView {
                dir,
                targets: present(list.targets, disk.compose_files, dir),
                notices: enabled_report(list, disk.compose_files, dir),
            }
        },
        Fallback::EverythingOnDisk => SelectionView {
            dir,
            targets: stack_targets(disk, dir),
            notices: if stack_targets(disk, dir).len() == 0 {
                seq![log::info_line("no experiment stacks in "@ + dir)]
            } else {
                Seq::empty()
            },
        },
    }
}

/// What a command acts on that names `targets`.
pub open spec fn selection_of(
    targets: Seq<TargetView>,
    fallback: Fallback,
    disk: DiskView,
    dir: Seq<char>,
) -> Result<SelectionView, Seq<char>> {
    if targets.len() > 0 {
        let targets = merged_targets(targets);
        let missing = missing(targets, disk.compose_files, dir);
        if missing.len() > 0 {
            Err(missing_message(dir, missing))
        } else {
            Ok(SelectionView { dir, targets, notices: Seq::empty() })
        }
    } else {
        Ok(fallback_selection(fallback, disk, dir))
    }
}

/// The stacks in `dir`, as targets about whose profiles nothing was said.
fn everything_on_disk(dir: &str, disk: &Disk) -> (r: Vec<Target>)
    ensures
        target::target_views(r@) == stack_targets(disk@, dir@),
{
    let names: Vec<ExperimentName> = on_disk(dir, disk);
    let ghost views = names::name_views(names@);
    let mut targets: Vec<Target> = Vec::new();
    let mut i: usize = 0;
    while i < names.len()
        invariant
            i <= names@.len(),
            targets@.len() == i,
            views == names::name_views(names@),
            forall|j: int|
                0 <= j < i ==> (#[trigger] targets@[j])@ == (TargetView {
                    name: views[j],
                    profiles: ProfilesView::NoProfiles,
                }),
        decreases names@.len() - i,
    {
        targets.push(Target::new(names[i].clone(), Profiles::NoProfiles));
        i = i + 1;
    }
    assert(target::target_views(targets@) =~= stack_targets(disk@, dir@));
    targets
}

/// Turns what the command line asked for into the exact list to act on.
///
/// Explicitly named experiments are validated up front and a missing one is fatal *before*
/// anything is started or stopped: an argument is a direct instruction, and half-executing it
/// after a typo is worse than executing none of it. Names that come from `enabled.conf` get
/// a softer treatment (a warning and a skip) because that file is read unattended at boot, where
/// refusing to start the other four stacks helps nobody.
pub fn select(dir: &str, targets: Vec<Target>, fallback: Fallback, disk: &Disk) -> (r: Result<
    Selection,
    String,
>)
    ensures
        r matches Ok(selection) ==> selection_of(
            target::target_views(targets@),
            fallback,
            disk@,
            dir@,
        ) == Ok::<SelectionView, Seq<char>>(selection@),
        r matches Err(message) ==> selection_of(
            target::target_views(targets@),
            fallback,
            disk@,
            dir@,
        ) == Err::<SelectionView, Seq<char>>(message@),
{
    let ghost views = target::target_views(targets@);
    let mut notices: Vec<String> = Vec::new();
    assert(text::views(notices@) =~= Seq::<Seq<char>>::empty());
    if targets.len() > 0 {
        let merged: Vec<Target> = merge_duplicates(targets);
        let (kept, missing): (Vec<Target>, Vec<Target>) = part(merged, &disk.compose_files, dir);
        if missing.len() > 0 {
            return Err(describe_missing(dir, &missing));
        }
        return Ok(Selection { dir: dir.to_owned(), targets: kept, notices });
    }
    match fallback {
        Fallback::Enabled => {
            let (targets, notices): (Vec<Target>, Vec<String>) = enabled_targets(dir, disk);
            Ok(Selection { dir: dir.to_owned(), targets, notices })
        },
        Fallback::EverythingOnDisk => {
            let targets: Vec<Target> = everything_on_disk(dir, disk);
            if targets.len() == 0 {
                let msg: String = text::cat2("no experiment stacks in ", dir);
                notices.push(log::info(msg.as_str()));
                assert(text::views(notices@) =~= seq![
                    log::info_line("no experiment stacks in "@ + dir@),
                ]);
            }
            Ok(Selection { dir: dir.to_owned(), targets, notices })
        },
    }
}

/// Naming experiments is all or nothing: the command goes ahead if and only if each of them has a
/// compose file.
pub proof fn naming_is_all_or_nothing(
    targets: Seq<TargetView>,
    fallback: Fallback,
    disk: DiskView,
    dir: Seq<char>,
)
    requires
        targets.len() > 0,
    ensures
        selection_of(targets, fallback, disk, dir) is Ok <==> forall|i: int|
            0 <= i < targets.len() ==> has_stack(
                disk.compose_files,
                dir,
                #[trigger] targets[i].name,
            ),
{
    let merged = merged_targets(targets);
    let bad = |target: TargetView| !has_stack(disk.compose_files, dir, target.name);
    let lost = missing(merged, disk.compose_files, dir);
    if lost.len() > 0 {
        let name = lost[0].name;
        merged.lemma_filter_pred(bad, 0);
        assert(bad(lost[0]));
        lemma_filter_source(merged, bad, 0);
        let k = choose|k: int| 0 <= k < merged.len() && merged[k] == lost[0];
        assert(merged[k].name == name);
        merging_keeps_what_is_asked_for(targets, name, name);
        let i = choose|i: int| 0 <= i < targets.len() && #[trigger] targets[i].name == name;
        assert(!has_stack(disk.compose_files, dir, targets[i].name));
    } else {
        assert forall|i: int| 0 <= i < targets.len() implies has_stack(
            disk.compose_files,
            dir,
            #[trigger] targets[i].name,
        ) by {
            let name = targets[i].name;
            merging_keeps_what_is_asked_for(targets, name, name);
            let k = choose|k: int| 0 <= k < merged.len() && #[trigger] merged[k].name == name;
            if bad(merged[k]) {
                merged.lemma_filter_contains(bad, k);
            }
        }
    }
}

proof fn lemma_filter_source<A>(list: Seq<A>, keep: spec_fn(A) -> bool, i: int)
    requires
        0 <= i < list.filter(keep).len(),
    ensures
        list.contains(list.filter(keep)[i]),
    decreases list.len(),
{
    reveal(Seq::filter);
    if list.len() > 0 {
        let init = list.drop_last();
        if i < init.filter(keep).len() {
            lemma_filter_source(init, keep, i);
            let j = choose|j: int| 0 <= j < init.len() && init[j] == init.filter(keep)[i];
            assert(list[j] == list.filter(keep)[i]);
        } else {
            assert(list[list.len() - 1] == list.filter(keep)[i]);
        }
    }
}

/// Whatever a command acts on has a compose file.
pub proof fn what_is_selected_exists(
    targets: Seq<TargetView>,
    fallback: Fallback,
    disk: DiskView,
    dir: Seq<char>,
    i: int,
)
    requires
        selection_of(targets, fallback, disk, dir) is Ok,
        0 <= i < selection_of(targets, fallback, disk, dir)->Ok_0.targets.len(),
    ensures
        has_stack(
            disk.compose_files,
            dir,
            selection_of(targets, fallback, disk, dir)->Ok_0.targets[i].name,
        ),
{
    let selected = selection_of(targets, fallback, disk, dir)->Ok_0.targets;
    if targets.len() > 0 {
        let bad = |target: TargetView| !has_stack(disk.compose_files, dir, target.name);
        if bad(selected[i]) {
            merged_targets(targets).lemma_filter_contains(bad, i);
        }
    } else if fallback == Fallback::Enabled {
        let list = enabled::enabled_of(conf::text_of(disk.enabled_conf));
        let good = |target: TargetView| has_stack(disk.compose_files, dir, target.name);
        list.targets.lemma_filter_pred(good, i);
    } else {
        broadcast use vstd::seq_lib::group_seq_properties;

        let keep = |name: Seq<char>|
            names::valid_experiment_name(name) && has_stack(disk.compose_files, dir, name);
        let found = stack_names(disk, dir);
        let all = order::arranged(found);
        order::arranged_is_a_sorting(found);
        assert(all.to_multiset().count(all[i]) > 0);
        assert(found.contains(all[i]));
        let j = choose|j: int| 0 <= j < found.len() && found[j] == all[i];
        disk.entries.lemma_filter_pred(keep, j);
    }
}

/// No stack on disk is left out when a command sweeps everything, whether it is enabled or not.
pub proof fn the_sweep_misses_no_stack(disk: DiskView, dir: Seq<char>, name: Seq<char>)
    requires
        disk.entries.contains(name),
        names::valid_experiment_name(name),
        has_stack(disk.compose_files, dir, name),
    ensures
        enabled::names_experiment(
            fallback_selection(Fallback::EverythingOnDisk, disk, dir).targets,
            name,
        ),
{
    broadcast use vstd::seq_lib::group_seq_properties;

    let keep = |name: Seq<char>|
        names::valid_experiment_name(name) && has_stack(disk.compose_files, dir, name);
    let found = stack_names(disk, dir);
    let all = order::arranged(found);
    let k = choose|k: int| 0 <= k < disk.entries.len() && disk.entries[k] == name;
    disk.entries.lemma_filter_contains(keep, k);
    order::arranged_is_a_sorting(found);
    assert(found.to_multiset().count(name) > 0);
    assert(all.contains(name));
    let j = choose|j: int| 0 <= j < all.len() && all[j] == name;
    assert(stack_targets(disk, dir)[j].name == name);
}

} // verus!

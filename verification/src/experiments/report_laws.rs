//! What the experiment commands keep, refuse and report, stated apart from how they do it.

use vstd::prelude::*;
use vstd::string::*;

use crate::command::Exit;
use crate::config;
use crate::experiments::enabled;
use crate::experiments::list::{self, RowView};
use crate::experiments::names::{self, ExperimentNameError, ProfileNameError};
use crate::experiments::run::{self, StartView, StopView};
use crate::experiments::select::{self, DiskView, Fallback, SelectionView};
use crate::experiments::target::{self, TargetErrorView, TargetView};
use crate::order;
use crate::text;

verus! {

/// A run starts at the first target of its selection, with nothing pulled and nothing failed.
pub proof fn a_run_starts_at_its_first_target(
    selection: SelectionView,
    settings_path: Seq<char>,
    ignore: bool,
)
    ensures
        ({
            let start = run::start_of(selection, settings_path, ignore);
            let stop = run::stop_of(selection);
            &&& start.at == 0 && stop.at == 0
            &&& start.targets == selection.targets && stop.targets == selection.targets
            &&& start.dir == selection.dir && stop.dir == selection.dir
            &&& start.failed.len() == 0 && stop.failed.len() == 0
            &&& !start.pulled
            &&& start.ignore_pull_failures == ignore
            &&& start.settings_path == settings_path
        }),
{
}

/// A start keeps to what it was asked for, whatever becomes of its steps.
pub proof fn a_start_keeps_to_its_selection(run: StartView, success: bool)
    ensures
        ({
            let next = run.after(success);
            &&& next.targets == run.targets
            &&& next.dir == run.dir
            &&& next.ignore_pull_failures == run.ignore_pull_failures
            &&& next.settings_path == run.settings_path
            &&& run.failed.len() <= next.failed.len() <= run.failed.len() + 1
            &&& next.failed.take(run.failed.len() as int) == run.failed
            &&& success ==> next.failed == run.failed
            &&& run.done() ==> next == run
        }),
{
    assert(run.after(success).failed.take(run.failed.len() as int) =~= run.failed);
}

/// What a step is announced with says what is done, and to which experiment.
pub proof fn a_step_is_announced(start: StartView, stop: StopView)
    ensures
        start.step() matches Some(step) ==> step.heading == "[INFO] "@ + ((if start.pulled {
            "starting experiment '"@
        } else {
            "pulling images for experiment '"@
        }) + target::target_text(start.targets[start.at as int]) + "'"@),
        stop.step() matches Some(step) ==> step.heading == "[INFO] "@ + ("stopping experiment '"@
            + target::target_text(stop.targets[stop.at as int]) + "'"@),
{
}

/// A failure is an error that names the experiment, but for a pull that may fail: that is a
/// warning.
pub proof fn a_failure_names_its_experiment(start: StartView, stop: StopView, exit: Exit)
    requires
        !(exit is Success),
        !start.done(),
        !stop.done(),
    ensures
        start.notices(exit).len() == 1,
        text::has_prefix(
            start.notices(exit)[0],
            (if !start.pulled && start.ignore_pull_failures {
                "[WARN] "@
            } else {
                "[ERROR] "@
            }) + (if start.pulled {
                "failed to start experiment '"@
            } else {
                "pull failed for '"@
            }) + start.targets[start.at as int].name + "'"@,
        ),
        stop.notices(exit).len() == 1,
        text::has_prefix(
            stop.notices(exit)[0],
            "[ERROR] "@ + "failed to stop experiment '"@ + stop.targets[stop.at as int].name + "'"@,
        ),
{
    let name = start.targets[start.at as int].name;
    reveal_strlit("': ");
    reveal_strlit("' (");
    reveal_strlit("'");
    assert("': "@ =~= "'"@ + seq![':', ' ']);
    assert("' ("@ =~= "'"@ + seq![' ', '(']);
    let line = start.notices(exit)[0];
    if start.pulled {
        let head = "[ERROR] "@ + "failed to start experiment '"@ + name + "'"@;
        assert(line.subrange(0, head.len() as int) =~= head);
    } else if start.ignore_pull_failures {
        let head = "[WARN] "@ + "pull failed for '"@ + name + "'"@;
        assert(line.subrange(0, head.len() as int) =~= head);
    } else {
        let head = "[ERROR] "@ + "pull failed for '"@ + name + "'"@;
        assert(line.subrange(0, head.len() as int) =~= head);
    }
    let other = stop.notices(exit)[0];
    let head = "[ERROR] "@ + "failed to stop experiment '"@ + stop.targets[stop.at as int].name
        + "'"@;
    assert(other.subrange(0, head.len() as int) =~= head);
}

/// The summary of a run counts what failed out of all, and names every one.
pub proof fn a_summary_counts_what_failed(failed: Seq<Seq<char>>, total: nat, verb: Seq<char>)
    ensures
        run::report_message(failed, total, verb) == "failed to "@ + verb + " "@ + text::decimal(
            failed.len(),
        ) + " of "@ + text::decimal(total) + " experiments: "@ + text::joined(failed, ", "@),
{
}

/// The settings stand in a file of their own among the experiments.
pub proof fn the_settings_stand_among_the_experiments(paths: config::PathsView)
    ensures
        run::settings_path_of(paths) == config::path_below(
            config::path_below(paths.data_dir, "experiments"@),
            "experiments.conf"@,
        ),
{
}

/// Whether a name may hold `c`: a letter, a digit, a dot, an underscore or a hyphen.
pub open spec fn may_hold(c: char) -> bool {
    ('a' <= c && c <= 'z') || ('A' <= c && c <= 'Z') || ('0' <= c && c <= '9') || c == '.' || c
        == '_' || c == '-'
}

/// An experiment's name holds letters, digits, dots, underscores and hyphens, and does not start
/// with a dot; a profile's starts with a letter or a digit. So neither reaches out of a directory.
pub proof fn names_hold_harmless_characters(name: Seq<char>)
    ensures
        names::valid_experiment_name(name) <==> name.len() > 0 && name[0] != '.' && forall|i: int|
            0 <= i < name.len() ==> may_hold(#[trigger] name[i]),
        names::valid_profile_name(name) <==> name.len() > 0 && name[0] != '.' && name[0] != '_'
            && name[0] != '-' && forall|i: int| 0 <= i < name.len() ==> may_hold(#[trigger] name[i]),
        names::valid_experiment_name(name) ==> !name.contains('/') && !name.contains('\\')
            && !name.contains(':'),
        names::valid_profile_name(name) ==> !name.contains(',') && !name.contains('*'),
{
    assert forall|i: int| 0 <= i < name.len() implies names::is_name_char(#[trigger] name[i])
        == may_hold(name[i]) by {}
    if name.len() > 0 {
        assert(names::is_name_char(name[0]) == may_hold(name[0]));
    }
}

/// The first rule that an experiment's name breaks is the one it is refused for.
pub proof fn an_experiment_name_is_refused_for_its_first_fault(name: Seq<char>)
    ensures
        names::experiment_name_fault(name) == Some(ExperimentNameError::Empty) <==> name.len() == 0,
        names::experiment_name_fault(name) == Some(ExperimentNameError::PathSeparator)
            <==> name.contains('/') || name.contains('\\'),
        names::experiment_name_fault(name) == Some(ExperimentNameError::RelativeComponent) <==> name
            == seq!['.'] || name == seq!['.', '.'],
        names::experiment_name_fault(name) == Some(ExperimentNameError::HiddenName) <==> name.len()
            > 0 && name[0] == '.' && name != seq!['.'] && name != seq!['.', '.'] && !name.contains(
            '/',
        ) && !name.contains('\\'),
        names::experiment_name_fault(name) matches Some(
            ExperimentNameError::InvalidCharacter { found },
        ) ==> name.contains(found) && !may_hold(found),
{
    let bad = |c: char| !names::is_name_char(c);
    text::lemma_position_where(name, bad);
    let at = text::position_where(name, bad);
    if at < name.len() {
        assert(bad(name[at]));
        assert(name.contains(name[at]));
    }
    if name == seq!['.'] || name == seq!['.', '.'] {
        assert(!name.contains('/') && !name.contains('\\'));
    }
}

/// The first rule that a profile's name breaks is the one it is refused for.
pub proof fn a_profile_name_is_refused_for_its_first_fault(name: Seq<char>)
    ensures
        names::profile_name_fault(name) == Some(ProfileNameError::Empty) <==> name.len() == 0,
        names::profile_name_fault(name) matches Some(ProfileNameError::InvalidStart { found })
            ==> found == name[0] && !(('a' <= found && found <= 'z') || ('A' <= found && found <= 'Z')
            || ('0' <= found && found <= '9')),
        names::profile_name_fault(name) matches Some(ProfileNameError::InvalidCharacter { found })
            ==> name.contains(found) && !may_hold(found),
{
    let bad = |c: char| !names::is_name_char(c);
    text::lemma_position_where(name, bad);
    let at = text::position_where(name, bad);
    if at < name.len() {
        assert(bad(name[at]));
        assert(name.contains(name[at]));
    }
}

/// A list of profiles grows by each that is valid and new; the first that is not a valid one
/// spoils it, and so does an asterisk.
pub proof fn a_list_of_profiles_grows_by_what_is_new(entries: Seq<Seq<char>>, entry: Seq<char>)
    ensures
        target::profiles_of(entries) is Err ==> target::profiles_of(entries.push(entry))
            == target::profiles_of(entries),
        target::profiles_of(entries) matches Ok(before) ==> ({
            let word = text::trimmed(entry);
            let after = target::profiles_of(entries.push(entry));
            if names::valid_profile_name(word) {
                if before.contains(word) {
                    after == Ok::<Seq<Seq<char>>, TargetErrorView>(before)
                } else {
                    after == Ok::<Seq<Seq<char>>, TargetErrorView>(before.push(word))
                }
            } else if word == seq!['*'] {
                after == Err::<Seq<Seq<char>>, TargetErrorView>(TargetErrorView::WildcardWithOthers)
            } else {
                after matches Err(TargetErrorView::Profile { profile, source }) && profile == word
            }
        }),
        target::profiles_of(Seq::empty()) == Ok::<Seq<Seq<char>>, TargetErrorView>(Seq::empty()),
{
    let word = text::trimmed(entry);
    assert(entries.push(entry).drop_last() =~= entries);
    reveal_strlit("*");
    assert("*"@ =~= seq!['*']);
    names::profile_name_is_valid_or_faulty(word);
    if names::valid_profile_name(word) {
        assert(text::is_alphanumeric(word[0]));
        assert(word[0] != '*');
    }
}

/// A target with a bad name is refused for it, whatever profiles it asks for.
pub proof fn a_bad_name_is_refused_first(name: Seq<char>, suffix: Seq<char>)
    requires
        !names::valid_experiment_name(name),
    ensures
        target::target_with(name, suffix) matches Err(TargetErrorView::Name { name: refused, source })
            && refused == name && Some(source) == names::experiment_name_fault(name),
{
    names::experiment_name_is_valid_or_faulty(name);
}

/// Targets that are named once each are left as they are, in their order.
pub proof fn distinct_targets_are_left_as_they_are(targets: Seq<TargetView>)
    requires
        enabled::distinct_names(targets),
    ensures
        select::merged_targets(targets) == targets,
    decreases targets.len(),
{
    if targets.len() > 0 {
        let init = targets.drop_last();
        let last = targets.last();
        assert forall|i: int, j: int| 0 <= i < j < init.len() implies (#[trigger] init[i]).name != (
        #[trigger] init[j]).name by {
            assert(init[i] == targets[i] && init[j] == targets[j]);
        }
        distinct_targets_are_left_as_they_are(init);
        assert(!enabled::names_experiment(init, last.name)) by {
            if enabled::names_experiment(init, last.name) {
                let i = choose|i: int| 0 <= i < init.len() && #[trigger] init[i].name == last.name;
                assert(targets[i].name == targets[targets.len() - 1].name);
            }
        }
        assert(init.push(last) =~= targets);
    }
}

/// The boot starts what is enabled in the order of the file: everything, if nothing is missing.
pub proof fn the_boot_keeps_the_order_of_the_file(disk: DiskView, dir: Seq<char>)
    requires
        forall|i: int|
            0 <= i < list::enabled_on(disk).len() ==> select::has_stack(
                disk.compose_files,
                dir,
                (#[trigger] list::enabled_on(disk)[i]).name,
            ),
    ensures
        select::fallback_selection(Fallback::Enabled, disk, dir).targets == list::enabled_on(disk),
{
    lemma_all_present(list::enabled_on(disk), disk.compose_files, dir);
}

proof fn lemma_all_present(targets: Seq<TargetView>, files: Seq<Seq<char>>, dir: Seq<char>)
    requires
        forall|i: int|
            0 <= i < targets.len() ==> select::has_stack(files, dir, (#[trigger] targets[i]).name),
    ensures
        select::present(targets, files, dir) == targets,
    decreases targets.len(),
{
    reveal(Seq::filter);
    if targets.len() > 0 {
        let init = targets.drop_last();
        assert forall|i: int| 0 <= i < init.len() implies select::has_stack(
            files,
            dir,
            (#[trigger] init[i]).name,
        ) by {
            assert(init[i] == targets[i]);
        }
        lemma_all_present(init, files, dir);
        assert(select::has_stack(files, dir, targets[targets.len() - 1].name));
        assert(init.push(targets.last()) =~= targets);
    } else {
        assert(select::present(targets, files, dir) =~= targets);
    }
}

/// Every warning about the file is logged as one, with the path of the file; so is every entry
/// without a compose file, with its name; and that nothing is enabled is no warning.
pub proof fn what_is_wrong_with_the_file_is_logged(
    listed: enabled::EnabledView,
    files: Seq<Seq<char>>,
    dir: Seq<char>,
    i: int,
)
    ensures
        0 <= i < listed.warnings.len() ==> select::enabled_report(listed, files, dir)[i]
            == "[WARN] "@ + (config::path_below(dir, "enabled.conf"@) + ": "@ + listed.warnings[i]),
        listed.targets.len() == 0 ==> select::enabled_report(listed, files, dir).last() == "[INFO] "@
            + ("no experiments enabled in "@ + config::path_below(dir, "enabled.conf"@)),
        listed.targets.len() > 0 && 0 <= i < select::missing(listed.targets, files, dir).len()
            ==> text::has_prefix(
            select::enabled_report(listed, files, dir)[listed.warnings.len() + i],
            "[WARN] "@ + "skipping '"@ + select::missing(listed.targets, files, dir)[i].name + "'"@,
        ),
{
    if listed.targets.len() > 0 && 0 <= i < select::missing(listed.targets, files, dir).len() {
        let name = select::missing(listed.targets, files, dir)[i].name;
        let line = select::enabled_report(listed, files, dir)[listed.warnings.len() + i];
        let head = "[WARN] "@ + "skipping '"@ + name + "'"@;
        reveal_strlit("'");
        reveal_strlit("': no compose file at ");
        assert("': no compose file at "@[0] == '\'');
        assert(line.subrange(0, head.len() as int) =~= head);
    }
}

/// A command that names experiments without a compose file is told how many there are, that
/// nothing was done, and where each was looked for.
pub proof fn missing_stacks_are_named(dir: Seq<char>, missing: Seq<TargetView>, i: int)
    requires
        0 <= i < missing.len(),
    ensures
        select::missing_message(dir, missing) == "no compose file for "@ + text::decimal(
            missing.len(),
        ) + " of the named experiments (nothing was done):\n"@ + text::joined(
            missing.map_values(|target: TargetView| select::missing_line(dir, target.name)),
            "\n"@,
        ),
        select::missing_line(dir, missing[i].name) == "  "@ + missing[i].name + ": "@
            + config::path_below(config::path_below(dir, missing[i].name), "docker-compose.yml"@)
            + " does not exist"@,
{
}

/// The words for yes and for no, in either case, are told apart; no other word is either.
pub proof fn a_boolean_is_one_of_its_words(value: Seq<char>)
    ensures
        ({
            let word = text::lowered(text::trimmed(value));
            let yes = word == "true"@ || word == "yes"@ || word == "on"@ || word == "1"@;
            let no = word == "false"@ || word == "no"@ || word == "off"@ || word == "0"@;
            &&& !(yes && no)
            &&& enabled::bool_of(value) == Some(true) <==> yes
            &&& enabled::bool_of(value) == Some(false) <==> no
            &&& enabled::bool_of(value) is None <==> !yes && !no
        }),
{
    reveal_strlit("true");
    reveal_strlit("yes");
    reveal_strlit("on");
    reveal_strlit("1");
    reveal_strlit("false");
    reveal_strlit("no");
    reveal_strlit("off");
    reveal_strlit("0");
    assert("true"@.len() == 4 && "yes"@.len() == 3 && "on"@.len() == 2 && "1"@.len() == 1);
    assert("false"@.len() == 5 && "no"@.len() == 2 && "off"@.len() == 3 && "0"@.len() == 1);
    assert("yes"@[0] == 'y' && "off"@[0] == 'o' && "on"@[0] == 'o' && "no"@[0] == 'n');
    assert("1"@[0] == '1' && "0"@[0] == '0');
}

/// What decides how failed pulls are treated is logged: the command line, where it does, and what
/// is wrong with the file, where that does.
pub proof fn what_decides_is_logged(settings: Option<Seq<char>>, path: Seq<char>, asked: bool)
    ensures
        enabled::run_report(
            enabled::StartOptions { ignore_pull_failures: Some(asked) },
            settings,
            path,
        ).len() == 1,
        enabled::run_report(
            enabled::StartOptions { ignore_pull_failures: None },
            settings,
            path,
        ) == enabled::ignore_report(settings, path),
{
}

/// The table has a header and a line for each row, in order.
pub proof fn the_table_has_a_line_for_each_row(rows: Seq<RowView>) -> (lines: Seq<Seq<char>>)
    ensures
        list::table_of(rows) == text::unlines(lines),
        lines.len() == rows.len() + 1,
        lines[0] == list::line_of(
            RowView {
                name: "NAME"@,
                enabled: "ENABLED"@,
                configured: "CONFIGURED"@,
                available: "AVAILABLE PROFILES"@,
            },
            list::widths_of(rows),
        ),
        forall|i: int|
            0 <= i < rows.len() ==> #[trigger] lines[i + 1] == list::line_of(
                rows[i],
                list::widths_of(rows),
            ),
{
    seq![list::line_of(list::header_row(), list::widths_of(rows))] + rows.map_values(
        |row: RowView| list::line_of(row, list::widths_of(rows)),
    )
}

/// An experiment is listed if and only if it is enabled, or on disk with a compose file; the list
/// is in order.
pub proof fn what_is_enabled_or_on_disk_is_listed(disk: DiskView, dir: Seq<char>, name: Seq<char>)
    ensures
        list::listed(disk, dir).contains(name) <==> enabled::names_experiment(
            list::enabled_on(disk),
            name,
        ) || select::stack_names(disk, dir).contains(name),
        order::sorted(list::listed(disk, dir)),
{
    broadcast use vstd::seq_lib::group_seq_properties;

    let stacks = select::stack_names(disk, dir);
    let sorted = order::arranged(stacks);
    let all = list::with_targets(sorted, list::enabled_on(disk));
    let listed = list::listed(disk, dir);
    order::arranged_is_a_sorting(stacks);
    order::arranged_is_a_sorting(all);
    lemma_with_targets(sorted, list::enabled_on(disk), name);
    assert(stacks.contains(name) <==> stacks.to_multiset().count(name) > 0);
    assert(sorted.contains(name) <==> sorted.to_multiset().count(name) > 0);
    assert(all.contains(name) <==> all.to_multiset().count(name) > 0);
    assert(listed.contains(name) <==> listed.to_multiset().count(name) > 0);
}

proof fn lemma_with_targets(found: Seq<Seq<char>>, targets: Seq<TargetView>, name: Seq<char>)
    ensures
        list::with_targets(found, targets).contains(name) <==> found.contains(name)
            || enabled::names_experiment(targets, name),
    decreases targets.len(),
{
    if targets.len() > 0 {
        let init = targets.drop_last();
        let before = list::with_targets(found, init);
        lemma_with_targets(found, init, name);
        vstd::seq_lib::lemma_seq_contains_after_push(before, targets.last().name, name);
        if enabled::names_experiment(init, name) {
            let i = choose|i: int| 0 <= i < init.len() && #[trigger] init[i].name == name;
            assert(targets[i].name == name);
        }
        if enabled::names_experiment(targets, name) {
            let i = choose|i: int| 0 <= i < targets.len() && #[trigger] targets[i].name == name;
            if i < init.len() {
                assert(init[i].name == name);
            }
        }
        if targets.last().name == name {
            assert(targets[targets.len() - 1].name == name);
        }
    }
}

/// An entry of the directory is a stack if and only if its name is valid and it has a compose
/// file.
pub proof fn a_stack_has_a_valid_name_and_a_file(disk: DiskView, dir: Seq<char>, name: Seq<char>)
    ensures
        select::stack_names(disk, dir).contains(name) <==> disk.entries.contains(name)
            && names::valid_experiment_name(name) && disk.compose_files.contains(
            config::path_below(config::path_below(dir, name), "docker-compose.yml"@),
        ),
{
    let keep = |n: Seq<char>|
        names::valid_experiment_name(n) && select::has_stack(disk.compose_files, dir, n);
    lemma_kept(disk.entries, keep, name);
}

proof fn lemma_kept(entries: Seq<Seq<char>>, keep: spec_fn(Seq<char>) -> bool, name: Seq<char>)
    ensures
        entries.filter(keep).contains(name) <==> entries.contains(name) && keep(name),
    decreases entries.len(),
{
    reveal(Seq::filter);
    if entries.len() > 0 {
        let init = entries.drop_last();
        lemma_kept(init, keep, name);
        assert(entries =~= init.push(entries.last()));
        vstd::seq_lib::lemma_seq_contains_after_push(init, entries.last(), name);
        vstd::seq_lib::lemma_seq_contains_after_push(init.filter(keep), entries.last(), name);
    }
}

} // verus!

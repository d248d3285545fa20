//! What the experiment commands are for, stated apart from how they are put together.

use vstd::prelude::*;
use vstd::string::*;

use crate::command::Exit;
use crate::conf;
use crate::config;
use crate::experiments::enabled::{self, StartOptions};
use crate::experiments::list::{self, DeclaredView, RowView};
use crate::experiments::names;
use crate::experiments::run::{self, QueryView, StartView, StopView};
use crate::experiments::select::{self, DiskView, Fallback};
use crate::experiments::target::{self, ProfilesView, TargetErrorView, TargetView};
use crate::order;
use crate::text;

verus! {

/// Whether `args` hand docker compose the file and the directory of the experiment `name` below
/// `dir`, then exactly the profiles `profiles`, and then `verb`.
pub open spec fn composes(
    args: Seq<Seq<char>>,
    dir: Seq<char>,
    name: Seq<char>,
    profiles: Seq<Seq<char>>,
    verb: Seq<Seq<char>>,
) -> bool {
    &&& args.len() == 5 + 2 * profiles.len() + verb.len()
    &&& args[0] == "compose"@
    &&& args[1] == "-f"@
    &&& args[2] == config::path_below(config::path_below(dir, name), "docker-compose.yml"@)
    &&& args[3] == "--project-directory"@
    &&& args[4] == config::path_below(dir, name)
    &&& forall|k: int| 0 <= k < profiles.len() ==> #[trigger] args[5 + 2 * k] == "--profile"@
    &&& forall|k: int| 0 <= k < profiles.len() ==> args[6 + 2 * k] == #[trigger] profiles[k]
    &&& args.skip(5 + 2 * profiles.len() as int) == verb
}

/// What compose is told to activate for a target's profiles: each that is named, and `*` for all.
pub open spec fn activated(profiles: ProfilesView) -> Seq<Seq<char>> {
    match profiles {
        ProfilesView::NoProfiles => Seq::empty(),
        ProfilesView::All => seq!["*"@],
        ProfilesView::Named(list) => list,
    }
}

proof fn lemma_named_flags(list: Seq<Seq<char>>)
    ensures
        target::named_flags(list).len() == 2 * list.len(),
        forall|k: int|
            0 <= k < list.len() ==> #[trigger] target::named_flags(list)[2 * k] == "--profile"@,
        forall|k: int|
            0 <= k < list.len() ==> target::named_flags(list)[2 * k + 1] == #[trigger] list[k],
    decreases list.len(),
{
    if list.len() > 0 {
        let init = list.drop_last();
        lemma_named_flags(init);
        let before = target::named_flags(init);
        let flags = target::named_flags(list);
        assert forall|k: int| 0 <= k < list.len() implies #[trigger] flags[2 * k] == "--profile"@ by {
            if k < init.len() {
                assert(flags[2 * k] == before[2 * k]);
            }
        }
        assert forall|k: int| 0 <= k < list.len() implies flags[2 * k + 1] == #[trigger] list[k] by {
            if k < init.len() {
                assert(flags[2 * k + 1] == before[2 * k + 1]);
                assert(init[k] == list[k]);
            }
        }
    }
}

/// docker compose is told the experiment's own file and directory, and its profiles before the
/// verb: every one of them, and no other.
pub proof fn compose_is_told_the_profiles(
    dir: Seq<char>,
    name: Seq<char>,
    profiles: ProfilesView,
    verb: Seq<Seq<char>>,
)
    ensures
        composes(
            run::compose_args_of(dir, name, profiles, verb),
            dir,
            name,
            activated(profiles),
            verb,
        ),
{
    let args = run::compose_args_of(dir, name, profiles, verb);
    let flags = target::profile_flags(profiles);
    let list = activated(profiles);
    if let ProfilesView::Named(named) = profiles {
        lemma_named_flags(named);
    }
    assert(flags.len() == 2 * list.len());
    assert forall|k: int| 0 <= k < list.len() implies #[trigger] args[5 + 2 * k] == "--profile"@ by {
        assert(args[5 + 2 * k] == flags[2 * k]);
    }
    assert forall|k: int| 0 <= k < list.len() implies args[6 + 2 * k] == #[trigger] list[k] by {
        assert(args[6 + 2 * k] == flags[2 * k + 1]);
    }
    assert(args.skip(5 + 2 * list.len() as int) =~= verb);
}

/// A start acts on the target at hand, with the profiles that the target asks for, in the pull
/// just as in bringing it up; it has a next step until every target is dealt with.
pub proof fn a_start_acts_with_the_targets_profiles(run: StartView)
    ensures
        run.step() is None <==> run.at >= run.targets.len(),
        run.step() matches Some(step) ==> {
            let target = run.targets[run.at as int];
            &&& step.command.program == "docker"@
            &&& composes(
                step.command.args,
                run.dir,
                target.name,
                activated(target.profiles),
                if run.pulled {
                    seq!["up"@, "-d"@, "--remove-orphans"@]
                } else {
                    seq!["pull"@, "--quiet"@]
                },
            )
        },
{
    if run.at < run.targets.len() {
        let target = run.targets[run.at as int];
        compose_is_told_the_profiles(run.dir, target.name, target.profiles, run::up_verb());
        compose_is_told_the_profiles(run.dir, target.name, target.profiles, run::pull_verb());
    }
}

/// What pulls for a target and what brings it up activate the same profiles.
pub proof fn pull_and_up_activate_the_same_profiles(run: StartView, profile: Seq<char>)
    requires
        !run.done(),
        !run.pulled,
        select::activates(run.targets[run.at as int].profiles, profile),
    ensures
        ({
            let next = run.after(true);
            &&& next.pulled
            &&& next.at == run.at
            &&& given(run.step()->0.command.args, profile) && given(
                next.step()->0.command.args,
                profile,
            )
        }),
{
    let next = run.after(true);
    a_start_acts_with_the_targets_profiles(run);
    a_start_acts_with_the_targets_profiles(next);
    let list = activated(run.targets[run.at as int].profiles);
    let a = run.step()->0.command.args;
    let b = next.step()->0.command.args;
    let k = match run.targets[run.at as int].profiles {
        ProfilesView::Named(named) => choose|k: int| 0 <= k < named.len() && named[k] == profile,
        _ => 0,
    };
    assert(a[5 + 2 * k] == "--profile"@ && a[6 + 2 * k] == list[k]);
    assert(b[5 + 2 * k] == "--profile"@ && b[6 + 2 * k] == list[k]);
}

/// Whether `args` activate `profile`, by its name or with all others.
pub open spec fn given(args: Seq<Seq<char>>, profile: Seq<char>) -> bool {
    exists|i: int|
        0 <= i && i + 1 < args.len() && #[trigger] args[i] == "--profile"@ && (args[i + 1] == profile
            || args[i + 1] == "*"@)
}

/// A start logs something if and only if the step at hand failed: once.
pub proof fn a_start_logs_its_failures(run: StartView, exit: Exit)
    ensures
        run.notices(exit).len() == if run.at < run.targets.len() && !(exit is Success) {
            1nat
        } else {
            0nat
        },
{
}

/// A stop takes down the target at hand: the profiles that the caller narrowed it to, and else all
/// of them and the orphans.
pub proof fn a_stop_takes_down_what_is_asked_for(run: StopView)
    ensures
        run.step() is None <==> run.at >= run.targets.len(),
        run.step() matches Some(step) ==> {
            let target = run.targets[run.at as int];
            &&& step.command.program == "docker"@
            &&& match target.profiles {
                ProfilesView::Named(list) => composes(
                    step.command.args,
                    run.dir,
                    target.name,
                    list,
                    seq!["down"@],
                ),
                _ => composes(
                    step.command.args,
                    run.dir,
                    target.name,
                    seq!["*"@],
                    seq!["down"@, "--remove-orphans"@],
                ),
            }
        },
{
    if run.at < run.targets.len() {
        let target = run.targets[run.at as int];
        compose_is_told_the_profiles(run.dir, target.name, target.profiles, seq!["down"@]);
        compose_is_told_the_profiles(
            run.dir,
            target.name,
            ProfilesView::All,
            seq!["down"@, "--remove-orphans"@],
        );
    }
}

/// A stop goes on to the next target whatever became of the one at hand, which counts as failed if
/// and only if it was not taken down, and logs that once.
pub proof fn a_stop_goes_on_after_a_failure(run: StopView, exit: Exit)
    requires
        run.at < run.targets.len(),
    ensures
        ({
            let next = run.after(exit is Success);
            &&& next.at == run.at + 1
            &&& next.targets == run.targets
            &&& next.dir == run.dir
            &&& next.failed == if exit is Success {
                run.failed
            } else {
                run.failed.push(run.targets[run.at as int].name)
            }
        }),
        run.notices(exit).len() == if exit is Success {
            0nat
        } else {
            1nat
        },
{
}

/// A query asks for the containers of the target at hand, under its own profiles, and goes on
/// whatever came of it.
pub proof fn a_query_asks_for_every_target(run: QueryView, exit: Exit)
    ensures
        run.step() is None <==> run.at >= run.targets.len(),
        run.step() matches Some(step) ==> {
            let target = run.targets[run.at as int];
            &&& step.command.program == "docker"@
            &&& composes(
                step.command.args,
                run.dir,
                target.name,
                activated(target.profiles),
                seq!["ps"@],
            )
            &&& step.heading == "== "@ + target::target_text(target) + " =="@
            &&& run.next().at == run.at + 1
            &&& run.next().targets == run.targets
        },
        run.notices(exit).len() == if run.at < run.targets.len() && !(exit is Success) {
            1nat
        } else {
            0nat
        },
{
    if run.at < run.targets.len() {
        let target = run.targets[run.at as int];
        compose_is_told_the_profiles(run.dir, target.name, target.profiles, seq!["ps"@]);
    }
}

/// A command that failed is told apart by how: it exited badly, or could not be run.
pub proof fn a_failed_compose_says_how(verb: Seq<char>, exit: Exit)
    ensures
        run::compose_failure(verb, exit) is None <==> exit is Success,
        exit matches Exit::Failure { status } ==> (run::compose_failure(verb, exit) matches Some(err)
            && err == "`docker compose "@ + verb + "` exited with "@ + status@),
        exit matches Exit::NotRun { err } ==> (run::compose_failure(verb, exit) matches Some(message)
            && message == "running `docker compose "@ + verb + "`: "@ + err@),
{
}

proof fn lemma_profile_chars(name: Seq<char>)
    requires
        names::valid_profile_name(name),
    ensures
        text::trimmed(name) == name,
        !name.contains(','),
        name.len() > 0,
        !text::is_whitespace(name[0]),
        !text::is_whitespace(name[name.len() - 1]),
        name[0] != '*',
{
    assert(names::is_name_char(name[0]));
    assert(names::is_name_char(name[name.len() - 1]));
    assert forall|i: int| 0 <= i < name.len() implies name[i] != ',' by {
        assert(names::is_name_char(name[i]));
    }
    assert(text::trim_start_of(name) == name);
    assert(text::trim_end_of(name) == name);
}

proof fn lemma_profiles_read(list: Seq<Seq<char>>)
    requires
        list.no_duplicates(),
        forall|i: int| 0 <= i < list.len() ==> names::valid_profile_name(#[trigger] list[i]),
    ensures
        target::profiles_of(list) == Ok::<Seq<Seq<char>>, TargetErrorView>(list),
    decreases list.len(),
{
    if list.len() > 0 {
        let init = list.drop_last();
        assert forall|i: int| 0 <= i < init.len() implies names::valid_profile_name(
            #[trigger] init[i],
        ) by {
            assert(init[i] == list[i]);
        }
        lemma_profiles_read(init);
        let last = list.last();
        assert(names::valid_profile_name(list[list.len() - 1]));
        lemma_profile_chars(last);
        names::profile_name_is_valid_or_faulty(last);
        reveal_strlit("*");
        assert(last != "*"@);
        assert(!init.contains(last)) by {
            if init.contains(last) {
                let i = choose|i: int| 0 <= i < init.len() && init[i] == last;
                assert(list[i] == list[list.len() - 1]);
            }
        }
        assert(init.push(last) =~= list);
    } else {
        assert(list =~= Seq::<Seq<char>>::empty());
    }
}

proof fn lemma_joined_ends(list: Seq<Seq<char>>)
    requires
        list.len() > 0,
        forall|i: int| 0 <= i < list.len() ==> names::valid_profile_name(#[trigger] list[i]),
    ensures
        ({
            let whole = text::joined(list, ","@);
            &&& whole.len() > 0
            &&& whole[0] == list[0][0]
            &&& whole[whole.len() - 1] == list.last().last()
        }),
    decreases list.len(),
{
    assert(names::valid_profile_name(list[0]));
    assert(names::valid_profile_name(list[list.len() - 1]));
    if list.len() > 1 {
        let init = list.drop_last();
        assert forall|i: int| 0 <= i < init.len() implies names::valid_profile_name(
            #[trigger] init[i],
        ) by {
            assert(init[i] == list[i]);
        }
        lemma_joined_ends(init);
    }
}

/// A target that is written out as `name:profile,...` is read as that name and those profiles, in
/// their order; `name:*` as all of them.
pub proof fn a_written_target_reads_back(name: Seq<char>, list: Seq<Seq<char>>)
    requires
        names::valid_experiment_name(name),
        list.len() > 0,
        list.no_duplicates(),
        forall|i: int| 0 <= i < list.len() ==> names::valid_profile_name(#[trigger] list[i]),
    ensures
        target::target_of(name + seq![':'] + text::joined(list, ","@)) == Ok::<
            TargetView,
            TargetErrorView,
        >(TargetView { name, profiles: ProfilesView::Named(list) }),
        target::target_of(name + seq![':'] + seq!['*']) == Ok::<TargetView, TargetErrorView>(
            TargetView { name, profiles: ProfilesView::All },
        ),
{
    reveal_strlit(",");
    reveal_strlit("*");
    assert(","@ =~= seq![',']);
    assert("*"@ =~= seq!['*']);
    names::experiment_name_is_valid_or_faulty(name);
    assert(names::is_name_char(name[0]));
    assert(names::is_name_char(name[name.len() - 1]));
    assert(text::trim_start_of(name) == name);
    assert(text::trim_end_of(name) == name);
    let whole = text::joined(list, ","@);
    assert(names::valid_profile_name(list[0]));
    assert(names::valid_profile_name(list[list.len() - 1]));
    lemma_profile_chars(list[0]);
    lemma_profile_chars(list[list.len() - 1]);
    lemma_joined_ends(list);
    assert forall|i: int| 0 <= i < list.len() implies !(#[trigger] list[i]).contains(',') by {
        assert(names::valid_profile_name(list[i]));
        lemma_profile_chars(list[i]);
    }
    text::splitting_undoes_joining(list, ","@, ',');
    lemma_profiles_read(list);
    assert(whole != "*"@);
    lemma_colon(name, whole);
    lemma_colon(name, seq!['*']);
}

proof fn lemma_colon(name: Seq<char>, suffix: Seq<char>)
    requires
        names::valid_experiment_name(name),
        suffix.len() > 0,
        !text::is_whitespace(suffix[0]),
        !text::is_whitespace(suffix[suffix.len() - 1]),
    ensures
        text::trimmed(name + seq![':'] + suffix) == name + seq![':'] + suffix,
        text::split_once_of(name + seq![':'] + suffix, ':') == Some((name, suffix)),
        text::trimmed(suffix) == suffix,
{
    let spec = name + seq![':'] + suffix;
    assert(names::is_name_char(name[0]));
    assert(spec[0] == name[0]);
    assert(spec.last() == suffix.last());
    assert(text::trim_start_of(spec) == spec);
    assert(text::trim_end_of(spec) == spec);
    assert(text::trim_start_of(suffix) == suffix);
    assert(text::trim_end_of(suffix) == suffix);
    assert forall|i: int| 0 <= i < name.len() implies spec[i] != ':' by {
        assert(names::is_name_char(name[i]));
        assert(spec[i] == name[i]);
    }
    assert(spec[name.len() as int] == ':');
    text::lemma_position_is(spec, ':', name.len() as int);
    assert(spec.take(name.len() as int) =~= name);
    assert(spec.skip(name.len() as int + 1) =~= suffix);
}

/// What is shown of a target starts with its name, and names its profiles, if there are any.
pub proof fn a_target_is_shown_with_its_profiles(name: Seq<char>, profiles: ProfilesView)
    ensures
        target::target_text(TargetView { name, profiles }) == match profiles {
            ProfilesView::NoProfiles => name,
            ProfilesView::All => name + " (profiles: "@ + "*"@ + ")"@,
            ProfilesView::Named(list) => {
                name + " (profiles: "@ + text::joined(list, ", "@) + ")"@
            },
        },
{
}

/// A line of `enabled.conf` that says something either enables its experiment or is warned of,
/// never both: it enables it if it reads as a target that no line before it names. A blank line or
/// a comment does neither.
pub proof fn every_line_enables_or_is_warned_of(lines: Seq<Seq<char>>, line: Seq<char>)
    ensures
        ({
            let before = enabled::enabled_by(lines);
            let after = enabled::enabled_by(lines.push(line));
            let words = text::trimmed(line);
            if words.len() == 0 || words[0] == '#' {
                after == before
            } else {
                match target::target_of(words) {
                    Ok(found) if !enabled::names_experiment(before.targets, found.name) => {
                        &&& after.targets == before.targets.push(found)
                        &&& after.warnings == before.warnings
                    },
                    _ => {
                        &&& after.targets == before.targets
                        &&& after.warnings.len() == before.warnings.len() + 1
                        &&& after.warnings.drop_last() == before.warnings
                        &&& text::has_prefix(
                            after.warnings.last(),
                            "line "@ + text::decimal(lines.len() + 1),
                        )
                    },
                }
            }
        }),
{
    assert(lines.push(line).drop_last() =~= lines);
    let before = enabled::enabled_by(lines);
    let after = enabled::enabled_by(lines.push(line));
    let words = text::trimmed(line);
    let label = "line "@ + text::decimal(lines.len() + 1);
    if words.len() > 0 && words[0] != '#' && after.warnings.len() > before.warnings.len() {
        assert(after.warnings.drop_last() =~= before.warnings);
        assert(after.warnings.last().subrange(0, label.len() as int) =~= label);
    }
}

/// The command line decides how failed pulls are treated, whichever way and whatever the file
/// says; where it says nothing, the file does.
pub proof fn the_command_line_goes_before_the_file(settings: Option<Seq<char>>, asked: bool)
    ensures
        enabled::run_ignores(StartOptions { ignore_pull_failures: Some(asked) }, settings) == asked,
        enabled::run_ignores(StartOptions { ignore_pull_failures: None }, settings)
            == enabled::pull_failures_ignored(settings),
{
}

/// The file makes failed pulls non-fatal if and only if it says so in so many words.
pub proof fn pulls_are_fatal_unless_the_file_says_otherwise(settings: Option<Seq<char>>)
    ensures
        enabled::pull_failures_ignored(settings) <==> (settings matches Some(text) && (
        conf::value_of(text, "IGNORE_PULL_FAILURES"@) matches Some(raw) && ({
            let word = text::lowered(text::trimmed(raw));
            word == "true"@ || word == "yes"@ || word == "on"@ || word == "1"@
        }))),
{
}

/// A value that is no boolean is warned of, once, and nothing else is.
pub proof fn what_is_no_boolean_is_warned_of(settings: Option<Seq<char>>, path: Seq<char>)
    ensures
        enabled::ignore_report(settings, path).len() == if (settings matches Some(text) && (
        conf::value_of(text, "IGNORE_PULL_FAILURES"@) matches Some(raw) && enabled::bool_of(raw) is None)) {
            1nat
        } else {
            0nat
        },
{
}

proof fn lemma_filter_is(list: Seq<TargetView>, keep: spec_fn(TargetView) -> bool, t: TargetView)
    ensures
        list.filter(keep).contains(t) <==> list.contains(t) && keep(t),
    decreases list.len(),
{
    reveal(Seq::filter);
    if list.len() > 0 {
        let init = list.drop_last();
        lemma_filter_is(init, keep, t);
        assert(list =~= init.push(list.last()));
        vstd::seq_lib::lemma_seq_contains_after_push(init, list.last(), t);
        vstd::seq_lib::lemma_seq_contains_after_push(init.filter(keep), list.last(), t);
    }
}

/// A command that names nothing and falls back on `enabled.conf` acts on exactly the targets that
/// the file enables and that have a compose file, with the profiles configured there.
pub proof fn the_boot_acts_on_what_is_enabled(disk: DiskView, dir: Seq<char>, t: TargetView)
    ensures
        select::fallback_selection(Fallback::Enabled, disk, dir).targets.contains(t)
            <==> enabled::enabled_of(conf::text_of(disk.enabled_conf)).targets.contains(t)
            && disk.compose_files.contains(
            config::path_below(config::path_below(dir, t.name), "docker-compose.yml"@),
        ),
        select::fallback_selection(Fallback::Enabled, disk, dir).dir == dir,
{
    let list = enabled::enabled_of(conf::text_of(disk.enabled_conf)).targets;
    lemma_filter_is(
        list,
        |target: TargetView| select::has_stack(disk.compose_files, dir, target.name),
        t,
    );
}

/// Every entry of `enabled.conf` that is not acted on is logged: once for each that was rejected,
/// once for each without a compose file, and once if nothing is enabled at all.
pub proof fn what_is_not_enabled_is_logged(disk: DiskView, dir: Seq<char>)
    ensures
        ({
            let list = enabled::enabled_of(conf::text_of(disk.enabled_conf));
            let selection = select::fallback_selection(Fallback::Enabled, disk, dir);
            selection.notices.len() + selection.targets.len() == list.warnings.len()
                + list.targets.len() + if list.targets.len() == 0 {
                1nat
            } else {
                0nat
            }
        }),
{
    let list = enabled::enabled_of(conf::text_of(disk.enabled_conf));
    lemma_parts(list.targets, disk.compose_files, dir);
}

proof fn lemma_parts(list: Seq<TargetView>, files: Seq<Seq<char>>, dir: Seq<char>)
    ensures
        select::present(list, files, dir).len() + select::missing(list, files, dir).len()
            == list.len(),
    decreases list.len(),
{
    reveal(Seq::filter);
    if list.len() > 0 {
        lemma_parts(list.drop_last(), files, dir);
    }
}

/// A command that names experiments acts on those, each once, with all the profiles that were
/// asked for of it, in the directory it is given; it logs nothing about `enabled.conf`.
pub proof fn naming_acts_on_what_is_named(
    targets: Seq<TargetView>,
    fallback: Fallback,
    disk: DiskView,
    dir: Seq<char>,
    name: Seq<char>,
    profile: Seq<char>,
)
    requires
        targets.len() > 0,
        select::selection_of(targets, fallback, disk, dir) is Ok,
    ensures
        ({
            let selection = select::selection_of(targets, fallback, disk, dir)->Ok_0;
            &&& enabled::distinct_names(selection.targets)
            &&& enabled::names_experiment(selection.targets, name) <==> enabled::names_experiment(
                targets,
                name,
            )
            &&& select::asks_for(selection.targets, name, profile) <==> select::asks_for(
                targets,
                name,
                profile,
            )
            &&& selection.dir == dir
            &&& selection.notices.len() == 0
        }),
{
    select::merging_leaves_each_name_once(targets);
    select::merging_keeps_what_is_asked_for(targets, name, profile);
}

/// A sweep acts on the stacks in name order, says nothing about their profiles, and logs only that
/// there are none.
pub proof fn a_sweep_is_in_name_order(disk: DiskView, dir: Seq<char>)
    ensures
        ({
            let selection = select::fallback_selection(Fallback::EverythingOnDisk, disk, dir);
            &&& selection.dir == dir
            &&& forall|i: int|
                0 <= i < selection.targets.len() ==> (#[trigger] selection.targets[i]).profiles
                    == ProfilesView::NoProfiles
            &&& forall|i: int, j: int|
                0 <= i <= j < selection.targets.len() ==> order::at_most(
                    (#[trigger] selection.targets[i]).name,
                    (#[trigger] selection.targets[j]).name,
                )
            &&& selection.notices.len() == if selection.targets.len() == 0 {
                1nat
            } else {
                0nat
            }
        }),
{
    let found = select::stack_names(disk, dir);
    order::arranged_is_a_sorting(found);
    let all = order::arranged(found);
    let targets = select::stack_targets(disk, dir);
    assert forall|i: int, j: int| 0 <= i <= j < targets.len() implies order::at_most(
        (#[trigger] targets[i]).name,
        (#[trigger] targets[j]).name,
    ) by {
        assert(targets[i].name == all[i]);
        assert(targets[j].name == all[j]);
    }
}

/// The table says of an experiment whether it is enabled, and with which profiles; a dash stands
/// for none.
pub proof fn a_row_shows_what_is_configured(
    name: Seq<char>,
    dir: Seq<char>,
    disk: DiskView,
    answers: Seq<DeclaredView>,
)
    ensures
        ({
            let row = list::row_of(name, dir, disk, answers);
            let targets = enabled::enabled_of(conf::text_of(disk.enabled_conf)).targets;
            &&& row.name == name
            &&& row.enabled == if enabled::names_experiment(targets, name) {
                "yes"@
            } else {
                "no"@
            }
            &&& !enabled::names_experiment(targets, name) ==> row.configured == "-"@
            &&& forall|i: int|
                0 <= i < targets.len() && (#[trigger] targets[i]).name == name ==> row.configured
                    == match targets[i].profiles {
                    ProfilesView::NoProfiles => "-"@,
                    ProfilesView::All => "*"@,
                    ProfilesView::Named(named) => if text::joined(named, ", "@).len() == 0 {
                        "-"@
                    } else {
                        text::joined(named, ", "@)
                    },
                }
        }),
{
    let text = conf::text_of(disk.enabled_conf);
    let targets = enabled::enabled_of(text).targets;
    enabled::enabled_names_are_distinct(text::lines_of(text));
    lemma_configured(targets, name);
    reveal_strlit("*");
}

proof fn lemma_configured(targets: Seq<TargetView>, name: Seq<char>)
    requires
        enabled::distinct_names(targets),
    ensures
        list::configured_for(targets, name) is Some <==> enabled::names_experiment(targets, name),
        forall|i: int|
            0 <= i < targets.len() && (#[trigger] targets[i]).name == name ==> list::configured_for(
                targets,
                name,
            ) == Some(targets[i].profiles),
    decreases targets.len(),
{
    if targets.len() > 0 {
        let rest = targets.drop_first();
        assert forall|i: int, j: int| 0 <= i < j < rest.len() implies (#[trigger] rest[i]).name
            != (#[trigger] rest[j]).name by {
            assert(rest[i] == targets[i + 1]);
            assert(rest[j] == targets[j + 1]);
        }
        lemma_configured(rest, name);
        assert forall|i: int| 0 <= i < targets.len() && (#[trigger] targets[i]).name
            == name implies list::configured_for(targets, name) == Some(targets[i].profiles) by {
            if i > 0 {
                assert(rest[i - 1] == targets[i]);
                assert(targets[0].name != targets[i].name);
            }
        }
        if enabled::names_experiment(rest, name) {
            let i = choose|i: int| 0 <= i < rest.len() && (#[trigger] rest[i]).name == name;
            assert(targets[i + 1].name == name);
        }
        if enabled::names_experiment(targets, name) && targets[0].name != name {
            let i = choose|i: int| 0 <= i < targets.len() && (#[trigger] targets[i]).name == name;
            assert(rest[i - 1].name == name);
        }
    }
}

/// The table says of an experiment which profiles its compose file declares, where compose
/// answered; that it did not; or that there is no file.
pub proof fn a_row_shows_what_is_available(
    name: Seq<char>,
    dir: Seq<char>,
    disk: DiskView,
    answers: Seq<DeclaredView>,
    i: int,
)
    requires
        0 <= i < answers.len(),
        answers[i].name == name,
        forall|j: int| 0 <= j < i ==> (#[trigger] answers[j]).name != name,
    ensures
        ({
            let row = list::row_of(name, dir, disk, answers);
            if !disk.compose_files.contains(
                config::path_below(config::path_below(dir, name), "docker-compose.yml"@),
            ) {
                row.available == "(no compose file)"@
            } else {
                row.available == match answers[i].stdout {
                    None => "?"@,
                    Some(stdout) => if list::declared_of(stdout).len() == 0 {
                        "-"@
                    } else {
                        text::joined(list::declared_of(stdout), ", "@)
                    },
                }
            }
        }),
{
    lemma_answer(answers, name, i);
}

proof fn lemma_answer(answers: Seq<DeclaredView>, name: Seq<char>, i: int)
    requires
        0 <= i < answers.len(),
        answers[i].name == name,
        forall|j: int| 0 <= j < i ==> (#[trigger] answers[j]).name != name,
    ensures
        list::answer_for(answers, name) == answers[i].stdout,
    decreases answers.len(),
{
    if i > 0 {
        let rest = answers.drop_first();
        assert(answers[0].name != name);
        assert forall|j: int| 0 <= j < i - 1 implies (#[trigger] rest[j]).name != name by {
            assert(rest[j] == answers[j + 1]);
        }
        lemma_answer(rest, name, i - 1);
    }
}

/// The declared profiles are the lines that compose prints, blank ones aside, in order.
pub proof fn declared_profiles_are_the_printed_lines(stdout: Seq<char>, profile: Seq<char>)
    ensures
        list::declared_of(stdout).contains(profile) <==> profile.len() > 0 && exists|i: int|
            0 <= i < text::lines_of(stdout).len() && text::trimmed(
                #[trigger] text::lines_of(stdout)[i],
            ) == profile,
        order::sorted(list::declared_of(stdout)),
{
    broadcast use vstd::seq_lib::group_seq_properties;

    let lines = text::lines_of(stdout);
    let found = list::lines_with_text(lines);
    let all = list::declared_of(stdout);
    order::arranged_is_a_sorting(found);
    lemma_lines_with_text(lines, profile);
    assert(found.contains(profile) <==> found.to_multiset().count(profile) > 0);
    assert(all.contains(profile) <==> all.to_multiset().count(profile) > 0);
}

proof fn lemma_lines_with_text(lines: Seq<Seq<char>>, s: Seq<char>)
    ensures
        list::lines_with_text(lines).contains(s) <==> s.len() > 0 && exists|i: int|
            0 <= i < lines.len() && text::trimmed(#[trigger] lines[i]) == s,
    decreases lines.len(),
{
    if lines.len() > 0 {
        let init = lines.drop_last();
        let last = text::trimmed(lines.last());
        lemma_lines_with_text(init, s);
        vstd::seq_lib::lemma_seq_contains_after_push(list::lines_with_text(init), last, s);
        assert(lines[lines.len() - 1] == lines.last());
        if exists|i: int| 0 <= i < init.len() && text::trimmed(#[trigger] init[i]) == s {
            let i = choose|i: int| 0 <= i < init.len() && text::trimmed(#[trigger] init[i]) == s;
            assert(text::trimmed(lines[i]) == s);
        }
        if exists|i: int| 0 <= i < lines.len() && text::trimmed(#[trigger] lines[i]) == s {
            let i = choose|i: int| 0 <= i < lines.len() && text::trimmed(#[trigger] lines[i]) == s;
            if i < init.len() {
                assert(text::trimmed(init[i]) == s);
            }
        }
    }
}

proof fn lemma_width(header: Seq<char>, cells: Seq<Seq<char>>)
    ensures
        list::width_of(header, cells) >= header.len(),
        forall|i: int| 0 <= i < cells.len() ==> list::width_of(header, cells) >= (#[trigger] cells[i]).len(),
        list::width_of(header, cells) == header.len() || exists|i: int|
            0 <= i < cells.len() && list::width_of(header, cells) == (#[trigger] cells[i]).len(),
    decreases cells.len(),
{
    if cells.len() > 0 {
        let init = cells.drop_last();
        lemma_width(header, init);
        assert forall|i: int| 0 <= i < cells.len() implies list::width_of(header, cells) >= (
        #[trigger] cells[i]).len() by {
            if i < init.len() {
                assert(init[i] == cells[i]);
            }
        }
        assert(cells[cells.len() - 1] == cells.last());
        if list::width_of(header, cells) == list::width_of(header, init) && list::width_of(
            header,
            init,
        ) != header.len() {
            let i = choose|i: int|
                0 <= i < init.len() && list::width_of(header, init) == (#[trigger] init[i]).len();
            assert(cells[i] == init[i]);
        }
    }
}

/// A column is wide enough for its header and for every cell, and no wider.
pub proof fn columns_fit_their_cells(rows: Seq<RowView>)
    ensures
        ({
            let widths = list::widths_of(rows);
            &&& widths.0 >= "NAME"@.len() && widths.1 >= "ENABLED"@.len() && widths.2
                >= "CONFIGURED"@.len()
            &&& forall|i: int|
                0 <= i < rows.len() ==> widths.0 >= (#[trigger] rows[i]).name.len() && widths.1
                    >= rows[i].enabled.len() && widths.2 >= rows[i].configured.len()
            &&& widths.0 == "NAME"@.len() || exists|i: int|
                0 <= i < rows.len() && widths.0 == (#[trigger] rows[i]).name.len()
        }),
{
    let names = rows.map_values(|row: RowView| row.name);
    let marks = rows.map_values(|row: RowView| row.enabled);
    let configured = rows.map_values(|row: RowView| row.configured);
    lemma_width("NAME"@, names);
    lemma_width("ENABLED"@, marks);
    lemma_width("CONFIGURED"@, configured);
    assert forall|i: int| 0 <= i < rows.len() implies list::widths_of(rows).0 >= (
    #[trigger] rows[i]).name.len() && list::widths_of(rows).1 >= rows[i].enabled.len()
        && list::widths_of(rows).2 >= rows[i].configured.len() by {
        assert(names[i] == rows[i].name);
        assert(marks[i] == rows[i].enabled);
        assert(configured[i] == rows[i].configured);
    }
    if list::widths_of(rows).0 != "NAME"@.len() {
        let i = choose|i: int|
            0 <= i < names.len() && list::widths_of(rows).0 == (#[trigger] names[i]).len();
        assert(rows[i].name == names[i]);
    }
}

/// A line of the table that ends in something shows each cell where its column starts, so that the
/// columns stand below one another.
pub proof fn cells_stand_where_their_columns_start(row: RowView, widths: (nat, nat, nat))
    requires
        row.name.len() <= widths.0,
        row.enabled.len() <= widths.1,
        row.configured.len() <= widths.2,
        row.available.len() > 0,
        !text::is_whitespace(row.available.last()),
    ensures
        ({
            let line = list::line_of(row, widths);
            let (a, b, c) = (
                widths.0 + 2,
                widths.0 + 2 + widths.1 + 2,
                widths.0 + 2 + widths.1 + 2 + widths.2 + 2,
            );
            &&& line.subrange(0, row.name.len() as int) == row.name
            &&& line.subrange(a as int, (a + row.enabled.len()) as int) == row.enabled
            &&& line.subrange(b as int, (b + row.configured.len()) as int) == row.configured
            &&& line.skip(c as int) == row.available
        }),
{
    reveal_strlit("  ");
    let (a, b, c) = (
        widths.0 + 2,
        widths.0 + 2 + widths.1 + 2,
        widths.0 + 2 + widths.1 + 2 + widths.2 + 2,
    );
    let full = text::padded(row.name, widths.0) + "  "@ + text::padded(row.enabled, widths.1) + "  "@
        + text::padded(row.configured, widths.2) + "  "@ + row.available;
    text::padding_fills_up_with_spaces(row.name, widths.0);
    text::padding_fills_up_with_spaces(row.enabled, widths.1);
    text::padding_fills_up_with_spaces(row.configured, widths.2);
    assert(full.last() == row.available.last());
    assert(text::trim_end_of(full) == full);
    assert(full.subrange(0, row.name.len() as int) =~= row.name);
    assert(full.subrange(a as int, (a + row.enabled.len()) as int) =~= row.enabled);
    assert(full.subrange(b as int, (b + row.configured.len()) as int) =~= row.configured);
    assert(full.skip(c as int) =~= row.available);
}

} // verus!

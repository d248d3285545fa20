//! What the robot's identity is for, stated apart from how it is derived.

use vstd::prelude::*;
use vstd::string::*;

use crate::conf;
use crate::config::PathsView;
use crate::id::{self, Application, AttemptOutcome, RobotIdValidationError};
use crate::text;

verus! {

/// The fault of a robot ID is its first character that may not stand in one, if there is such a
/// character, and else its length or its hyphens.
pub proof fn the_first_fault_is_named(id: Seq<char>, k: int)
    requires
        0 <= k <= id.len(),
        id.len() <= usize::MAX,
        k < id.len() ==> !('a' <= id[k] && id[k] <= 'z') && !('0' <= id[k] && id[k] <= '9') && id[k]
            != '-',
        forall|j: int|
            0 <= j < k ==> ('a' <= #[trigger] id[j] && id[j] <= 'z') || ('0' <= id[j] && id[j] <= '9')
                || id[j] == '-',
    ensures
        k < id.len() ==> match id::robot_id_fault(id) {
            Some(RobotIdValidationError::Lowercase { char, pos }) => {
                char == id[k] && pos == k && 'A' <= char && char <= 'Z'
            },
            Some(RobotIdValidationError::InvalidChar { char, pos }) => {
                char == id[k] && pos == k && !('A' <= char && char <= 'Z')
            },
            _ => false,
        },
        k == id.len() && (id.len() == 0 || id.len() > 63) ==> (id::robot_id_fault(id) matches Some(
            RobotIdValidationError::InvalidLength { length },
        ) && length == id.len()),
        k == id.len() && 1 <= id.len() <= 63 && id[0] == '-' ==> id::robot_id_fault(id) == Some(
            RobotIdValidationError::StartsWithHyphen,
        ),
        k == id.len() && 1 <= id.len() <= 63 && id[0] != '-' && id[id.len() - 1] == '-'
            ==> id::robot_id_fault(id) == Some(RobotIdValidationError::EndsWithHyphen),
        k == id.len() && 1 <= id.len() <= 63 && id[0] != '-' && id[id.len() - 1] != '-'
            ==> id::robot_id_fault(id) is None,
{
    let bad = |c: char| !id::is_robot_id_char(c);
    assert forall|j: int| 0 <= j < k implies !bad(#[trigger] id[j]) by {}
    text::lemma_position_where_is(id, bad, k);
}

/// What `robot.conf` says counts if it is valid, and the default does if it is not, or if it says
/// nothing.
pub proof fn the_default_stands_in_for_what_is_not_valid(
    existing: Option<Seq<char>>,
    default: Seq<char>,
    default_ros: u8,
)
    ensures
        existing is None ==> id::resolved_robot_id(existing, default) == default
            && id::resolved_ros_domain_id(existing, default_ros) == default_ros,
        existing matches Some(text) ==> id::resolved_robot_id(existing, default) == match conf::value_of(
            text,
            "ROBOT_ID"@,
        ) {
            Some(raw) => if id::valid_robot_id(raw) {
                raw
            } else {
                default
            },
            None => default,
        },
        existing matches Some(text) ==> id::resolved_ros_domain_id(existing, default_ros)
            == match conf::value_of(text, "ROS_DOMAIN_ID"@) {
            Some(raw) => match text::number_of(text::trimmed(raw), u32::MAX as nat) {
                Some(n) => if n <= 232 {
                    n as u8
                } else {
                    default_ros
                },
                None => default_ros,
            },
            None => default_ros,
        },
{
}

/// A ROS domain ID is read from its digits if it is in range.
pub proof fn a_ros_domain_id_is_read_from_its_digits(n: u32)
    ensures
        id::ros_domain_of(text::decimal(n as nat)) == if n <= 232 {
            Some(n as u8)
        } else {
            None
        },
        id::ros_domain_number(text::decimal(n as nat)) == Some(n),
{
    let digits = text::decimal(n as nat);
    text::lemma_decimal_reads_back(n as nat);
    text::lemma_number_round_trip(n as nat, u32::MAX as nat);
    assert(text::is_digit(digits[0]));
    assert(text::is_digit(digits[digits.len() - 1]));
    assert(text::trim_start_of(digits) == digits);
    assert(text::trim_end_of(digits) == digits);
}

/// Loading reports a missing file, and each value that it passes over, once; it is silent about a
/// file whose values are valid or left out.
pub proof fn loading_reports_what_it_passes_over(paths: PathsView, existing: Option<Seq<char>>)
    ensures
        existing is None ==> id::load_report(paths, existing).len() == 1,
        existing matches Some(text) ==> id::load_report(paths, existing).len() == (if (
        conf::value_of(text, "ROBOT_ID"@) matches Some(raw) && !id::valid_robot_id(raw)) {
            1nat
        } else {
            0nat
        }) + (if (conf::value_of(text, "ROS_DOMAIN_ID"@) matches Some(raw) && id::ros_domain_of(
            raw,
        ) is None) {
            1nat
        } else {
            0nat
        }),
{
}

/// The hostname file holds the ID on a line of its own, and nothing else.
pub proof fn the_hostname_file_is_one_line(id: Seq<char>)
    requires
        id::valid_robot_id(id),
    ensures
        text::lines_of(id::hostname_file(id)) == seq![id],
        text::trimmed(id::hostname_file(id)) == id,
{
    assert forall|i: int| 0 <= i < id.len() implies id[i] != '\n' && id[i] != '\r' by {
        assert(id::is_robot_id_char(id[i]));
    }
    let one = seq![id];
    assert(one.drop_last() =~= Seq::<Seq<char>>::empty());
    assert(!id.contains('\n'));
    assert(id::hostname_file(id) == text::unlines(one)) by {
        text::lemma_unlines_first(one);
        assert(one.drop_first() =~= Seq::<Seq<char>>::empty());
        assert(id::hostname_file(id) =~= text::unlines(one));
    }
    text::lemma_lines_of_unlines(one);
    assert(text::without_cr(id) == id);
    assert(text::lines_of(id::hostname_file(id)) =~= one);
    assert(id::is_robot_id_char(id[0]));
    assert(id::is_robot_id_char(id[id.len() - 1]));
    assert(text::trim_start_of(id) == id);
    assert(text::trim_end_of(id) == id);
    text::lemma_trimmed_push(id, '\n');
}

/// What a file holds once the changes are made: what the last change to it says.
pub open spec fn written(
    changes: Seq<(Seq<char>, Seq<char>)>,
    path: Seq<char>,
    before: Option<Seq<char>>,
) -> Option<Seq<char>>
    decreases changes.len(),
{
    if changes.len() == 0 {
        before
    } else if changes.last().0 == path {
        Some(changes.last().1)
    } else {
        written(changes.drop_last(), path, before)
    }
}

/// The changes of an application: each path, with what it is to hold.
pub open spec fn changed(application: Application) -> Seq<(Seq<char>, Seq<char>)> {
    application.changes@.map_values(|change: id::FileChange| (change.path@, change.contents@))
}

/// Once the changes are made the hostname file names the robot and the hosts file maps to it, and
/// nothing is written that was right before.
pub proof fn applying_derives_both_files(
    application: Application,
    paths: PathsView,
    id: Seq<char>,
    hostname: Option<Seq<char>>,
    hosts: Option<Seq<char>>,
)
    requires
        id::applies(application, paths, id, hostname, hosts),
        paths.hostname_path != paths.hosts_path,
    ensures
        written(changed(application), paths.hostname_path, hostname) == Some(id + seq!['\n']),
        written(changed(application), paths.hosts_path, hosts) == Some(id::hosts_file(hosts, id)),
        hostname == Some(id + seq!['\n']) && hosts == Some(id::hosts_file(hosts, id))
            ==> application.changes@.len() == 0,
        forall|i: int|
            0 <= i < application.changes@.len() ==> (#[trigger] application.changes@[i]).path@
                == paths.hostname_path || application.changes@[i].path@ == paths.hosts_path,
{
    reveal_with_fuel(written, 3);
    let changes = changed(application);
    assert(id + seq!['\n'] =~= id::hostname_file(id));
    assert(changes.len() == application.changes@.len());
    assert(changes.len() <= 2);
    if changes.len() > 0 {
        assert(changes[0] == (application.changes@[0].path@, application.changes@[0].contents@));
        assert(changes.last() == (
            application.changes@.last().path@,
            application.changes@.last().contents@,
        ));
    }
    if changes.len() == 2 {
        assert(changes.drop_last() =~= seq![changes[0]]);
        assert(seq![changes[0]].drop_last() =~= Seq::<(Seq<char>, Seq<char>)>::empty());
    } else if changes.len() == 1 {
        assert(changes.drop_last() =~= Seq::<(Seq<char>, Seq<char>)>::empty());
    }
}

/// A new hosts file maps the loopback address to `localhost`, and 127.0.1.1 to the robot.
pub proof fn a_new_hosts_file_maps_both_addresses(id: Seq<char>)
    ensures
        id::hosts_file(None, id) == "127.0.0.1\tlocalhost"@ + seq!['\n'] + "127.0.1.1"@ + seq!['\t']
            + id + seq!['\n'],
        id::hosts_entry(id) == "127.0.1.1"@ + seq!['\t'] + id,
{
    reveal_strlit("127.0.0.1\tlocalhost\n");
    reveal_strlit("127.0.0.1\tlocalhost");
    reveal_strlit("127.0.1.1\t");
    reveal_strlit("127.0.1.1");
    reveal_strlit("\n");
    assert("127.0.1.1\t"@ =~= "127.0.1.1"@ + seq!['\t']);
    assert("127.0.0.1\tlocalhost\n"@ =~= "127.0.0.1\tlocalhost"@ + seq!['\n']);
    assert("\n"@ =~= seq!['\n']);
    assert(id::hosts_file(None, id) =~= "127.0.0.1\tlocalhost"@ + seq!['\n'] + "127.0.1.1"@ + seq![
        '\t',
    ] + id + seq!['\n']);
}

/// A line of the hosts file is an entry if the address in front of its first blank is 127.0.1.1.
pub proof fn an_entry_starts_with_the_whole_address(rest: Seq<char>, c: char)
    ensures
        id::is_hosts_entry("127.0.1.1"@ + seq![c] + rest) <==> c == ' ' || c == '\t',
        !id::is_hosts_entry("127.0.1.1"@),
{
    let line = "127.0.1.1"@ + seq![c] + rest;
    let p = "127.0.1.1"@;
    assert(line.subrange(0, p.len() as int) =~= p);
    assert(line.skip(p.len() as int) =~= seq![c] + rest);
    assert(p.subrange(0, p.len() as int) =~= p);
    assert(p.skip(p.len() as int) =~= Seq::<char>::empty());
}

/// Every command that sets the running hostname sets it to the ID; the one that asks the service
/// comes first, and sets the running hostname alone.
pub proof fn the_running_hostname_is_the_id(id: Seq<char>)
    ensures
        id::hostname_commands(id).len() == 2,
        forall|i: int|
            0 <= i < id::hostname_commands(id).len() ==> (#[trigger] id::hostname_commands(
                id,
            )[i]).args.last() == id,
        id::hostname_commands(id)[0].program == "hostnamectl"@,
        id::hostname_commands(id)[0].args.contains("--transient"@),
        id::hostname_commands(id)[0].args.contains("set-hostname"@),
        id::hostname_commands(id)[1].program == "hostname"@,
        id::hostname_commands(id)[1].args == seq![id],
{
    let args = id::hostname_commands(id)[0].args;
    assert(args[0] == "--transient"@);
    assert(args[1] == "set-hostname"@);
}

/// An attempt that failed is reported, once; one that succeeded is not, nor is a program that is
/// not there.
pub proof fn a_failed_attempt_is_reported(program: Seq<char>, outcome: AttemptOutcome)
    ensures
        id::attempt_report(program, outcome).len() == match outcome {
            AttemptOutcome::Exited { success, .. } => if success {
                0nat
            } else {
                1nat
            },
            AttemptOutcome::NotFound => 0nat,
            AttemptOutcome::Failed { .. } => 1nat,
        },
        id::attempt_succeeded(outcome) <==> (outcome matches AttemptOutcome::Exited {
            success,
            ..
        } && success),
{
}

/// The robot is renamed unless the hostname file already named it.
pub proof fn a_new_name_is_noticed(before: Option<Seq<char>>, id: Seq<char>)
    requires
        id::valid_robot_id(id),
    ensures
        !id::renames(Some(id::hostname_file(id)), id),
        !id::renames(Some(id), id),
        id::renames(None, id),
        before matches Some(text) ==> (id::renames(before, id) <==> text::trimmed(text) != id),
{
    the_hostname_file_is_one_line(id);
    assert(id::is_robot_id_char(id[0]));
    assert(id::is_robot_id_char(id[id.len() - 1]));
    assert(text::trim_start_of(id) == id);
    assert(text::trim_end_of(id) == id);
    assert(text::trimmed(Seq::<char>::empty()).len() == 0);
}

} // verus!

//! The table of the experiments on this robot.

use vstd::prelude::*;
use vstd::string::*;

use crate::command::{self, Command};
use crate::conf;
use crate::experiments::enabled;
use crate::experiments::names::{self, ExperimentName};
use crate::experiments::run;
use crate::experiments::select::{self, Disk, DiskView};
use crate::experiments::target::{self, Profiles, ProfilesView, Target, TargetView};
use crate::log;
use crate::order;
use crate::text;

verus! {

/// The lines that say something, without the whitespace around it.
pub open spec fn lines_with_text(lines: Seq<Seq<char>>) -> Seq<Seq<char>>
    decreases lines.len(),
{
    if lines.len() == 0 {
        Seq::empty()
    } else {
        let before = lines_with_text(lines.drop_last());
        let line = text::trimmed(lines.last());
        if line.len() == 0 {
            before
        } else {
            before.push(line)
        }
    }
}

/// The profiles in the output of `docker compose config --profiles`, in order.
pub open spec fn declared_of(stdout: Seq<char>) -> Seq<Seq<char>> {
    order::arranged(lines_with_text(text::lines_of(stdout)))
}

/// The profiles one compose file declares, out of what compose itself prints of them.
pub fn declared_profiles(stdout: &str) -> (r: Vec<String>)
    ensures
        text::views(r@) == declared_of(stdout@),
{
    broadcast use text::lemma_views_push;

    let lines: Vec<String> = text::lines(stdout);
    let ghost views = text::views(lines@);
    let mut found: Vec<String> = Vec::new();
    let mut i: usize = 0;
    assert(views.take(0) =~= Seq::<Seq<char>>::empty());
    assert(text::views(found@) =~= Seq::<Seq<char>>::empty());
    while i < lines.len()
        invariant
            i <= lines@.len(),
            views == text::views(lines@),
            text::views(found@) == lines_with_text(views.take(i as int)),
        decreases lines@.len() - i,
    {
        assert(views.take(i + 1).drop_last() =~= views.take(i as int));
        assert(views.take(i + 1).last() == lines@[i as int]@);
        let line: String = text::trim(lines[i].as_str());
        if !line.as_str().is_empty() {
            found.push(line);
        }
        i = i + 1;
    }
    assert(views.take(i as int) =~= views);
    order::sort(found)
}

/// The command that prints the profiles which the compose file of `name` declares.
pub fn declared_profiles_command(dir: &str, name: &ExperimentName) -> (r: Command)
    ensures
        r@ == run::compose_command(
            dir@,
            (TargetView { name: name@, profiles: ProfilesView::NoProfiles }),
            seq!["config"@, "--profiles"@],
        ),
{
    let verb: [&str; 2] = ["config", "--profiles"];
    assert(command::str_views(verb@) =~= seq!["config"@, "--profiles"@]);
    Command {
        program: "docker".to_owned(),
        args: run::compose_args(dir, name, &Profiles::NoProfiles, &verb),
    }
}

/// `names`, and the names of `targets` that are not among them.
pub open spec fn with_targets(names: Seq<Seq<char>>, targets: Seq<TargetView>) -> Seq<Seq<char>>
    decreases targets.len(),
{
    if targets.len() == 0 {
        names
    } else {
        let before = with_targets(names, targets.drop_last());
        if before.contains(targets.last().name) {
            before
        } else {
            before.push(targets.last().name)
        }
    }
}

/// What `enabled.conf` enables: nothing if there is none.
pub open spec fn enabled_on(disk: DiskView) -> Seq<TargetView> {
    enabled::enabled_of(conf::text_of(disk.enabled_conf)).targets
}

/// The experiments to list, in order: those on disk, and those that are enabled.
pub open spec fn listed(disk: DiskView, dir: Seq<char>) -> Seq<Seq<char>> {
    order::arranged(
        with_targets(order::arranged(select::stack_names(disk, dir)), enabled_on(disk)),
    )
}

fn read_enabled(disk: &Disk) -> (r: Vec<Target>)
    ensures
        target::target_views(r@) == enabled_on(disk@),
{
    proof {
        reveal_strlit("");
        assert(disk.enabled_conf is None ==> conf::text_of(disk@.enabled_conf) =~= ""@);
    }
    match &disk.enabled_conf {
        Some(text) => enabled::parse_enabled(text.as_str()).targets,
        None => enabled::parse_enabled("").targets,
    }
}

/// The experiments to list, in order.
///
/// An enabled name with nothing on disk is exactly what someone asking for the list wants to be
/// told about, so it is among them rather than silently absent.
pub fn list_names(dir: &str, disk: &Disk) -> (r: Vec<ExperimentName>)
    ensures
        names::name_views(r@) == listed(disk@, dir@),
{
    broadcast use text::lemma_views_push;

    let stacks: Vec<ExperimentName> = select::on_disk(dir, disk);
    let ghost found = names::name_views(stacks@);
    let mut all: Vec<String> = Vec::new();
    let mut i: usize = 0;
    assert(found.take(0) =~= Seq::<Seq<char>>::empty());
    assert(text::views(all@) =~= Seq::<Seq<char>>::empty());
    while i < stacks.len()
        invariant
            i <= stacks@.len(),
            found == names::name_views(stacks@),
            text::views(all@) == found.take(i as int),
            forall|j: int|
                0 <= j < all@.len() ==> names::valid_experiment_name(#[trigger] all@[j]@),
        decreases stacks@.len() - i,
    {
        assert(found.take(i + 1) =~= found.take(i as int).push(found[i as int]));
        all.push(stacks[i].as_str().to_owned());
        i = i + 1;
    }
    assert(found.take(i as int) =~= found);
    let targets: Vec<Target> = read_enabled(disk);
    let ghost views = target::target_views(targets@);
    let mut k: usize = 0;
    assert(views.take(0) =~= Seq::<TargetView>::empty());
    while k < targets.len()
        invariant
            k <= targets@.len(),
            views == target::target_views(targets@),
            text::views(all@) == with_targets(found, views.take(k as int)),
            forall|j: int|
                0 <= j < all@.len() ==> names::valid_experiment_name(#[trigger] all@[j]@),
        decreases targets@.len() - k,
    {
        assert(views.take(k + 1).drop_last() =~= views.take(k as int));
        assert(views.take(k + 1).last() == targets@[k as int]@);
        if !select::holds(&all, targets[k].name.as_str()) {
            all.push(targets[k].name.as_str().to_owned());
        }
        k = k + 1;
    }
    assert(views.take(k as int) =~= views);
    select::sort_names(all)
}

/// The answer of `docker compose config --profiles` for one experiment.
#[derive(Debug, Clone, PartialEq, Eq)]
pub struct Declared {
    pub name: String,
    /// What it printed, unless it failed.
    pub stdout: Option<String>,
}

/// What a `Declared` holds.
#[verifier::ext_equal]
pub struct DeclaredView {
    pub name: Seq<char>,
    pub stdout: Option<Seq<char>>,
}

impl View for Declared {
    type V = DeclaredView;

    open spec fn view(&self) -> DeclaredView {
        DeclaredView {
            name: self.name@,
            stdout: match self.stdout {
                Some(text) => Some(text@),
                None => None,
            },
        }
    }
}

/// The contents of each answer of a list.
pub open spec fn declared_views(list: Seq<Declared>) -> Seq<DeclaredView> {
    list.map_values(|declared: Declared| declared@)
}

/// What was printed for the experiment `name`, if its profiles were asked for and printed.
pub open spec fn answer_for(list: Seq<DeclaredView>, name: Seq<char>) -> Option<Seq<char>>
    decreases list.len(),
{
    if list.len() == 0 {
        None
    } else if list[0].name == name {
        list[0].stdout
    } else {
        answer_for(list.drop_first(), name)
    }
}

/// The profiles that are configured for the experiment `name`, if it is enabled.
pub open spec fn configured_for(targets: Seq<TargetView>, name: Seq<char>) -> Option<ProfilesView>
    decreases targets.len(),
{
    if targets.len() == 0 {
        None
    } else if targets[0].name == name {
        Some(targets[0].profiles)
    } else {
        configured_for(targets.drop_first(), name)
    }
}

/// A cell of the table, which shows `-` in place of nothing.
pub open spec fn or_dash(cell: Seq<char>) -> Seq<char> {
    if cell.len() == 0 {
        "-"@
    } else {
        cell
    }
}

/// What a `Row` holds.
#[verifier::ext_equal]
pub struct RowView {
    pub name: Seq<char>,
    pub enabled: Seq<char>,
    pub configured: Seq<char>,
    pub available: Seq<char>,
}

/// One line of the table.
#[derive(Debug, Clone, PartialEq, Eq)]
pub struct Row {
    pub name: String,
    pub enabled: String,
    pub configured: String,
    pub available: String,
}

impl View for Row {
    type V = RowView;

    open spec fn view(&self) -> RowView {
        RowView {
            name: self.name@,
            enabled: self.enabled@,
            configured: self.configured@,
            available: self.available@,
        }
    }
}

/// The contents of each row of a list.
pub open spec fn row_views(list: Seq<Row>) -> Seq<RowView> {
    list.map_values(|row: Row| row@)
}

/// What the table says of the experiment `name`.
pub open spec fn row_of(
    name: Seq<char>,
    dir: Seq<char>,
    disk: DiskView,
    answers: Seq<DeclaredView>,
) -> RowView {
    let configured = configured_for(enabled_on(disk), name);
    RowView {
        name,
        enabled: if configured is Some {
            "yes"@
        } else {
            "no"@
        },
        configured: match configured {
            Some(profiles) => or_dash(target::profiles_text(profiles)),
            None => "-"@,
        },
        available: if !select::has_stack(disk.compose_files, dir, name) {
            "(no compose file)"@
        } else {
            match answer_for(answers, name) {
                // Only the column is unknown; the row is still worth printing.
                None => "?"@,
                Some(stdout) => if declared_of(stdout).len() == 0 {
                    "-"@
                } else {
                    text::joined(declared_of(stdout), ", "@)
                },
            }
        },
    }
}

fn find_configured(targets: &Vec<Target>, name: &str) -> (r: Option<String>)
    ensures
        r is Some <==> configured_for(target::target_views(targets@), name@) is Some,
        r matches Some(text) ==> (configured_for(target::target_views(targets@), name@) matches Some(
            profiles,
        ) && text@ == target::profiles_text(profiles)),
{
    let ghost views = target::target_views(targets@);
    let mut i: usize = 0;
    assert(views.skip(0) =~= views);
    while i < targets.len()
        invariant
            i <= targets@.len(),
            views == target::target_views(targets@),
            configured_for(views, name@) == configured_for(views.skip(i as int), name@),
        decreases targets@.len() - i,
    {
        assert(views.skip(i as int)[0] == targets@[i as int]@);
        assert(views.skip(i as int).drop_first() =~= views.skip(i + 1));
        if text::same(targets[i].name.as_str(), name) {
            return Some(targets[i].profiles.to_string());
        }
        i = i + 1;
    }
    None
}

fn find_answer<'a>(answers: &'a Vec<Declared>, name: &str) -> (r: Option<&'a str>)
    ensures
        conf::opt(r) == answer_for(declared_views(answers@), name@),
{
    let ghost views = declared_views(answers@);
    let mut i: usize = 0;
    assert(views.skip(0) =~= views);
    while i < answers.len()
        invariant
            i <= answers@.len(),
            views == declared_views(answers@),
            answer_for(views, name@) == answer_for(views.skip(i as int), name@),
        decreases answers@.len() - i,
    {
        assert(views.skip(i as int)[0] == answers@[i as int]@);
        assert(views.skip(i as int).drop_first() =~= views.skip(i + 1));
        if text::same(answers[i].name.as_str(), name) {
            return match &answers[i].stdout {
                Some(text) => Some(text.as_str()),
                None => None,
            };
        }
        i = i + 1;
    }
    None
}

fn row(
    name: &ExperimentName,
    dir: &str,
    disk: &Disk,
    targets: &Vec<Target>,
    answers: &Vec<Declared>,
) -> (r: Row)
    requires
        target::target_views(targets@) == enabled_on(disk@),
    ensures
        r@ == row_of(name@, dir@, disk@, declared_views(answers@)),
{
    let found: Option<String> = find_configured(targets, name.as_str());
    let enabled: String = if found.is_some() {
        "yes".to_owned()
    } else {
        "no".to_owned()
    };
    let configured: String = match found {
        Some(profiles) => if profiles.as_str().is_empty() {
            "-".to_owned()
        } else {
            profiles
        },
        None => "-".to_owned(),
    };
    let available: String = if !select::stack_exists(&disk.compose_files, dir, name) {
        "(no compose file)".to_owned()
    } else {
        match find_answer(answers, name.as_str()) {
            None => "?".to_owned(),
            Some(stdout) => {
                let profiles: Vec<String> = declared_profiles(stdout);
                if profiles.len() == 0 {
                    "-".to_owned()
                } else {
                    text::join(&profiles, ", ")
                }
            },
        }
    };
    Row { name: name.as_str().to_owned(), enabled, configured, available }
}

/// The width of a column under `header` that holds `cells`.
pub open spec fn width_of(header: Seq<char>, cells: Seq<Seq<char>>) -> nat
    decreases cells.len(),
{
    if cells.len() == 0 {
        header.len()
    } else {
        let before = width_of(header, cells.drop_last());
        if cells.last().len() > before {
            cells.last().len()
        } else {
            before
        }
    }
}

/// One line of the table: the last column is not padded.
pub open spec fn line_of(row: RowView, widths: (nat, nat, nat)) -> Seq<char> {
    text::trim_end_of(
        text::padded(row.name, widths.0) + "  "@ + text::padded(row.enabled, widths.1) + "  "@
            + text::padded(row.configured, widths.2) + "  "@ + row.available,
    )
}

pub open spec fn header_row() -> RowView {
    RowView {
        name: "NAME"@,
        enabled: "ENABLED"@,
        configured: "CONFIGURED"@,
        available: "AVAILABLE PROFILES"@,
    }
}

pub open spec fn widths_of(rows: Seq<RowView>) -> (nat, nat, nat) {
    (
        width_of(header_row().name, rows.map_values(|row: RowView| row.name)),
        width_of(header_row().enabled, rows.map_values(|row: RowView| row.enabled)),
        width_of(header_row().configured, rows.map_values(|row: RowView| row.configured)),
    )
}

/// The table of `rows`: left-aligned columns, sized to their contents.
pub open spec fn table_of(rows: Seq<RowView>) -> Seq<char> {
    text::unlines(
        seq![line_of(header_row(), widths_of(rows))] + rows.map_values(
            |row: RowView| line_of(row, widths_of(rows)),
        ),
    )
}

fn render_line(row: &Row, name: usize, enabled: usize, configured: usize) -> (r: String)
    ensures
        r@ == line_of(row@, (name as nat, enabled as nat, configured as nat)),
{
    let line: String = text::cat7(
        text::pad(row.name.as_str(), name).as_str(),
        "  ",
        text::pad(row.enabled.as_str(), enabled).as_str(),
        "  ",
        text::pad(row.configured.as_str(), configured).as_str(),
        "  ",
        row.available.as_str(),
    );
    text::trim_end(line.as_str())
}

fn wider(width: usize, cell: &str) -> (r: usize)
    ensures
        r == if cell@.len() > width {
            cell@.len()
        } else {
            width as nat
        },
{
    let len: usize = cell.unicode_len();
    if len > width {
        len
    } else {
        width
    }
}

/// Left-aligned columns, sized to their contents. The last column is not padded.
pub fn print_table(rows: &Vec<Row>) -> (r: String)
    ensures
        r@ == table_of(row_views(rows@)),
{
    broadcast use text::lemma_views_push;

    let ghost views = row_views(rows@);
    let ghost first = views.map_values(|row: RowView| row.name);
    let ghost second = views.map_values(|row: RowView| row.enabled);
    let ghost third = views.map_values(|row: RowView| row.configured);
    let header = Row {
        name: "NAME".to_owned(),
        enabled: "ENABLED".to_owned(),
        configured: "CONFIGURED".to_owned(),
        available: "AVAILABLE PROFILES".to_owned(),
    };
    let mut name: usize = "NAME".unicode_len();
    let mut enabled: usize = "ENABLED".unicode_len();
    let mut configured: usize = "CONFIGURED".unicode_len();
    let mut i: usize = 0;
    assert(first.take(0) =~= Seq::<Seq<char>>::empty());
    assert(second.take(0) =~= Seq::<Seq<char>>::empty());
    assert(third.take(0) =~= Seq::<Seq<char>>::empty());
    while i < rows.len()
        invariant
            i <= rows@.len(),
            views == row_views(rows@),
            first == views.map_values(|row: RowView| row.name),
            second == views.map_values(|row: RowView| row.enabled),
            third == views.map_values(|row: RowView| row.configured),
            name == width_of("NAME"@, first.take(i as int)),
            enabled == width_of("ENABLED"@, second.take(i as int)),
            configured == width_of("CONFIGURED"@, third.take(i as int)),
        decreases rows@.len() - i,
    {
        assert(first.take(i + 1).drop_last() =~= first.take(i as int));
        assert(second.take(i + 1).drop_last() =~= second.take(i as int));
        assert(third.take(i + 1).drop_last() =~= third.take(i as int));
        assert(views[i as int] == rows@[i as int]@);
        name = wider(name, rows[i].name.as_str());
        enabled = wider(enabled, rows[i].enabled.as_str());
        configured = wider(configured, rows[i].configured.as_str());
        i = i + 1;
    }
    assert(first.take(i as int) =~= first);
    assert(second.take(i as int) =~= second);
    assert(third.take(i as int) =~= third);
    let ghost widths = widths_of(views);
    let mut lines: Vec<String> = Vec::new();
    lines.push(render_line(&header, name, enabled, configured));
    let ghost top = seq![line_of(header_row(), widths)];
    let ghost rest = views.map_values(|row: RowView| line_of(row, widths));
    assert(text::views(lines@) =~= top + rest.take(0));
    let mut k: usize = 0;
    while k < rows.len()
        invariant
            k <= rows@.len(),
            views == row_views(rows@),
            widths == (name as nat, enabled as nat, configured as nat),
            rest == views.map_values(|row: RowView| line_of(row, widths)),
            text::views(lines@) == top + rest.take(k as int),
        decreases rows@.len() - k,
    {
        lines.push(render_line(&rows[k], name, enabled, configured));
        assert(views[k as int] == rows@[k as int]@);
        assert((top + rest.take(k as int)).push(rest[k as int]) =~= top + rest.take(k + 1));
        k = k + 1;
    }
    assert(rest.take(k as int) =~= rest);
    text::join_lines(&lines)
}

/// What to print of the experiments on a robot.
#[derive(Debug, Clone, PartialEq, Eq)]
pub enum Listing {
    /// There are none, which is logged.
    Nothing { notice: String },
    Table { text: String },
}

/// What exists on this robot: every stack directory, whether it is enabled, the profiles
/// `enabled.conf` configures for it, and the profiles its compose file declares.
///
/// The available-profiles column comes from `docker compose config --profiles` rather than a
/// YAML parser of our own: compose's own semantics are a large surface, and re-implementing a
/// corner of it is how the two drift.
pub fn list(dir: &str, disk: &Disk, answers: &Vec<Declared>) -> (r: Listing)
    ensures
        match r {
            Listing::Nothing { notice } => {
                &&& listed(disk@, dir@).len() == 0
                &&& notice@ == log::info_line("no experiments in "@ + dir@)
            },
            Listing::Table { text } => {
                &&& listed(disk@, dir@).len() > 0
                &&& text@ == table_of(
                    listed(disk@, dir@).map_values(
                        |name: Seq<char>| row_of(name, dir@, disk@, declared_views(answers@)),
                    ),
                )
            },
        },
{
    let names: Vec<ExperimentName> = list_names(dir, disk);
    let ghost views = names::name_views(names@);
    if names.len() == 0 {
        let msg: String = text::cat2("no experiments in ", dir);
        return Listing::Nothing { notice: log::info(msg.as_str()) };
    }
    let targets: Vec<Target> = read_enabled(disk);
    let mut rows: Vec<Row> = Vec::new();
    let mut i: usize = 0;
    while i < names.len()
        invariant
            i <= names@.len(),
            rows@.len() == i,
            views == names::name_views(names@),
            target::target_views(targets@) == enabled_on(disk@),
            forall|j: int|
                0 <= j < i ==> (#[trigger] rows@[j])@ == row_of(
                    views[j],
                    dir@,
                    disk@,
                    declared_views(answers@),
                ),
        decreases names@.len() - i,
    {
        rows.push(row(&names[i], dir, disk, &targets, answers));
        i = i + 1;
    }
    assert(row_views(rows@) =~= views.map_values(
        |name: Seq<char>| row_of(name, dir@, disk@, declared_views(answers@)),
    ));
    Listing::Table { text: print_table(&rows) }
}

proof fn lemma_with_targets(list: Seq<Seq<char>>, targets: Seq<TargetView>, name: Seq<char>)
    ensures
        with_targets(list, targets).contains(name) <==> list.contains(name)
            || enabled::names_experiment(targets, name),
    decreases targets.len(),
{
    if targets.len() > 0 {
        let init = targets.drop_last();
        let before = with_targets(list, init);
        lemma_with_targets(list, init, name);
        vstd::seq_lib::lemma_seq_contains_after_push(before, targets.last().name, name);
        if enabled::names_experiment(init, name) {
            let i = choose|i: int| 0 <= i < init.len() && #[trigger] init[i].name == name;
            assert(targets[i].name == name);
        }
        if enabled::names_experiment(targets, name) && targets.last().name != name {
            let i = choose|i: int| 0 <= i < targets.len() && #[trigger] targets[i].name == name;
            assert(init[i].name == name);
        }
        assert(targets[targets.len() - 1] == targets.last());
    }
}

/// An experiment is listed if and only if it stands on disk or is enabled: one that is enabled
/// and missing gets its row too.
pub proof fn what_exists_or_is_enabled_is_listed(disk: DiskView, dir: Seq<char>, name: Seq<char>)
    ensures
        listed(disk, dir).contains(name) <==> select::stack_names(disk, dir).contains(name)
            || enabled::names_experiment(enabled_on(disk), name),
{
    broadcast use vstd::seq_lib::group_seq_properties;

    let found = select::stack_names(disk, dir);
    let sorted = order::arranged(found);
    let all = with_targets(sorted, enabled_on(disk));
    order::arranged_is_a_sorting(found);
    order::arranged_is_a_sorting(all);
    lemma_with_targets(sorted, enabled_on(disk), name);
    assert(sorted.contains(name) <==> sorted.to_multiset().count(name) > 0);
    assert(found.contains(name) <==> found.to_multiset().count(name) > 0);
    assert(all.contains(name) <==> all.to_multiset().count(name) > 0);
    assert(listed(disk, dir).contains(name) <==> listed(disk, dir).to_multiset().count(name) > 0);
}

} // verus!

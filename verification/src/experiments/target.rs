//! One experiment to act on, and the compose profiles to act on it with.

use vstd::prelude::*;
use vstd::string::*;

use crate::experiments::names::{
    self, ExperimentName, ExperimentNameError, ProfileName, ProfileNameError,
};
use crate::text;

verus! {

pub const ALL_PROFILES: &'static str = "*";

/// What `Profiles` holds.
#[verifier::ext_equal]
pub enum ProfilesView {
    NoProfiles,
    All,
    Named(Seq<Seq<char>>),
}

/// Which compose profiles to activate for one experiment.
#[derive(Debug, PartialEq, Eq)]
pub enum Profiles {
    /// No profiles: only services with no `profiles:` key of their own.
    NoProfiles,
    /// Every profile the compose file declares: compose's `--profile "*"`.
    All,
    Named(Vec<ProfileName>),
}

impl View for Profiles {
    type V = ProfilesView;

    open spec fn view(&self) -> ProfilesView {
        match self {
            Profiles::NoProfiles => ProfilesView::NoProfiles,
            Profiles::All => ProfilesView::All,
            Profiles::Named(list) => ProfilesView::Named(names::profile_views(list@)),
        }
    }
}

impl Default for Profiles {
    fn default() -> (r: Self)
        ensures
            r == Profiles::NoProfiles,
    {
        Profiles::NoProfiles
    }
}

fn clone_names(list: &Vec<ProfileName>) -> (r: Vec<ProfileName>)
    ensures
        names::profile_views(r@) == names::profile_views(list@),
{
    let mut out: Vec<ProfileName> = Vec::new();
    let mut i: usize = 0;
    while i < list.len()
        invariant
            i <= list@.len(),
            out@.len() == i,
            forall|j: int| 0 <= j < i ==> (#[trigger] out@[j])@ == list@[j]@,
        decreases list@.len() - i,
    {
        out.push(list[i].clone());
        i = i + 1;
    }
    assert(names::profile_views(out@) =~= names::profile_views(list@));
    out
}

impl Clone for Profiles {
    fn clone(&self) -> (r: Self)
        ensures
            r@ == self@,
    {
        match self {
            Profiles::NoProfiles => Profiles::NoProfiles,
            Profiles::All => Profiles::All,
            Profiles::Named(list) => Profiles::Named(clone_names(list)),
        }
    }
}

/// The flags that activate the profiles in `list`.
pub open spec fn named_flags(list: Seq<Seq<char>>) -> Seq<Seq<char>>
    decreases list.len(),
{
    if list.len() == 0 {
        Seq::empty()
    } else {
        named_flags(list.drop_last()) + seq!["--profile"@, list.last()]
    }
}

/// The `--profile` flags to put before the compose verb.
pub open spec fn profile_flags(profiles: ProfilesView) -> Seq<Seq<char>> {
    match profiles {
        ProfilesView::NoProfiles => Seq::empty(),
        ProfilesView::All => seq!["--profile"@, ALL_PROFILES@],
        ProfilesView::Named(list) => named_flags(list),
    }
}

/// `mine` and what of `other` it does not hold yet, in order.
pub open spec fn united(mine: Seq<Seq<char>>, other: Seq<Seq<char>>) -> Seq<Seq<char>>
    decreases other.len(),
{
    if other.len() == 0 {
        mine
    } else {
        let before = united(mine, other.drop_last());
        if before.contains(other.last()) {
            before
        } else {
            before.push(other.last())
        }
    }
}

/// The profiles of an experiment that was named with `mine` and again with `other`.
pub open spec fn merged_profiles(mine: ProfilesView, other: ProfilesView) -> ProfilesView {
    match (mine, other) {
        (ProfilesView::All, _) => ProfilesView::All,
        (_, ProfilesView::All) => ProfilesView::All,
        (ProfilesView::NoProfiles, other) => other,
        (mine, ProfilesView::NoProfiles) => mine,
        (ProfilesView::Named(mine), ProfilesView::Named(other)) => ProfilesView::Named(
            united(mine, other),
        ),
    }
}

/// How profiles are shown to the user.
pub open spec fn profiles_text(profiles: ProfilesView) -> Seq<char> {
    match profiles {
        ProfilesView::NoProfiles => Seq::empty(),
        ProfilesView::All => ALL_PROFILES@,
        ProfilesView::Named(list) => text::joined(list, ", "@),
    }
}

/// Whether `list` holds a profile of the name `name`.
fn holds(list: &Vec<ProfileName>, name: &str) -> (r: bool)
    ensures
        r == names::profile_views(list@).contains(name@),
{
    let ghost views = names::profile_views(list@);
    let mut i: usize = 0;
    while i < list.len()
        invariant
            i <= list@.len(),
            views == names::profile_views(list@),
            forall|j: int| 0 <= j < i ==> #[trigger] views[j] != name@,
        decreases list@.len() - i,
    {
        assert(views[i as int] == list@[i as int]@);
        if text::same(list[i].as_str(), name) {
            return true;
        }
        i = i + 1;
    }
    false
}

/// The names of profiles, as strings.
fn profile_strings(list: &Vec<ProfileName>) -> (r: Vec<String>)
    ensures
        text::views(r@) == names::profile_views(list@),
{
    let mut out: Vec<String> = Vec::new();
    let mut i: usize = 0;
    while i < list.len()
        invariant
            i <= list@.len(),
            out@.len() == i,
            forall|j: int| 0 <= j < i ==> (#[trigger] out@[j])@ == list@[j]@,
        decreases list@.len() - i,
    {
        out.push(list[i].as_str().to_owned());
        i = i + 1;
    }
    assert(text::views(out@) =~= names::profile_views(list@));
    out
}

impl Profiles {
    /// The `--profile` flags to put before the compose verb.
    pub fn args(&self) -> (r: Vec<String>)
        ensures
            text::views(r@) == profile_flags(self@),
    {
        broadcast use text::lemma_views_push;

        let mut out: Vec<String> = Vec::new();
        assert(text::views(out@) =~= Seq::<Seq<char>>::empty());
        match self {
            Profiles::NoProfiles => {},
            Profiles::All => {
                out.push("--profile".to_owned());
                out.push(ALL_PROFILES.to_owned());
                assert(text::views(out@) =~= profile_flags(self@));
            },
            Profiles::Named(list) => {
                let ghost views = names::profile_views(list@);
                let mut i: usize = 0;
                assert(views.take(0) =~= Seq::<Seq<char>>::empty());
                while i < list.len()
                    invariant
                        i <= list@.len(),
                        views == names::profile_views(list@),
                        text::views(out@) == named_flags(views.take(i as int)),
                    decreases list@.len() - i,
                {
                    let ghost before = text::views(out@);
                    out.push("--profile".to_owned());
                    out.push(list[i].as_str().to_owned());
                    assert(views.take(i + 1).drop_last() =~= views.take(i as int));
                    assert(text::views(out@) =~= before + seq![
                        "--profile"@,
                        views.take(i + 1).last(),
                    ]);
                    i = i + 1;
                }
                assert(views.take(i as int) =~= views);
            },
        }
        out
    }

    /// Combines two profile sets for the same experiment named twice in one invocation.
    pub fn merged(self, other: Profiles) -> (r: Profiles)
        ensures
            r@ == merged_profiles(self@, other@),
    {
        match (self, other) {
            (Profiles::All, _) => Profiles::All,
            (_, Profiles::All) => Profiles::All,
            (Profiles::NoProfiles, other) => other,
            (mine, Profiles::NoProfiles) => mine,
            (Profiles::Named(mine), Profiles::Named(other)) => {
                let ghost first = names::profile_views(mine@);
                let ghost second = names::profile_views(other@);
                let mut all: Vec<ProfileName> = mine;
                let mut i: usize = 0;
                assert(second.take(0) =~= Seq::<Seq<char>>::empty());
                while i < other.len()
                    invariant
                        i <= other@.len(),
                        second == names::profile_views(other@),
                        names::profile_views(all@) == united(first, second.take(i as int)),
                    decreases other@.len() - i,
                {
                    assert(second.take(i + 1).drop_last() =~= second.take(i as int));
                    let ghost before = names::profile_views(all@);
                    if !holds(&all, other[i].as_str()) {
                        all.push(other[i].clone());
                        assert(names::profile_views(all@) =~= before.push(second[i as int]));
                    }
                    i = i + 1;
                }
                assert(second.take(i as int) =~= second);
                Profiles::Named(all)
            },
        }
    }

    /// How the profiles are shown to the user.
    pub fn to_string(&self) -> (r: String)
        ensures
            r@ == profiles_text(self@),
    {
        match self {
            Profiles::NoProfiles => String::new(),
            Profiles::All => ALL_PROFILES.to_owned(),
            Profiles::Named(list) => text::join(&profile_strings(list), ", "),
        }
    }
}

/// What a `TargetError` holds.
#[verifier::ext_equal]
pub enum TargetErrorView {
    Name { name: Seq<char>, source: ExperimentNameError },
    Profile { profile: Seq<char>, source: ProfileNameError },
    WildcardWithOthers,
}

impl TargetErrorView {
    /// What the error tells the user.
    pub open spec fn message(self) -> Seq<char> {
        match self {
            TargetErrorView::Name { name, source } => {
                "'"@ + name + "' is not a valid experiment name: "@ + source.message()
            },
            TargetErrorView::Profile { profile, source } => {
                "'"@ + profile + "' is not a valid compose profile: "@ + source.message()
            },
            TargetErrorView::WildcardWithOthers => {
                "'*' already means every profile, so it cannot be combined with others"@
            },
        }
    }
}

#[derive(Debug, Clone, PartialEq, Eq)]
pub enum TargetError {
    Name { name: String, source: ExperimentNameError },
    Profile { profile: String, source: ProfileNameError },
    WildcardWithOthers,
}

impl View for TargetError {
    type V = TargetErrorView;

    open spec fn view(&self) -> TargetErrorView {
        match self {
            TargetError::Name { name, source } => TargetErrorView::Name {
                name: name@,
                source: *source,
            },
            TargetError::Profile { profile, source } => TargetErrorView::Profile {
                profile: profile@,
                source: *source,
            },
            TargetError::WildcardWithOthers => TargetErrorView::WildcardWithOthers,
        }
    }
}

impl TargetError {
    /// What the error tells the user.
    pub fn to_string(&self) -> (r: String)
        ensures
            r@ == self@.message(),
    {
        match self {
            TargetError::Name { name, source } => text::cat4(
                "'",
                name.as_str(),
                "' is not a valid experiment name: ",
                source.to_string().as_str(),
            ),
            TargetError::Profile { profile, source } => text::cat4(
                "'",
                profile.as_str(),
                "' is not a valid compose profile: ",
                source.to_string().as_str(),
            ),
            TargetError::WildcardWithOthers => {
                "'*' already means every profile, so it cannot be combined with others".to_owned()
            },
        }
    }
}

/// What a `Target` holds.
#[verifier::ext_equal]
pub struct TargetView {
    pub name: Seq<char>,
    pub profiles: ProfilesView,
}

/// One experiment to act on, and the profiles to act on it with.
///
/// Parsed from `name[:profile[,profile...]]`: a colon cannot appear in an experiment name, so the
/// suffix is unambiguous.
#[derive(Debug, PartialEq, Eq)]
pub struct Target {
    pub name: ExperimentName,
    pub profiles: Profiles,
}

impl View for Target {
    type V = TargetView;

    open spec fn view(&self) -> TargetView {
        TargetView { name: self.name@, profiles: self.profiles@ }
    }
}

impl Clone for Target {
    fn clone(&self) -> (r: Self)
        ensures
            r@ == self@,
    {
        Target { name: self.name.clone(), profiles: self.profiles.clone() }
    }
}

/// The profiles that `entries` name, each once, or the first entry's fault.
pub open spec fn profiles_of(entries: Seq<Seq<char>>) -> Result<Seq<Seq<char>>, TargetErrorView>
    decreases entries.len(),
{
    if entries.len() == 0 {
        Ok(Seq::empty())
    } else {
        match profiles_of(entries.drop_last()) {
            Err(err) => Err(err),
            Ok(before) => {
                let entry = text::trimmed(entries.last());
                if entry == ALL_PROFILES@ {
                    Err(TargetErrorView::WildcardWithOthers)
                } else {
                    match names::profile_name_fault(entry) {
                        Some(source) => Err(TargetErrorView::Profile { profile: entry, source }),
                        None => Ok(
                            if before.contains(entry) {
                                before
                            } else {
                                before.push(entry)
                            },
                        ),
                    }
                }
            },
        }
    }
}

/// The profiles that the part of a target behind its colon names: none if it is empty.
pub open spec fn suffix_profiles(suffix: Seq<char>) -> Result<ProfilesView, TargetErrorView> {
    if suffix.len() == 0 {
        Ok(ProfilesView::NoProfiles)
    } else if suffix == ALL_PROFILES@ {
        Ok(ProfilesView::All)
    } else {
        match profiles_of(text::split_of(suffix, ',')) {
            Ok(list) => Ok(ProfilesView::Named(list)),
            Err(err) => Err(err),
        }
    }
}

/// A target's name and the profiles behind it.
pub open spec fn target_with(name: Seq<char>, suffix: Seq<char>) -> Result<
    TargetView,
    TargetErrorView,
> {
    match names::experiment_name_fault(name) {
        Some(source) => Err(TargetErrorView::Name { name, source }),
        None => match suffix_profiles(suffix) {
            Ok(profiles) => Ok(TargetView { name, profiles }),
            Err(err) => Err(err),
        },
    }
}

/// The target that a `name[:profile[,profile...]]` argument names.
pub open spec fn target_of(spec: Seq<char>) -> Result<TargetView, TargetErrorView> {
    let spec = text::trimmed(spec);
    match text::split_once_of(spec, ':') {
        Some((name, suffix)) => target_with(text::trimmed(name), text::trimmed(suffix)),
        None => target_with(spec, Seq::empty()),
    }
}

/// How a target is shown to the user.
pub open spec fn target_text(target: TargetView) -> Seq<char> {
    match target.profiles {
        ProfilesView::NoProfiles => target.name,
        profiles => target.name + " (profiles: "@ + profiles_text(profiles) + ")"@,
    }
}

/// Reads the profiles behind a target's colon.
fn parse_profiles(suffix: &str) -> (r: Result<Profiles, TargetError>)
    ensures
        r is Ok <==> suffix_profiles(suffix@) is Ok,
        r matches Ok(profiles) ==> suffix_profiles(suffix@) == Ok::<ProfilesView, TargetErrorView>(
            profiles@,
        ),
        r matches Err(err) ==> suffix_profiles(suffix@) == Err::<ProfilesView, TargetErrorView>(
            err@,
        ),
{
    if suffix.is_empty() {
        return Ok(Profiles::NoProfiles);
    }
    if text::same(suffix, ALL_PROFILES) {
        return Ok(Profiles::All);
    }
    let entries: Vec<String> = text::split(suffix, ',');
    let ghost views = text::views(entries@);
    let mut list: Vec<ProfileName> = Vec::new();
    let mut i: usize = 0;
    assert(views.take(0) =~= Seq::<Seq<char>>::empty());
    assert(names::profile_views(list@) =~= Seq::<Seq<char>>::empty());
    while i < entries.len()
        invariant
            i <= entries@.len(),
            views == text::views(entries@),
            views == text::split_of(suffix@, ','),
            suffix@.len() > 0,
            suffix@ != ALL_PROFILES@,
            profiles_of(views.take(i as int)) == Ok::<Seq<Seq<char>>, TargetErrorView>(
                names::profile_views(list@),
            ),
        decreases entries@.len() - i,
    {
        assert(views.take(i + 1).drop_last() =~= views.take(i as int));
        let entry: String = text::trim(entries[i].as_str());
        proof {
            names::profile_name_is_valid_or_faulty(entry@);
        }
        if text::same(entry.as_str(), ALL_PROFILES) {
            proof {
                lemma_first_fault_counts(views, i + 1);
            }
            return Err(TargetError::WildcardWithOthers);
        }
        match ProfileName::new(entry.as_str()) {
            Err(source) => {
                proof {
                    lemma_first_fault_counts(views, i + 1);
                }
                return Err(TargetError::Profile { profile: entry, source });
            },
            Ok(profile) => {
                let ghost before = names::profile_views(list@);
                if !holds(&list, entry.as_str()) {
                    list.push(profile);
                    assert(names::profile_views(list@) =~= before.push(entry@));
                }
            },
        }
        i = i + 1;
    }
    assert(views.take(i as int) =~= views);
    Ok(Profiles::Named(list))
}

/// Whatever follows a faulty entry, the fault stands.
proof fn lemma_first_fault_counts(entries: Seq<Seq<char>>, n: int)
    requires
        0 <= n <= entries.len(),
        profiles_of(entries.take(n)) is Err,
    ensures
        profiles_of(entries) == profiles_of(entries.take(n)),
    decreases entries.len(),
{
    if n == entries.len() {
        assert(entries.take(n) =~= entries);
    } else {
        assert(entries.drop_last().take(n) =~= entries.take(n));
        lemma_first_fault_counts(entries.drop_last(), n);
    }
}

impl Target {
    pub fn new(name: ExperimentName, profiles: Profiles) -> (r: Self)
        ensures
            r.name == name,
            r.profiles == profiles,
    {
        Target { name, profiles }
    }

    /// Parses one `name[:profile[,profile...]]` argument.
    ///
    /// A bare `name` and a trailing-colon `name:` both mean "no profiles": the command line is
    /// authoritative, so naming an experiment explicitly never inherits what `enabled.conf`
    /// configured for it.
    pub fn parse(spec: &str) -> (r: Result<Self, TargetError>)
        ensures
            r is Ok <==> target_of(spec@) is Ok,
            r matches Ok(target) ==> target_of(spec@) == Ok::<TargetView, TargetErrorView>(target@),
            r matches Err(err) ==> target_of(spec@) == Err::<TargetView, TargetErrorView>(err@),
    {
        let spec: String = text::trim(spec);
        let (name, suffix): (String, String) = match text::split_once(spec.as_str(), ':') {
            Some((name, suffix)) => (text::trim(name.as_str()), text::trim(suffix.as_str())),
            None => (spec, String::new()),
        };
        proof {
            names::experiment_name_is_valid_or_faulty(name@);
        }
        match ExperimentName::new(name.as_str()) {
            Err(source) => Err(TargetError::Name { name, source }),
            Ok(experiment) => match parse_profiles(suffix.as_str()) {
                Ok(profiles) => Ok(Target::new(experiment, profiles)),
                Err(err) => Err(err),
            },
        }
    }

    /// How the target is shown to the user.
    pub fn to_string(&self) -> (r: String)
        ensures
            r@ == target_text(self@),
    {
        match &self.profiles {
            Profiles::NoProfiles => self.name.as_str().to_owned(),
            profiles => text::cat4(
                self.name.as_str(),
                " (profiles: ",
                profiles.to_string().as_str(),
                ")",
            ),
        }
    }
}

/// The contents of each target of a list.
pub open spec fn target_views(list: Seq<Target>) -> Seq<TargetView> {
    list.map_values(|target: Target| target@)
}

/// A bare name and a name with a trailing colon both ask for no profiles.
pub proof fn a_bare_name_asks_for_no_profiles(name: Seq<char>)
    requires
        names::valid_experiment_name(name),
    ensures
        target_of(name) == Ok::<TargetView, TargetErrorView>(
            TargetView { name, profiles: ProfilesView::NoProfiles },
        ),
        target_of(name.push(':')) == target_of(name),
{
    names::experiment_name_is_valid_or_faulty(name);
    assert(names::is_name_char(name[0]));
    assert(names::is_name_char(name.last()));
    assert(text::trimmed(name) == name);
    assert forall|i: int| 0 <= i < name.len() implies name[i] != ':' by {
        assert(names::is_name_char(name[i]));
    }
    text::lemma_position_is(name, ':', name.len() as int);
    let spec = name.push(':');
    assert(text::trimmed(spec) == spec);
    text::lemma_position_is(spec, ':', name.len() as int);
    assert(spec.take(name.len() as int) =~= name);
    assert(spec.skip(name.len() as int + 1) =~= Seq::<char>::empty());
}

proof fn lemma_profiles_of(entries: Seq<Seq<char>>)
    requires
        profiles_of(entries) is Ok,
    ensures
        profiles_of(entries)->Ok_0.no_duplicates(),
        forall|i: int|
            0 <= i < profiles_of(entries)->Ok_0.len() ==> names::valid_profile_name(
                #[trigger] profiles_of(entries)->Ok_0[i],
            ),
        entries.len() > 0 ==> profiles_of(entries)->Ok_0.len() > 0,
    decreases entries.len(),
{
    if entries.len() > 0 {
        lemma_profiles_of(entries.drop_last());
        names::profile_name_is_valid_or_faulty(text::trimmed(entries.last()));
    }
}

/// What parses has a valid name, and names at least one profile if it names any: each valid, and
/// each once.
pub proof fn a_parsed_target_is_valid(spec: Seq<char>)
    requires
        target_of(spec) is Ok,
    ensures
        names::valid_experiment_name(target_of(spec)->Ok_0.name),
        target_of(spec)->Ok_0.profiles matches ProfilesView::Named(list) ==> {
            &&& list.len() > 0
            &&& list.no_duplicates()
            &&& forall|i: int|
                0 <= i < list.len() ==> names::valid_profile_name(#[trigger] list[i])
        },
{
    names::experiment_name_is_valid_or_faulty(target_of(spec)->Ok_0.name);
    if let Some((name, suffix)) = text::split_once_of(text::trimmed(spec), ':') {
        let suffix = text::trimmed(suffix);
        if suffix.len() > 0 && suffix != ALL_PROFILES@ {
            lemma_profiles_of(text::split_of(suffix, ','));
        }
    }
}

} // verus!

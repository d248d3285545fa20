//! The names of experiments and of compose profiles.

use vstd::prelude::*;
use vstd::string::*;

use crate::text;

verus! {

#[derive(Debug, Clone, Copy, PartialEq, Eq)]
pub enum ExperimentNameError {
    Empty,
    PathSeparator,
    RelativeComponent,
    HiddenName,
    InvalidCharacter { found: char },
}

/// What is said of a character that no name may hold.
pub open spec fn invalid_character_message(found: char) -> Seq<char> {
    "may only contain letters, digits, '.', '_' and '-' (found '"@ + seq![found] + "')"@
}

fn invalid_character(found: char) -> (r: String)
    ensures
        r@ == invalid_character_message(found),
{
    text::cat3(
        "may only contain letters, digits, '.', '_' and '-' (found '",
        text::char_str(found).as_str(),
        "')",
    )
}

impl ExperimentNameError {
    /// What the error tells the user.
    pub open spec fn message(self) -> Seq<char> {
        match self {
            ExperimentNameError::Empty => "must not be empty"@,
            ExperimentNameError::PathSeparator => "must not contain a path separator"@,
            ExperimentNameError::RelativeComponent => {
                "must not be a relative path component ('.' or '..')"@
            },
            ExperimentNameError::HiddenName => "must not start with '.'"@,
            ExperimentNameError::InvalidCharacter { found } => invalid_character_message(found),
        }
    }

    /// What the error tells the user.
    pub fn to_string(&self) -> (r: String)
        ensures
            r@ == self.message(),
    {
        match self {
            ExperimentNameError::Empty => "must not be empty".to_owned(),
            ExperimentNameError::PathSeparator => "must not contain a path separator".to_owned(),
            ExperimentNameError::RelativeComponent => {
                "must not be a relative path component ('.' or '..')".to_owned()
            },
            ExperimentNameError::HiddenName => "must not start with '.'".to_owned(),
            ExperimentNameError::InvalidCharacter { found } => invalid_character(*found),
        }
    }
}

/// The characters an experiment or a profile may be named with.
pub open spec fn is_name_char(c: char) -> bool {
    text::is_alphanumeric(c) || c == '.' || c == '_' || c == '-'
}

fn name_char(c: char) -> (r: bool)
    ensures
        r == is_name_char(c),
{
    text::alphanumeric(c) || c == '.' || c == '_' || c == '-'
}

/// An experiment's name: safe to join onto a directory path, and not a hidden one.
pub open spec fn valid_experiment_name(name: Seq<char>) -> bool {
    &&& name.len() > 0
    &&& name[0] != '.'
    &&& forall|i: int| 0 <= i < name.len() ==> is_name_char(#[trigger] name[i])
}

/// Why `name` is no experiment's name: the first of the rules that it breaks.
pub open spec fn experiment_name_fault(name: Seq<char>) -> Option<ExperimentNameError> {
    let at = text::position_where(name, |c: char| !is_name_char(c));
    if name.len() == 0 {
        Some(ExperimentNameError::Empty)
    } else if name.contains('/') || name.contains('\\') {
        Some(ExperimentNameError::PathSeparator)
    } else if name == seq!['.'] || name == seq!['.', '.'] {
        Some(ExperimentNameError::RelativeComponent)
    } else if name[0] == '.' {
        Some(ExperimentNameError::HiddenName)
    } else if at < name.len() {
        Some(ExperimentNameError::InvalidCharacter { found: name[at] })
    } else {
        None
    }
}

/// What has no fault is valid, and what is valid has none.
pub proof fn experiment_name_is_valid_or_faulty(name: Seq<char>)
    ensures
        valid_experiment_name(name) <==> experiment_name_fault(name) is None,
{
    let bad = |c: char| !is_name_char(c);
    let at = text::position_where(name, bad);
    text::lemma_position_where(name, bad);
    if valid_experiment_name(name) {
        assert(forall|i: int| 0 <= i < name.len() ==> is_name_char(#[trigger] name[i]));
        if at < name.len() {
            assert(bad(name[at]));
        }
    } else if experiment_name_fault(name) is None {
        assert forall|i: int| 0 <= i < name.len() implies is_name_char(#[trigger] name[i]) by {
            assert(!bad(name[i]));
        }
    }
}

/// An experiment's name stays below the directory it is joined onto: it holds no path separator
/// and is no relative component.
pub proof fn experiment_name_stays_in_its_directory(name: Seq<char>)
    requires
        valid_experiment_name(name),
    ensures
        !name.contains('/'),
        !name.contains('\\'),
        name != seq!['.'],
        name != seq!['.', '.'],
{
    assert forall|i: int| 0 <= i < name.len() implies name[i] != '/' && name[i] != '\\' by {
        assert(is_name_char(name[i]));
    }
}

/// A validated experiment name: safe to join onto a directory path.
#[derive(Debug, PartialEq, Eq, PartialOrd, Ord)]
pub struct ExperimentName(String);

impl View for ExperimentName {
    type V = Seq<char>;

    closed spec fn view(&self) -> Seq<char> {
        self.0@
    }
}

impl Clone for ExperimentName {
    fn clone(&self) -> (r: Self)
        ensures
            r@ == self@,
    {
        proof {
            use_type_invariant(self);
        }
        ExperimentName(self.0.clone())
    }
}

impl ExperimentName {
    #[verifier::type_invariant]
    spec fn wf(self) -> bool {
        valid_experiment_name(self.0@)
    }

    pub fn new(name: &str) -> (r: Result<Self, ExperimentNameError>)
        ensures
            r is Ok <==> valid_experiment_name(name@),
            r matches Ok(experiment) ==> experiment@ == name@,
            r matches Err(err) ==> experiment_name_fault(name@) == Some(err),
    {
        proof {
            experiment_name_is_valid_or_faulty(name@);
        }
        let chars: Vec<char> = text::to_chars(name);
        if chars.len() == 0 {
            return Err(ExperimentNameError::Empty);
        }
        if text::contains_char(name, '/') || text::contains_char(name, '\\') {
            return Err(ExperimentNameError::PathSeparator);
        }
        if chars[0] == '.' && (chars.len() == 1 || (chars.len() == 2 && chars[1] == '.')) {
            assert(name@ =~= seq!['.'] || name@ =~= seq!['.', '.']);
            return Err(ExperimentNameError::RelativeComponent);
        }
        // A leading dot would let an entry address `.ssh`-style hidden directories, and reads as
        // a mistake in a file that is meant to list experiment names.
        if chars[0] == '.' {
            return Err(ExperimentNameError::HiddenName);
        }
        let ghost bad = |c: char| !is_name_char(c);
        let mut i: usize = 0;
        while i < chars.len()
            invariant
                chars@ == name@,
                i <= chars@.len(),
                chars@.len() > 0,
                chars@[0] != '.',
                !name@.contains('/') && !name@.contains('\\'),
                name@ != seq!['.'] && name@ != seq!['.', '.'],
                bad == (|c: char| !is_name_char(c)),
                forall|j: int| 0 <= j < i ==> !bad(#[trigger] name@[j]),
                valid_experiment_name(name@) <==> experiment_name_fault(name@) is None,
            decreases chars@.len() - i,
        {
            if !name_char(chars[i]) {
                proof {
                    text::lemma_position_where_is(name@, bad, i as int);
                }
                return Err(ExperimentNameError::InvalidCharacter { found: chars[i] });
            }
            i = i + 1;
        }
        proof {
            text::lemma_position_where_is(name@, bad, i as int);
        }
        Ok(ExperimentName(name.to_owned()))
    }

    pub fn as_str(&self) -> (r: &str)
        ensures
            r@ == self@,
            valid_experiment_name(r@),
    {
        proof {
            use_type_invariant(self);
        }
        self.0.as_str()
    }
}

#[derive(Debug, Clone, Copy, PartialEq, Eq)]
pub enum ProfileNameError {
    Empty,
    InvalidStart { found: char },
    InvalidCharacter { found: char },
}

impl ProfileNameError {
    /// What the error tells the user.
    pub open spec fn message(self) -> Seq<char> {
        match self {
            ProfileNameError::Empty => "must not be empty"@,
            ProfileNameError::InvalidStart { found } => {
                "must start with a letter or a digit (found '"@ + seq![found] + "')"@
            },
            ProfileNameError::InvalidCharacter { found } => invalid_character_message(found),
        }
    }

    /// What the error tells the user.
    pub fn to_string(&self) -> (r: String)
        ensures
            r@ == self.message(),
    {
        match self {
            ProfileNameError::Empty => "must not be empty".to_owned(),
            ProfileNameError::InvalidStart { found } => text::cat3(
                "must start with a letter or a digit (found '",
                text::char_str(*found).as_str(),
                "')",
            ),
            ProfileNameError::InvalidCharacter { found } => invalid_character(*found),
        }
    }
}

/// Compose's own schema for a profile's name: `[a-zA-Z0-9][a-zA-Z0-9_.-]*`.
pub open spec fn valid_profile_name(name: Seq<char>) -> bool {
    &&& name.len() > 0
    &&& text::is_alphanumeric(name[0])
    &&& forall|i: int| 0 <= i < name.len() ==> is_name_char(#[trigger] name[i])
}

/// Why `name` is no profile's name: the first of the rules that it breaks.
pub open spec fn profile_name_fault(name: Seq<char>) -> Option<ProfileNameError> {
    let at = text::position_where(name, |c: char| !is_name_char(c));
    if name.len() == 0 {
        Some(ProfileNameError::Empty)
    } else if !text::is_alphanumeric(name[0]) {
        Some(ProfileNameError::InvalidStart { found: name[0] })
    } else if at < name.len() {
        Some(ProfileNameError::InvalidCharacter { found: name[at] })
    } else {
        None
    }
}

/// What has no fault is valid, and what is valid has none.
pub proof fn profile_name_is_valid_or_faulty(name: Seq<char>)
    ensures
        valid_profile_name(name) <==> profile_name_fault(name) is None,
{
    let bad = |c: char| !is_name_char(c);
    let at = text::position_where(name, bad);
    text::lemma_position_where(name, bad);
    if valid_profile_name(name) {
        if at < name.len() {
            assert(bad(name[at]));
        }
    } else if profile_name_fault(name) is None {
        assert forall|i: int| 0 <= i < name.len() implies is_name_char(#[trigger] name[i]) by {
            assert(!bad(name[i]));
        }
    }
}

/// A validated docker compose profile name.
#[derive(Debug, PartialEq, Eq)]
pub struct ProfileName(String);

impl View for ProfileName {
    type V = Seq<char>;

    closed spec fn view(&self) -> Seq<char> {
        self.0@
    }
}

impl Clone for ProfileName {
    fn clone(&self) -> (r: Self)
        ensures
            r@ == self@,
    {
        proof {
            use_type_invariant(self);
        }
        ProfileName(self.0.clone())
    }
}

impl ProfileName {
    #[verifier::type_invariant]
    spec fn wf(self) -> bool {
        valid_profile_name(self.0@)
    }

    pub fn new(name: &str) -> (r: Result<Self, ProfileNameError>)
        ensures
            r is Ok <==> valid_profile_name(name@),
            r matches Ok(profile) ==> profile@ == name@,
            r matches Err(err) ==> profile_name_fault(name@) == Some(err),
    {
        proof {
            profile_name_is_valid_or_faulty(name@);
        }
        let chars: Vec<char> = text::to_chars(name);
        if chars.len() == 0 {
            return Err(ProfileNameError::Empty);
        }
        if !text::alphanumeric(chars[0]) {
            return Err(ProfileNameError::InvalidStart { found: chars[0] });
        }
        let ghost bad = |c: char| !is_name_char(c);
        let mut i: usize = 0;
        while i < chars.len()
            invariant
                chars@ == name@,
                i <= chars@.len(),
                chars@.len() > 0,
                text::is_alphanumeric(chars@[0]),
                bad == (|c: char| !is_name_char(c)),
                forall|j: int| 0 <= j < i ==> !bad(#[trigger] name@[j]),
                valid_profile_name(name@) <==> profile_name_fault(name@) is None,
            decreases chars@.len() - i,
        {
            if !name_char(chars[i]) {
                proof {
                    text::lemma_position_where_is(name@, bad, i as int);
                }
                return Err(ProfileNameError::InvalidCharacter { found: chars[i] });
            }
            i = i + 1;
        }
        proof {
            text::lemma_position_where_is(name@, bad, i as int);
        }
        Ok(ProfileName(name.to_owned()))
    }

    pub fn as_str(&self) -> (r: &str)
        ensures
            r@ == self@,
            valid_profile_name(r@),
    {
        proof {
            use_type_invariant(self);
        }
        self.0.as_str()
    }
}

/// The contents of each profile name of a list.
pub open spec fn profile_views(list: Seq<ProfileName>) -> Seq<Seq<char>> {
    list.map_values(|name: ProfileName| name@)
}

/// The contents of each experiment name of a list.
pub open spec fn name_views(list: Seq<ExperimentName>) -> Seq<Seq<char>> {
    list.map_values(|name: ExperimentName| name@)
}

} // verus!

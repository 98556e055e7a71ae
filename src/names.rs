use vstd::prelude::*;

verus! {

/// Which given names a name is recorded for.
#[derive(PartialEq, Eq, Structural, Debug, Clone, Copy)]
pub enum Gender {
    Female,
    Male,
    Both,
}

/// The stored form of a gender.
pub open spec fn gender_text(g: Gender) -> Seq<char> {
    match g {
        Gender::Female => "female"@,
        Gender::Male => "male"@,
        Gender::Both => "both"@,
    }
}

/// The gender whose stored form is `s`.
pub open spec fn gender_named(s: Seq<char>) -> Option<Gender> {
    if s == "female"@ {
        Some(Gender::Female)
    } else if s == "male"@ {
        Some(Gender::Male)
    } else if s == "both"@ {
        Some(Gender::Both)
    } else {
        None
    }
}

/// The gender of a field of a name list: its stored form, or the short
/// forms `w`, `m` and `n`.
pub open spec fn gender_of_field(s: Seq<char>) -> Option<Gender> {
    if s == "w"@ {
        Some(Gender::Female)
    } else if s == "m"@ {
        Some(Gender::Male)
    } else if s == "n"@ {
        Some(Gender::Both)
    } else {
        gender_named(s)
    }
}

/// The gender of a name recorded once as `a` and once as `b`.
pub open spec fn merged(a: Gender, b: Gender) -> Gender {
    if a == b {
        a
    } else {
        Gender::Both
    }
}

/// Whether a listing for gender `filter` shows a name of gender `g`.
pub open spec fn shows(filter: Gender, g: Gender) -> bool {
    match filter {
        Gender::Both => true,
        Gender::Female => g != Gender::Male,
        Gender::Male => g != Gender::Female,
    }
}

fn same_text(s: &str, t: &str) -> (r: bool)
    ensures
        r == (s@ == t@),
{
    s.to_owned() == t.to_owned()
}

impl Gender {
    /// The stored form: `female`, `male` or `both`.
    pub fn as_str(&self) -> (r: &'static str)
        ensures
            r@ == gender_text(*self),
    {
        match self {
            Gender::Female => "female",
            Gender::Male => "male",
            Gender::Both => "both",
        }
    }

    /// The gender whose stored form is `s`.
    pub fn from_name(s: &str) -> (r: Option<Gender>)
        ensures
            r == gender_named(s@),
    {
        if same_text(s, "female") {
            Some(Gender::Female)
        } else if same_text(s, "male") {
            Some(Gender::Male)
        } else if same_text(s, "both") {
            Some(Gender::Both)
        } else {
            None
        }
    }

    /// The gender written in a field of a name list.
    pub fn from_field(s: &str) -> (r: Option<Gender>)
        ensures
            r == gender_of_field(s@),
    {
        if same_text(s, "w") {
            Some(Gender::Female)
        } else if same_text(s, "m") {
            Some(Gender::Male)
        } else if same_text(s, "n") {
            Some(Gender::Both)
        } else {
            Gender::from_name(s)
        }
    }

    /// The gender of a name already recorded as `self` and recorded again
    /// as `other`: it stays when both agree and becomes `Both` otherwise.
    pub fn merged_with(self, other: Gender) -> (r: Gender)
        ensures
            r == merged(self, other),
    {
        if self == other {
            self
        } else {
            Gender::Both
        }
    }

    /// Whether a listing for `self` shows a name of gender `g`.
    pub fn shows(self, g: Gender) -> (r: bool)
        ensures
            r == shows(self, g),
    {
        match self {
            Gender::Both => true,
            Gender::Female => g != Gender::Male,
            Gender::Male => g != Gender::Female,
        }
    }
}

/// Every name listed under a gender is also listed under `Both`.
pub proof fn lemma_both_shows_all(g: Gender)
    ensures
        shows(Gender::Both, g),
        shows(g, g),
        shows(g, Gender::Both),
{
}

/// Recording a name again under the gender it has changes nothing, and the
/// order of two recordings does not matter.
pub proof fn lemma_merge_laws(a: Gender, b: Gender)
    ensures
        merged(a, a) == a,
        merged(a, b) == merged(b, a),
        merged(merged(a, b), b) == merged(a, b),
{
}

/// How a name is rated.
#[derive(PartialEq, Eq, Structural, Debug, Clone, Copy)]
pub enum NamePreference {
    Favorite,
    NoGo,
}

/// The stored form of a preference.
pub open spec fn preference_text(p: NamePreference) -> Seq<char> {
    match p {
        NamePreference::Favorite => "favorite"@,
        NamePreference::NoGo => "no_go"@,
    }
}

/// The preference whose stored form is `s`.
pub open spec fn preference_named(s: Seq<char>) -> Option<NamePreference> {
    if s == "favorite"@ {
        Some(NamePreference::Favorite)
    } else if s == "no_go"@ {
        Some(NamePreference::NoGo)
    } else {
        None
    }
}

impl NamePreference {
    /// The stored form: `favorite` or `no_go`.
    pub fn as_str(&self) -> (r: &'static str)
        ensures
            r@ == preference_text(*self),
    {
        match self {
            NamePreference::Favorite => "favorite",
            NamePreference::NoGo => "no_go",
        }
    }

    /// The preference whose stored form is `s`.
    pub fn from_name(s: &str) -> (r: Option<NamePreference>)
        ensures
            r == preference_named(s@),
    {
        if same_text(s, "favorite") {
            Some(NamePreference::Favorite)
        } else if same_text(s, "no_go") {
            Some(NamePreference::NoGo)
        } else {
            None
        }
    }
}

/// A given name and the gender it is recorded for.
#[derive(Debug, Clone)]
pub struct Name {
    pub name: String,
    pub gender: Gender,
}

/// One line of a name list: a name, how often it was given, and for which gender.
#[derive(Debug, Clone)]
pub struct NameRecord {
    pub name: String,
    pub count: u32,
    pub gender: Gender,
}

/// Why a line of a name list was refused.
#[derive(PartialEq, Eq, Structural, Debug, Clone, Copy)]
pub enum RecordError {
    /// The gender field is none of the known forms.
    UnknownGender,
}

impl NameRecord {
    /// The record of a line whose fields are `name`, `count` and `gender`.
    pub fn from_fields(name: String, count: u32, gender: &str) -> (r: Result<NameRecord, RecordError>)
        ensures
            r is Err <==> gender_of_field(gender@) is None,
            r is Err ==> r == Err::<NameRecord, RecordError>(RecordError::UnknownGender),
            r matches Ok(rec) ==> rec.name@ == name@ && rec.count == count && Some(rec.gender)
                == gender_of_field(gender@),
    {
        match Gender::from_field(gender) {
            Some(g) => Ok(NameRecord { name, count, gender: g }),
            None => Err(RecordError::UnknownGender),
        }
    }
}

/// A name with its gender and its preference, if one was set.
#[derive(Debug, Clone)]
pub struct NameWithPreference {
    pub name: String,
    pub gender: Gender,
    pub preference: Option<NamePreference>,
}

/// An item of a list, told apart from the others by its key.
pub trait Model {
    fn unique_key(&self) -> &String;
}

impl Model for NameWithPreference {
    fn unique_key(&self) -> (r: &String) {
        &self.name
    }
}

} // verus!

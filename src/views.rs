use vstd::prelude::*;

use crate::names::{shows, Gender, Name, NamePreference, NameWithPreference};

verus! {

/// Whether a name with preference `p` passes the three check boxes.
pub open spec fn preference_shown(
    show_favorite: bool,
    show_nogo: bool,
    show_undecided: bool,
    p: Option<NamePreference>,
) -> bool {
    match p {
        Some(NamePreference::Favorite) => show_favorite,
        Some(NamePreference::NoGo) => show_nogo,
        None => show_undecided,
    }
}

/// Which preferences a listing shows.
#[derive(PartialEq, Eq, Structural, Debug, Clone, Copy)]
pub struct PreferenceFilter {
    pub show_favorite: bool,
    pub show_nogo: bool,
    pub show_undecided: bool,
}

impl PreferenceFilter {
    /// Whether a name with preference `p` is shown.
    pub fn shows(&self, p: Option<NamePreference>) -> (r: bool)
        ensures
            r == preference_shown(self.show_favorite, self.show_nogo, self.show_undecided, p),
    {
        match p {
            Some(NamePreference::Favorite) => self.show_favorite,
            Some(NamePreference::NoGo) => self.show_nogo,
            None => self.show_undecided,
        }
    }
}

/// What the list of names shows: a gender, the preferences, and an optional
/// search term that the name store matches.
#[derive(Debug, Clone)]
pub struct NameListViewFilter {
    pub gender: Gender,
    pub show_favorite: bool,
    pub show_nogo: bool,
    pub show_undecided: bool,
    pub name_contains: Option<String>,
}

impl Default for NameListViewFilter {
    /// Every gender and every preference, no search term.
    fn default() -> (r: NameListViewFilter)
        ensures
            r.gender == Gender::Both,
            r.show_favorite && r.show_nogo && r.show_undecided,
            r.name_contains is None,
    {
        NameListViewFilter {
            gender: Gender::Both,
            show_favorite: true,
            show_nogo: true,
            show_undecided: true,
            name_contains: None,
        }
    }
}

impl NameListViewFilter {
    /// Whether a name of gender `g` with preference `p` passes the gender
    /// and preference parts of the filter.
    pub fn shows(&self, g: Gender, p: Option<NamePreference>) -> (r: bool)
        ensures
            r == (shows(self.gender, g) && preference_shown(
                self.show_favorite,
                self.show_nogo,
                self.show_undecided,
                p,
            )),
    {
        let by_preference = match p {
            Some(NamePreference::Favorite) => self.show_favorite,
            Some(NamePreference::NoGo) => self.show_nogo,
            None => self.show_undecided,
        };
        self.gender.shows(g) && by_preference
    }

    /// The filter with its preference parts taken from `p`.
    pub fn with_preference_filter(&self, p: PreferenceFilter) -> (r: NameListViewFilter)
        ensures
            r.gender == self.gender,
            r.show_favorite == p.show_favorite,
            r.show_nogo == p.show_nogo,
            r.show_undecided == p.show_undecided,
            r.name_contains == self.name_contains,
    {
        NameListViewFilter {
            gender: self.gender,
            show_favorite: p.show_favorite,
            show_nogo: p.show_nogo,
            show_undecided: p.show_undecided,
            name_contains: self.name_contains.clone(),
        }
    }
}

/// What the preference buttons of a name are told.
#[derive(Debug, Clone, Copy)]
pub enum NamePreferenceInput {
    /// Show this preference, without reporting it.
    SetPreference(Option<NamePreference>),
    /// The user chose this preference.
    PreferenceToggled(NamePreference),
}

/// The preference buttons of one name.
#[derive(Debug, Clone, Copy)]
pub struct NamePreferenceView {
    pub preference: Option<NamePreference>,
}

impl NamePreferenceView {
    pub fn new(preference: Option<NamePreference>) -> (r: NamePreferenceView)
        ensures
            r.preference == preference,
    {
        NamePreferenceView { preference }
    }

    /// Handles `message`; returns the preference to report, if the user
    /// chose one that was not already set.
    pub fn update(&mut self, message: NamePreferenceInput) -> (r: Option<Option<NamePreference>>)
        ensures
            match message {
                NamePreferenceInput::SetPreference(p) => final(self).preference == p && r is None,
                NamePreferenceInput::PreferenceToggled(p) => final(self).preference == Some(p) && (
                r == if old(self).preference == Some(p) {
                    None::<Option<NamePreference>>
                } else {
                    Some(Some(p))
                }),
            },
    {
        match message {
            NamePreferenceInput::SetPreference(p) => {
                self.preference = p;
                None
            },
            NamePreferenceInput::PreferenceToggled(p) => {
                if self.preference == Some(p) {
                    return None;
                }
                self.preference = Some(p);
                Some(Some(p))
            },
        }
    }
}

/// What a row of the list of names starts with.
#[derive(Debug, Clone)]
pub struct NameListRowInit {
    pub name: Name,
    pub preference: Option<NamePreference>,
}

/// What a row of the list of names is told.
#[derive(Debug, Clone)]
pub enum NameListRowInput {
    /// Show another name.
    SetName(NameWithPreference),
    /// The user chose a preference for the name shown.
    UpdatePreference(Option<NamePreference>),
}

/// What a row of the list of names reports.
#[derive(Debug, Clone)]
pub enum NameListRowOutput {
    NamePreferenceSet(NameWithPreference),
}

/// The state of a row of the list of names.
#[derive(Debug, Clone)]
pub struct NameListRowState {
    pub name: Name,
    pub preference: Option<NamePreference>,
}

impl NameListRowState {
    pub fn new(init: NameListRowInit) -> (r: NameListRowState)
        ensures
            r.name.name@ == init.name.name@,
            r.name.gender == init.name.gender,
            r.preference == init.preference,
    {
        NameListRowState { name: init.name, preference: init.preference }
    }

    /// Handles `message`; a preference chosen by the user is reported with
    /// the name it was chosen for.
    pub fn update(&mut self, message: NameListRowInput) -> (r: Option<NameListRowOutput>)
        ensures
            match message {
                NameListRowInput::SetName(n) => final(self).name.name@ == n.name@
                    && final(self).name.gender == n.gender && final(self).preference
                    == n.preference && r is None,
                NameListRowInput::UpdatePreference(p) => {
                    &&& final(self).name.name@ == old(self).name.name@
                    &&& final(self).name.gender == old(self).name.gender
                    &&& final(self).preference == p
                    &&& r matches Some(NameListRowOutput::NamePreferenceSet(out))
                    &&& out.name@ == old(self).name.name@
                    &&& out.gender == old(self).name.gender
                    &&& out.preference == p
                },
            },
    {
        match message {
            NameListRowInput::SetName(n) => {
                self.name = Name { name: n.name, gender: n.gender };
                self.preference = n.preference;
                None
            },
            NameListRowInput::UpdatePreference(p) => {
                self.preference = p;
                Some(
                    NameListRowOutput::NamePreferenceSet(
                        NameWithPreference {
                            name: self.name.name.clone(),
                            gender: self.name.gender,
                            preference: p,
                        },
                    ),
                )
            },
        }
    }
}

/// What the list of names reports.
#[derive(Debug, Clone)]
pub enum NameListOutput {
    NamePreferenceUpdated(NameWithPreference),
}

/// The reports that set `preference` on every selected name, in the order
/// of the selection.
pub fn selection_preference_updates(
    selected: &Vec<NameWithPreference>,
    preference: Option<NamePreference>,
) -> (r: Vec<NameListOutput>)
    ensures
        r.len() == selected.len(),
        forall|i: int|
            0 <= i < r.len() ==> (#[trigger] r[i] matches NameListOutput::NamePreferenceUpdated(n)
                && n.name@ == selected[i].name@ && n.gender == selected[i].gender && n.preference
                == preference),
{
    let mut r: Vec<NameListOutput> = Vec::new();
    for i in 0..selected.len()
        invariant
            r.len() == i,
            forall|j: int|
                0 <= j < i ==> (#[trigger] r[j] matches NameListOutput::NamePreferenceUpdated(n)
                    && n.name@ == selected[j].name@ && n.gender == selected[j].gender
                    && n.preference == preference),
    {
        let n = &selected[i];
        r.push(
            NameListOutput::NamePreferenceUpdated(
                NameWithPreference { name: n.name.clone(), gender: n.gender, preference },
            ),
        );
    }
    r
}

} // verus!

use baby_names::names::{Gender, Model, NamePreference, NameRecord, NameWithPreference, RecordError};
use baby_names::progress::{PrettyPrintedDuration, SimilarityStatistics};
use baby_names::views::{
    NameListRowInit, NameListRowInput, NameListRowOutput, NameListRowState, NameListViewFilter,
    NameListOutput, NamePreferenceInput, NamePreferenceView, PreferenceFilter,
    selection_preference_updates,
};
use baby_names::names::Name;

#[test]
fn gender_names_round_trip() {
    for g in [Gender::Female, Gender::Male, Gender::Both] {
        assert_eq!(Gender::from_name(g.as_str()), Some(g));
    }
    assert_eq!(Gender::Female.as_str(), "female");
    assert_eq!(Gender::from_name("w"), None);
    assert_eq!(Gender::from_name("Female"), None);
}

#[test]
fn gender_fields_accept_short_forms() {
    assert_eq!(Gender::from_field("w"), Some(Gender::Female));
    assert_eq!(Gender::from_field("m"), Some(Gender::Male));
    assert_eq!(Gender::from_field("n"), Some(Gender::Both));
    assert_eq!(Gender::from_field("male"), Some(Gender::Male));
    assert_eq!(Gender::from_field("x"), None);
}

#[test]
fn gender_merging() {
    assert_eq!(Gender::Female.merged_with(Gender::Female), Gender::Female);
    assert_eq!(Gender::Male.merged_with(Gender::Male), Gender::Male);
    assert_eq!(Gender::Female.merged_with(Gender::Male), Gender::Both);
    assert_eq!(Gender::Both.merged_with(Gender::Female), Gender::Both);
    assert_eq!(Gender::Male.merged_with(Gender::Both), Gender::Both);
}

#[test]
fn gender_listing() {
    assert!(Gender::Female.shows(Gender::Both));
    assert!(!Gender::Female.shows(Gender::Male));
    assert!(!Gender::Male.shows(Gender::Female));
    assert!(Gender::Both.shows(Gender::Male));
}

#[test]
fn preferences_round_trip() {
    assert_eq!(NamePreference::NoGo.as_str(), "no_go");
    assert_eq!(NamePreference::from_name("favorite"), Some(NamePreference::Favorite));
    assert_eq!(NamePreference::from_name("no_go"), Some(NamePreference::NoGo));
    assert_eq!(NamePreference::from_name("nogo"), None);
}

#[test]
fn records_from_fields() {
    let r = NameRecord::from_fields("Ann".to_string(), 12, "w").unwrap();
    assert_eq!(r.name, "Ann");
    assert_eq!(r.count, 12);
    assert_eq!(r.gender, Gender::Female);
    assert!(matches!(NameRecord::from_fields("Ann".to_string(), 1, "q"), Err(RecordError::UnknownGender)));
}

#[test]
fn model_key_is_the_name() {
    let n = NameWithPreference { name: "Ann".to_string(), gender: Gender::Female, preference: None };
    assert_eq!(n.unique_key(), "Ann");
}

#[test]
fn statistics_report_first_name_changes() {
    let mut s = SimilarityStatistics::new();
    let first = s.update_and_maybe_print("Ann", true).unwrap();
    assert_eq!((first.total_pair_count, first.name_count, first.stored_count), (1, 1, 1));
    assert!(s.update_and_maybe_print("Ann", false).is_none());
    let line = s.update_and_maybe_print("Bob", false).unwrap();
    assert_eq!((line.total_pair_count, line.name_count, line.stored_count), (3, 2, 1));
    assert_eq!(line.name, "Bob");
    let again = SimilarityStatistics::default();
    assert_eq!(again.total_pair_count(), 0);
}

#[test]
fn duration_parts() {
    let d = PrettyPrintedDuration::from_secs(3725);
    assert_eq!((d.hours(), d.minutes(), d.seconds()), (1, 2, 5));
    let d = PrettyPrintedDuration::from_secs(59);
    assert_eq!((d.hours(), d.minutes(), d.seconds()), (0, 0, 59));
}

#[test]
fn preference_buttons() {
    let mut v = NamePreferenceView::new(None);
    assert_eq!(v.update(NamePreferenceInput::PreferenceToggled(NamePreference::Favorite)), Some(Some(NamePreference::Favorite)));
    assert_eq!(v.update(NamePreferenceInput::PreferenceToggled(NamePreference::Favorite)), None);
    assert_eq!(v.update(NamePreferenceInput::SetPreference(None)), None);
    assert_eq!(v.preference, None);
}

#[test]
fn filters() {
    let f = PreferenceFilter { show_favorite: true, show_nogo: false, show_undecided: true };
    assert!(f.shows(Some(NamePreference::Favorite)));
    assert!(!f.shows(Some(NamePreference::NoGo)));
    assert!(f.shows(None));
    let v = NameListViewFilter::default();
    assert!(v.shows(Gender::Male, Some(NamePreference::NoGo)));
    let v = v.with_preference_filter(f);
    assert!(!v.shows(Gender::Male, Some(NamePreference::NoGo)));
    assert!(v.name_contains.is_none());
}

#[test]
fn list_rows() {
    let mut row = NameListRowState::new(NameListRowInit {
        name: Name { name: "Ann".to_string(), gender: Gender::Female },
        preference: None,
    });
    let out = row.update(NameListRowInput::UpdatePreference(Some(NamePreference::NoGo)));
    match out {
        Some(NameListRowOutput::NamePreferenceSet(n)) => {
            assert_eq!(n.name, "Ann");
            assert_eq!(n.preference, Some(NamePreference::NoGo));
        }
        None => panic!("no output"),
    }
    let set = NameWithPreference { name: "Bob".to_string(), gender: Gender::Male, preference: None };
    assert!(row.update(NameListRowInput::SetName(set)).is_none());
    assert_eq!(row.name.name, "Bob");
    assert_eq!(row.preference, None);
}

#[test]
fn selection_gets_the_chosen_preference() {
    let selected = vec![
        NameWithPreference { name: "Ann".to_string(), gender: Gender::Female, preference: None },
        NameWithPreference { name: "Bob".to_string(), gender: Gender::Male, preference: Some(NamePreference::NoGo) },
    ];
    let out = selection_preference_updates(&selected, Some(NamePreference::Favorite));
    assert_eq!(out.len(), 2);
    let NameListOutput::NamePreferenceUpdated(second) = &out[1];
    assert_eq!(second.name, "Bob");
    assert_eq!(second.gender, Gender::Male);
    assert_eq!(second.preference, Some(NamePreference::Favorite));
}

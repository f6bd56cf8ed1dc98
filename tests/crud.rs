use seven_guis::crud::{has_prefix, filter_names, make_full_name, Crud, Message};

fn crud_with(records: &[(&str, &str)]) -> Crud {
    let mut c = Crud::new();
    for (last, first) in records {
        c.update(Message::SurnameChanged(last.to_string()));
        c.update(Message::NameChanged(first.to_string()));
        c.update(Message::CreatePressed);
    }
    c
}

#[test]
fn create_then_filter() {
    let mut c = crud_with(&[("Doe", "John")]);
    c.update(Message::FilterPrefixChanged("Do".to_string()));
    assert_eq!(c.display_names, vec!["Doe, John".to_string()]);
}

#[test]
fn filter_keeps_matching_records_in_order() {
    let mut c = crud_with(&[("Doe", "John"), ("Smith", "Ann"), ("Dolan", "Sue")]);
    assert_eq!(c.display_names.len(), 3);
    c.update(Message::FilterPrefixChanged("Do".to_string()));
    assert_eq!(c.display_names, vec!["Doe, John".to_string(), "Dolan, Sue".to_string()]);
    c.update(Message::FilterPrefixChanged("do".to_string()));
    assert!(c.display_names.is_empty());
}

#[test]
fn prefix_longer_than_record() {
    let mut c = crud_with(&[("Li", "Bo")]);
    c.update(Message::FilterPrefixChanged("Li, Bo and more".to_string()));
    assert!(c.display_names.is_empty());
    c.update(Message::FilterPrefixChanged("Li, Bo".to_string()));
    assert_eq!(c.display_names, vec!["Li, Bo".to_string()]);
}

#[test]
fn delete_selected_record() {
    let mut c = crud_with(&[("Doe", "John"), ("Smith", "Ann"), ("Dolan", "Sue")]);
    c.update(Message::FilterPrefixChanged("Do".to_string()));
    c.update(Message::SelectedName(1));
    c.update(Message::DeletePressed);
    assert_eq!(c.names, vec!["Doe, John".to_string(), "Smith, Ann".to_string()]);
    assert_eq!(c.display_names, vec!["Doe, John".to_string()]);
    assert_eq!(c.selected_name, None);
}

#[test]
fn delete_without_valid_selection_keeps_records() {
    let mut c = crud_with(&[("Doe", "John")]);
    c.update(Message::DeletePressed);
    assert_eq!(c.names.len(), 1);
    c.update(Message::SelectedName(4));
    c.update(Message::DeletePressed);
    assert_eq!(c.names.len(), 1);
    assert_eq!(c.selected_name, None);
}

#[test]
fn update_selected_record() {
    let mut c = crud_with(&[("Doe", "John"), ("Smith", "Ann")]);
    c.update(Message::FilterPrefixChanged("S".to_string()));
    c.update(Message::SelectedName(0));
    c.update(Message::SurnameChanged("Jones".to_string()));
    c.update(Message::NameChanged("Ann".to_string()));
    c.update(Message::UpdatePressed);
    assert_eq!(c.names, vec!["Doe, John".to_string(), "Jones, Ann".to_string()]);
    assert!(c.display_names.is_empty());
    assert_eq!(c.selected_name, Some(0));
}

#[test]
fn update_acts_on_first_equal_record() {
    let mut c = crud_with(&[("Doe", "John"), ("Doe", "John")]);
    c.update(Message::SelectedName(1));
    c.update(Message::SurnameChanged("Roe".to_string()));
    c.update(Message::UpdatePressed);
    assert_eq!(c.names, vec!["Roe, John".to_string(), "Doe, John".to_string()]);
}

#[test]
fn create_needs_both_names() {
    let mut c = Crud::new();
    c.update(Message::SurnameChanged("Doe".to_string()));
    c.update(Message::CreatePressed);
    assert!(c.names.is_empty());
    c.update(Message::NameChanged("John".to_string()));
    c.update(Message::SelectedName(0));
    c.update(Message::CreatePressed);
    assert_eq!(c.names, vec!["Doe, John".to_string()]);
    assert_eq!(c.selected_name, None);
}

#[test]
fn update_needs_both_names() {
    let mut c = crud_with(&[("Doe", "John")]);
    c.update(Message::SelectedName(0));
    c.update(Message::NameChanged(String::new()));
    c.update(Message::UpdatePressed);
    assert_eq!(c.names, vec!["Doe, John".to_string()]);
}

#[test]
fn same_filter_twice_gives_same_list() {
    let mut c = crud_with(&[("Doe", "John"), ("Smith", "Ann"), ("Dolan", "Sue")]);
    c.update(Message::FilterPrefixChanged("Do".to_string()));
    let first = c.display_names.clone();
    c.update(Message::FilterPrefixChanged("Do".to_string()));
    assert_eq!(c.display_names, first);
}

#[test]
fn empty_prefix_matches_every_record() {
    let names = vec!["a".to_string(), "b".to_string()];
    assert_eq!(filter_names(&names, &String::new()), names);
}

#[test]
fn prefix_and_full_name_helpers() {
    assert!(has_prefix("Doe, John", "Do"));
    assert!(has_prefix("Doe", ""));
    assert!(!has_prefix("Do", "Doe"));
    assert!(has_prefix("Éclair", "Éc"));
    assert!(!has_prefix("Eclair", "É"));
    assert_eq!(make_full_name(&"John".to_string(), &"Doe".to_string()), "Doe, John");
    assert_eq!(Crud::new().title(), "CRUD");
}

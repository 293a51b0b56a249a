use pl3xus::devtools::entity_label;

#[test]
fn entity_labels_use_the_first_name_found() {
    assert_eq!(entity_label(7, &vec![]), "Entity #7");
    assert_eq!(entity_label(7, &vec![None, None]), "Entity #7");
    assert_eq!(
        entity_label(42, &vec![None, Some("Robot A".to_string()), Some("Other".to_string())]),
        "Robot A · #42"
    );
    assert_eq!(entity_label(0, &vec![Some(String::new())]), " · #0");
}

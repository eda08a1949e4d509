use prototool::protokoll::person::{
    Abmeldung, Person, PersonWithAbmeldung, Quorum, anwesend_count, anwesende_raete_label,
    apply_presence_selection, beschlussfaehig, beschlussfaehig_label, determine_abgemeldet_raete,
};

fn person(id: &str, first: &str, last: &str) -> Person {
    Person { id: id.to_string(), first_name: first.to_string(), last_name: last.to_string() }
}

fn entry(id: &str, present: bool, excused: bool) -> PersonWithAbmeldung {
    PersonWithAbmeldung {
        id: id.to_string(),
        first_name: String::new(),
        last_name: String::new(),
        abgemeldet: excused,
        anwesend: present,
    }
}

#[test]
fn person_determine_abmeldungen() {
    let persons = vec![
        person("550e8400-e29b-41d4-a716-446655440000", "Valentin", "Pukhov"),
        person("444e8400-e29b-41d4-a716-446655440000", "Florian", "Schubert"),
    ];

    let abmeldungen = vec![Abmeldung {
        person_id: "550e8400-e29b-41d4-a716-446655440000".to_string(),
    }];

    let expected = vec![
        PersonWithAbmeldung {
            id: "550e8400-e29b-41d4-a716-446655440000".to_string(),
            first_name: "Valentin".to_string(),
            last_name: "Pukhov".to_string(),
            abgemeldet: true,
            anwesend: false,
        },
        PersonWithAbmeldung {
            id: "444e8400-e29b-41d4-a716-446655440000".to_string(),
            first_name: "Florian".to_string(),
            last_name: "Schubert".to_string(),
            abgemeldet: false,
            anwesend: false,
        },
    ];

    let actual = determine_abgemeldet_raete(&persons, &abmeldungen);

    assert_eq!(expected, actual);
}

#[test]
fn presence_selection_goes_by_identity() {
    let persons = vec![person("a", "Anna", "A"), person("b", "Anna", "A"), person("c", "Cleo", "C")];
    let mut raete = determine_abgemeldet_raete(&persons, &vec![]);

    let selected = vec!["b".to_string()];
    apply_presence_selection(&mut raete, &selected);

    assert!(!raete[0].anwesend);
    assert!(raete[1].anwesend);
    assert!(!raete[2].anwesend);
    // everything else is untouched
    assert_eq!(raete[1].first_name, "Anna");
    assert!(!raete[1].abgemeldet);
}

#[test]
fn excused_can_still_be_marked_present() {
    let persons = vec![person("a", "Anna", "A")];
    let abmeldungen = vec![Abmeldung { person_id: "a".to_string() }];
    let mut raete = determine_abgemeldet_raete(&persons, &abmeldungen);
    assert!(raete[0].abgemeldet);

    apply_presence_selection(&mut raete, &vec!["a".to_string()]);
    assert!(raete[0].abgemeldet);
    assert!(raete[0].anwesend);
}

#[test]
fn quorum_three_of_five_met() {
    let raete = vec![
        entry("a", true, false),
        entry("b", true, false),
        entry("c", true, false),
        entry("d", false, false),
        entry("e", false, true),
    ];
    assert_eq!(anwesend_count(&raete), 3);
    assert_eq!(beschlussfaehig(&raete), Quorum::Met);
    assert_eq!(beschlussfaehig_label(&raete), "beschlussfähig");
    assert_eq!(anwesende_raete_label(&raete), "3");
}

#[test]
fn quorum_none_present_not_met() {
    let raete = vec![entry("a", false, false), entry("b", false, false)];
    assert_eq!(beschlussfaehig(&raete), Quorum::NotMet);
    assert_eq!(anwesende_raete_label(&raete), "n");
    assert_eq!(beschlussfaehig_label(&raete), "vielleicht beschlussfähig");
}

#[test]
fn quorum_exact_half_not_met() {
    let raete = vec![
        entry("a", true, false),
        entry("b", true, false),
        entry("c", false, false),
        entry("d", false, false),
    ];
    assert_eq!(beschlussfaehig(&raete), Quorum::NotMet);
    assert_eq!(beschlussfaehig_label(&raete), "nicht beschlussfähig");
}

#[test]
fn quorum_empty_roster_indeterminate() {
    let raete: Vec<PersonWithAbmeldung> = vec![];
    assert_eq!(beschlussfaehig(&raete), Quorum::Indeterminate);
    assert_eq!(beschlussfaehig_label(&raete), "vielleicht beschlussfähig");
}

#[test]
fn display_name_joins_first_and_last() {
    let p = PersonWithAbmeldung {
        id: "x".to_string(),
        first_name: "Valentin".to_string(),
        last_name: "Pukhov".to_string(),
        abgemeldet: false,
        anwesend: false,
    };
    assert_eq!(p.display_name(), "Valentin Pukhov");
}

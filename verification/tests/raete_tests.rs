use prototool::protokoll::raete::{Abmeldung, Person, Rat, determine_present_raete};

#[test]
fn raete_determine_abmeldungen() {
    let persons = vec![
        Person {
            id: "550e8400-e29b-41d4-a716-446655440000".to_string(),
            name: "Valentin Pukhov".to_string(),
        },
        Person {
            id: "444e8400-e29b-41d4-a716-446655440000".to_string(),
            name: "Florian Schubert".to_string(),
        },
    ];

    let abmeldungen = vec![Abmeldung {
        person_id: "550e8400-e29b-41d4-a716-446655440000".to_string(),
    }];

    let expected = vec![
        Rat { name: "Valentin Pukhov".to_string(), abgemeldet: true },
        Rat { name: "Florian Schubert".to_string(), abgemeldet: false },
    ];

    let actual = determine_present_raete(&persons, &abmeldungen);

    assert_eq!(expected, actual);
}

use prototool::datetime::{Date, DateTime, Time};
use prototool::error::Error;
use prototool::protokoll::{
    ProtokollTemplate, build_protokoll_template, event_format, find_frontmatter,
    find_protokoll_date, hidden_until_date, normal_tops, nicht_fristgerechte_antraege,
    protokoll_title,
};
use prototool::protokoll::events::Event;
use prototool::protokoll::sitzung::{
    Antrag, Sitzung, SitzungKind, Top, TopKind, parse_sitzung_kind, select_first_sitzung,
    sitzung_request_target, sort_tops_by_weight,
};

fn datetime(y: u64, mo: u64, d: u64, h: u64, mi: u64, s: u64) -> DateTime {
    DateTime {
        date: Date { year: y, month: mo, day: d },
        time: Time { hour: h, minute: mi, second: s },
    }
}

fn sitzung(kind: SitzungKind, tops: Vec<Top>) -> Sitzung {
    Sitzung {
        id: "efc794db-5d32-4186-a7d6-5fe6eee70452".to_string(),
        datetime: datetime(2022, 5, 27, 7, 30, 15),
        kind,
        tops,
        antragsfrist: datetime(2022, 5, 20, 0, 0, 0),
    }
}

fn top(name: &str, weight: i64, kind: TopKind, antraege: Vec<Antrag>) -> Top {
    Top {
        weight,
        name: name.to_string(),
        antraege,
        kind,
        inhalt: "volt volt volt".to_string(),
    }
}

fn antrag(titel: &str, created_at: DateTime) -> Antrag {
    Antrag {
        titel: titel.to_string(),
        antragstext: "Die Fachschaft Informatik beschließt".to_string(),
        begruendung: "Weil wir Valentin toll finden".to_string(),
        created_at,
    }
}

#[test]
fn find_protokoll_date_from_date_key() {
    let protokoll = "---\ntitle: \"Protokoll vom 27.05.2022\"\ndate: \"2022-05-27\"\n---\n        ";

    let frontmatter = find_frontmatter(protokoll).unwrap();
    let timestamp = find_protokoll_date(&frontmatter).unwrap();

    let expected = Date { year: 2022, month: 5, day: 27 };

    assert_eq!(timestamp, expected);
}

#[test]
fn find_protokoll_lastmod() {
    let protokoll =
        "---\ntitle: \"Protokoll vom 27.05.2022\"\nlastmod: \"2022-05-27\"\n---\n        ";

    let frontmatter = find_frontmatter(protokoll).unwrap();
    let timestamp = find_protokoll_date(&frontmatter).unwrap();

    let expected = Date { year: 2022, month: 5, day: 27 };

    assert_eq!(timestamp, expected);
}

#[test]
fn find_protokoll_date_neither_key_fails() {
    let protokoll = "---\ntitle: \"Protokoll vom 27.05.2022\"\n---\nbody";

    let frontmatter = find_frontmatter(protokoll).unwrap();
    assert_eq!(find_protokoll_date(&frontmatter), Err(Error::FrontmatterMissing));
}

#[test]
fn find_frontmatter_without_block_fails() {
    assert_eq!(find_frontmatter("# just a heading\n"), Err(Error::FrontmatterMissing));
    assert_eq!(find_frontmatter(""), Err(Error::FrontmatterMissing));
    assert_eq!(find_frontmatter("---\nnever closed"), Err(Error::FrontmatterMissing));
}

#[test]
fn find_frontmatter_bad_date_is_malformed() {
    let protokoll = "---\ndate: \"27.05.2022\"\n---\n";
    assert_eq!(find_frontmatter(protokoll), Err(Error::FrontmatterMalformed));
}

#[test]
fn find_frontmatter_toml_block() {
    let protokoll = "+++\ndate = \"2022-05-27\"\nsitzung-kind = \"vv\"\n+++\nbody";
    let frontmatter = find_frontmatter(protokoll).unwrap();
    assert_eq!(frontmatter.date, Some(Date { year: 2022, month: 5, day: 27 }));
    assert_eq!(frontmatter.sitzung_kind, Some(SitzungKind::VV));
}

#[test]
fn unknown_kind_token_is_ignored() {
    let protokoll = "---\ndate: \"2022-05-27\"\nsitzung-kind: \"gala\"\n---\n";
    let frontmatter = find_frontmatter(protokoll).unwrap();
    assert_eq!(frontmatter.sitzung_kind, None);
    assert_eq!(parse_sitzung_kind("konsti"), Some(SitzungKind::Konsti));
    assert_eq!(parse_sitzung_kind("gala"), None);
}

#[test]
fn render_without_tops() {
    let template = build_protokoll_template(sitzung(SitzungKind::Normal, vec![]), vec![], vec![]);

    let expected = "---\ntitle: \"Protokoll vom 27.05.2022\"\ndate: \"2022-05-27\"\nhidden-until: \"2022-05-31\"\nsitzung-kind: \"normal\"\nsitzung-id: \"efc794db-5d32-4186-a7d6-5fe6eee70452\"\ndate-machine: \"2022-05-27T07:30:15\"\n---\n\n# Protokoll vom 27.05.2022\n\nanwesende Räte: n\nvielleicht beschlussfähig\n\n\n## Events\n\n\n## Tops\n\n## Verschiedenes\n\n## Nicht fristgerechte Anträge\n\n";

    assert_eq!(template.render(), expected);
}

#[test]
fn render_vv() {
    let template = build_protokoll_template(sitzung(SitzungKind::VV, vec![]), vec![], vec![]);
    let rendered = template.render();

    assert!(rendered.contains("title: \"VV-Protokoll vom 27.05.2022\""));
    assert!(rendered.contains("sitzung-kind: \"vv\""));
    assert!(rendered.contains("# VV-Protokoll vom 27.05.2022"));
}

#[test]
fn render_with_tops() {
    let tops = vec![
        top(
            "Blumen für Valentin",
            1,
            TopKind::Normal,
            vec![antrag("Blumen für Valentin", datetime(2022, 5, 17, 0, 0, 0))],
        ),
        top(
            "Volt Zapfanlage",
            2,
            TopKind::Normal,
            vec![
                antrag("Tank für Voltzapfanlage", datetime(2022, 5, 20, 0, 0, 0)),
                antrag("Hahn für Voltzapfanlage", datetime(2022, 5, 21, 12, 0, 0)),
            ],
        ),
    ];
    let template = build_protokoll_template(sitzung(SitzungKind::Normal, tops), vec![], vec![]);
    let rendered = template.render();

    let first = rendered.find("### Blumen für Valentin").unwrap();
    let second = rendered.find("### Volt Zapfanlage").unwrap();
    assert!(first < second);
    assert!(rendered.contains("#### Tank für Voltzapfanlage"));
    assert!(rendered.contains("Die Fachschaft Informatik beschließt"));
    assert!(rendered.contains("Weil wir Valentin toll finden"));
    // only the proposal after the deadline is flagged
    let late = rendered.find("## Nicht fristgerechte Anträge").unwrap();
    let flagged = rendered.rfind("- Hahn für Voltzapfanlage").unwrap();
    assert!(flagged > late);
    assert!(!rendered[late..].contains("- Tank für Voltzapfanlage"));
}

#[test]
fn render_groups_sections_by_kind() {
    let tops = vec![
        top("Sonstiges A", 3, TopKind::Verschiedenes, vec![]),
        top("Haupt B", 1, TopKind::Normal, vec![]),
        top("Bericht C", 2, TopKind::Bericht, vec![]),
    ];
    let template = build_protokoll_template(sitzung(SitzungKind::Normal, tops), vec![], vec![]);
    let rendered = template.render();

    let tops_at = rendered.find("## Tops").unwrap();
    let misc_at = rendered.find("## Verschiedenes").unwrap();
    let b_at = rendered.find("### Haupt B").unwrap();
    let a_at = rendered.find("### Sonstiges A").unwrap();
    assert!(tops_at < b_at && b_at < misc_at);
    assert!(misc_at < a_at);
    assert!(!rendered.contains("### Bericht C"));
}

#[test]
fn render_is_idempotent() {
    let template = build_protokoll_template(sitzung(SitzungKind::Konsti, vec![]), vec![], vec![]);
    assert_eq!(template.render(), template.render());
}

#[test]
fn render_roundtrip_recovers_date_and_kind() {
    let template = build_protokoll_template(sitzung(SitzungKind::VV, vec![]), vec![], vec![]);
    let rendered = template.render();

    let frontmatter = find_frontmatter(&rendered).unwrap();
    let recovered = find_protokoll_date(&frontmatter).unwrap();

    assert_eq!(recovered, Date { year: 2022, month: 5, day: 27 });
    assert_eq!(frontmatter.sitzung_kind, Some(SitzungKind::VV));
    assert_eq!(frontmatter.lastmod, None);
}

#[test]
fn sort_by_weight_is_stable() {
    let tops = vec![
        top("c", 2, TopKind::Normal, vec![]),
        top("a", 1, TopKind::Normal, vec![]),
        top("d", 2, TopKind::Normal, vec![]),
        top("b", 1, TopKind::Normal, vec![]),
    ];
    let sorted = sort_tops_by_weight(tops);
    let names: Vec<&str> = sorted.iter().map(|t| t.name.as_str()).collect();
    assert_eq!(names, vec!["a", "b", "c", "d"]);
}

#[test]
fn normal_tops_filters_and_keeps_order() {
    let tops = vec![
        top("x", 1, TopKind::Normal, vec![]),
        top("y", 2, TopKind::Verschiedenes, vec![]),
        top("z", 3, TopKind::Normal, vec![]),
    ];
    let normals = normal_tops(&tops);
    let names: Vec<&str> = normals.iter().map(|t| t.name.as_str()).collect();
    assert_eq!(names, vec!["x", "z"]);
}

#[test]
fn late_proposals_flattened_in_order() {
    let s = sitzung(
        SitzungKind::Normal,
        vec![
            top("t1", 1, TopKind::Normal, vec![
                antrag("early", datetime(2022, 5, 19, 0, 0, 0)),
                antrag("late one", datetime(2022, 5, 21, 0, 0, 0)),
            ]),
            top("t2", 2, TopKind::Verschiedenes, vec![
                antrag("late two", datetime(2022, 5, 20, 0, 0, 1)),
            ]),
        ],
    );
    let late = nicht_fristgerechte_antraege(&s);
    let titles: Vec<&str> = late.iter().map(|a| a.titel.as_str()).collect();
    assert_eq!(titles, vec!["late one", "late two"]);
}

#[test]
fn title_and_hidden_until() {
    let s = sitzung(SitzungKind::WahlVV, vec![]);
    assert_eq!(protokoll_title(&s), "VV-Protokoll vom 27.05.2022");
    assert_eq!(
        hidden_until_date(&s.datetime),
        Date { year: 2022, month: 5, day: 31 }
    );
}

#[test]
fn event_format_matches_shape() {
    let event = Event {
        title: Some("Spieleabend".to_string()),
        location: Some("33er".to_string()),
        start: datetime(2042, 4, 5, 17, 0, 0),
    };
    assert_eq!(event_format(&event), "05.04. Spieleabend 17:00 Uhr 33er");

    let bare = Event { title: None, location: None, start: datetime(2042, 4, 12, 17, 0, 0) };
    assert_eq!(event_format(&bare), "12.04.  17:00 Uhr ");
}

#[test]
fn render_with_raete() {
    let raete = vec![
        prototool::protokoll::person::PersonWithAbmeldung {
            id: "22b6b758-741c-429f-9e96-65fc289fcfef".to_string(),
            first_name: "Valentin".to_string(),
            last_name: "".to_string(),
            abgemeldet: false,
            anwesend: true,
        },
        prototool::protokoll::person::PersonWithAbmeldung {
            id: "8296be5b-4d66-4dc7-bec9-48ea851056cb".to_string(),
            first_name: "Elif".to_string(),
            last_name: "".to_string(),
            abgemeldet: true,
            anwesend: false,
        },
    ];
    let template = build_protokoll_template(sitzung(SitzungKind::Normal, vec![]), raete, vec![]);
    let rendered = template.render();

    assert!(rendered.contains("- Valentin  (anwesend)\n"));
    assert!(rendered.contains("- Elif  (abgemeldet)\n"));
    assert!(rendered.contains("anwesende Räte: 1\n"));
    assert!(rendered.contains("nicht beschlussfähig\n"));
}

#[test]
fn render_with_events() {
    let events = vec![
        Event {
            title: Some("Spieleabend".to_string()),
            location: Some("33er".to_string()),
            start: datetime(2042, 4, 5, 17, 0, 0),
        },
        Event {
            title: Some("Semestergrillen".to_string()),
            location: Some("Grillplätze bei der Mathe".to_string()),
            start: datetime(2042, 4, 12, 17, 0, 0),
        },
    ];
    let template = build_protokoll_template(sitzung(SitzungKind::Normal, vec![]), vec![], events);
    let rendered = template.render();
    assert!(rendered.contains("- 05.04. Spieleabend 17:00 Uhr 33er\n"));
    assert!(rendered.contains("- 12.04. Semestergrillen 17:00 Uhr Grillplätze bei der Mathe\n"));
}

#[test]
fn select_first_sitzung_picks_earliest() {
    let empty: Vec<Sitzung> = vec![];
    assert_eq!(select_first_sitzung(empty), Err(Error::NotFound));

    let list = vec![sitzung(SitzungKind::Normal, vec![]), sitzung(SitzungKind::VV, vec![])];
    let first = select_first_sitzung(list).unwrap();
    assert_eq!(first.kind, SitzungKind::Normal);
}

#[test]
fn sitzung_request_target_escapes_timestamp() {
    let target = sitzung_request_target(&datetime(2022, 5, 27, 0, 0, 0), 120);
    assert_eq!(
        target,
        "api/sitzungen/after/?timestamp=2022-05-27T00%3A00%3A00%2B02%3A00&limit=1"
    );

    let west = sitzung_request_target(&datetime(2022, 5, 27, 12, 30, 0), -330);
    assert_eq!(
        west,
        "api/sitzungen/after/?timestamp=2022-05-27T12%3A30%3A00-05%3A30&limit=1"
    );
}

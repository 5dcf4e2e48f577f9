use parentguard::{
    chrono_heure_actuelle, chrono_jour_actuel, dans_plage_autorisee, jour_de_semaine,
    jour_depuis_secondes, minutes_depuis_minuit, parse_heure, PlageHoraire,
};

fn plage(debut: &str, fin: &str, jours: Vec<u8>, actif: bool) -> PlageHoraire {
    PlageHoraire { debut: debut.to_string(), fin: fin.to_string(), jours, actif }
}

#[test]
fn parse_heure_valeurs() {
    assert_eq!(parse_heure("08:00"), 480);
    assert_eq!(parse_heure("20:30"), 1230);
    assert_eq!(parse_heure("23:59"), 1439);
    assert_eq!(parse_heure("00:00"), 0);
    assert_eq!(parse_heure("+7:05"), 425);
    assert_eq!(parse_heure("8:5:9"), 485);
}

#[test]
fn parse_heure_malformee() {
    assert_eq!(parse_heure(""), 0);
    assert_eq!(parse_heure("abc"), 0);
    assert_eq!(parse_heure("0800"), 0);
    assert_eq!(parse_heure("ab:30"), 0);
    assert_eq!(parse_heure("xx:30"), 0);
    assert_eq!(parse_heure("08:xx"), 0);
    assert_eq!(parse_heure("ab:cd"), 0);
    assert_eq!(parse_heure("08:"), 0);
    assert_eq!(parse_heure("-1:10"), 0);
    assert_eq!(parse_heure("99999999999:00"), 0);
}

#[test]
fn parse_heure_plafonnee() {
    assert_eq!(parse_heure("25:00"), 1439);
    assert_eq!(parse_heure("4294967295:4294967295"), 1439);
}

#[test]
fn sans_plage_toujours_autorise() {
    assert!(dans_plage_autorisee(&[], 0, 0));
    assert!(dans_plage_autorisee(&[], 1439, 6));
    let inactives = vec![plage("08:00", "09:00", vec![1], false), plage("10:00", "11:00", vec![2], false)];
    assert!(dans_plage_autorisee(&inactives, 1200, 3));
    assert!(dans_plage_autorisee(&inactives, 0, 1));
}

#[test]
fn plage_bornes_incluses() {
    let p = vec![plage("08:00", "20:00", vec![1, 2], true)];
    assert!(dans_plage_autorisee(&p, 480, 1));
    assert!(dans_plage_autorisee(&p, 1200, 2));
    assert!(!dans_plage_autorisee(&p, 479, 1));
    assert!(!dans_plage_autorisee(&p, 1201, 1));
    assert!(!dans_plage_autorisee(&p, 600, 3));
}

#[test]
fn plage_inversee_jamais() {
    let p = vec![plage("22:00", "06:00", vec![0, 1, 2, 3, 4, 5, 6], true)];
    assert!(!dans_plage_autorisee(&p, 1380, 1));
    assert!(!dans_plage_autorisee(&p, 60, 1));
}

#[test]
fn plage_inactive_ignoree() {
    let p = vec![plage("00:00", "23:59", vec![1], false), plage("08:00", "09:00", vec![1], true)];
    assert!(!dans_plage_autorisee(&p, 600, 1));
    assert!(dans_plage_autorisee(&p, 500, 1));
}

#[test]
fn jour_epoque_jeudi() {
    assert_eq!(jour_de_semaine(0), 4);
    assert_eq!(jour_de_semaine(10957), 6);
    assert_eq!(jour_de_semaine(3), 0);
}

#[test]
fn heure_et_jour_depuis_secondes() {
    assert_eq!(minutes_depuis_minuit(0, 0), 0);
    assert_eq!(minutes_depuis_minuit(13 * 3600 + 5 * 60 + 59, 0), 785);
    assert_eq!(minutes_depuis_minuit(0, 60), 60);
    assert_eq!(minutes_depuis_minuit(0, -60), 1380);
    assert_eq!(minutes_depuis_minuit(23 * 3600 + 30 * 60, 60), 30);
    assert_eq!(jour_depuis_secondes(0, 0), 4);
    assert_eq!(jour_depuis_secondes(0, -60), 3);
    assert_eq!(jour_depuis_secondes(946684800, 0), 6);
    assert_eq!(jour_depuis_secondes(23 * 3600 + 30 * 60, 60), 5);
    assert_eq!(jour_depuis_secondes(u64::MAX, 0), ((u64::MAX / 86400 + 4) % 7) as u8);
    assert_eq!(minutes_depuis_minuit(u64::MAX, i32::MAX), ((((u64::MAX as u128) + (i32::MAX as u128) * 60) % 86400) / 60) as u32);
}

#[test]
fn horloge_dans_les_bornes() {
    assert!(chrono_heure_actuelle(0) < 1440);
    assert!(chrono_jour_actuel(60) < 7);
}

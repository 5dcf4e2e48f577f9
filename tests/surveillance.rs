use parentguard::{
    app_active, apps_actives, cut_internet, etape_monitoring, get_screen_time, hosts_pour_regles,
    restore_internet, start_monitoring, stop_monitoring, update_rules, EtatMonitoring,
    ModeRetablissement, PlageHoraire, Regles,
};

fn regles(limite: u32, plages: Vec<PlageHoraire>) -> Regles {
    Regles {
        profil_id: "p1".to_string(),
        apps_bloquees: vec![],
        sites_bloques: vec![],
        limite_minutes: limite,
        plages,
        actif: true,
    }
}

fn etat(r: Regles) -> EtatMonitoring {
    EtatMonitoring { regles: r, minutes_utilisees: 0, internet_coupe: false, derniere_verification: String::new() }
}

fn matin() -> Vec<PlageHoraire> {
    vec![PlageHoraire { debut: "08:00".to_string(), fin: "12:00".to_string(), jours: vec![1], actif: true }]
}

#[test]
fn budget_epuise_coupe_internet() {
    let mut e = etat(regles(2, vec![]));
    let mut coupures = 0;
    let mut retablissements = 0;
    for _ in 0..5 {
        let a = etape_monitoring(&mut e, &[], 600, 1, ModeRetablissement::Toujours);
        if a.couper {
            coupures += 1;
        }
        if a.retablir {
            retablissements += 1;
        }
    }
    assert!(e.minutes_utilisees >= 2);
    assert_eq!(e.minutes_utilisees, 5);
    assert!(e.internet_coupe);
    assert_eq!(coupures, 4);
    assert_eq!(retablissements, 3);
}

#[test]
fn budget_epuise_mode_conditionnel() {
    let mut e = etat(regles(2, vec![]));
    let mut coupures = 0;
    for _ in 0..5 {
        let a = etape_monitoring(&mut e, &[], 600, 1, ModeRetablissement::SiIllimite);
        assert!(!a.retablir);
        if a.couper {
            coupures += 1;
        }
    }
    assert_eq!(e.minutes_utilisees, 5);
    assert!(e.internet_coupe);
    assert_eq!(coupures, 1);
}

#[test]
fn regles_inactives_sans_effet() {
    let mut r = regles(1, matin());
    r.actif = false;
    r.sites_bloques = vec!["a.com".to_string()];
    let mut e = etat(r);
    let a = etape_monitoring(&mut e, &["x".to_string()], 0, 0, ModeRetablissement::Toujours);
    assert!(!a.couper && !a.retablir && !a.reappliquer_sites);
    assert!(a.a_terminer.is_empty());
    assert_eq!(e.minutes_utilisees, 0);
    assert!(!e.internet_coupe);
}

#[test]
fn hors_plage_puis_retour() {
    let mut e = etat(regles(0, matin()));
    let a = etape_monitoring(&mut e, &[], 1000, 1, ModeRetablissement::Toujours);
    assert!(a.couper && !a.retablir);
    assert!(e.internet_coupe);
    let b = etape_monitoring(&mut e, &[], 1000, 1, ModeRetablissement::Toujours);
    assert!(!b.couper && !b.retablir);
    let c = etape_monitoring(&mut e, &[], 600, 1, ModeRetablissement::Toujours);
    assert!(c.retablir && !c.couper);
    assert!(!e.internet_coupe);
    assert_eq!(e.minutes_utilisees, 0);
}

#[test]
fn retour_conditionnel_avec_budget() {
    let mut e = etat(regles(100, matin()));
    e.internet_coupe = true;
    let a = etape_monitoring(&mut e, &[], 600, 1, ModeRetablissement::SiIllimite);
    assert!(!a.retablir && !a.couper);
    assert!(e.internet_coupe);
    let b = etape_monitoring(&mut e, &[], 600, 1, ModeRetablissement::Toujours);
    assert!(b.retablir && !b.couper);
    assert!(!e.internet_coupe);
    assert_eq!(e.minutes_utilisees, 2);
}

#[test]
fn budget_et_retour_dans_le_meme_cycle() {
    let mut e = etat(regles(1, matin()));
    e.internet_coupe = true;
    e.minutes_utilisees = 3;
    let a = etape_monitoring(&mut e, &[], 600, 1, ModeRetablissement::Toujours);
    assert!(a.retablir && a.couper);
    assert!(e.internet_coupe);
}

#[test]
fn minutes_saturees() {
    let mut e = etat(regles(5, vec![]));
    e.minutes_utilisees = u32::MAX;
    e.internet_coupe = true;
    let a = etape_monitoring(&mut e, &[], 0, 0, ModeRetablissement::Toujours);
    assert_eq!(e.minutes_utilisees, u32::MAX);
    assert!(a.couper && a.retablir);
    assert!(e.internet_coupe);
}

#[test]
fn apps_bloquees_terminees() {
    let mut r = regles(0, vec![]);
    r.apps_bloquees = vec!["Fortnite.EXE".to_string(), "roblox.exe".to_string(), "steam".to_string()];
    r.sites_bloques = vec!["a.com".to_string()];
    let mut e = etat(r);
    let procs = vec!["c:\\games\\fortnite.exe".to_string(), "steamwebhelper.exe".to_string()];
    let a = etape_monitoring(&mut e, &procs, 0, 0, ModeRetablissement::Toujours);
    assert_eq!(a.a_terminer, vec!["Fortnite.EXE".to_string(), "steam".to_string()]);
    assert!(a.reappliquer_sites);
}

#[test]
fn recherche_de_processus() {
    let procs = vec!["explorer.exe".to_string(), "roblox.exe".to_string()];
    assert!(app_active(&procs, "roblox"));
    assert!(app_active(&procs, ""));
    assert!(!app_active(&procs, "Roblox"));
    assert!(!app_active(&[], ""));
    let apps = vec!["ROBLOX.exe".to_string(), "minecraft".to_string()];
    assert_eq!(apps_actives(&apps, &procs), vec!["ROBLOX.exe".to_string()]);
}

#[test]
fn mise_a_jour_remet_a_zero() {
    let mut e = etat(regles(10, vec![]));
    e.minutes_utilisees = 42;
    e.internet_coupe = true;
    let mut nouvelles = regles(30, matin());
    nouvelles.sites_bloques = vec!["x.org".to_string()];
    let hosts = update_rules(&mut e, nouvelles, "a\n");
    assert_eq!(
        hosts,
        "a\n# ParentGuard - Ne pas modifier\n127.0.0.1 x.org # ParentGuard\n127.0.0.1 www.x.org # ParentGuard\n"
    );
    assert_eq!(e.minutes_utilisees, 0);
    assert_eq!(get_screen_time(&e), 0);
    assert_eq!(e.regles.limite_minutes, 30);
    assert!(e.internet_coupe);
}

#[test]
fn arret_retablit_seulement_si_coupe() {
    let mut e = etat(regles(10, vec![]));
    e.internet_coupe = true;
    let (retablir, hosts) = stop_monitoring(&mut e, "a\n1.1.1.1 x # ParentGuard\nb\n");
    assert!(retablir);
    assert_eq!(hosts, "a\nb\n");
    assert!(!e.internet_coupe);
    assert!(!e.regles.actif);
    assert!(!stop_monitoring(&mut e, "").0);
    start_monitoring(&mut e);
    assert!(e.regles.actif);
}

#[test]
fn coupure_et_retablissement_manuels() {
    let mut e = etat(regles(0, vec![]));
    cut_internet(&mut e);
    assert!(e.internet_coupe);
    restore_internet(&mut e);
    assert!(!e.internet_coupe);
}

#[test]
fn hosts_selon_regles() {
    let mut r = regles(0, vec![]);
    assert_eq!(hosts_pour_regles("a\n1.1.1.1 x # ParentGuard\n", &r), "a\n");
    r.sites_bloques = vec!["x.org".to_string()];
    assert_eq!(
        hosts_pour_regles("a\n", &r),
        "a\n# ParentGuard - Ne pas modifier\n127.0.0.1 x.org # ParentGuard\n127.0.0.1 www.x.org # ParentGuard\n"
    );
}

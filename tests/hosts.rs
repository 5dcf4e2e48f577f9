use parentguard::{appliquer_blocage_sites, block_site, supprimer_blocage_sites, unblock_site};

const BASE: &str = "127.0.0.1 localhost\n::1 localhost\n";

#[test]
fn blocage_un_domaine() {
    let r = block_site(BASE, "example.com");
    assert_eq!(
        r,
        "127.0.0.1 localhost\n::1 localhost\n# ParentGuard - Ne pas modifier\n\
         127.0.0.1 example.com # ParentGuard\n127.0.0.1 www.example.com # ParentGuard\n"
    );
    assert_eq!(r.lines().filter(|l| *l == "127.0.0.1 example.com # ParentGuard").count(), 1);
    assert_eq!(r.lines().filter(|l| *l == "127.0.0.1 www.example.com # ParentGuard").count(), 1);
    let u = unblock_site(&r, "example.com");
    assert_eq!(u, "127.0.0.1 localhost\n::1 localhost\n# ParentGuard - Ne pas modifier\n");
    assert_eq!(
        block_site("127.0.0.1 localhost\n", "example.com"),
        "127.0.0.1 localhost\n# ParentGuard - Ne pas modifier\n\
         127.0.0.1 example.com # ParentGuard\n127.0.0.1 www.example.com # ParentGuard\n"
    );
}

#[test]
fn blocage_ajoute_aux_sites_existants() {
    let sites = vec!["a.com".to_string()];
    let avant = appliquer_blocage_sites(BASE, &sites);
    let r = block_site(&avant, " example.com ");
    assert_eq!(
        r,
        "127.0.0.1 localhost\n::1 localhost\n# ParentGuard - Ne pas modifier\n\
         127.0.0.1 a.com # ParentGuard\n127.0.0.1 www.a.com # ParentGuard\n\
         127.0.0.1 example.com # ParentGuard\n127.0.0.1 www.example.com # ParentGuard\n"
    );
    assert_eq!(block_site(&r, "example.com"), r);
    assert_eq!(block_site(&avant, "a.com"), avant);
    assert_eq!(block_site(BASE, "   "), BASE);
    assert_eq!(
        block_site("x", "b.io"),
        "x\n# ParentGuard - Ne pas modifier\n127.0.0.1 b.io # ParentGuard\n127.0.0.1 www.b.io # ParentGuard\n"
    );
    let partiel = "127.0.0.1 c.fr # ParentGuard\n";
    assert_eq!(
        block_site(partiel, "c.fr"),
        "127.0.0.1 c.fr # ParentGuard\n# ParentGuard - Ne pas modifier\n127.0.0.1 www.c.fr # ParentGuard\n"
    );
}

#[test]
fn deblocage_exact() {
    let sites = vec!["myexample.com".to_string(), "example.com".to_string()];
    let r = appliquer_blocage_sites(BASE, &sites);
    let u = unblock_site(&r, "example.com");
    assert_eq!(
        u,
        "127.0.0.1 localhost\n::1 localhost\n# ParentGuard - Ne pas modifier\n\
         127.0.0.1 myexample.com # ParentGuard\n127.0.0.1 www.myexample.com # ParentGuard\n"
    );
    assert_eq!(unblock_site(&r, "   "), r);
}

#[test]
fn deblocage_garde_les_autres() {
    let sites = vec!["a.com".to_string(), "b.org".to_string()];
    let r = appliquer_blocage_sites(BASE, &sites);
    let u = unblock_site(&r, "a.com");
    assert_eq!(
        u,
        "127.0.0.1 localhost\n::1 localhost\n# ParentGuard - Ne pas modifier\n\
         127.0.0.1 b.org # ParentGuard\n127.0.0.1 www.b.org # ParentGuard\n"
    );
    let v = unblock_site("10.0.0.1 a.com\n", "a.com");
    assert_eq!(v, "10.0.0.1 a.com\n");
}

#[test]
fn blocage_idempotent() {
    let sites = vec!["tiktok.com".to_string(), "instagram.com".to_string()];
    let une = appliquer_blocage_sites(BASE, &sites);
    let deux = appliquer_blocage_sites(&une, &sites);
    assert_eq!(une, deux);
}

#[test]
fn retrait_apres_blocage() {
    let c = "# hosts\r\n10.0.0.2 nas\r\n127.0.0.1 old.com # ParentGuard\nlast";
    let sites = vec!["x.net".to_string()];
    let r = appliquer_blocage_sites(c, &sites);
    assert_eq!(supprimer_blocage_sites(&r), supprimer_blocage_sites(c));
    assert_eq!(supprimer_blocage_sites(c), "# hosts\r\n10.0.0.2 nas\r\nlast\n");
}

#[test]
fn sites_rognes_et_vides() {
    let sites = vec!["  a.com \t".to_string(), "   ".to_string(), String::new()];
    let r = appliquer_blocage_sites("", &sites);
    assert_eq!(
        r,
        "# ParentGuard - Ne pas modifier\n127.0.0.1 a.com # ParentGuard\n127.0.0.1 www.a.com # ParentGuard\n"
    );
}

#[test]
fn liste_vide_laisse_l_entete() {
    let r = appliquer_blocage_sites(BASE, &[]);
    assert_eq!(r, "127.0.0.1 localhost\n::1 localhost\n# ParentGuard - Ne pas modifier\n");
}

#[test]
fn suppression_fichier_vide_et_sans_fin_de_ligne() {
    assert_eq!(supprimer_blocage_sites(""), "");
    assert_eq!(supprimer_blocage_sites("a\n\nb"), "a\n\nb\n");
}

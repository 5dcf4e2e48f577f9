use vstd::prelude::*;
use crate::horaire::{dans_plage_autorisee, plage_autorisee, PlageHoraire};
use crate::hosts::{appliquer_blocage_sites, avec_blocage, sans_blocage, supprimer_blocage_sites, vues};
use crate::texte::{caracteres, contient, contient_entre};

verus! {

/// The policy of the active profile.
#[derive(Clone, Debug, Default)]
pub struct Regles {
    pub profil_id: String,
    /// Executable names; a running process whose lowercase name holds the
    /// lowercase entry is terminated.
    pub apps_bloquees: Vec<String>,
    /// Domains sent to the loopback address in the block file.
    pub sites_bloques: Vec<String>,
    /// Daily budget in cycles of accounting; 0 means unlimited.
    pub limite_minutes: u32,
    /// Allowed usage windows.
    pub plages: Vec<PlageHoraire>,
    /// Whether enforcement runs.
    pub actif: bool,
}

/// The single mutable record shared by the enforcement loop and the commands.
#[derive(Clone, Debug, Default)]
pub struct EtatMonitoring {
    pub regles: Regles,
    pub minutes_utilisees: u32,
    /// Mirrors the last action taken on the network: true once it was cut.
    pub internet_coupe: bool,
    pub derniere_verification: String,
}

/// When a cut network comes back on entering an allowed window.
#[derive(Clone, Copy, Debug, PartialEq, Eq)]
pub enum ModeRetablissement {
    /// Whenever the time is allowed again.
    Toujours,
    /// Only when the daily budget is unlimited.
    SiIllimite,
}

/// What one enforcement cycle asks of the system, in this order: terminate
/// the processes of `a_terminer`, restore the network, cut it, rewrite the
/// block file for the rules' sites.
#[derive(Debug)]
pub struct ActionsCycle {
    pub a_terminer: Vec<String>,
    pub retablir: bool,
    pub couper: bool,
    pub reappliquer_sites: bool,
}

/// Lowercase form of a string, as `str::to_lowercase` gives it.
pub uninterp spec fn minuscules(s: Seq<char>) -> Seq<char>;

/// Relies on `str::to_lowercase`: the result depends on the characters alone.
#[verifier::external_body]
pub(crate) fn en_minuscules(s: &str) -> (r: String)
    ensures
        r@ == minuscules(s@),
{
    s.to_lowercase()
}

/// Some running process name holds `app`.
pub open spec fn app_lancee(processus: Seq<Seq<char>>, app: Seq<char>) -> bool {
    exists|i: int| 0 <= i < processus.len() && contient(#[trigger] processus[i], app)
}

/// The blocked apps, in order, that a running process matches.
pub open spec fn apps_a_terminer(apps: Seq<Seq<char>>, processus: Seq<Seq<char>>) -> Seq<
    Seq<char>,
> {
    apps.filter(|a: Seq<char>| app_lancee(processus, minuscules(a)))
}

/// Whether some name in `processus` holds `app_minuscule`.
pub fn app_active(processus: &[String], app_minuscule: &str) -> (r: bool)
    ensures
        r == app_lancee(vues(processus@), app_minuscule@),
{
    let a = caracteres(app_minuscule);
    let mut i: usize = 0;
    while i < processus.len()
        invariant
            i <= processus.len(),
            a@ == app_minuscule@,
            forall|q: int| 0 <= q < i ==> !contient(#[trigger] vues(processus@)[q], a@),
        decreases processus.len() - i,
    {
        let p = caracteres(processus[i].as_str());
        if contient_entre(&p, 0, p.len(), &a) {
            assert(p@.subrange(0, p@.len() as int) =~= p@);
            assert(vues(processus@)[i as int] == p@);
            return true;
        }
        assert(p@.subrange(0, p@.len() as int) =~= p@);
        i = i + 1;
    }
    false
}

/// The entries of `apps`, in order, that a running process matches,
/// ignoring case.
pub fn apps_actives(apps: &[String], processus: &[String]) -> (r: Vec<String>)
    ensures
        vues(r@) == apps_a_terminer(vues(apps@), vues(processus@)),
{
    let ghost p = |a: Seq<char>| app_lancee(vues(processus@), minuscules(a));
    let mut r: Vec<String> = Vec::new();
    let mut i: usize = 0;
    proof {
        reveal(Seq::filter);
        assert(vues(apps@).take(0) =~= Seq::<Seq<char>>::empty());
        assert(vues(r@) =~= Seq::<Seq<char>>::empty());
    }
    while i < apps.len()
        invariant
            i <= apps.len(),
            p == (|a: Seq<char>| app_lancee(vues(processus@), minuscules(a))),
            vues(r@) == vues(apps@).take(i as int).filter(p),
        decreases apps.len() - i,
    {
        let bas = en_minuscules(apps[i].as_str());
        let actif = app_active(processus, bas.as_str());
        let ghost avant = vues(r@);
        if actif {
            r.push(apps[i].clone());
            assert(vues(r@) =~= avant.push(apps@[i as int]@));
        }
        proof {
            assert(vues(apps@).take(i + 1) =~= vues(apps@).take(i as int).push(apps@[i as int]@));
            vues(apps@).take(i as int).lemma_filter_push(apps@[i as int]@, p);
        }
        i = i + 1;
    }
    proof {
        assert(vues(apps@).take(apps.len() as int) =~= vues(apps@));
    }
    r
}


/// The cut network is restored in this cycle: the time is allowed, the
/// network is cut, and the mode permits it.
pub open spec fn doit_retablir(e: EtatMonitoring, autorise: bool, mode: ModeRetablissement) -> bool {
    autorise && e.internet_coupe && (mode == ModeRetablissement::Toujours
        || e.regles.limite_minutes == 0)
}

/// Whether the network is cut once the windows are enforced.
pub open spec fn coupe_apres_plages(
    e: EtatMonitoring,
    autorise: bool,
    mode: ModeRetablissement,
) -> bool {
    if !autorise {
        true
    } else {
        e.internet_coupe && !doit_retablir(e, autorise, mode)
    }
}

/// Usage after one cycle: one more unit when a budget is set, never past
/// `u32::MAX`.
pub open spec fn minutes_apres(e: EtatMonitoring) -> u32 {
    if e.regles.limite_minutes > 0 && e.minutes_utilisees < u32::MAX {
        (e.minutes_utilisees + 1) as u32
    } else {
        e.minutes_utilisees
    }
}

/// The budget is spent and the network is still on after the windows.
pub open spec fn coupe_budget(e: EtatMonitoring, autorise: bool, mode: ModeRetablissement) -> bool {
    e.regles.limite_minutes > 0 && minutes_apres(e) >= e.regles.limite_minutes
        && !coupe_apres_plages(e, autorise, mode)
}

/// One cycle of enforcement on the snapshot `etat`, given the running
/// process names (lowercase) and the local minute and weekday. When the
/// rules are disabled nothing happens. Otherwise the blocked apps that run
/// are listed for termination; outside the allowed windows the network is
/// cut, and back inside them a cut network is restored (as `mode` permits);
/// with a budget, usage grows by one and the network is cut once it reaches
/// the budget; the block file is rewritten when sites are blocked.
pub fn etape_monitoring(
    etat: &mut EtatMonitoring,
    processus: &[String],
    minute: u32,
    jour: u8,
    mode: ModeRetablissement,
) -> (r: ActionsCycle)
    ensures
        final(etat).regles == old(etat).regles,
        final(etat).derniere_verification == old(etat).derniere_verification,
        final(etat).internet_coupe == (r.couper || (old(etat).internet_coupe && !r.retablir)),
        final(etat).minutes_utilisees >= old(etat).minutes_utilisees,
        !old(etat).regles.actif ==> {
            &&& final(etat).minutes_utilisees == old(etat).minutes_utilisees
            &&& final(etat).internet_coupe == old(etat).internet_coupe
            &&& r.a_terminer@.len() == 0
            &&& !r.retablir && !r.couper && !r.reappliquer_sites
        },
        old(etat).regles.actif ==> {
            let e = *old(etat);
            let autorise = plage_autorisee(e.regles.plages@, minute as int, jour as int);
            &&& vues(r.a_terminer@) == apps_a_terminer(
                vues(e.regles.apps_bloquees@),
                vues(processus@),
            )
            &&& r.retablir == doit_retablir(e, autorise, mode)
            &&& r.couper == ((!autorise && !e.internet_coupe) || coupe_budget(e, autorise, mode))
            &&& final(etat).internet_coupe == (coupe_apres_plages(e, autorise, mode)
                || coupe_budget(e, autorise, mode))
            &&& final(etat).minutes_utilisees == minutes_apres(e)
            &&& r.reappliquer_sites == (e.regles.sites_bloques@.len() > 0)
        },
{
    if !etat.regles.actif {
        return ActionsCycle {
            a_terminer: Vec::new(),
            retablir: false,
            couper: false,
            reappliquer_sites: false,
        };
    }
    let a_terminer = apps_actives(etat.regles.apps_bloquees.as_slice(), processus);
    let autorise = dans_plage_autorisee(etat.regles.plages.as_slice(), minute, jour);
    let mut retablir = false;
    let mut couper = false;
    if !autorise && !etat.internet_coupe {
        couper = true;
        etat.internet_coupe = true;
    } else if autorise && etat.internet_coupe {
        let permis = match mode {
            ModeRetablissement::Toujours => true,
            ModeRetablissement::SiIllimite => etat.regles.limite_minutes == 0,
        };
        if permis {
            retablir = true;
            etat.internet_coupe = false;
        }
    }
    if etat.regles.limite_minutes > 0 {
        if etat.minutes_utilisees < u32::MAX {
            etat.minutes_utilisees = etat.minutes_utilisees + 1;
        }
        if etat.minutes_utilisees >= etat.regles.limite_minutes && !etat.internet_coupe {
            couper = true;
            etat.internet_coupe = true;
        }
    }
    let reappliquer_sites = etat.regles.sites_bloques.len() > 0;
    ActionsCycle { a_terminer, retablir, couper, reappliquer_sites }
}

/// Replaces the rules, starts usage over from zero, and returns the block
/// file `contenu` as the new rules want it (see `hosts_pour_regles`).
pub fn update_rules(etat: &mut EtatMonitoring, regles: Regles, contenu: &str) -> (r: String)
    ensures
        final(etat).regles == regles,
        final(etat).minutes_utilisees == 0,
        final(etat).internet_coupe == old(etat).internet_coupe,
        final(etat).derniere_verification == old(etat).derniere_verification,
        regles.sites_bloques@.len() > 0 ==> r@ == avec_blocage(
            contenu@,
            vues(regles.sites_bloques@),
        ),
        regles.sites_bloques@.len() == 0 ==> r@ == sans_blocage(contenu@),
{
    let nouveau = hosts_pour_regles(contenu, &regles);
    etat.regles = regles;
    etat.minutes_utilisees = 0;
    nouveau
}

/// The block file as new rules want it: their sites blocked, or the managed
/// section removed when they block none.
pub fn hosts_pour_regles(contenu: &str, regles: &Regles) -> (r: String)
    ensures
        regles.sites_bloques@.len() > 0 ==> r@ == avec_blocage(
            contenu@,
            vues(regles.sites_bloques@),
        ),
        regles.sites_bloques@.len() == 0 ==> r@ == sans_blocage(contenu@),
{
    if regles.sites_bloques.len() > 0 {
        appliquer_blocage_sites(contenu, regles.sites_bloques.as_slice())
    } else {
        supprimer_blocage_sites(contenu)
    }
}

/// Usage so far.
pub fn get_screen_time(etat: &EtatMonitoring) -> (r: u32)
    ensures
        r == etat.minutes_utilisees,
{
    etat.minutes_utilisees
}

/// Turns enforcement off and marks the network as on. Returns whether the
/// network was cut, that is whether the caller must restore it (once), and
/// the block file `contenu` without its managed section.
pub fn stop_monitoring(etat: &mut EtatMonitoring, contenu: &str) -> (r: (bool, String))
    ensures
        r.0 == old(etat).internet_coupe,
        r.1@ == sans_blocage(contenu@),
        !final(etat).regles.actif,
        !final(etat).internet_coupe,
        final(etat).regles == (Regles { actif: false, ..old(etat).regles }),
        final(etat).minutes_utilisees == old(etat).minutes_utilisees,
        final(etat).derniere_verification == old(etat).derniere_verification,
{
    etat.regles.actif = false;
    let retablir = etat.internet_coupe;
    etat.internet_coupe = false;
    (retablir, supprimer_blocage_sites(contenu))
}

/// Turns enforcement on.
pub fn start_monitoring(etat: &mut EtatMonitoring)
    ensures
        final(etat).regles == (Regles { actif: true, ..old(etat).regles }),
        final(etat).minutes_utilisees == old(etat).minutes_utilisees,
        final(etat).internet_coupe == old(etat).internet_coupe,
        final(etat).derniere_verification == old(etat).derniere_verification,
{
    etat.regles.actif = true;
}

/// Records that the network was cut by hand.
pub fn cut_internet(etat: &mut EtatMonitoring)
    ensures
        *final(etat) == (EtatMonitoring { internet_coupe: true, ..*old(etat) }),
{
    etat.internet_coupe = true;
}

/// Records that the network was restored by hand.
pub fn restore_internet(etat: &mut EtatMonitoring)
    ensures
        *final(etat) == (EtatMonitoring { internet_coupe: false, ..*old(etat) }),
{
    etat.internet_coupe = false;
}

} // verus!

//! Parental-control enforcement: the policy for allowed time windows, the
//! managed section of the system's domain block file, the parsing of process
//! listings, and one cycle of the enforcement loop as a step from state and
//! observations to new state and actions. The system calls themselves are
//! left to the caller.

pub mod horaire;
pub mod hosts;
pub mod processus;
pub mod surveillance;
pub mod texte;

pub use horaire::{
    chrono_heure_actuelle, chrono_jour_actuel, dans_plage_autorisee, jour_de_semaine,
    jour_depuis_secondes, minutes_depuis_minuit, parse_heure, PlageHoraire,
};
pub use processus::{lignes_de, nom_pour_killall, noms_processus_bruts, noms_processus_csv};
pub use hosts::{appliquer_blocage_sites, block_site, supprimer_blocage_sites, unblock_site};
pub use surveillance::{
    app_active, apps_actives, cut_internet, etape_monitoring, get_screen_time, hosts_pour_regles,
    restore_internet, start_monitoring, stop_monitoring, update_rules, ActionsCycle,
    EtatMonitoring, ModeRetablissement, Regles,
};

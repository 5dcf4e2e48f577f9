use vstd::prelude::*;
use crate::texte::caracteres;
use vstd::arithmetic::div_mod::{lemma_hoist_over_denominator, lemma_mod_multiples_vanish};

verus! {

/// One permitted usage interval: from `debut` to `fin` ("HH:MM", both
/// included) on the weekdays in `jours` (0 is Sunday).
#[derive(Clone, Debug, Default)]
pub struct PlageHoraire {
    pub debut: String,
    pub fin: String,
    pub jours: Vec<u8>,
    pub actif: bool,
}

pub open spec fn est_chiffre(c: char) -> bool {
    48 <= c as u32 <= 57
}

/// The number written by the decimal digits `d`.
pub open spec fn valeur(d: Seq<char>) -> int
    decreases d.len(),
{
    if d.len() == 0 {
        0
    } else {
        valeur(d.drop_last()) * 10 + (d.last() as u32 - 48)
    }
}

/// `s` without one leading `+`.
pub open spec fn sans_plus(s: Seq<char>) -> Seq<char> {
    if s.len() > 0 && s[0] == '+' {
        s.drop_first()
    } else {
        s
    }
}

pub open spec fn que_des_chiffres(d: Seq<char>) -> bool {
    forall|i: int| 0 <= i < d.len() ==> est_chiffre(#[trigger] d[i])
}

/// An unsigned 32-bit number in decimal, with an optional leading `+`.
pub open spec fn champ(s: Seq<char>) -> Option<int> {
    let d = sans_plus(s);
    if d.len() > 0 && que_des_chiffres(d) && valeur(d) <= u32::MAX {
        Some(valeur(d))
    } else {
        None
    }
}

/// Index of the first `c` in `s`, or its length when it has none.
pub open spec fn position(s: Seq<char>, c: char) -> int
    decreases s.len(),
{
    if s.len() == 0 {
        0
    } else if s[0] == c {
        0
    } else {
        1 + position(s.drop_first(), c)
    }
}

/// The minute of the day written "HH:MM": hours and minutes are the first
/// two fields between colons. The text is malformed, and gives 0, when it
/// has no colon or when either field is not a number; otherwise the total is
/// capped at 1439.
pub open spec fn minutes_de(s: Seq<char>) -> int {
    let p = position(s, ':');
    let reste = s.skip(p + 1);
    if p >= s.len() {
        0
    } else {
        match (champ(s.take(p)), champ(reste.take(position(reste, ':')))) {
            (Some(h), Some(m)) => if h * 60 + m > 1439 {
                1439
            } else {
                h * 60 + m
            },
            _ => 0,
        }
    }
}

pub proof fn lemme_position(s: Seq<char>, c: char)
    ensures
        0 <= position(s, c) <= s.len(),
        position(s, c) < s.len() ==> s[position(s, c)] == c,
        forall|i: int| 0 <= i < position(s, c) ==> s[i] != c,
    decreases s.len(),
{
    if s.len() > 0 && s[0] != c {
        lemme_position(s.drop_first(), c);
        assert forall|i: int| 0 <= i < position(s, c) implies s[i] != c by {
            if i > 0 {
                assert(s[i] == s.drop_first()[i - 1]);
            }
        }
    }
}

pub proof fn lemme_position_trouvee(s: Seq<char>, c: char, k: int)
    requires
        0 <= k <= s.len(),
        k < s.len() ==> s[k] == c,
        forall|i: int| 0 <= i < k ==> s[i] != c,
    ensures
        position(s, c) == k,
{
    lemme_position(s, c);
    if position(s, c) < k {
        assert(s[position(s, c)] != c);
    }
    if position(s, c) > k {
        assert(s[k] != c);
    }
}

/// Index of the first `c` in `s` from `debut` on, or the length of `s`.
fn chercher(s: &Vec<char>, debut: usize, c: char) -> (r: usize)
    requires
        debut <= s.len(),
    ensures
        r - debut == position(s@.skip(debut as int), c),
        debut <= r <= s.len(),
{
    let mut k = debut;
    while k < s.len() && s[k] != c
        invariant
            debut <= k <= s.len(),
            forall|i: int| debut <= i < k ==> s@[i] != c,
        decreases s.len() - k,
    {
        k = k + 1;
    }
    proof {
        let t = s@.skip(debut as int);
        assert forall|i: int| 0 <= i < k - debut implies t[i] != c by {
            assert(t[i] == s@[debut + i]);
        }
        lemme_position_trouvee(t, c, k - debut);
    }
    k
}

/// The number in `s` from `debut` up to `fin`, as `champ` reads it.
fn lire_champ(s: &Vec<char>, debut: usize, fin: usize) -> (r: Option<u32>)
    requires
        debut <= fin <= s.len(),
    ensures
        r matches Some(v) ==> champ(s@.subrange(debut as int, fin as int)) == Some(v as int),
        r is None ==> champ(s@.subrange(debut as int, fin as int)) is None,
{
    let ghost t = s@.subrange(debut as int, fin as int);
    let mut i = debut;
    if i < fin && s[i] == '+' {
        i = i + 1;
    }
    let ghost d = s@.subrange(i as int, fin as int);
    assert(d =~= sans_plus(t));
    if i == fin {
        return None;
    }
    let debut_chiffres = i;
    let mut v: u64 = 0;
    while i < fin
        invariant
            debut_chiffres <= i <= fin <= s.len(),
            d == s@.subrange(debut_chiffres as int, fin as int),
            t == s@.subrange(debut as int, fin as int),
            d == sans_plus(t),
            forall|q: int| debut_chiffres <= q < i ==> est_chiffre(#[trigger] s@[q]),
            v as int == if valeur(s@.subrange(debut_chiffres as int, i as int)) > u32::MAX {
                u32::MAX + 1
            } else {
                valeur(s@.subrange(debut_chiffres as int, i as int))
            },
        decreases fin - i,
    {
        let c = s[i];
        let u = c as u32;
        if !(48 <= u && u <= 57) {
            assert(d[i - debut_chiffres] == s@[i as int]);
            assert(!est_chiffre(d[i - debut_chiffres]));
            assert(!que_des_chiffres(d));
            assert(champ(t) is None);
            return None;
        }
        let chiffre = (u - 48) as u64;
        let ghost avant = valeur(s@.subrange(debut_chiffres as int, i as int));
        assert(s@.subrange(debut_chiffres as int, i + 1).drop_last() =~= s@.subrange(
            debut_chiffres as int,
            i as int,
        ));
        assert(valeur(s@.subrange(debut_chiffres as int, i + 1)) == avant * 10 + chiffre);
        if v > 4294967295 {
            assert(avant * 10 + chiffre > u32::MAX) by (nonlinear_arith)
                requires
                    avant > u32::MAX,
                    chiffre >= 0,
            ;
        } else {
            v = v * 10 + chiffre;
            if v > 4294967295 {
                v = 4294967296;
            }
        }
        i = i + 1;
    }
    assert(s@.subrange(debut_chiffres as int, fin as int) =~= d);
    if v > 4294967295 {
        None
    } else {
        Some(v as u32)
    }
}

/// Parses "HH:MM" into minutes since midnight, capped at 1439; a malformed
/// text (no colon, or an hour or minute that is not a number) gives 0.
pub fn parse_heure(heure: &str) -> (r: u32)
    ensures
        r == minutes_de(heure@),
        r <= 1439,
{
    let s = caracteres(heure);
    let p = chercher(&s, 0, ':');
    proof {
        assert(s@.skip(0) =~= s@);
    }
    if p >= s.len() {
        return 0;
    }
    let q = chercher(&s, p + 1, ':');
    let h = lire_champ(&s, 0, p);
    let m = lire_champ(&s, p + 1, q);
    proof {
        let reste = s@.skip(p + 1);
        assert(s@.subrange(0, p as int) =~= s@.take(p as int));
        assert(s@.subrange(p + 1, q as int) =~= reste.take(position(reste, ':')));
    }
    match (h, m) {
        (Some(h), Some(m)) => {
            let t = h as u64 * 60 + m as u64;
            if t > 1439 {
                1439
            } else {
                t as u32
            }
        },
        _ => 0,
    }
}


/// The window admits minute `minute` of weekday `jour`: it is enabled, lists
/// the day, and its start and end enclose the minute.
pub open spec fn plage_couvre(p: PlageHoraire, minute: int, jour: int) -> bool {
    &&& p.actif
    &&& exists|k: int| 0 <= k < p.jours@.len() && p.jours@[k] as int == jour
    &&& minutes_de(p.debut@) <= minute <= minutes_de(p.fin@)
}

/// Access is allowed when no window is enabled, or when one admits the time.
pub open spec fn plage_autorisee(plages: Seq<PlageHoraire>, minute: int, jour: int) -> bool {
    (forall|i: int| 0 <= i < plages.len() ==> !(#[trigger] plages[i]).actif) || (exists|i: int|
        0 <= i < plages.len() && plage_couvre(#[trigger] plages[i], minute, jour))
}

fn jour_liste(jours: &Vec<u8>, jour: u8) -> (r: bool)
    ensures
        r == exists|k: int| 0 <= k < jours@.len() && jours@[k] as int == jour as int,
{
    let mut k: usize = 0;
    while k < jours.len()
        invariant
            k <= jours.len(),
            forall|q: int| 0 <= q < k ==> jours@[q] != jour,
        decreases jours.len() - k,
    {
        if jours[k] == jour {
            return true;
        }
        k = k + 1;
    }
    false
}

/// Whether minute `minute` of weekday `jour` falls in an allowed window.
pub fn dans_plage_autorisee(plages: &[PlageHoraire], minute: u32, jour: u8) -> (r: bool)
    ensures
        r == plage_autorisee(plages@, minute as int, jour as int),
{
    let mut une_active = false;
    let mut i: usize = 0;
    while i < plages.len()
        invariant
            i <= plages.len(),
            une_active == exists|q: int| 0 <= q < i && (#[trigger] plages@[q]).actif,
        decreases plages.len() - i,
    {
        if plages[i].actif {
            une_active = true;
        }
        i = i + 1;
    }
    if !une_active {
        return true;
    }
    let mut i: usize = 0;
    while i < plages.len()
        invariant
            i <= plages.len(),
            exists|q: int| 0 <= q < plages.len() && (#[trigger] plages@[q]).actif,
            forall|q: int| 0 <= q < i ==> !plage_couvre(#[trigger] plages@[q], minute as int, jour as int),
        decreases plages.len() - i,
    {
        let p = &plages[i];
        if p.actif && jour_liste(&p.jours, jour) {
            let debut = parse_heure(p.debut.as_str());
            let fin = parse_heure(p.fin.as_str());
            if debut <= minute && minute <= fin {
                return true;
            }
        }
        i = i + 1;
    }
    false
}

/// With no window, or none enabled, every time of every day is allowed.
pub proof fn loi_sans_plage_active(plages: Seq<PlageHoraire>, minute: int, jour: int)
    requires
        forall|i: int| 0 <= i < plages.len() ==> !(#[trigger] plages[i]).actif,
    ensures
        plage_autorisee(plages, minute, jour),
{
}

/// For one enabled window, access is allowed exactly when the day is listed
/// and the minute lies between start and end, both included; a window that
/// ends before it starts admits nothing.
pub proof fn loi_plage_unique(p: PlageHoraire, minute: int, jour: int)
    requires
        p.actif,
    ensures
        plage_autorisee(seq![p], minute, jour) == ((exists|k: int|
            0 <= k < p.jours@.len() && p.jours@[k] as int == jour) && minutes_de(p.debut@)
            <= minute <= minutes_de(p.fin@)),
        minutes_de(p.debut@) > minutes_de(p.fin@) ==> !plage_autorisee(seq![p], minute, jour),
{
    assert(seq![p][0] == p);
    if plage_autorisee(seq![p], minute, jour) {
        assert(!(forall|i: int| 0 <= i < 1 ==> !(#[trigger] seq![p][i]).actif));
        let i = choose|i: int| 0 <= i < 1 && plage_couvre(#[trigger] seq![p][i], minute, jour);
        assert(i == 0);
    }
    if plage_couvre(p, minute, jour) {
        assert(plage_couvre(seq![p][0], minute, jour));
    }
}


/// Seconds since the epoch, moved by a fixed offset from UTC in minutes.
pub open spec fn secondes_locales(secs: int, decalage_minutes: int) -> int {
    secs + decalage_minutes * 60
}

/// Minutes since midnight at time `t` (seconds since the epoch).
pub open spec fn minute_du_jour(t: int) -> int {
    (t % 86400) / 60
}

/// Weekday at time `t`, 0 for Sunday; the epoch fell on a Thursday.
pub open spec fn jour_du_temps(t: int) -> int {
    (t / 86400 + 4) % 7
}

/// A whole number of weeks, in seconds, added so that every offset leaves a
/// non-negative time: `7 * 86400 * 262144`.
const DECALE: u128 = 158544691200;

/// The local time as a non-negative count of seconds, ahead of the true
/// local time by `DECALE`.
fn temps_decale(secs: u64, decalage_minutes: i32) -> (r: u128)
    ensures
        r as int == secondes_locales(secs as int, decalage_minutes as int) + 86400 * 1835008,
{
    let t: u128 = secs as u128 + DECALE;
    if decalage_minutes >= 0 {
        t + (decalage_minutes as u128) * 60
    } else {
        let n = (-(decalage_minutes as i64)) as u128;
        t - n * 60
    }
}

/// Minutes since local midnight, for `secs` seconds since the epoch and a
/// fixed offset from UTC in minutes.
pub fn minutes_depuis_minuit(secs: u64, decalage_minutes: i32) -> (r: u32)
    ensures
        r as int == minute_du_jour(secondes_locales(secs as int, decalage_minutes as int)),
        r < 1440,
{
    let t = temps_decale(secs, decalage_minutes);
    proof {
        let l = secondes_locales(secs as int, decalage_minutes as int);
        lemma_mod_multiples_vanish(1835008, l, 86400);
        assert(86400 * 1835008 + l == t as int);
    }
    ((t % 86400) / 60) as u32
}

/// Weekday (0 for Sunday) of epoch day `jours`.
pub fn jour_de_semaine(jours: u64) -> (r: u8)
    ensures
        r as int == (jours as int + 4) % 7,
{
    ((jours % 7 + 4) % 7) as u8
}

/// Local weekday (0 for Sunday), for `secs` seconds since the epoch and a
/// fixed offset from UTC in minutes.
pub fn jour_depuis_secondes(secs: u64, decalage_minutes: i32) -> (r: u8)
    ensures
        r as int == jour_du_temps(secondes_locales(secs as int, decalage_minutes as int)),
        r < 7,
{
    let t = temps_decale(secs, decalage_minutes);
    let q = t / 86400;
    proof {
        let l = secondes_locales(secs as int, decalage_minutes as int);
        lemma_hoist_over_denominator(l, 1835008, 86400);
        assert(l + 1835008 * 86400 == t as int);
        assert(q as int == l / 86400 + 1835008);
        lemma_mod_multiples_vanish(262144, l / 86400 + 4, 7);
        assert(7 * 262144 + (l / 86400 + 4) == q as int + 4);
    }
    ((q + 4) % 7) as u8
}


/// Relies on `SystemTime::now` measured from `UNIX_EPOCH`: whole seconds
/// since the epoch, or 0 for a clock set before it. Nothing is promised of
/// the value.
#[verifier::external_body]
fn secondes_depuis_epoque() -> (r: u64) {
    std::time::SystemTime::now().duration_since(std::time::UNIX_EPOCH).map(|d| d.as_secs()).unwrap_or(0)
}

/// Minutes since local midnight now, for a fixed offset from UTC in minutes.
pub fn chrono_heure_actuelle(decalage_minutes: i32) -> (r: u32)
    ensures
        r < 1440,
        exists|secs: u64|
            r as int == minute_du_jour(secondes_locales(secs as int, decalage_minutes as int)),
{
    let secs = secondes_depuis_epoque();
    minutes_depuis_minuit(secs, decalage_minutes)
}

/// Today's local weekday (0 for Sunday), for a fixed offset from UTC in minutes.
pub fn chrono_jour_actuel(decalage_minutes: i32) -> (r: u8)
    ensures
        r < 7,
        exists|secs: u64|
            r as int == jour_du_temps(secondes_locales(secs as int, decalage_minutes as int)),
{
    let secs = secondes_depuis_epoque();
    jour_depuis_secondes(secs, decalage_minutes)
}

} // verus!

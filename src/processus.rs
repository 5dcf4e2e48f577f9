use vstd::prelude::*;
use crate::horaire::{lemme_position_trouvee, position};
use crate::hosts::vues;
use crate::surveillance::{en_minuscules, minuscules};
use crate::texte::{caracteres, lignes, premier_saut, lemme_premier_saut_concat, pousser, rogne, rogner, sans_saut};

verus! {

pub open spec fn sans_guillemets_devant(s: Seq<char>) -> Seq<char>
    decreases s.len(),
{
    if s.len() > 0 && s[0] == '"' {
        sans_guillemets_devant(s.drop_first())
    } else {
        s
    }
}

pub open spec fn sans_guillemets_derriere(s: Seq<char>) -> Seq<char>
    decreases s.len(),
{
    if s.len() > 0 && s.last() == '"' {
        sans_guillemets_derriere(s.drop_last())
    } else {
        s
    }
}

/// `s` without the double quotes at either end.
pub open spec fn sans_guillemets(s: Seq<char>) -> Seq<char> {
    sans_guillemets_derriere(sans_guillemets_devant(s))
}

/// Relies on `str::trim_matches` with a `char` pattern: every leading and
/// trailing `"` is removed, nothing else.
#[verifier::external_body]
fn oter_guillemets<'a>(s: &'a str) -> (r: &'a str)
    ensures
        r@ == sans_guillemets(s@),
{
    s.trim_matches('"')
}

/// The process name in one line of CSV process listing: its first field,
/// unquoted, in lowercase.
pub open spec fn nom_csv(l: Seq<char>) -> Seq<char> {
    minuscules(sans_guillemets(l.take(position(l, ','))))
}

/// The process name in one line of a plain listing: trimmed, in lowercase.
pub open spec fn nom_brut(l: Seq<char>) -> Seq<char> {
    minuscules(rogne(l))
}

/// The characters of `s` from `debut` up to `fin`, as a `String`.
fn extraire(s: &Vec<char>, debut: usize, fin: usize) -> (r: String)
    requires
        debut <= fin <= s.len(),
    ensures
        r@ == s@.subrange(debut as int, fin as int),
{
    let mut r = String::new();
    let mut k = debut;
    while k < fin
        invariant
            debut <= k <= fin <= s.len(),
            r@ == s@.subrange(debut as int, k as int),
        decreases fin - k,
    {
        pousser(&mut r, s[k]);
        assert(s@.subrange(debut as int, k + 1) =~= s@.subrange(debut as int, k as int).push(
            s@[k as int],
        ));
        k = k + 1;
    }
    r
}

/// The lines of `s`, each as a `String`.
pub fn lignes_de(s: &str) -> (r: Vec<String>)
    ensures
        vues(r@) == lignes(s@),
{
    let contenu = caracteres(s);
    let ghost c = contenu@;
    let n = contenu.len();
    let mut r: Vec<String> = Vec::new();
    let mut pos: usize = 0;
    proof {
        assert(c.skip(0) =~= c);
        assert(vues(r@) + lignes(c) =~= lignes(c));
    }
    while pos < n
        invariant
            pos <= n == c.len(),
            c == contenu@,
            c == s@,
            lignes(c) == vues(r@) + lignes(c.skip(pos as int)),
        decreases n - pos,
    {
        let mut fin = pos;
        while fin < n && contenu[fin] != '\n'
            invariant
                pos <= fin <= n == c.len(),
                c == contenu@,
                forall|k: int| pos <= k < fin ==> c[k] != '\n',
            decreases n - fin,
        {
            fin = fin + 1;
        }
        let ligne = extraire(&contenu, pos, fin);
        proof {
            let reste = c.skip(pos as int);
            assert(reste =~= ligne@ + c.skip(fin as int));
            assert(sans_saut(ligne@));
            lemme_premier_saut_concat(ligne@, c.skip(fin as int));
            assert(premier_saut(c.skip(fin as int)) == 0);
            assert(reste.take(fin - pos) =~= ligne@);
            if fin < n {
                assert(reste.skip(fin - pos + 1) =~= c.skip(fin + 1));
                assert(lignes(reste) == seq![ligne@] + lignes(c.skip(fin + 1)));
            } else {
                assert(reste =~= ligne@);
                assert(lignes(reste) == seq![ligne@]);
            }
        }
        let ghost avant = vues(r@);
        r.push(ligne);
        proof {
            assert(vues(r@) =~= avant.push(r@[r@.len() - 1]@));
            if fin < n {
                assert(lignes(c) =~= vues(r@) + lignes(c.skip(fin + 1)));
            } else {
                assert(c.skip(n as int) =~= Seq::<char>::empty());
                assert(lignes(c) =~= vues(r@) + lignes(c.skip(n as int)));
            }
        }
        if fin < n {
            pos = fin + 1;
        } else {
            pos = n;
        }
    }
    proof {
        assert(c.skip(n as int) =~= Seq::<char>::empty());
        assert(lignes(c) =~= vues(r@));
    }
    r
}

/// `l` without one final carriage return.
pub open spec fn sans_cr(l: Seq<char>) -> Seq<char> {
    if l.len() > 0 && l.last() == '\r' {
        l.drop_last()
    } else {
        l
    }
}

/// Line `j` of `s`, whose text is `l`, as `str::lines` gives it: a carriage
/// return just before the line's newline is dropped; one at the very end of a
/// text with no final newline stays.
pub open spec fn telle_que_lue(s: Seq<char>, j: int, l: Seq<char>) -> Seq<char> {
    if j + 1 < lignes(s).len() || (s.len() > 0 && s.last() == '\n') {
        sans_cr(l)
    } else {
        l
    }
}

/// The process names in a CSV listing (one process per line, the image name
/// first, as `tasklist /fo csv /nh` prints it).
pub fn noms_processus_csv(sortie: &str) -> (r: Vec<String>)
    ensures
        vues(r@) == lignes(sortie@).map(
            |j: int, l: Seq<char>| nom_csv(telle_que_lue(sortie@, j, l)),
        ),
{
    let ghost f = |j: int, l: Seq<char>| nom_csv(telle_que_lue(sortie@, j, l));
    let c = caracteres(sortie);
    let fin_saut = c.len() > 0 && c[c.len() - 1] == '\n';
    let ls = lignes_de(sortie);
    let mut r: Vec<String> = Vec::new();
    let mut i: usize = 0;
    proof {
        assert(vues(r@) =~= vues(ls@).take(0).map(f));
    }
    while i < ls.len()
        invariant
            i <= ls.len(),
            vues(ls@) == lignes(sortie@),
            fin_saut == (sortie@.len() > 0 && sortie@.last() == '\n'),
            f == (|j: int, l: Seq<char>| nom_csv(telle_que_lue(sortie@, j, l))),
            vues(r@) == vues(ls@).take(i as int).map(f),
        decreases ls.len() - i,
    {
        let l = caracteres(ls[i].as_str());
        let mut n = l.len();
        if (i + 1 < ls.len() || fin_saut) && n > 0 && l[n - 1] == '\r' {
            n = n - 1;
        }
        let ghost lue = l@.take(n as int);
        assert(ls@[i as int]@ == vues(ls@)[i as int]);
        assert(lue =~= telle_que_lue(sortie@, i as int, vues(ls@)[i as int]));
        let mut k: usize = 0;
        while k < n && l[k] != ','
            invariant
                k <= n <= l.len(),
                forall|q: int| 0 <= q < k ==> l@[q] != ',',
            decreases n - k,
        {
            k = k + 1;
        }
        proof {
            lemme_position_trouvee(lue, ',', k as int);
        }
        let champ = extraire(&l, 0, k);
        assert(champ@ =~= lue.take(k as int));
        let nom = en_minuscules(oter_guillemets(champ.as_str()));
        let ghost avant = vues(r@);
        r.push(nom);
        proof {
            assert(vues(r@) =~= avant.push(f(i as int, vues(ls@)[i as int])));
            assert(vues(r@) =~= vues(ls@).take(i + 1).map(f));
        }
        i = i + 1;
    }
    proof {
        assert(vues(ls@).take(ls.len() as int) =~= vues(ls@));
    }
    r
}

/// The process names in a plain listing (one per line, as `ps -ax -o comm=`
/// prints them): each line trimmed, in lowercase.
pub fn noms_processus_bruts(sortie: &str) -> (r: Vec<String>)
    ensures
        vues(r@) == lignes(sortie@).map_values(|l: Seq<char>| nom_brut(l)),
{
    let ls = lignes_de(sortie);
    let mut r: Vec<String> = Vec::new();
    let mut i: usize = 0;
    while i < ls.len()
        invariant
            i <= ls.len(),
            vues(ls@) == lignes(sortie@),
            vues(r@) == vues(ls@).take(i as int).map_values(|l: Seq<char>| nom_brut(l)),
        decreases ls.len() - i,
    {
        let nom = en_minuscules(rogner(ls[i].as_str()));
        let ghost avant = vues(r@);
        r.push(nom);
        proof {
            assert(ls@[i as int]@ == vues(ls@)[i as int]);
            assert(vues(r@) =~= avant.push(nom_brut(vues(ls@)[i as int])));
            assert(vues(ls@).take(i + 1) =~= vues(ls@).take(i as int).push(vues(ls@)[i as int]));
            assert(vues(r@) =~= vues(ls@).take(i + 1).map_values(|l: Seq<char>| nom_brut(l)));
        }
        i = i + 1;
    }
    proof {
        assert(vues(ls@).take(ls.len() as int) =~= vues(ls@));
    }
    r
}

/// `s` with `suffixe` removed from its end as many times as it ends with it.
pub open spec fn sans_suffixes(s: Seq<char>, suffixe: Seq<char>) -> Seq<char>
    decreases s.len(),
{
    if suffixe.len() > 0 && s.len() >= suffixe.len() && s.subrange(
        s.len() - suffixe.len(),
        s.len() as int,
    ) == suffixe {
        sans_suffixes(s.take(s.len() - suffixe.len()), suffixe)
    } else {
        s
    }
}

/// Whether the characters of `s` from `debut` on start with `motif`.
fn egal_a(s: &Vec<char>, debut: usize, motif: &Vec<char>) -> (r: bool)
    requires
        debut + motif.len() <= s.len(),
    ensures
        r == (s@.subrange(debut as int, debut + motif.len()) == motif@),
{
    let mut j: usize = 0;
    while j < motif.len()
        invariant
            debut + motif.len() <= s.len(),
            j <= motif.len(),
            forall|t: int| 0 <= t < j ==> s@[debut + t] == motif@[t],
        decreases motif.len() - j,
    {
        if s[debut + j] != motif[j] {
            assert(s@.subrange(debut as int, debut + motif.len())[j as int] != motif@[j as int]);
            return false;
        }
        j = j + 1;
    }
    assert(s@.subrange(debut as int, debut + motif.len()) =~= motif@);
    true
}

/// The length of the first `n` characters of `s` once `suffixe` is removed
/// from their end as many times as they end with it.
fn longueur_sans_suffixes(s: &Vec<char>, n: usize, suffixe: &Vec<char>) -> (r: usize)
    requires
        n <= s.len(),
    ensures
        r <= n,
        s@.take(r as int) == sans_suffixes(s@.take(n as int), suffixe@),
{
    let m = suffixe.len();
    let mut fin = n;
    while m > 0 && fin >= m && egal_a(s, fin - m, suffixe)
        invariant
            fin <= n <= s.len(),
            m == suffixe.len(),
            sans_suffixes(s@.take(n as int), suffixe@) == sans_suffixes(
                s@.take(fin as int),
                suffixe@,
            ),
        decreases fin,
    {
        proof {
            let t = s@.take(fin as int);
            assert(t.subrange(fin - m, fin as int) =~= s@.subrange(fin - m, fin as int));
            assert(t.take(fin - m) =~= s@.take(fin - m));
        }
        fin = fin - m;
    }
    proof {
        let t = s@.take(fin as int);
        if m > 0 && fin >= m {
            assert(t.subrange(fin - m, fin as int) =~= s@.subrange(fin - m, fin as int));
        }
    }
    fin
}

/// The name that `killall` knows a program by: the executable name without
/// its trailing `.exe`, then without its trailing `.app` (each removed as
/// many times as it ends the name).
pub fn nom_pour_killall(executable: &str) -> (r: String)
    ensures
        r@ == sans_suffixes(sans_suffixes(executable@, ".exe"@), ".app"@),
{
    let c = caracteres(executable);
    let exe = caracteres(".exe");
    let app = caracteres(".app");
    assert(c@.take(c.len() as int) =~= c@);
    let n1 = longueur_sans_suffixes(&c, c.len(), &exe);
    let n2 = longueur_sans_suffixes(&c, n1, &app);
    let r = extraire(&c, 0, n2);
    assert(r@ =~= c@.take(n2 as int));
    r
}

} // verus!

use vstd::prelude::*;
use vstd::string::StringExecFns;
use crate::processus::lignes_de;
use crate::texte::{
    caracteres, contient, joindre, lemme_filtre_rien, lemme_filtre_sans_saut,
    lemme_filtre_tout, lemme_joindre_concat, lemme_lignes_joindre, lemme_lignes_sans_saut, lignes,
    pousser, rogne, rogner, sans_lignes_marquees, sans_motif, sans_saut,
};

verus! {

/// The comment that tags every line this library owns in the block file.
pub open spec fn marqueur() -> Seq<char> {
    "# ParentGuard"@
}

/// The line that opens the managed section.
pub open spec fn entete() -> Seq<char> {
    "# ParentGuard - Ne pas modifier"@
}

/// The line sending `domaine` to the loopback address.
pub open spec fn redirection(domaine: Seq<char>) -> Seq<char> {
    "127.0.0.1 "@ + domaine + " # ParentGuard"@
}

/// The lines for one site: its trimmed name and the same under `www.`, or
/// none for a blank name.
pub open spec fn lignes_site(site: Seq<char>) -> Seq<Seq<char>> {
    let d = rogne(site);
    if d.len() == 0 {
        seq![]
    } else {
        seq![redirection(d), redirection("www."@ + d)]
    }
}

pub open spec fn lignes_sites(sites: Seq<Seq<char>>) -> Seq<Seq<char>>
    decreases sites.len(),
{
    if sites.len() == 0 {
        seq![]
    } else {
        lignes_sites(sites.drop_last()) + lignes_site(sites.last())
    }
}

/// The managed section for a list of sites.
pub open spec fn bloc_gere(sites: Seq<Seq<char>>) -> Seq<Seq<char>> {
    seq![entete()] + lignes_sites(sites)
}

pub open spec fn non_marquee() -> spec_fn(Seq<char>) -> bool {
    sans_motif(marqueur())
}

/// The lines of a block file that this library does not own, in order.
pub open spec fn lignes_libres(contenu: Seq<char>) -> Seq<Seq<char>> {
    lignes(contenu).filter(non_marquee())
}

/// The block file with the managed section taken out.
pub open spec fn sans_blocage(contenu: Seq<char>) -> Seq<char> {
    joindre(lignes_libres(contenu))
}

/// The block file with its managed section replaced by the one for `sites`.
pub open spec fn avec_blocage(contenu: Seq<char>, sites: Seq<Seq<char>>) -> Seq<char> {
    joindre(lignes_libres(contenu) + bloc_gere(sites))
}

pub open spec fn vues(sites: Seq<String>) -> Seq<Seq<char>> {
    sites.map_values(|s: String| s@)
}

/// Removes every owned line from the block file `contenu`; the other lines
/// stay, in order, each ended by a newline.
pub fn supprimer_blocage_sites(contenu: &str) -> (r: String)
    ensures
        r@ == sans_blocage(contenu@),
{
    let c = caracteres(contenu);
    let m = caracteres("# ParentGuard");
    sans_lignes_marquees(&c, &m)
}

/// Rewrites the block file `contenu` so that its managed section blocks
/// exactly `sites`: the owned lines are dropped, the others kept in order, and
/// the section header follows with two redirections per non-blank site.
pub fn appliquer_blocage_sites(contenu: &str, sites: &[String]) -> (r: String)
    ensures
        r@ == avec_blocage(contenu@, vues(sites@)),
{
    let ghost libres = lignes_libres(contenu@);
    let ghost vs = vues(sites@);
    let mut r = supprimer_blocage_sites(contenu);
    r.append("# ParentGuard - Ne pas modifier");
    pousser(&mut r, '\n');
    proof {
        let un = seq![entete()];
        assert(un.drop_last() =~= Seq::<Seq<char>>::empty());
        assert(joindre(un.drop_last()) =~= Seq::<char>::empty());
        assert(joindre(un) =~= entete() + seq!['\n']);
        lemme_joindre_concat(libres, seq![entete()]);
        assert(vs.take(0) =~= Seq::<Seq<char>>::empty());
        assert(bloc_gere(vs.take(0)) =~= seq![entete()]);
    }
    let mut i: usize = 0;
    while i < sites.len()
        invariant
            i <= sites.len(),
            vs == vues(sites@),
            libres == lignes_libres(contenu@),
            r@ == joindre(libres + bloc_gere(vs.take(i as int))),
        decreases sites.len() - i,
    {
        let ghost avant = r@;
        let d = rogner(sites[i].as_str());
        if !d.is_empty() {
            r.append("127.0.0.1 ");
            r.append(d);
            r.append(" # ParentGuard");
            pousser(&mut r, '\n');
            r.append("127.0.0.1 ");
            r.append("www.");
            r.append(d);
            r.append(" # ParentGuard");
            pousser(&mut r, '\n');
        }
        proof {
            let s = vs[i as int];
            assert(s == sites@[i as int]@);
            let ls = lignes_site(s);
            assert(vs.take(i + 1).drop_last() =~= vs.take(i as int));
            assert(lignes_sites(vs.take(i + 1)) == lignes_sites(vs.take(i as int)) + ls);
            assert(libres + bloc_gere(vs.take(i + 1)) =~= (libres + bloc_gere(vs.take(i as int)))
                + ls);
            lemme_joindre_concat(libres + bloc_gere(vs.take(i as int)), ls);
            if d@.len() == 0 {
                assert(joindre(ls) =~= Seq::<char>::empty());
            } else {
                let a = redirection(d@);
                let b = redirection("www."@ + d@);
                assert(ls.drop_last() =~= seq![a]);
                assert(seq![a].drop_last() =~= Seq::<Seq<char>>::empty());
                assert(joindre(seq![a].drop_last()) =~= Seq::<char>::empty());
                assert(joindre(seq![a]) =~= a + seq!['\n']);
                assert(joindre(ls) =~= a + seq!['\n'] + b + seq!['\n']);
            }
        }
        i = i + 1;
    }
    proof {
        assert(vs.take(sites.len() as int) =~= vs);
    }
    r
}


proof fn lemme_redirection(d: Seq<char>)
    requires
        sans_saut(d),
    ensures
        sans_saut(redirection(d)),
        contient(redirection(d), marqueur()),
{
    reveal_strlit("127.0.0.1 ");
    reveal_strlit(" # ParentGuard");
    reveal_strlit("# ParentGuard");
    let r = redirection(d);
    let k = r.len() - 13;
    assert(r.subrange(k, k + marqueur().len()) =~= marqueur());
    assert forall|i: int| 0 <= i < r.len() implies r[i] != '\n' by {
        if 10 <= i < 10 + d.len() {
            assert(r[i] == d[i - 10]);
        }
    }
}

/// Every owned line is tagged and, when no trimmed site holds a newline, free
/// of newlines.
proof fn lemme_bloc_gere(sites: Seq<Seq<char>>)
    requires
        forall|i: int| 0 <= i < sites.len() ==> sans_saut(rogne(#[trigger] sites[i])),
    ensures
        forall|i: int|
            0 <= i < bloc_gere(sites).len() ==> sans_saut(#[trigger] bloc_gere(sites)[i])
                && contient(bloc_gere(sites)[i], marqueur()),
{
    reveal_strlit("# ParentGuard - Ne pas modifier");
    reveal_strlit("# ParentGuard");
    reveal_strlit("www.");
    assert(entete().subrange(0int, 0int + marqueur().len()) =~= marqueur());
    lemme_lignes_sites(sites);
    let b = bloc_gere(sites);
    assert forall|i: int| 0 <= i < b.len() implies sans_saut(#[trigger] b[i]) && contient(
        b[i],
        marqueur(),
    ) by {
        if i > 0 {
            assert(b[i] == lignes_sites(sites)[i - 1]);
        }
    }
}

proof fn lemme_lignes_sites(sites: Seq<Seq<char>>)
    requires
        forall|i: int| 0 <= i < sites.len() ==> sans_saut(rogne(#[trigger] sites[i])),
    ensures
        forall|i: int|
            0 <= i < lignes_sites(sites).len() ==> sans_saut(#[trigger] lignes_sites(sites)[i])
                && contient(lignes_sites(sites)[i], marqueur()),
    decreases sites.len(),
{
    reveal_strlit("www.");
    if sites.len() > 0 {
        let init = sites.drop_last();
        assert forall|i: int| 0 <= i < init.len() implies sans_saut(rogne(#[trigger] init[i])) by {
            assert(init[i] == sites[i]);
        }
        lemme_lignes_sites(init);
        let d = rogne(sites.last());
        assert(sans_saut(d)) by {
            assert(sites.last() == sites[sites.len() - 1]);
        }
        lemme_redirection(d);
        let w = "www."@ + d;
        assert(sans_saut(w)) by {
            assert forall|i: int| 0 <= i < w.len() implies w[i] != '\n' by {
                if i >= 4 {
                    assert(w[i] == d[i - 4]);
                }
            }
        }
        lemme_redirection(w);
        let a = lignes_sites(init);
        let t = lignes_site(sites.last());
        let all = lignes_sites(sites);
        assert(all == a + t);
        assert forall|i: int| 0 <= i < all.len() implies sans_saut(#[trigger] all[i]) && contient(
            all[i],
            marqueur(),
        ) by {
            if i < a.len() {
                assert(all[i] == a[i]);
            } else {
                assert(all[i] == t[i - a.len()]);
            }
        }
    }
}

/// Keeps the lines that are not in `ls`.
pub open spec fn absente_de(ls: Seq<Seq<char>>) -> spec_fn(Seq<char>) -> bool {
    |l: Seq<char>| !ls.contains(l)
}

/// The lines for `domaine` that the block file lacks.
pub open spec fn lignes_nouvelles(contenu: Seq<char>, domaine: Seq<char>) -> Seq<Seq<char>> {
    lignes_site(domaine).filter(absente_de(lignes(contenu)))
}

/// The header line, when lines are to be added and no line of the file is
/// the header yet.
pub open spec fn entete_manquante(contenu: Seq<char>, domaine: Seq<char>) -> Seq<Seq<char>> {
    if lignes_nouvelles(contenu, domaine).len() > 0 && !lignes(contenu).contains(entete()) {
        seq![entete()]
    } else {
        seq![]
    }
}

/// The block file with the lines for `domaine` added after its own lines,
/// each only when the file lacks it, behind the section header when the file
/// has none.
pub open spec fn avec_site(contenu: Seq<char>, domaine: Seq<char>) -> Seq<char> {
    joindre(lignes(contenu) + entete_manquante(contenu, domaine) + lignes_nouvelles(
        contenu,
        domaine,
    ))
}

/// The block file without the lines for `domaine`; every other line stays.
pub open spec fn sans_site(contenu: Seq<char>, domaine: Seq<char>) -> Seq<char> {
    joindre(lignes(contenu).filter(absente_de(lignes_site(domaine))))
}

fn redirection_de(d: &str) -> (r: String)
    ensures
        r@ == redirection(d@),
{
    let mut r = String::from_str("127.0.0.1 ");
    r.append(d);
    r.append(" # ParentGuard");
    r
}

/// The two lines for a site (none for a blank name).
fn lignes_site_de(site: &str) -> (r: Vec<String>)
    ensures
        vues(r@) == lignes_site(site@),
{
    let d = rogner(site);
    let mut r: Vec<String> = Vec::new();
    if !d.is_empty() {
        r.push(redirection_de(d));
        let mut w = String::from_str("www.");
        w.append(d);
        r.push(redirection_de(w.as_str()));
        assert(vues(r@) =~= lignes_site(site@));
    } else {
        assert(vues(r@) =~= lignes_site(site@));
    }
    r
}

/// Whether `l` is one of `ls`.
fn presente(ls: &Vec<String>, l: &String) -> (r: bool)
    ensures
        r == vues(ls@).contains(l@),
{
    let mut k: usize = 0;
    while k < ls.len()
        invariant
            k <= ls.len(),
            forall|q: int| 0 <= q < k ==> vues(ls@)[q] != l@,
        decreases ls.len() - k,
    {
        if ls[k] == *l {
            assert(vues(ls@)[k as int] == l@);
            return true;
        }
        k = k + 1;
    }
    false
}

/// The lines, each followed by a newline.
fn joindre_lignes(ls: &Vec<String>) -> (r: String)
    ensures
        r@ == joindre(vues(ls@)),
{
    let mut r = String::new();
    let mut i: usize = 0;
    proof {
        assert(vues(ls@).take(0) =~= Seq::<Seq<char>>::empty());
    }
    while i < ls.len()
        invariant
            i <= ls.len(),
            r@ == joindre(vues(ls@).take(i as int)),
        decreases ls.len() - i,
    {
        r.append(ls[i].as_str());
        pousser(&mut r, '\n');
        assert(vues(ls@).take(i + 1).drop_last() =~= vues(ls@).take(i as int));
        i = i + 1;
    }
    assert(vues(ls@).take(ls.len() as int) =~= vues(ls@));
    r
}

/// The lines of `nouvelles` that `ls` lacks, in order.
fn absentes(ls: &Vec<String>, nouvelles: &Vec<String>) -> (r: Vec<String>)
    ensures
        vues(r@) == vues(nouvelles@).filter(absente_de(vues(ls@))),
{
    let ghost p = absente_de(vues(ls@));
    let mut r: Vec<String> = Vec::new();
    let mut i: usize = 0;
    proof {
        reveal(Seq::filter);
        assert(vues(nouvelles@).take(0) =~= Seq::<Seq<char>>::empty());
        assert(vues(r@) =~= Seq::<Seq<char>>::empty());
    }
    while i < nouvelles.len()
        invariant
            i <= nouvelles.len(),
            p == absente_de(vues(ls@)),
            vues(r@) == vues(nouvelles@).take(i as int).filter(p),
        decreases nouvelles.len() - i,
    {
        let deja = presente(ls, &nouvelles[i]);
        let ghost avant = vues(r@);
        if !deja {
            r.push(nouvelles[i].clone());
            assert(vues(r@) =~= avant.push(nouvelles@[i as int]@));
        }
        proof {
            assert(vues(nouvelles@).take(i + 1) =~= vues(nouvelles@).take(i as int).push(
                nouvelles@[i as int]@,
            ));
            vues(nouvelles@).take(i as int).lemma_filter_push(nouvelles@[i as int]@, p);
        }
        i = i + 1;
    }
    assert(vues(nouvelles@).take(nouvelles.len() as int) =~= vues(nouvelles@));
    r
}

/// Blocks one more site: the file keeps all its lines and gains the two
/// redirections for the trimmed `domaine`, each unless already there, after
/// the section header, which is written first when the file lacks it.
pub fn block_site(contenu: &str, domaine: &str) -> (r: String)
    ensures
        r@ == avec_site(contenu@, domaine@),
{
    let mut ls = lignes_de(contenu);
    let nouvelles = lignes_site_de(domaine);
    let mut ajout = absentes(&ls, &nouvelles);
    let ghost avant = vues(ls@);
    let ghost vajout = vues(ajout@);
    let entete = String::from_str("# ParentGuard - Ne pas modifier");
    let manque = ajout.len() > 0 && !presente(&ls, &entete);
    if manque {
        ls.push(entete);
    }
    let ghost milieu = vues(ls@);
    assert(milieu =~= avant + entete_manquante(contenu@, domaine@));
    ls.append(&mut ajout);
    assert(vues(ls@) =~= milieu + vajout);
    joindre_lignes(&ls)
}

/// Unblocks one site: the two redirections for the trimmed `domaine` are
/// dropped, every other line stays, in order.
pub fn unblock_site(contenu: &str, domaine: &str) -> (r: String)
    ensures
        r@ == sans_site(contenu@, domaine@),
{
    let ls = lignes_de(contenu);
    let cibles = lignes_site_de(domaine);
    let gardees = absentes(&cibles, &ls);
    joindre_lignes(&gardees)
}

/// The unowned lines survive a rewrite of the managed section unchanged.
proof fn lemme_libres_apres_blocage(contenu: Seq<char>, sites: Seq<Seq<char>>)
    requires
        forall|i: int| 0 <= i < sites.len() ==> sans_saut(rogne(#[trigger] sites[i])),
    ensures
        lignes(avec_blocage(contenu, sites)) == lignes_libres(contenu) + bloc_gere(sites),
        lignes_libres(avec_blocage(contenu, sites)) == lignes_libres(contenu),
{
    let p = non_marquee();
    let l = lignes_libres(contenu);
    let b = bloc_gere(sites);
    lemme_lignes_sans_saut(contenu);
    lemme_filtre_sans_saut(lignes(contenu), p);
    lemme_bloc_gere(sites);
    assert forall|i: int| 0 <= i < (l + b).len() implies sans_saut(#[trigger] (l + b)[i]) by {
        if i < l.len() {
            assert((l + b)[i] == l[i]);
        } else {
            assert((l + b)[i] == b[i - l.len()]);
        }
    }
    lemme_lignes_joindre(l + b);
    Seq::filter_distributes_over_add(l, b, p);
    assert forall|i: int| 0 <= i < l.len() implies p(#[trigger] l[i]) by {
        lignes(contenu).lemma_filter_pred(p, i);
    }
    lemme_filtre_tout(l, p);
    lemme_filtre_rien(b, p);
    assert(l + Seq::<Seq<char>>::empty() =~= l);
}

/// Removing the managed section after writing one gives back the file as it
/// was without its owned lines: the other lines, verbatim and in their order.
/// This holds whenever no trimmed site name holds a newline.
pub proof fn loi_retrait_apres_blocage(contenu: Seq<char>, sites: Seq<Seq<char>>)
    requires
        forall|i: int| 0 <= i < sites.len() ==> sans_saut(rogne(#[trigger] sites[i])),
    ensures
        sans_blocage(avec_blocage(contenu, sites)) == sans_blocage(contenu),
        lignes(sans_blocage(avec_blocage(contenu, sites))) == lignes(contenu).filter(
            non_marquee(),
        ),
{
    lemme_libres_apres_blocage(contenu, sites);
    lemme_lignes_sans_saut(contenu);
    lemme_filtre_sans_saut(lignes(contenu), non_marquee());
    lemme_lignes_joindre(lignes_libres(contenu));
}

/// Writing the managed section for the same sites twice gives the same file
/// as writing it once: the earlier section is replaced, never repeated.
pub proof fn loi_blocage_idempotent(contenu: Seq<char>, sites: Seq<Seq<char>>)
    requires
        forall|i: int| 0 <= i < sites.len() ==> sans_saut(rogne(#[trigger] sites[i])),
    ensures
        avec_blocage(avec_blocage(contenu, sites), sites) == avec_blocage(contenu, sites),
{
    lemme_libres_apres_blocage(contenu, sites);
}

} // verus!

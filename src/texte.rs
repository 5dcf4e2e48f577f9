use vstd::prelude::*;

verus! {

/// The characters of `s`, in order.
pub fn caracteres(s: &str) -> (r: Vec<char>)
    ensures
        r@ == s@,
{
    broadcast use vstd::string::axiom_spec_iter;

    let mut r: Vec<char> = Vec::new();
    for c in it: s.chars()
        invariant
            r@ == it.seq().take(it.index()),
    {
        r.push(c);
    }
    assert(r@ =~= s@);
    r
}

/// Relies on `String::push`: the character is added at the end.
#[verifier::external_body]
pub(crate) fn pousser(s: &mut String, c: char)
    ensures
        final(s)@ == old(s)@.push(c),
{
    s.push(c);
}


/// Index of the first newline of `s`, or its length when it has none.
pub open spec fn premier_saut(s: Seq<char>) -> int
    decreases s.len(),
{
    if s.len() == 0 {
        0
    } else if s[0] == '\n' {
        0
    } else {
        1 + premier_saut(s.drop_first())
    }
}

/// The lines of `s`: the pieces between newlines, without them. A last piece
/// with no newline after it is a line when it is not empty. A carriage return
/// stays part of its line, so a file keeps its line endings when it is written
/// back line by line.
pub open spec fn lignes(s: Seq<char>) -> Seq<Seq<char>>
    decreases s.len(),
{
    if s.len() == 0 {
        seq![]
    } else {
        let e = premier_saut(s);
        if 0 <= e < s.len() {
            seq![s.take(e)] + lignes(s.skip(e + 1))
        } else {
            seq![s]
        }
    }
}

/// Each line followed by a newline, all put end to end.
pub open spec fn joindre(ls: Seq<Seq<char>>) -> Seq<char>
    decreases ls.len(),
{
    if ls.len() == 0 {
        seq![]
    } else {
        joindre(ls.drop_last()) + ls.last() + seq!['\n']
    }
}

pub open spec fn sans_saut(s: Seq<char>) -> bool {
    forall|i: int| 0 <= i < s.len() ==> s[i] != '\n'
}

/// `aiguille` occurs in `s` as a run of consecutive characters.
pub open spec fn contient(s: Seq<char>, aiguille: Seq<char>) -> bool {
    exists|k: int|
        0 <= k && k + aiguille.len() <= s.len() && #[trigger] s.subrange(k, k + aiguille.len())
            == aiguille
}

pub proof fn lemme_premier_saut(s: Seq<char>)
    ensures
        0 <= premier_saut(s) <= s.len(),
        premier_saut(s) < s.len() ==> s[premier_saut(s)] == '\n',
        sans_saut(s.take(premier_saut(s))),
    decreases s.len(),
{
    if s.len() > 0 && s[0] != '\n' {
        lemme_premier_saut(s.drop_first());
        let e = premier_saut(s);
        assert forall|i: int| 0 <= i < e implies s.take(e)[i] != '\n' by {
            if i > 0 {
                assert(s.take(e)[i] == s.drop_first().take(e - 1)[i - 1]);
            }
        }
    }
}

pub proof fn lemme_premier_saut_concat(a: Seq<char>, b: Seq<char>)
    requires
        sans_saut(a),
    ensures
        premier_saut(a + b) == a.len() + premier_saut(b),
    decreases a.len(),
{
    if a.len() > 0 {
        assert((a + b).drop_first() =~= a.drop_first() + b);
        lemme_premier_saut_concat(a.drop_first(), b);
    } else {
        assert(a + b =~= b);
    }
}

/// Splitting after a newline: the lines of both sides, in order.
pub proof fn lemme_lignes_concat(a: Seq<char>, b: Seq<char>)
    requires
        a.len() == 0 || a.last() == '\n',
    ensures
        lignes(a + b) == lignes(a) + lignes(b),
    decreases a.len(),
{
    if a.len() == 0 {
        assert(a + b =~= b);
        assert(lignes(a) + lignes(b) =~= lignes(b));
    } else {
        lemme_premier_saut(a);
        let e = premier_saut(a);
        if e >= a.len() {
            assert(!sans_saut(a.take(e))) by {
                assert(a.take(e)[a.len() - 1] == a.last());
            }
        }
        assert(e < a.len());
        lemme_premier_saut(a + b);
        lemme_premier_saut_concat(a.take(e), a.skip(e) + b);
        assert(a + b =~= a.take(e) + (a.skip(e) + b));
        assert(premier_saut(a.skip(e) + b) == 0);
        assert((a + b).take(e) =~= a.take(e));
        assert((a + b).skip(e + 1) =~= a.skip(e + 1) + b);
        let r = a.skip(e + 1);
        if r.len() > 0 {
            assert(r.last() == a.last());
        }
        lemme_lignes_concat(r, b);
        assert(lignes(a + b) =~= seq![a.take(e)] + (lignes(r) + lignes(b)));
    }
}

/// A single line written with its newline reads back as that line.
pub proof fn lemme_lignes_une(l: Seq<char>)
    requires
        sans_saut(l),
    ensures
        lignes(l + seq!['\n']) == seq![l],
{
    let s = l + seq!['\n'];
    lemme_premier_saut_concat(l, seq!['\n']);
    assert(premier_saut(seq!['\n']) == 0);
    assert(s.take(l.len() as int) =~= l);
    assert(s.skip(l.len() as int + 1) =~= Seq::<char>::empty());
    assert(lignes(Seq::<char>::empty()) =~= Seq::<Seq<char>>::empty());
    assert(lignes(s) =~= seq![l]);
}

/// Lines without newlines, written one per line, read back as themselves.
pub proof fn lemme_lignes_joindre(ls: Seq<Seq<char>>)
    requires
        forall|i: int| 0 <= i < ls.len() ==> sans_saut(#[trigger] ls[i]),
    ensures
        lignes(joindre(ls)) == ls,
    decreases ls.len(),
{
    if ls.len() > 0 {
        let init = ls.drop_last();
        lemme_lignes_joindre(init);
        let j = joindre(init);
        if init.len() > 0 {
            assert(j.last() == '\n');
        }
        assert(joindre(ls) =~= j + (ls.last() + seq!['\n']));
        lemme_lignes_concat(j, ls.last() + seq!['\n']);
        lemme_lignes_une(ls.last());
        assert(ls =~= init + seq![ls.last()]);
    }
}

pub proof fn lemme_joindre_concat(a: Seq<Seq<char>>, b: Seq<Seq<char>>)
    ensures
        joindre(a + b) == joindre(a) + joindre(b),
    decreases b.len(),
{
    if b.len() == 0 {
        assert(a + b =~= a);
        assert(joindre(a) + joindre(b) =~= joindre(a));
    } else {
        assert((a + b).drop_last() =~= a + b.drop_last());
        lemme_joindre_concat(a, b.drop_last());
        assert(joindre(a + b) =~= joindre(a) + joindre(b));
    }
}

/// Every line of a text is free of newlines.
pub proof fn lemme_lignes_sans_saut(s: Seq<char>)
    ensures
        forall|i: int| 0 <= i < lignes(s).len() ==> sans_saut(#[trigger] lignes(s)[i]),
    decreases s.len(),
{
    if s.len() > 0 {
        lemme_premier_saut(s);
        let e = premier_saut(s);
        if e < s.len() {
            lemme_lignes_sans_saut(s.skip(e + 1));
            assert forall|i: int| 0 <= i < lignes(s).len() implies sans_saut(
                #[trigger] lignes(s)[i],
            ) by {
                if i > 0 {
                    assert(lignes(s)[i] == lignes(s.skip(e + 1))[i - 1]);
                }
            }
        } else {
            assert(s.take(e) =~= s);
        }
    }
}


/// Whether `aiguille` occurs in the characters of `s` from `debut` up to `fin`.
pub fn contient_entre(s: &Vec<char>, debut: usize, fin: usize, aiguille: &Vec<char>) -> (r: bool)
    requires
        debut <= fin <= s.len(),
    ensures
        r == contient(s@.subrange(debut as int, fin as int), aiguille@),
{
    let ghost h = s@.subrange(debut as int, fin as int);
    let m = aiguille.len();
    if m > fin - debut {
        return false;
    }
    let mut k: usize = 0;
    while k <= fin - debut - m
        invariant
            debut <= fin <= s.len(),
            m == aiguille.len(),
            m <= fin - debut,
            h == s@.subrange(debut as int, fin as int),
            forall|q: int| 0 <= q < k ==> #[trigger] h.subrange(q, q + m) != aiguille@,
        decreases fin - debut - m + 1 - k,
    {
        let mut j: usize = 0;
        while j < m && s[debut + k + j] == aiguille[j]
            invariant
                debut <= fin <= s.len(),
                m == aiguille.len(),
                k + m <= fin - debut,
                j <= m,
                forall|t: int| 0 <= t < j ==> s@[debut + k + t] == aiguille@[t],
            decreases m - j,
        {
            j = j + 1;
        }
        if j == m {
            assert(h.subrange(k as int, k + m) =~= aiguille@);
            return true;
        }
        assert(h.subrange(k as int, k + m)[j as int] != aiguille@[j as int]);
        k = k + 1;
    }
    assert forall|q: int| 0 <= q && q + m <= h.len() implies #[trigger] h.subrange(q, q + m)
        != aiguille@ by {
        assert(q < k);
    }
    false
}

/// The lines kept by a filter that drops those holding `motif`.
pub open spec fn sans_motif(motif: Seq<char>) -> spec_fn(Seq<char>) -> bool {
    |l: Seq<char>| !contient(l, motif)
}

/// The text written back with one newline after each of its lines, without
/// the lines that hold `motif`.
pub fn sans_lignes_marquees(contenu: &Vec<char>, motif: &Vec<char>) -> (r:
    String)
    ensures
        r@ == joindre(lignes(contenu@).filter(sans_motif(motif@))),
{
    let ghost p = sans_motif(motif@);
    let ghost c = contenu@;
    let n = contenu.len();
    let mut r = String::new();
    let mut pos: usize = 0;
    let ghost mut faites: Seq<Seq<char>> = seq![];
    proof {
        assert(c.skip(0) =~= c);
        assert(faites + lignes(c) =~= lignes(c));
        reveal(Seq::filter);
    }
    while pos < n
        invariant
            pos <= n == c.len(),
            c == contenu@,
            p == sans_motif(motif@),
            lignes(c) == faites + lignes(c.skip(pos as int)),
            r@ == joindre(faites.filter(p)),
        decreases n - pos,
    {
        let mut fin = pos;
        while fin < n && contenu[fin] != '\n'
            invariant
                pos <= fin <= n == c.len(),
                c == contenu@,
                forall|k: int| pos <= k < fin ==> c[k] != '\n',
            decreases n - fin,
        {
            fin = fin + 1;
        }
        let ghost ligne = c.subrange(pos as int, fin as int);
        proof {
            let reste = c.skip(pos as int);
            assert(reste =~= ligne + c.skip(fin as int));
            assert(sans_saut(ligne));
            lemme_premier_saut_concat(ligne, c.skip(fin as int));
            assert(premier_saut(c.skip(fin as int)) == 0);
            assert(reste.take(fin - pos) =~= ligne);
            if fin < n {
                assert(reste.skip(fin - pos + 1) =~= c.skip(fin + 1));
                assert(lignes(reste) == seq![ligne] + lignes(c.skip(fin + 1)));
            } else {
                assert(reste =~= ligne);
                assert(lignes(reste) == seq![ligne]);
            }
        }
        let garde = !contient_entre(contenu, pos, fin, motif);
        if garde {
            let ghost avant = r@;
            let mut k: usize = pos;
            while k < fin
                invariant
                    pos <= k <= fin <= n == c.len(),
                    c == contenu@,
                    r@ == avant + c.subrange(pos as int, k as int),
                decreases fin - k,
            {
                pousser(&mut r, contenu[k]);
                assert(c.subrange(pos as int, k + 1) =~= c.subrange(pos as int, k as int).push(
                    c[k as int],
                ));
                k = k + 1;
            }
            pousser(&mut r, '\n');
        }
        proof {
            let suite = faites.push(ligne);
            assert(suite.drop_last() =~= faites);
            faites.lemma_filter_push(ligne, p);
            if p(ligne) {
                assert(faites.filter(p).push(ligne).drop_last() =~= faites.filter(p));
            }
            if fin < n {
                assert(lignes(c) =~= suite + lignes(c.skip(fin + 1)));
            } else {
                assert(c.skip(n as int) =~= Seq::<char>::empty());
                assert(lignes(c) =~= suite + lignes(c.skip(n as int)));
            }
            faites = suite;
        }
        if fin < n {
            pos = fin + 1;
        } else {
            pos = n;
        }
    }
    proof {
        assert(c.skip(n as int) =~= Seq::<char>::empty());
        assert(lignes(c) =~= faites);
    }
    r
}


/// A character with the Unicode `White_Space` property.
pub open spec fn est_espace(c: char) -> bool {
    let u = c as u32;
    (0x9 <= u <= 0xd) || u == 0x20 || u == 0x85 || u == 0xa0 || u == 0x1680 || (0x2000 <= u
        <= 0x200a) || u == 0x2028 || u == 0x2029 || u == 0x202f || u == 0x205f || u == 0x3000
}

pub open spec fn sans_espaces_devant(s: Seq<char>) -> Seq<char>
    decreases s.len(),
{
    if s.len() > 0 && est_espace(s[0]) {
        sans_espaces_devant(s.drop_first())
    } else {
        s
    }
}

pub open spec fn sans_espaces_derriere(s: Seq<char>) -> Seq<char>
    decreases s.len(),
{
    if s.len() > 0 && est_espace(s.last()) {
        sans_espaces_derriere(s.drop_last())
    } else {
        s
    }
}

/// `s` without the white space at either end.
pub open spec fn rogne(s: Seq<char>) -> Seq<char> {
    sans_espaces_derriere(sans_espaces_devant(s))
}

/// Relies on `str::trim`: the leading and trailing characters with the
/// Unicode `White_Space` property are removed, nothing else.
#[verifier::external_body]
pub(crate) fn rogner<'a>(s: &'a str) -> (r: &'a str)
    ensures
        r@ == rogne(s@),
{
    s.trim()
}

/// A filter keeps every line when each one passes it.
pub proof fn lemme_filtre_tout(ls: Seq<Seq<char>>, p: spec_fn(Seq<char>) -> bool)
    requires
        forall|i: int| 0 <= i < ls.len() ==> p(#[trigger] ls[i]),
    ensures
        ls.filter(p) == ls,
    decreases ls.len(),
{
    reveal(Seq::filter);
    if ls.len() > 0 {
        let init = ls.drop_last();
        lemme_filtre_tout(init, p);
        init.lemma_filter_push(ls.last(), p);
        assert(init.push(ls.last()) =~= ls);
    } else {
        assert(ls.filter(p) =~= ls);
    }
}

/// A filter keeps no line when none passes it.
pub proof fn lemme_filtre_rien(ls: Seq<Seq<char>>, p: spec_fn(Seq<char>) -> bool)
    requires
        forall|i: int| 0 <= i < ls.len() ==> !p(#[trigger] ls[i]),
    ensures
        ls.filter(p) == Seq::<Seq<char>>::empty(),
    decreases ls.len(),
{
    reveal(Seq::filter);
    if ls.len() > 0 {
        let init = ls.drop_last();
        lemme_filtre_rien(init, p);
        init.lemma_filter_push(ls.last(), p);
        assert(init.push(ls.last()) =~= ls);
    } else {
        assert(ls.filter(p) =~= Seq::<Seq<char>>::empty());
    }
}

/// What a filter keeps of lines without newlines has none either.
pub proof fn lemme_filtre_sans_saut(ls: Seq<Seq<char>>, p: spec_fn(Seq<char>) -> bool)
    requires
        forall|i: int| 0 <= i < ls.len() ==> sans_saut(#[trigger] ls[i]),
    ensures
        forall|i: int| 0 <= i < ls.filter(p).len() ==> sans_saut(#[trigger] ls.filter(p)[i]),
    decreases ls.len(),
{
    reveal(Seq::filter);
    if ls.len() > 0 {
        let init = ls.drop_last();
        lemme_filtre_sans_saut(init, p);
        init.lemma_filter_push(ls.last(), p);
        assert(init.push(ls.last()) =~= ls);
        let f = ls.filter(p);
        assert forall|i: int| 0 <= i < f.len() implies sans_saut(#[trigger] f[i]) by {
            if i < init.filter(p).len() {
                assert(f[i] == init.filter(p)[i]);
            }
        }
    }
}

} // verus!

//! The suggestion engine: the known name closest to a name that was not found.

use vstd::prelude::*;
use crate::text::{chars_of, text_of};

verus! {

/// The least of three numbers.
pub open spec fn min3(a: nat, b: nat, c: nat) -> nat {
    if a <= b && a <= c {
        a
    } else if b <= c {
        b
    } else {
        c
    }
}

/// The edit distance between two texts: the least number of characters to
/// insert, delete or replace to turn one into the other.
pub open spec fn edit_distance(a: Seq<char>, b: Seq<char>) -> nat
    decreases a.len() + b.len(),
{
    if a.len() == 0 {
        b.len()
    } else if b.len() == 0 {
        a.len()
    } else {
        min3(
            edit_distance(a.drop_last(), b) + 1,
            edit_distance(a, b.drop_last()) + 1,
            edit_distance(a.drop_last(), b.drop_last()) + if a.last() == b.last() {
                0nat
            } else {
                1nat
            },
        )
    }
}

/// The distance is at most the length of the longer text.
pub proof fn lemma_distance_bound(a: Seq<char>, b: Seq<char>)
    ensures
        edit_distance(a, b) <= a.len() || edit_distance(a, b) <= b.len(),
        edit_distance(a, b) <= a.len() + b.len(),
    decreases a.len() + b.len(),
{
    if a.len() != 0 && b.len() != 0 {
        lemma_distance_bound(a.drop_last(), b);
        lemma_distance_bound(a, b.drop_last());
        lemma_distance_bound(a.drop_last(), b.drop_last());
    }
}

/// One more row of the table of distances: from the distances between
/// the first `i` characters of `a` and every prefix of `b`, those between
/// the first `i + 1` characters and every prefix.
fn next_row(a: &Vec<char>, b: &Vec<char>, i: usize, prev: &Vec<usize>) -> (cur: Vec<usize>)
    requires
        i < a.len(),
        prev.len() == b.len() + 1,
        forall|j: int| 0 <= j <= b.len() ==> prev[j] == edit_distance(a@.take(i as int), b@.take(j)),
    ensures
        cur.len() == b.len() + 1,
        forall|j: int| 0 <= j <= b.len() ==> cur[j] == edit_distance(a@.take(i + 1), b@.take(j)),
{
    let ghost ai = a@.take(i as int);
    let ghost an = a@.take(i + 1);
    assert(an.drop_last() =~= ai);
    let mut cur: Vec<usize> = Vec::new();
    cur.push(i + 1);
    assert(b@.take(0).len() == 0);
    let mut j: usize = 0;
    while j < b.len()
        invariant
            j <= b.len(),
            i < a.len(),
            cur.len() == j + 1,
            prev.len() == b.len() + 1,
            ai == a@.take(i as int),
            an == a@.take(i + 1),
            an.drop_last() == ai,
            an.last() == a[i as int],
            forall|k: int| 0 <= k <= b.len() ==> prev[k] == edit_distance(ai, b@.take(k)),
            forall|k: int| 0 <= k <= j ==> cur[k] == edit_distance(an, b@.take(k)),
        decreases b.len() - j,
    {
        let ghost bj = b@.take(j as int);
        let ghost bn = b@.take(j + 1);
        assert(bn.drop_last() =~= bj);
        assert(bn.last() == b[j as int]);
        proof {
            lemma_distance_bound(an, bn);
        }
        let up = prev[j + 1];
        let left = cur[j];
        let diag = prev[j];
        let least = if up < left {
            up
        } else {
            left
        };
        let same = a[i] == b[j];
        let cell = if same {
            if diag <= least {
                diag
            } else {
                least + 1
            }
        } else {
            if diag <= least {
                diag + 1
            } else {
                least + 1
            }
        };
        cur.push(cell);
        j += 1;
    }
    cur
}

/// The edit distance between two texts, by the classic table of distances
/// between prefixes, built row by row.
pub fn levenshtein_distance(s1: &str, s2: &str) -> (d: usize)
    ensures
        d == edit_distance(s1@, s2@),
{
    let a = chars_of(s1);
    let b = chars_of(s2);
    let mut row: Vec<usize> = Vec::new();
    row.push(0);
    let mut j: usize = 0;
    assert(a@.take(0).len() == 0);
    while j < b.len()
        invariant
            j <= b.len(),
            row.len() == j + 1,
            a@.take(0).len() == 0,
            forall|k: int| 0 <= k <= j ==> row[k] == edit_distance(a@.take(0), b@.take(k)),
        decreases b.len() - j,
    {
        j += 1;
        row.push(j);
    }
    let mut i: usize = 0;
    while i < a.len()
        invariant
            i <= a.len(),
            row.len() == b.len() + 1,
            forall|k: int| 0 <= k <= b.len() ==> row[k] == edit_distance(a@.take(i as int), b@.take(k)),
        decreases a.len() - i,
    {
        row = next_row(&a, &b, i, &row);
        i += 1;
    }
    assert(a@.take(a.len() as int) =~= a@);
    assert(b@.take(b.len() as int) =~= b@);
    row[b.len()]
}

/// The greatest distance at which a name is still suggested.
pub const MAX_DISTANCE: usize = 2;

/// Whether candidate `i` is the one to suggest: it is within the greatest
/// distance, no candidate is closer, and no earlier candidate is as close.
pub open spec fn is_suggestion(nome: Seq<char>, disponiveis: Seq<Seq<char>>, i: int) -> bool {
    &&& 0 <= i < disponiveis.len()
    &&& edit_distance(nome, disponiveis[i]) <= MAX_DISTANCE
    &&& forall|j: int|
        0 <= j < disponiveis.len() ==> edit_distance(nome, disponiveis[i]) <= edit_distance(
            nome,
            #[trigger] disponiveis[j],
        )
    &&& forall|j: int|
        0 <= j < i ==> edit_distance(nome, disponiveis[i]) < edit_distance(
            nome,
            #[trigger] disponiveis[j],
        )
}

/// The sentence that proposes a name.
pub open spec fn spec_suggestion_text(candidate: Seq<char>) -> Seq<char> {
    "Você quis dizer '"@ + candidate + "'?"@
}

/// Proposes the known name closest to `nome`, if one is within distance
/// two: among the closest, the first. Nothing is proposed where every
/// known name is further away.
pub fn sugerir_similar(nome: &str, disponiveis: &[String]) -> (r: Option<String>)
    ensures
        match r {
            Some(s) => exists|i: int|
                is_suggestion(nome@, disponiveis.deep_view(), i) && s@ == spec_suggestion_text(
                    #[trigger] disponiveis.deep_view()[i],
                ),
            None => forall|j: int|
                0 <= j < disponiveis.len() ==> edit_distance(
                    nome@,
                    #[trigger] disponiveis.deep_view()[j],
                ) > MAX_DISTANCE,
        },
{
    let ghost cands = disponiveis.deep_view();
    let mut best: Option<(usize, usize)> = None;
    let mut k: usize = 0;
    while k < disponiveis.len()
        invariant
            k <= disponiveis.len(),
            cands == disponiveis.deep_view(),
            match best {
                Some((i, d)) => i < k && d == edit_distance(nome@, cands[i as int]) && d
                    <= MAX_DISTANCE && (forall|j: int|
                    0 <= j < k ==> d <= edit_distance(nome@, #[trigger] cands[j])) && (forall|j: int|
                    0 <= j < i ==> d < edit_distance(nome@, #[trigger] cands[j])),
                None => forall|j: int|
                    0 <= j < k ==> edit_distance(nome@, #[trigger] cands[j]) > MAX_DISTANCE,
            },
        decreases disponiveis.len() - k,
    {
        let d = levenshtein_distance(nome, disponiveis[k].as_str());
        assert(cands[k as int] == disponiveis[k as int]@);
        if d <= MAX_DISTANCE {
            match best {
                None => {
                    best = Some((k, d));
                },
                Some((_, least)) => {
                    if d < least {
                        best = Some((k, d));
                    }
                },
            }
        }
        k += 1;
    }
    match best {
        Some((i, _)) => {
            let mut s = text_of("Você quis dizer '");
            s.append(disponiveis[i].as_str());
            s.append("'?");
            assert(cands[i as int] == disponiveis[i as int]@);
            assert(is_suggestion(nome@, cands, i as int));
            Some(s)
        },
        None => None,
    }
}

} // verus!

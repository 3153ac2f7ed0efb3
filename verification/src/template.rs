//! Templates: a text in which tokens stand for values.
use vstd::prelude::*;
use crate::text::{matches_at, occurs_at, append};

verus! {

/// The view of a table of tokens and their values.
pub open spec fn table_view(table: Seq<(Vec<char>, Vec<char>)>) -> Seq<(Seq<char>, Seq<char>)> {
    table.map_values(|e: (Vec<char>, Vec<char>)| (e.0@, e.1@))
}

/// The first entry of `table`, from entry `k` on, whose token stands in `t` at
/// position `i`. An empty token stands nowhere.
pub open spec fn token_at(
    t: Seq<char>,
    table: Seq<(Seq<char>, Seq<char>)>,
    i: int,
    k: int,
) -> Option<int>
    decreases table.len() - k,
{
    if k < 0 || k >= table.len() {
        None
    } else if table[k].0.len() > 0 && matches_at(t, table[k].0, i) {
        Some(k)
    } else {
        token_at(t, table, i, k + 1)
    }
}

/// What `token_at` gives is an entry of the table, from `k` on, whose token
/// is not empty and stands at `i`; no earlier entry from `k` on is such a one.
pub proof fn lemma_token_at(t: Seq<char>, table: Seq<(Seq<char>, Seq<char>)>, i: int, k: int)
    ensures
        match token_at(t, table, i, k) {
            Some(e) => k <= e < table.len() && table[e].0.len() > 0 && matches_at(
                t,
                table[e].0,
                i,
            ) && forall|j: int| k <= j < e ==> !(table[j].0.len() > 0 && matches_at(t, table[j].0, i)),
            None => forall|j: int|
                0 <= k <= j < table.len() ==> !(table[j].0.len() > 0 && matches_at(
                    t,
                    table[j].0,
                    i,
                )),
        },
    decreases table.len() - k,
{
    if k < 0 || k >= table.len() {
    } else if table[k].0.len() > 0 && matches_at(t, table[k].0, i) {
    } else {
        lemma_token_at(t, table, i, k + 1);
    }
}

/// `t` from position `i` on, read once from left to right: where a token of
/// the table stands, its value is written and the reading goes on behind the
/// token; any other character is written as it is. What was written is not
/// read again.
pub open spec fn substitute_from(
    t: Seq<char>,
    table: Seq<(Seq<char>, Seq<char>)>,
    i: int,
) -> Seq<char>
    decreases t.len() - i,
{
    if i < 0 || i >= t.len() {
        Seq::empty()
    } else {
        match token_at(t, table, i, 0) {
            Some(k) => {
                proof {
                    lemma_token_at(t, table, i, 0);
                }
                table[k].1 + substitute_from(t, table, i + table[k].0.len())
            },
            None => seq![t[i]] + substitute_from(t, table, i + 1),
        }
    }
}

/// `t` with each token of the table replaced by its value, in one pass.
pub open spec fn substitute(t: Seq<char>, table: Seq<(Seq<char>, Seq<char>)>) -> Seq<char> {
    substitute_from(t, table, 0)
}

/// The first entry of `table` whose token stands in `t` at position `i`.
pub fn find_token(t: &Vec<char>, table: &Vec<(Vec<char>, Vec<char>)>, i: usize) -> (r: Option<
    usize,
>)
    ensures
        match r {
            Some(k) => token_at(t@, table_view(table@), i as int, 0) == Some(k as int) && k
                < table.len(),
            None => token_at(t@, table_view(table@), i as int, 0) is None,
        },
{
    let mut k: usize = 0;
    while k < table.len()
        invariant
            k <= table.len(),
            token_at(t@, table_view(table@), i as int, 0) == token_at(
                t@,
                table_view(table@),
                i as int,
                k as int,
            ),
        decreases table.len() - k,
    {
        if table[k].0.len() > 0 && occurs_at(t, &table[k].0, i) {
            return Some(k);
        }
        k += 1;
    }
    None
}

/// `t` with each token of the table replaced by its value, in one pass.
pub fn substituted(t: &Vec<char>, table: &Vec<(Vec<char>, Vec<char>)>) -> (out: Vec<char>)
    ensures
        out@ == substitute(t@, table_view(table@)),
{
    let mut out: Vec<char> = Vec::new();
    let mut i: usize = 0;
    while i < t.len()
        invariant
            i <= t.len(),
            substitute(t@, table_view(table@)) == out@ + substitute_from(
                t@,
                table_view(table@),
                i as int,
            ),
        decreases t.len() - i,
    {
        let ghost before = out@;
        match find_token(t, table, i) {
            Some(k) => {
                proof {
                    lemma_token_at(t@, table_view(table@), i as int, 0);
                }
                append(&mut out, &table[k].1);
                i += table[k].0.len();
            },
            None => {
                out.push(t[i]);
                i += 1;
            },
        }
        assert(substitute(t@, table_view(table@)) =~= out@ + substitute_from(
            t@,
            table_view(table@),
            i as int,
        ));
    }
    out
}

} // verus!

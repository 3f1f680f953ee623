//! Lexicographic order on handles, and the sorted participant listing.

use vstd::prelude::*;

use crate::domain::Participant;
use crate::room::{ids, unique};

verus! {

/// `a` comes strictly before `b` in lexicographic order of code points
/// (the order of `str`'s `Ord`).
pub open spec fn lex_lt(a: Seq<char>, b: Seq<char>) -> bool
    decreases a.len(),
{
    if a.len() == 0 {
        b.len() > 0
    } else if b.len() == 0 {
        false
    } else if a[0] != b[0] {
        (a[0] as u32) < (b[0] as u32)
    } else {
        lex_lt(a.skip(1), b.skip(1))
    }
}

/// Handles strictly increase along `s`.
pub open spec fn sorted_by_handle(s: Seq<Participant>) -> bool {
    forall|i: int, j: int| 0 <= i < j < s.len() ==> lex_lt(s[i].id@, s[j].id@)
}

pub proof fn lemma_lex_irreflexive(a: Seq<char>)
    ensures
        !lex_lt(a, a),
    decreases a.len(),
{
    if a.len() > 0 {
        lemma_lex_irreflexive(a.skip(1));
    }
}

pub proof fn lemma_lex_total(a: Seq<char>, b: Seq<char>)
    requires
        a != b,
    ensures
        lex_lt(a, b) || lex_lt(b, a),
    decreases a.len(),
{
    if a.len() == 0 {
        assert(b.len() > 0) by {
            if b.len() == 0 {
                assert(a =~= b);
            }
        }
    } else if b.len() > 0 {
        if a[0] == b[0] {
            if a.skip(1) == b.skip(1) {
                assert(a.skip(1).len() == a.len() - 1);
                assert(b.skip(1).len() == b.len() - 1);
                assert(a.len() == b.len());
                assert(a =~= b) by {
                    assert forall|i: int| 0 <= i < a.len() implies a[i] == b[i] by {
                        if i > 0 {
                            assert(a[i] == a.skip(1)[i - 1]);
                            assert(b[i] == b.skip(1)[i - 1]);
                        }
                    }
                    assert(a.len() == a.skip(1).len() + 1);
                }
            }
            lemma_lex_total(a.skip(1), b.skip(1));
        } else {
            vstd::utf8::char_u32_cast(a[0], a[0] as u32);
            vstd::utf8::char_u32_cast(b[0], b[0] as u32);
        }
    }
}

pub proof fn lemma_lex_transitive(a: Seq<char>, b: Seq<char>, c: Seq<char>)
    requires
        lex_lt(a, b),
        lex_lt(b, c),
    ensures
        lex_lt(a, c),
    decreases a.len(),
{
    if a.len() > 0 && b.len() > 0 && c.len() > 0 && a[0] == b[0] && b[0] == c[0] {
        lemma_lex_transitive(a.skip(1), b.skip(1), c.skip(1));
    }
}

proof fn lemma_insert_sorted(before: Seq<Participant>, j: int, x: Participant)
    requires
        0 <= j <= before.len(),
        sorted_by_handle(before),
        forall|i: int| 0 <= i < j ==> lex_lt(#[trigger] before[i].id@, x.id@),
        forall|i: int| j <= i < before.len() ==> lex_lt(x.id@, #[trigger] before[i].id@),
    ensures
        sorted_by_handle(before.insert(j, x)),
{
    before.insert_ensures(j, x);
    let after = before.insert(j, x);
    assert forall|a: int, b: int| 0 <= a < b < after.len() implies lex_lt(
        after[a].id@,
        after[b].id@,
    ) by {
        if b < j {
        } else if b == j {
        } else if a < j {
            assert(after[b] == before[b - 1]);
        } else if a == j {
            assert(after[b] == before[b - 1]);
        } else {
            assert(after[a] == before[a - 1]);
            assert(after[b] == before[b - 1]);
        }
    }
}

proof fn lemma_insert_contains(before: Seq<Participant>, j: int, x: Participant, t: Seq<Participant>)
    requires
        0 <= j <= before.len(),
        forall|p: Participant| before.contains(p) <==> t.contains(p),
    ensures
        forall|p: Participant| before.insert(j, x).contains(p) <==> t.push(x).contains(p),
{
    before.insert_ensures(j, x);
    let after = before.insert(j, x);
    assert forall|p: Participant| after.contains(p) <==> t.push(x).contains(p) by {
        if after.contains(p) {
            let i = choose|i: int| 0 <= i < after.len() && after[i] == p;
            if i < j {
                assert(before[i] == p);
                assert(before.contains(p));
                let m = choose|m: int| 0 <= m < t.len() && t[m] == p;
                assert(t.push(x)[m] == p);
            } else if i > j {
                assert(before[i - 1] == p);
                assert(before.contains(p));
                let m = choose|m: int| 0 <= m < t.len() && t[m] == p;
                assert(t.push(x)[m] == p);
            } else {
                assert(t.push(x)[t.len() as int] == p);
            }
        }
        if t.push(x).contains(p) {
            let i = choose|i: int| 0 <= i < t.push(x).len() && t.push(x)[i] == p;
            if i < t.len() {
                assert(t[i] == p);
                assert(t.contains(p));
                let m = choose|m: int| 0 <= m < before.len() && before[m] == p;
                if m < j {
                    assert(after[m] == p);
                } else {
                    assert(after[m + 1] == p);
                }
            } else {
                assert(after[j] == p);
            }
        }
    }
}

/// Compares two strings in lexicographic order of code points.
pub fn lex_less(a: &str, b: &str) -> (r: bool)
    ensures
        r == lex_lt(a@, b@),
{
    let na = a.unicode_len();
    let nb = b.unicode_len();
    let mut i: usize = 0;
    assert(a@.skip(0) =~= a@);
    assert(b@.skip(0) =~= b@);
    while i < na && i < nb
        invariant
            na == a@.len(),
            nb == b@.len(),
            i <= na,
            i <= nb,
            lex_lt(a@, b@) == lex_lt(a@.skip(i as int), b@.skip(i as int)),
        decreases na - i,
    {
        let ca = a.get_char(i);
        let cb = b.get_char(i);
        if ca != cb {
            proof {
                assert(a@.skip(i as int)[0] == ca);
                assert(b@.skip(i as int)[0] == cb);
            }
            return (ca as u32) < (cb as u32);
        }
        proof {
            assert(a@.skip(i as int)[0] == ca);
            assert(b@.skip(i as int)[0] == cb);
            assert(a@.skip(i as int).skip(1) =~= a@.skip(i as int + 1));
            assert(b@.skip(i as int).skip(1) =~= b@.skip(i as int + 1));
        }
        i = i + 1;
    }
    i < nb
}

/// The participants of `ps`, sorted by handle.
pub fn sort_by_handle(ps: &Vec<Participant>) -> (r: Vec<Participant>)
    requires
        unique(ids(ps@)),
    ensures
        r@.len() == ps@.len(),
        sorted_by_handle(r@),
        forall|p: Participant| r@.contains(p) <==> ps@.contains(p),
{
    let mut out: Vec<Participant> = Vec::new();
    let mut k: usize = 0;
    while k < ps.len()
        invariant
            unique(ids(ps@)),
            k <= ps@.len(),
            out@.len() == k,
            sorted_by_handle(out@),
            forall|p: Participant| out@.contains(p) <==> ps@.take(k as int).contains(p),
        decreases ps@.len() - k,
    {
        let x = ps[k].clone();
        proof {
            // x's handle differs from every handle already placed
            assert forall|i: int| 0 <= i < out@.len() implies out@[i].id@ != x.id@ by {
                assert(out@.contains(out@[i]));
                let t = ps@.take(k as int);
                let j = choose|j: int| 0 <= j < t.len() && t[j] == out@[i];
                assert(ids(ps@)[j] == out@[i].id@);
                assert(ids(ps@)[k as int] == x.id@);
            }
        }
        let mut j: usize = 0;
        while j < out.len() && lex_less(out[j].id.as_str(), x.id.as_str())
            invariant
                j <= out@.len(),
                forall|i: int| 0 <= i < j ==> lex_lt(#[trigger] out@[i].id@, x.id@),
            decreases out@.len() - j,
        {
            j = j + 1;
        }
        proof {
            if j < out@.len() {
                assert(!lex_lt(out@[j as int].id@, x.id@));
                lemma_lex_total(out@[j as int].id@, x.id@);
                assert forall|i: int| j <= i < out@.len() implies lex_lt(x.id@, out@[i].id@) by {
                    if i > j {
                        lemma_lex_transitive(x.id@, out@[j as int].id@, out@[i].id@);
                    }
                }
            }
        }
        let ghost before = out@;
        out.insert(j, x);
        proof {
            lemma_insert_sorted(before, j as int, x);
            lemma_insert_contains(before, j as int, x, ps@.take(k as int));
            assert(ps@.take(k as int + 1) =~= ps@.take(k as int).push(x));
        }
        k = k + 1;
    }
    assert(ps@.take(ps@.len() as int) =~= ps@);
    out
}

} // verus!

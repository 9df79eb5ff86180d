//! The ids of the variables and lists that a test sets before its run: the
//! id that the project gives the name, or else a new id `id<n>` that no
//! variable (or list) of the project has, with a counter that goes on from
//! one new id to the next.
use vstd::prelude::*;

use crate::spec::text::{
    Text, decimal_digits, lemma_digits_value_of_decimal, string_push, u64_to_text,
};

verus! {

/// The new id with the number `n`: `id` followed by `n` in decimal.
pub open spec fn id_text(n: nat) -> Seq<char> {
    seq!['i', 'd'] + decimal_digits(n)
}

/// The characters of each text.
pub open spec fn texts_view(v: Seq<Text>) -> Seq<Seq<char>> {
    v.map_values(|t: Text| t@)
}

/// The names and ids of the project, as characters.
pub open spec fn pairs_view(v: Seq<(Text, Text)>) -> Seq<(Seq<char>, Seq<char>)> {
    v.map_values(|p: (Text, Text)| (p.0@, p.1@))
}

/// The ids of the project.
pub open spec fn project_ids(p: Seq<(Seq<char>, Seq<char>)>) -> Seq<Seq<char>> {
    p.map_values(|e: (Seq<char>, Seq<char>)| e.1)
}

/// The id of the first entry at or after `i` with the name `name`.
pub open spec fn lookup_from(p: Seq<(Seq<char>, Seq<char>)>, name: Seq<char>, i: int) -> Option<Seq<char>>
    decreases p.len() - i,
{
    if i < 0 || i >= p.len() {
        None
    } else if p[i].0 == name {
        Some(p[i].1)
    } else {
        lookup_from(p, name, i + 1)
    }
}

/// The id that the project gives `name`: that of its first entry.
pub open spec fn lookup_id(p: Seq<(Seq<char>, Seq<char>)>, name: Seq<char>) -> Option<Seq<char>> {
    lookup_from(p, name, 0)
}

/// `n` is the first number after `c` whose id is not among `taken`.
pub open spec fn is_first_free(c: nat, taken: Seq<Seq<char>>, n: nat) -> bool {
    &&& c < n
    &&& !taken.contains(id_text(n))
    &&& forall|m: nat| c < m < n ==> taken.contains(#[trigger] id_text(m))
}

/// The first number after `c` whose id is not among `taken`.
pub open spec fn first_free(c: nat, taken: Seq<Seq<char>>) -> nat {
    choose|n: nat| is_first_free(c, taken, n)
}

/// The ids given to `names` in order, and the counter afterwards, when the
/// counter starts at `c`: a name of the project keeps its id; any other name
/// gets the first free id after the counter, and the counter moves to it.
pub open spec fn assigned(names: Seq<Seq<char>>, p: Seq<(Seq<char>, Seq<char>)>, c: nat) -> (Seq<Seq<char>>, nat)
    decreases names.len(),
{
    if names.len() == 0 {
        (Seq::empty(), c)
    } else {
        let (prev, c1) = assigned(names.drop_last(), p, c);
        match lookup_id(p, names.last()) {
            Some(id) => (prev.push(id), c1),
            None => {
                let n = first_free(c1, project_ids(p));
                (prev.push(id_text(n)), n)
            },
        }
    }
}

/// Different numbers give different ids.
pub proof fn lemma_id_text_injective(a: nat, b: nat)
    ensures
        id_text(a) == id_text(b) ==> a == b,
{
    if id_text(a) == id_text(b) {
        assert(decimal_digits(a) =~= id_text(a).subrange(2, id_text(a).len() as int));
        assert(decimal_digits(b) =~= id_text(b).subrange(2, id_text(b).len() as int));
        lemma_digits_value_of_decimal(a);
        lemma_digits_value_of_decimal(b);
    }
}

/// There is at most one first free number.
pub proof fn lemma_first_free_unique(c: nat, taken: Seq<Seq<char>>, n: nat)
    requires
        is_first_free(c, taken, n),
    ensures
        first_free(c, taken) == n,
{
    let k = first_free(c, taken);
    assert(is_first_free(c, taken, k));
    if k < n {
        assert(taken.contains(id_text(k)));
    } else if n < k {
        assert(taken.contains(id_text(n)));
    }
}

proof fn first_free_search(c: nat, taken: Seq<Seq<char>>, n: nat, seen: Set<Seq<char>>) -> (r: nat)
    requires
        c < n <= c + taken.len() + 1,
        forall|m: nat| c < m < n ==> taken.contains(#[trigger] id_text(m)),
        seen.finite(),
        seen.len() == n - c - 1,
        seen.subset_of(taken.to_set()),
        forall|s: Seq<char>| seen.contains(s) ==> exists|m: nat| c < m < n && s == id_text(m),
    ensures
        is_first_free(c, taken, r),
        r <= c + taken.len() + 1,
    decreases c + taken.len() + 1 - n,
{
    if !taken.contains(id_text(n)) {
        n
    } else {
        if seen.contains(id_text(n)) {
            let m = choose|m: nat| c < m < n && id_text(n) == id_text(m);
            lemma_id_text_injective(m, n);
        }
        let seen2 = seen.insert(id_text(n));
        assert(seen2.subset_of(taken.to_set()));
        vstd::seq_lib::seq_to_set_is_finite(taken);
        taken.lemma_cardinality_of_set();
        vstd::set_lib::lemma_len_subset(seen2, taken.to_set());
        assert forall|s: Seq<char>| seen2.contains(s) implies exists|m: nat| c < m < n + 1 && s == id_text(m) by {
            if s == id_text(n) {
                assert(c < n < n + 1);
            } else {
                let m = choose|m: nat| c < m < n && s == id_text(m);
                assert(c < m < n + 1);
            }
        }
        first_free_search(c, taken, n + 1, seen2)
    }
}

/// After any number there is a first one whose id is not taken, at most
/// one more than the number of taken ids away.
pub proof fn lemma_first_free_exists(c: nat, taken: Seq<Seq<char>>)
    ensures
        is_first_free(c, taken, first_free(c, taken)),
        first_free(c, taken) <= c + taken.len() + 1,
{
    let n = first_free_search(c, taken, c + 1, Set::empty());
    lemma_first_free_unique(c, taken, n);
}

/// A name of the project keeps the project's id; every other name gets an
/// id `id<n>` with `n` after the counter, that no entry of the project has,
/// and no two of those names get the same id.
pub proof fn lemma_assigned_ids(names: Seq<Seq<char>>, p: Seq<(Seq<char>, Seq<char>)>, c: nat)
    ensures
        assigned(names, p, c).0.len() == names.len(),
        assigned(names, p, c).1 >= c,
        forall|k: int| 0 <= k < names.len() ==> match lookup_id(p, #[trigger] names[k]) {
            Some(id) => assigned(names, p, c).0[k] == id,
            None => {
                &&& !project_ids(p).contains(assigned(names, p, c).0[k])
                &&& exists|n: nat| c < n <= assigned(names, p, c).1 && assigned(names, p, c).0[k] == id_text(n)
            },
        },
        forall|k1: int, k2: int|
            0 <= k1 < k2 < names.len() && lookup_id(p, #[trigger] names[k1]) is None && lookup_id(p, #[trigger] names[k2]) is None
                ==> assigned(names, p, c).0[k1] != assigned(names, p, c).0[k2],
    decreases names.len(),
{
    if names.len() > 0 {
        let init = names.drop_last();
        let last = names.len() - 1;
        lemma_assigned_ids(init, p, c);
        let (prev, c1) = assigned(init, p, c);
        let r = assigned(names, p, c);
        assert forall|k: int| 0 <= k < last implies names[k] == #[trigger] init[k] && r.0[k] == prev[k] by {}
        let fresh_last = lookup_id(p, names[last]) is None;
        let n = first_free(c1, project_ids(p));
        if fresh_last {
            lemma_first_free_exists(c1, project_ids(p));
            assert(r.0[last] == id_text(n) && r.1 == n && c1 < n);
        } else {
            assert(r.0[last] == lookup_id(p, names[last])->Some_0 && r.1 == c1);
        }
        assert forall|k: int| 0 <= k < names.len() implies match lookup_id(p, #[trigger] names[k]) {
            Some(id) => r.0[k] == id,
            None => {
                &&& !project_ids(p).contains(r.0[k])
                &&& exists|m: nat| c < m <= r.1 && r.0[k] == id_text(m)
            },
        } by {
            if k < last {
                assert(init[k] == names[k]);
                if lookup_id(p, names[k]) is None {
                    let m = choose|m: nat| c < m <= c1 && prev[k] == id_text(m);
                    assert(c < m <= r.1 && r.0[k] == id_text(m));
                }
            } else if fresh_last {
                assert(c < n <= r.1 && r.0[k] == id_text(n));
            }
        }
        assert forall|k1: int, k2: int|
            0 <= k1 < k2 < names.len() && lookup_id(p, #[trigger] names[k1]) is None && lookup_id(p, #[trigger] names[k2]) is None
                implies r.0[k1] != r.0[k2] by {
            assert(init[k1] == names[k1]);
            if k2 < last {
                assert(init[k2] == names[k2]);
            } else {
                let m = choose|m: nat| c < m <= c1 && prev[k1] == id_text(m);
                lemma_id_text_injective(m, n);
            }
        }
    }
}

/// The new id with the number `n`.
fn make_id(n: u64) -> (r: Text)
    ensures
        r@ == id_text(n as nat),
{
    let digits = u64_to_text(n);
    let mut s = String::new();
    string_push(&mut s, 'i');
    string_push(&mut s, 'd');
    s.append(digits.0.as_str());
    Text(s)
}

/// Whether an entry of the project has the id `t`.
fn id_taken(project: &Vec<(Text, Text)>, t: &Text) -> (r: bool)
    ensures
        r == project_ids(pairs_view(project@)).contains(t@),
{
    let ghost ids = project_ids(pairs_view(project@));
    let mut i: usize = 0;
    while i < project.len()
        invariant
            i <= project@.len(),
            ids == project_ids(pairs_view(project@)),
            forall|k: int| 0 <= k < i ==> ids[k] != t@,
        decreases project@.len() - i,
    {
        if project[i].1.text_eq(t) {
            assert(ids[i as int] == t@);
            return true;
        }
        i = i + 1;
    }
    assert(!ids.contains(t@)) by {
        if ids.contains(t@) {
            let k = choose|k: int| 0 <= k < ids.len() && ids[k] == t@;
            assert(ids[k] != t@);
        }
    }
    false
}

/// The id that the project gives `name`.
fn lookup_exec(project: &Vec<(Text, Text)>, name: &Text) -> (r: Option<Text>)
    ensures
        match r {
            Some(t) => lookup_id(pairs_view(project@), name@) == Some(t@),
            None => lookup_id(pairs_view(project@), name@) is None,
        },
{
    let ghost p = pairs_view(project@);
    let mut i: usize = 0;
    while i < project.len()
        invariant
            i <= project@.len(),
            p == pairs_view(project@),
            lookup_from(p, name@, 0) == lookup_from(p, name@, i as int),
        decreases project@.len() - i,
    {
        if project[i].0.text_eq(name) {
            return Some(project[i].1.clone());
        }
        i = i + 1;
    }
    None
}

/// The first free number after `c`, and its id.
fn first_free_exec(c: u64, project: &Vec<(Text, Text)>) -> (r: (Text, u64))
    requires
        c + project@.len() + 1 <= u64::MAX,
    ensures
        is_first_free(c as nat, project_ids(pairs_view(project@)), r.1 as nat),
        r.0@ == id_text(r.1 as nat),
        r.1 <= c + project@.len() + 1,
{
    let ghost taken = project_ids(pairs_view(project@));
    let ghost mut seen: Set<Seq<char>> = Set::empty();
    let mut n: u64 = c + 1;
    loop
        invariant
            c < n <= c + project@.len() + 1,
            c + project@.len() + 1 <= u64::MAX,
            taken == project_ids(pairs_view(project@)),
            taken.len() == project@.len(),
            forall|m: nat| c < m < n ==> taken.contains(#[trigger] id_text(m)),
            seen.finite(),
            seen.len() == n - c - 1,
            seen.subset_of(taken.to_set()),
            forall|s: Seq<char>| seen.contains(s) ==> exists|m: nat| c < m < n && s == id_text(m),
        decreases c + project@.len() + 1 - n,
    {
        let t = make_id(n);
        if !id_taken(project, &t) {
            return (t, n);
        }
        proof {
            if seen.contains(id_text(n as nat)) {
                let m = choose|m: nat| c < m < n && id_text(n as nat) == id_text(m);
                lemma_id_text_injective(m, n as nat);
            }
            let seen2 = seen.insert(id_text(n as nat));
            assert(seen2.subset_of(taken.to_set()));
            vstd::seq_lib::seq_to_set_is_finite(taken);
            taken.lemma_cardinality_of_set();
            vstd::set_lib::lemma_len_subset(seen2, taken.to_set());
            assert forall|s: Seq<char>| seen2.contains(s) implies exists|m: nat| c < m < n + 1 && s == id_text(m) by {
                if s == id_text(n as nat) {
                    assert(c < n < n + 1);
                } else {
                    let m = choose|m: nat| c < m < n && s == id_text(m);
                    assert(c < m < n + 1);
                }
            }
            seen = seen2;
        }
        n = n + 1;
    }
}

/// The ids of `names`, in order: a name that the project has keeps its id
/// (that of its first entry), any other name gets the first id `id<n>` after
/// the counter that no entry of the project has, and the counter moves to
/// that `n`.
pub fn assign_ids(names: &Vec<Text>, project: &Vec<(Text, Text)>, counter: &mut u64) -> (r: Vec<Text>)
    requires
        *old(counter) + names@.len() * (project@.len() + 1) <= u64::MAX,
    ensures
        (texts_view(r@), *final(counter) as nat) == assigned(texts_view(names@), pairs_view(project@), *old(counter) as nat),
{
    let ghost c0 = *old(counter) as nat;
    let ghost p = pairs_view(project@);
    let ghost nv = texts_view(names@);
    let mut ids: Vec<Text> = Vec::new();
    let mut i: usize = 0;
    while i < names.len()
        invariant
            i <= names@.len(),
            p == pairs_view(project@),
            nv == texts_view(names@),
            (texts_view(ids@), *counter as nat) == assigned(nv.take(i as int), p, c0),
            *counter <= c0 + i * (project@.len() + 1),
            c0 + names@.len() * (project@.len() + 1) <= u64::MAX,
        decreases names@.len() - i,
    {
        assert(nv.take(i as int + 1).drop_last() =~= nv.take(i as int));
        assert(nv.take(i as int + 1).last() == names@[i as int]@);
        proof {
            assert((i + 1) * (project@.len() + 1) == i * (project@.len() + 1) + project@.len() + 1) by (nonlinear_arith);
            assert(i + 1 <= names@.len());
            assert((i + 1) * (project@.len() + 1) <= names@.len() * (project@.len() + 1)) by (nonlinear_arith)
                requires i + 1 <= names@.len();
        }
        match lookup_exec(project, &names[i]) {
            Some(id) => {
                let ghost before = texts_view(ids@);
                ids.push(id);
                assert(texts_view(ids@) =~= before.push(id@));
            },
            None => {
                let ghost before = texts_view(ids@);
                let (t, n) = first_free_exec(*counter, project);
                proof {
                    lemma_first_free_unique(*counter as nat, project_ids(p), n as nat);
                }
                ids.push(t);
                *counter = n;
                assert(texts_view(ids@) =~= before.push(t@));
            },
        }
        i = i + 1;
    }
    assert(nv.take(names@.len() as int) =~= nv);
    ids
}

} // verus!

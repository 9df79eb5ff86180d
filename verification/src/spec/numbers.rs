//! Finding numbers written in a text.
use vstd::prelude::*;

use crate::spec::text::{
    Text, all_digits, chars_of, digits_value, is_digit, parse_i64, parse_i64_spec, string_from_range,
    string_push,
};

verus! {

/// A number found in a text: an integer, or a text that is a number if it
/// reads as a floating-point number (`,` already replaced by `.`).
#[derive(Debug, PartialEq, Eq, PartialOrd, Ord, Hash)]
pub enum NumberCandidate {
    Int(i64),
    FloatText(Text),
}

/// Model of a found number.
pub enum CandidateV {
    Int(i64),
    FloatText(Seq<char>),
}

impl View for NumberCandidate {
    type V = CandidateV;

    open spec fn view(&self) -> CandidateV {
        match self {
            NumberCandidate::Int(i) => CandidateV::Int(*i),
            NumberCandidate::FloatText(t) => CandidateV::FloatText(t@),
        }
    }
}

/// The characters that may be part of a written number.
pub open spec fn is_number_char(c: char) -> bool {
    ('0' <= c && c <= '9') || c == '.' || c == ',' || c == '-' || c == '+'
}

/// The characters removed from the end of a written number.
pub open spec fn is_trailing_sign(c: char) -> bool {
    c == '+' || c == '-' || c == ',' || c == '.'
}

/// The text without its trailing signs (`trim_end_matches(['+', '-', ',', '.'])`).
pub open spec fn strip_trailing(t: Seq<char>) -> Seq<char>
    decreases t.len(),
{
    if t.len() > 0 && is_trailing_sign(t.last()) {
        strip_trailing(t.drop_last())
    } else {
        t
    }
}

/// Whether every character is `0` (`trim_end_matches('0').is_empty()`).
pub open spec fn all_zeros(t: Seq<char>) -> bool {
    forall|i: int| 0 <= i < t.len() ==> t[i] == '0'
}

/// The position of the first `.` or `,`.
pub open spec fn first_sep(t: Seq<char>) -> Option<int> {
    if exists|i: int| 0 <= i < t.len() && (t[i] == '.' || t[i] == ',') {
        Some(
            choose|i: int|
                0 <= i < t.len() && (t[i] == '.' || t[i] == ',') && forall|j: int|
                    0 <= j < i ==> !(t[j] == '.' || t[j] == ','),
        )
    } else {
        None
    }
}

/// Every `,` replaced by `.`.
pub open spec fn commas_to_dots(t: Seq<char>) -> Seq<char> {
    Seq::new(t.len(), |i: int| if t[i] == ',' { '.' } else { t[i] })
}

/// What a written number reads as: a decimal point followed only by zeros
/// makes the part before it an integer (or nothing if that is no integer);
/// otherwise an integer if the whole reads as one, else a candidate for a
/// floating-point number.
pub open spec fn to_number_spec(t: Seq<char>) -> Option<CandidateV> {
    let sep = first_sep(t);
    if sep is Some && all_zeros(t.skip(sep->0 + 1)) {
        match parse_i64_spec(t.take(sep->0)) {
            Some(i) => Some(CandidateV::Int(i)),
            None => None,
        }
    } else {
        match parse_i64_spec(t) {
            Some(i) => Some(CandidateV::Int(i)),
            None => Some(CandidateV::FloatText(commas_to_dots(t))),
        }
    }
}

/// The numbers of one run of number characters.
pub open spec fn run_candidates(run: Seq<char>) -> Seq<CandidateV> {
    let t = strip_trailing(run);
    if t.len() == 0 {
        Seq::empty()
    } else {
        match to_number_spec(t) {
            Some(c) => seq![c],
            None => Seq::empty(),
        }
    }
}

/// The numbers in `s`, where `cur` is the run of number characters just
/// before `s`.
pub open spec fn candidates_from(s: Seq<char>, cur: Seq<char>) -> Seq<CandidateV>
    decreases s.len(),
{
    if s.len() == 0 {
        run_candidates(cur)
    } else if is_number_char(s[0]) {
        candidates_from(s.drop_first(), cur.push(s[0]))
    } else {
        run_candidates(cur) + candidates_from(s.drop_first(), Seq::empty())
    }
}

/// The numbers written in a text: the maximal runs of digits, `.`, `,`,
/// `-` and `+`, each without trailing signs, read by `to_number_spec`.
pub open spec fn find_numbers_spec(s: Seq<char>) -> Seq<CandidateV> {
    candidates_from(s, Seq::empty())
}

/// A character that no written number contains: not a digit, nor `.`, `,`,
/// `-` or `+`.
pub open spec fn plain_char(c: char) -> bool {
    !('0' <= c && c <= '9') && c != '.' && c != ',' && c != '-' && c != '+'
}

proof fn lemma_plain_prefix(pre: Seq<char>, rest: Seq<char>)
    requires
        forall|i: int| 0 <= i < pre.len() ==> plain_char(#[trigger] pre[i]),
    ensures
        candidates_from(pre + rest, Seq::empty()) == candidates_from(rest, Seq::empty()),
    decreases pre.len(),
{
    if pre.len() > 0 {
        let s = pre + rest;
        assert(s[0] == pre[0]);
        assert(!is_number_char(s[0]));
        assert(strip_trailing(Seq::<char>::empty()) == Seq::<char>::empty());
        assert(run_candidates(Seq::empty()) =~= Seq::<CandidateV>::empty());
        assert(s.drop_first() =~= pre.drop_first() + rest);
        lemma_plain_prefix(pre.drop_first(), rest);
        assert(candidates_from(s, Seq::empty()) =~= candidates_from(rest, Seq::empty()));
    }
}

proof fn lemma_number_run(run: Seq<char>, post: Seq<char>, cur: Seq<char>)
    requires
        forall|i: int| 0 <= i < run.len() ==> is_number_char(#[trigger] run[i]),
    ensures
        candidates_from(run + post, cur) == candidates_from(post, cur + run),
    decreases run.len(),
{
    if run.len() > 0 {
        let s = run + post;
        assert(s[0] == run[0]);
        assert(s.drop_first() =~= run.drop_first() + post);
        lemma_number_run(run.drop_first(), post, cur.push(run[0]));
        assert(cur.push(run[0]) + run.drop_first() =~= cur + run);
    } else {
        assert(run + post =~= post);
        assert(cur + run =~= cur);
    }
}

proof fn lemma_plain_end(post: Seq<char>, cur: Seq<char>)
    requires
        forall|i: int| 0 <= i < post.len() ==> plain_char(#[trigger] post[i]),
    ensures
        candidates_from(post, cur) == run_candidates(cur),
{
    if post.len() > 0 {
        assert(!is_number_char(post[0]));
        lemma_plain_prefix(post.drop_first(), Seq::empty());
        assert(post.drop_first() + Seq::<char>::empty() =~= post.drop_first());
        assert(strip_trailing(Seq::<char>::empty()) == Seq::<char>::empty());
        assert(candidates_from(Seq::<char>::empty(), Seq::empty()) =~= Seq::<CandidateV>::empty());
        assert(run_candidates(cur) + Seq::<CandidateV>::empty() =~= run_candidates(cur));
    }
}

/// A text whose only number is written as a sign and digits, between
/// characters that no number contains, holds exactly that number, with its
/// sign: `"it is -5 degrees"` holds -5, and `"+5"` holds 5.
pub proof fn lemma_signed_number_found(pre: Seq<char>, sign: char, digits: Seq<char>, post: Seq<char>)
    requires
        forall|i: int| 0 <= i < pre.len() ==> plain_char(#[trigger] pre[i]),
        forall|i: int| 0 <= i < post.len() ==> plain_char(#[trigger] post[i]),
        sign == '-' || sign == '+',
        all_digits(digits),
        digits_value(digits) <= i64::MAX,
    ensures
        find_numbers_spec(pre + seq![sign] + digits + post) == seq![CandidateV::Int(
            (if sign == '-' { -(digits_value(digits) as int) } else { digits_value(digits) as int }) as i64,
        )],
{
    let run = seq![sign] + digits;
    assert(pre + seq![sign] + digits + post =~= pre + (run + post));
    lemma_plain_prefix(pre, run + post);
    assert forall|i: int| 0 <= i < run.len() implies is_number_char(#[trigger] run[i]) by {
        if i > 0 {
            assert(run[i] == digits[i - 1]);
            assert(is_digit(digits[i - 1]));
        }
    }
    lemma_number_run(run, post, Seq::empty());
    assert(Seq::<char>::empty() + run =~= run);
    lemma_plain_end(post, run);
    // the run reads as the signed integer
    assert(run.last() == digits.last());
    assert(is_digit(digits[digits.len() - 1]));
    assert(strip_trailing(run) == run);
    assert(!(exists|i: int| 0 <= i < run.len() && (run[i] == '.' || run[i] == ','))) by {
        assert forall|i: int| 0 <= i < run.len() implies !(run[i] == '.' || run[i] == ',') by {
            if i > 0 {
                assert(run[i] == digits[i - 1]);
                assert(is_digit(digits[i - 1]));
            }
        }
    }
    assert(run.drop_first() =~= digits);
}

proof fn lemma_split_at_plain(a: Seq<char>, rest: Seq<char>, cur: Seq<char>)
    requires
        rest.len() > 0,
        plain_char(rest[0]),
    ensures
        candidates_from(a + rest, cur) == candidates_from(a, cur) + candidates_from(rest.drop_first(), Seq::empty()),
    decreases a.len(),
{
    if a.len() == 0 {
        assert(a + rest =~= rest);
        assert(!is_number_char(rest[0]));
    } else {
        let s = a + rest;
        assert(s[0] == a[0]);
        assert(s.drop_first() =~= a.drop_first() + rest);
        if is_number_char(a[0]) {
            lemma_split_at_plain(a.drop_first(), rest, cur.push(a[0]));
        } else {
            lemma_split_at_plain(a.drop_first(), rest, Seq::empty());
            assert(candidates_from(s, cur) =~= candidates_from(a, cur) + candidates_from(rest.drop_first(), Seq::empty()));
        }
    }
}

/// Texts joined by a character that no number contains hold the numbers of
/// the first text, then those of the second.
pub proof fn lemma_numbers_of_joined_texts(a: Seq<char>, c: char, b: Seq<char>)
    requires
        plain_char(c),
    ensures
        find_numbers_spec(a + seq![c] + b) == find_numbers_spec(a) + find_numbers_spec(b),
{
    let rest = seq![c] + b;
    assert(a + seq![c] + b =~= a + rest);
    assert(rest.drop_first() =~= b);
    lemma_split_at_plain(a, rest, Seq::empty());
}

/// Digits alone are read as the integer they write.
pub proof fn lemma_digits_found(digits: Seq<char>)
    requires
        all_digits(digits),
        digits_value(digits) <= i64::MAX,
    ensures
        find_numbers_spec(digits) == seq![CandidateV::Int(digits_value(digits) as i64)],
{
    assert forall|i: int| 0 <= i < digits.len() implies is_number_char(#[trigger] digits[i]) by {
        assert(is_digit(digits[i]));
    }
    lemma_number_run(digits, Seq::empty(), Seq::empty());
    assert(digits + Seq::<char>::empty() =~= digits);
    assert(Seq::<char>::empty() + digits =~= digits);
    assert(candidates_from(Seq::<char>::empty(), digits) == run_candidates(digits));
    assert(digits.last() == digits[digits.len() - 1]);
    assert(is_digit(digits[digits.len() - 1]));
    assert(strip_trailing(digits) == digits);
    assert forall|i: int| 0 <= i < digits.len() implies !(digits[i] == '.' || digits[i] == ',') by {
        assert(is_digit(digits[i]));
    }
    assert(!(digits[0] == '+' || digits[0] == '-')) by {
        assert(is_digit(digits[0]));
    }
}

fn is_number_char_exec(c: char) -> (r: bool)
    ensures
        r == is_number_char(c),
{
    ('0' <= c && c <= '9') || c == '.' || c == ',' || c == '-' || c == '+'
}

/// Reads one written number from `cs[from..to]`.
fn to_number(cs: &Vec<char>, from: usize, to: usize) -> (r: Option<NumberCandidate>)
    requires
        from <= to <= cs.len(),
    ensures
        match r {
            Some(c) => to_number_spec(cs@.subrange(from as int, to as int)) == Some(c@),
            None => to_number_spec(cs@.subrange(from as int, to as int)) is None,
        },
{
    let ghost t = cs@.subrange(from as int, to as int);
    let mut i: usize = from;
    while i < to && !(cs[i] == '.' || cs[i] == ',')
        invariant
            from <= i <= to <= cs.len(),
            t == cs@.subrange(from as int, to as int),
            forall|j: int| 0 <= j < i - from ==> !(t[j] == '.' || t[j] == ','),
        decreases to - i,
    {
        i = i + 1;
    }
    if i < to {
        proof {
            let c = choose|c: int|
                0 <= c < t.len() && (t[c] == '.' || t[c] == ',') && forall|j: int|
                    0 <= j < c ==> !(t[j] == '.' || t[j] == ',');
            assert(t[i - from] == cs@[i as int]);
            if c < i - from {
            } else if c > i - from {
            }
        }
        let mut k: usize = i + 1;
        while k < to && cs[k] == '0'
            invariant
                i + 1 <= k <= to <= cs.len(),
                forall|j: int| i + 1 <= j < k ==> cs@[j] == '0',
            decreases to - k,
        {
            k = k + 1;
        }
        if k == to {
            assert(t.skip(i - from + 1) =~= cs@.subrange(i + 1, to as int));
            let prefix = string_from_range(cs, from, i);
            assert(t.take(i - from) =~= cs@.subrange(from as int, i as int));
            return match parse_i64(prefix.as_str()) {
                Some(v) => Some(NumberCandidate::Int(v)),
                None => None,
            };
        }
        assert(cs@[k as int] == t.skip(i - from + 1)[k - i - 1]);
    } else {
        assert forall|j: int| 0 <= j < t.len() implies !(t[j] == '.' || t[j] == ',') by {}
    }
    let whole = string_from_range(cs, from, to);
    match parse_i64(whole.as_str()) {
        Some(v) => Some(NumberCandidate::Int(v)),
        None => {
            let mut s = String::new();
            let mut j: usize = from;
            while j < to
                invariant
                    from <= j <= to <= cs.len(),
                    t == cs@.subrange(from as int, to as int),
                    s@ == commas_to_dots(t).take(j - from),
                decreases to - j,
            {
                let c = if cs[j] == ',' {
                    '.'
                } else {
                    cs[j]
                };
                string_push(&mut s, c);
                j = j + 1;
                assert(commas_to_dots(t).take(j - from) =~= commas_to_dots(t).take(j - 1 - from).push(c));
            }
            assert(commas_to_dots(t).take(t.len() as int) =~= commas_to_dots(t));
            Some(NumberCandidate::FloatText(Text(s)))
        },
    }
}

/// Processes one run `cs[from..to]` of number characters.
fn push_run(out: &mut Vec<NumberCandidate>, cs: &Vec<char>, from: usize, to: usize)
    requires
        from <= to <= cs.len(),
    ensures
        final(out)@.map_values(|c: NumberCandidate| c@) == old(out)@.map_values(
            |c: NumberCandidate| c@,
        ) + run_candidates(cs@.subrange(from as int, to as int)),
{
    let ghost run = cs@.subrange(from as int, to as int);
    let mut e: usize = to;
    while e > from && (cs[e - 1] == '+' || cs[e - 1] == '-' || cs[e - 1] == ',' || cs[e - 1]
        == '.')
        invariant
            from <= e <= to <= cs.len(),
            run == cs@.subrange(from as int, to as int),
            strip_trailing(run) == strip_trailing(cs@.subrange(from as int, e as int)),
        decreases e - from,
    {
        assert(cs@.subrange(from as int, e as int).drop_last() =~= cs@.subrange(
            from as int,
            e - 1,
        ));
        e = e - 1;
    }
    proof {
        let t = cs@.subrange(from as int, e as int);
        if t.len() > 0 {
            assert(t.last() == cs@[e - 1]);
        }
        assert(strip_trailing(t) == t);
    }
    let ghost old_view = out@.map_values(|c: NumberCandidate| c@);
    if e > from {
        match to_number(cs, from, e) {
            Some(c) => {
                out.push(c);
                assert(out@.map_values(|c: NumberCandidate| c@) =~= old_view + run_candidates(run));
            },
            None => {
                assert(out@.map_values(|c: NumberCandidate| c@) =~= old_view + run_candidates(run));
            },
        }
    } else {
        assert(out@.map_values(|c: NumberCandidate| c@) =~= old_view + run_candidates(run));
    }
}

/// The numbers written in a text (see `find_numbers_spec`).
pub fn find_numbers(text: &Text) -> (r: Vec<NumberCandidate>)
    ensures
        r@.map_values(|c: NumberCandidate| c@) == find_numbers_spec(text@),
{
    let cs = chars_of(text.as_str());
    let mut out: Vec<NumberCandidate> = Vec::new();
    let mut start: usize = 0;
    let mut i: usize = 0;
    assert(cs@.skip(0) =~= cs@);
    assert(cs@.subrange(0, 0) =~= Seq::<char>::empty());
    assert(out@.map_values(|c: NumberCandidate| c@) =~= Seq::<CandidateV>::empty());
    assert(Seq::<CandidateV>::empty() + find_numbers_spec(text@) =~= find_numbers_spec(text@));
    while i < cs.len()
        invariant
            start <= i <= cs.len(),
            cs@ == text@,
            find_numbers_spec(text@) == out@.map_values(|c: NumberCandidate| c@) + candidates_from(
                cs@.skip(i as int),
                cs@.subrange(start as int, i as int),
            ),
        decreases cs.len() - i,
    {
        let ghost rest = cs@.skip(i as int);
        assert(rest[0] == cs@[i as int]);
        assert(rest.drop_first() =~= cs@.skip(i + 1));
        if is_number_char_exec(cs[i]) {
            assert(cs@.subrange(start as int, i as int).push(cs@[i as int]) =~= cs@.subrange(
                start as int,
                i + 1,
            ));
            i = i + 1;
        } else {
            let ghost before = out@.map_values(|c: NumberCandidate| c@);
            push_run(&mut out, &cs, start, i);
            assert(cs@.subrange(i + 1, i + 1) =~= Seq::<char>::empty());
            assert(before + (run_candidates(cs@.subrange(start as int, i as int)) + candidates_from(
                cs@.skip(i + 1),
                Seq::empty(),
            )) =~= (before + run_candidates(cs@.subrange(start as int, i as int))) + candidates_from(
                cs@.skip(i + 1),
                Seq::empty(),
            ));
            i = i + 1;
            start = i;
        }
    }
    assert(cs@.skip(cs.len() as int) =~= Seq::<char>::empty());
    let ghost before = out@.map_values(|c: NumberCandidate| c@);
    assert(candidates_from(cs@.skip(i as int), cs@.subrange(start as int, i as int))
        == run_candidates(cs@.subrange(start as int, cs.len() as int)));
    push_run(&mut out, &cs, start, cs.len());
    out
}

} // verus!

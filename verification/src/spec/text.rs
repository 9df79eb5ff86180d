//! Text values and the operations on them that the evaluation needs.
use vstd::prelude::*;

verus! {

/// An immutable piece of text.
#[derive(Debug, PartialEq, Eq, PartialOrd, Ord, Hash)]
pub struct Text(pub String);

impl View for Text {
    type V = Seq<char>;

    open spec fn view(&self) -> Seq<char> {
        self.0@
    }
}

impl Clone for Text {
    fn clone(&self) -> (r: Self)
        ensures
            r@ == self@,
    {
        Text(self.0.clone())
    }
}

/// Appends one character to a string (`String::push`).
#[verifier::external_body]
pub(crate) fn string_push(s: &mut String, c: char)
    ensures
        final(s)@ == old(s)@.push(c),
{
    s.push(c);
}

/// Whether `c` has Unicode's `White_Space` property, which is what
/// `char::is_whitespace` tests: tab to carriage return, space, next line,
/// no-break space, ogham space mark, the spaces from en quad to hair space,
/// line and paragraph separator, narrow no-break space, medium mathematical
/// space and ideographic space.
pub open spec fn is_white_space(c: char) -> bool {
    let u = c as u32;
    ||| 0x09 <= u <= 0x0D
    ||| u == 0x20
    ||| u == 0x85
    ||| u == 0xA0
    ||| u == 0x1680
    ||| 0x2000 <= u <= 0x200A
    ||| u == 0x2028
    ||| u == 0x2029
    ||| u == 0x202F
    ||| u == 0x205F
    ||| u == 0x3000
}

/// Whether `c` is white space (`char::is_whitespace`).
pub(crate) fn char_is_whitespace(c: char) -> (r: bool)
    ensures
        r == is_white_space(c),
{
    let u = c as u32;
    (0x09 <= u && u <= 0x0D) || u == 0x20 || u == 0x85 || u == 0xA0 || u == 0x1680
        || (0x2000 <= u && u <= 0x200A) || u == 0x2028 || u == 0x2029 || u == 0x202F
        || u == 0x205F || u == 0x3000
}

/// The text that `str::to_uppercase` makes of `s` (Unicode case mapping).
pub uninterp spec fn unicode_upper(s: Seq<char>) -> Seq<char>;

/// The text that `str::to_lowercase` makes of `s` (Unicode case mapping).
pub uninterp spec fn unicode_lower(s: Seq<char>) -> Seq<char>;

/// `str::to_uppercase`; the result depends on the text alone.
#[verifier::external_body]
pub(crate) fn str_to_uppercase(s: &str) -> (r: String)
    ensures
        r@ == unicode_upper(s@),
{
    s.to_uppercase()
}

/// `str::to_lowercase`; the result depends on the text alone.
#[verifier::external_body]
pub(crate) fn str_to_lowercase(s: &str) -> (r: String)
    ensures
        r@ == unicode_lower(s@),
{
    s.to_lowercase()
}

/// The text that `format!("{:?}", s)` makes of a string `s`: the string
/// quoted, with escapes.
pub uninterp spec fn debug_quoted(s: Seq<char>) -> Seq<char>;

/// `<str as Debug>::fmt`, through `format!("{:?}", s)`; the result depends
/// on the text alone.
#[verifier::external_body]
pub(crate) fn str_debug(s: &str) -> (r: String)
    ensures
        r@ == debug_quoted(s@),
{
    format!("{:?}", s)
}

/// The characters of a string, one by one.
pub fn chars_of(s: &str) -> (r: Vec<char>)
    ensures
        r@ == s@,
{
    let mut out: Vec<char> = Vec::new();
    for c in it: s.chars()
        invariant
            out@ == it.seq().take(it.index() as int),
    {
        out.push(c);
    }
    out
}

/// A string made of the characters `cs[from..to]`.
pub fn string_from_range(cs: &Vec<char>, from: usize, to: usize) -> (r: String)
    requires
        from <= to <= cs.len(),
    ensures
        r@ == cs@.subrange(from as int, to as int),
{
    let mut s = String::new();
    let mut i: usize = from;
    while i < to
        invariant
            from <= i <= to <= cs.len(),
            s@ == cs@.subrange(from as int, i as int),
        decreases to - i,
    {
        string_push(&mut s, cs[i]);
        i = i + 1;
        assert(cs@.subrange(from as int, i as int) == cs@.subrange(from as int, (i - 1) as int).push(cs@[i - 1]));
    }
    s
}

/// A string made of the given characters.
pub fn string_from_chars(cs: &Vec<char>) -> (r: String)
    ensures
        r@ == cs@,
{
    assert(cs@.subrange(0, cs.len() as int) == cs@);
    string_from_range(cs, 0, cs.len())
}

impl Text {
    /// A text with the characters of `s`.
    pub fn from_str(s: &str) -> (r: Text)
        ensures
            r@ == s@,
    {
        Text(String::from_str(s))
    }

    /// The text as a string slice.
    pub fn as_str(&self) -> (r: &str)
        ensures
            r@ == self@,
    {
        self.0.as_str()
    }

    /// The text that the `Debug` formatting of `x` shows: `x` quoted, with
    /// escapes.
    pub fn from_debug(x: &str) -> (r: Text)
        ensures
            r@ == debug_quoted(x@),
    {
        Text(str_debug(x))
    }

    /// Whether two texts hold the same characters.
    pub fn text_eq(&self, other: &Text) -> (r: bool)
        ensures
            r == (self@ == other@),
    {
        self.0 == other.0
    }

    /// The number of characters.
    pub fn char_count(&self) -> (r: usize)
        ensures
            r == self@.len(),
    {
        self.as_str().unicode_len()
    }
}

// ---------------------------------------------------------------------------
// Decimal representation of integers
// ---------------------------------------------------------------------------

/// The character of a decimal digit.
pub open spec fn digit_char(d: int) -> char {
    (('0' as int) + d) as char
}

/// The decimal digits of a natural number, most significant first, without
/// leading zeros (zero is "0").
pub open spec fn decimal_digits(n: nat) -> Seq<char>
    decreases n,
{
    if n < 10 {
        seq![digit_char(n as int)]
    } else {
        decimal_digits(n / 10).push(digit_char((n % 10) as int))
    }
}

/// The text that `to_string` gives for an integer: an optional minus sign
/// and the decimal digits.
pub open spec fn int_to_decimal(i: int) -> Seq<char> {
    if i < 0 {
        seq!['-'] + decimal_digits((-i) as nat)
    } else {
        decimal_digits(i as nat)
    }
}

fn digit_to_char(d: u64) -> (c: char)
    requires
        d < 10,
    ensures
        c == digit_char(d as int),
{
    if d == 0 {
        '0'
    } else if d == 1 {
        '1'
    } else if d == 2 {
        '2'
    } else if d == 3 {
        '3'
    } else if d == 4 {
        '4'
    } else if d == 5 {
        '5'
    } else if d == 6 {
        '6'
    } else if d == 7 {
        '7'
    } else if d == 8 {
        '8'
    } else {
        '9'
    }
}

fn u64_digits(n: u64) -> (r: Vec<char>)
    ensures
        r@ == decimal_digits(n as nat),
    decreases n,
{
    if n < 10 {
        let mut v = Vec::new();
        v.push(digit_to_char(n));
        assert(v@ == seq![digit_char(n as int)]);
        v
    } else {
        let mut v = u64_digits(n / 10);
        v.push(digit_to_char(n % 10));
        v
    }
}

/// The decimal text of a natural number, as `u64::to_string` gives it.
pub fn u64_to_text(n: u64) -> (r: Text)
    ensures
        r@ == decimal_digits(n as nat),
{
    let ds = u64_digits(n);
    Text(string_from_chars(&ds))
}

/// A number is read back from its decimal digits.
pub proof fn lemma_digits_value_of_decimal(n: nat)
    ensures
        digits_value(decimal_digits(n)) == n,
    decreases n,
{
    let d = (n % 10) as int;
    assert(digit_char(d) as int == ('0' as int) + d);
    if n < 10 {
        let s = decimal_digits(n);
        assert(s.drop_last() =~= Seq::<char>::empty());
        assert(s.last() == digit_char(d));
        assert(digits_value(s.drop_last()) == 0);
        assert(digits_value(s) == digits_value(s.drop_last()) * 10 + ((s.last() as int) - ('0' as int)) as nat);
    } else {
        lemma_digits_value_of_decimal(n / 10);
        let s = decimal_digits(n);
        assert(s.drop_last() =~= decimal_digits(n / 10));
        assert(s.last() == digit_char(d));
        assert((n / 10) * 10 + n % 10 == n);
        assert(digits_value(s) == digits_value(s.drop_last()) * 10 + ((s.last() as int) - ('0' as int)) as nat);
    }
}

/// The decimal text of an integer, as `i64::to_string` gives it.
pub fn i64_to_text(i: i64) -> (r: Text)
    ensures
        r@ == int_to_decimal(i as int),
{
    if i < 0 {
        let m: u64 = ((-(i + 1)) as u64) + 1;
        let ds = u64_digits(m);
        let mut s = String::new();
        string_push(&mut s, '-');
        let rest = string_from_chars(&ds);
        s.append(rest.as_str());
        assert(s@ == seq!['-'] + decimal_digits((-(i as int)) as nat));
        Text(s)
    } else {
        let ds = u64_digits(i as u64);
        Text(string_from_chars(&ds))
    }
}

// ---------------------------------------------------------------------------
// Parsing of integers
// ---------------------------------------------------------------------------

/// Whether `c` is an ASCII digit.
pub open spec fn is_digit(c: char) -> bool {
    '0' <= c && c <= '9'
}

/// Whether a sequence is nonempty and made of ASCII digits only.
pub open spec fn all_digits(s: Seq<char>) -> bool {
    s.len() > 0 && forall|i: int| 0 <= i < s.len() ==> is_digit(#[trigger] s[i])
}

/// The value of a sequence of ASCII digits read in base ten.
pub open spec fn digits_value(s: Seq<char>) -> nat
    decreases s.len(),
{
    if s.len() == 0 {
        0
    } else {
        digits_value(s.drop_last()) * 10 + ((s.last() as int) - ('0' as int)) as nat
    }
}

/// The integer that `str::parse::<i64>` reads from `s`, before the range
/// check: an optional sign followed by at least one ASCII digit.
pub open spec fn parse_int_spec(s: Seq<char>) -> Option<int> {
    if s.len() > 0 && (s[0] == '+' || s[0] == '-') {
        if all_digits(s.drop_first()) {
            let v = digits_value(s.drop_first()) as int;
            Some(if s[0] == '-' { -v } else { v })
        } else {
            None
        }
    } else if all_digits(s) {
        Some(digits_value(s) as int)
    } else {
        None
    }
}

/// What `str::parse::<i64>` gives for `s`: the integer it writes if that
/// fits in an `i64`.
pub open spec fn parse_i64_spec(s: Seq<char>) -> Option<i64> {
    match parse_int_spec(s) {
        Some(v) => if i64::MIN <= v <= i64::MAX {
            Some(v as i64)
        } else {
            None
        },
        None => None,
    }
}

proof fn lemma_digits_value_prefix(s: Seq<char>, i: int)
    requires
        0 <= i <= s.len(),
        forall|k: int| 0 <= k < s.len() ==> is_digit(#[trigger] s[k]),
    ensures
        digits_value(s.take(i)) <= digits_value(s),
    decreases s.len() - i,
{
    if i < s.len() {
        lemma_digits_value_prefix(s, i + 1);
        assert(s.take(i + 1).drop_last() == s.take(i));
    } else {
        assert(s.take(i) == s);
    }
}

fn is_digit_char(c: char) -> (r: bool)
    ensures
        r == is_digit(c),
{
    '0' <= c && c <= '9'
}

fn digit_value(c: char) -> (r: u64)
    requires
        is_digit(c),
    ensures
        r == (c as int) - ('0' as int),
        r < 10,
{
    let d = (c as u32) - ('0' as u32);
    d as u64
}

/// Reads the magnitude from `cs[start..]`: `Some` with its value if every
/// character is a digit, there is at least one and the value fits in `u64`.
fn parse_magnitude(cs: &Vec<char>, start: usize) -> (r: Option<u64>)
    requires
        start <= cs.len(),
    ensures
        ({
            let rest = cs@.skip(start as int);
            match r {
                Some(v) => all_digits(rest) && v == digits_value(rest),
                None => !all_digits(rest) || digits_value(rest) > u64::MAX,
            }
        }),
{
    let ghost rest = cs@.skip(start as int);
    if start == cs.len() {
        return None;
    }
    let mut acc: u64 = 0;
    let mut i: usize = start;
    while i < cs.len()
        invariant
            start <= i <= cs.len(),
            start < cs.len(),
            rest == cs@.skip(start as int),
            forall|k: int| start <= k < i ==> is_digit(#[trigger] cs@[k]),
            acc == digits_value(cs@.subrange(start as int, i as int)),
        decreases cs.len() - i,
    {
        let c = cs[i];
        if !is_digit_char(c) {
            assert(rest[i - start] == c);
            return None;
        }
        let d = digit_value(c);
        assert(cs@.subrange(start as int, i + 1).drop_last() == cs@.subrange(
            start as int,
            i as int,
        ));
        if acc > (u64::MAX - d) / 10 {
            proof {
                let pre = cs@.subrange(start as int, i + 1);
                assert(digits_value(pre) == acc * 10 + d);
                assert(acc * 10 + d > u64::MAX) by (nonlinear_arith)
                    requires
                        acc > (u64::MAX - d) / 10,
                        d < 10,
                ;
                if all_digits(rest) {
                    assert(rest.take(i + 1 - start) == pre);
                    lemma_digits_value_prefix(rest, i + 1 - start);
                }
            }
            return None;
        }
        assert(acc * 10 + d <= u64::MAX) by (nonlinear_arith)
            requires
                acc <= (u64::MAX - d) / 10,
                d < 10,
        ;
        acc = acc * 10 + d;
        i = i + 1;
    }
    assert(cs@.subrange(start as int, cs.len() as int) == rest);
    Some(acc)
}

/// `str::parse::<i64>`: an optional `+` or `-` and at least one ASCII digit,
/// with a value that fits in an `i64`.
pub fn parse_i64(s: &str) -> (r: Option<i64>)
    ensures
        r == parse_i64_spec(s@),
{
    let cs = chars_of(s);
    let n = cs.len();
    if n > 0 && (cs[0] == '+' || cs[0] == '-') {
        let neg = cs[0] == '-';
        assert(cs@.skip(1) == s@.drop_first());
        match parse_magnitude(&cs, 1) {
            Some(m) => {
                if neg {
                    if m <= 9223372036854775808u64 {
                        if m == 9223372036854775808u64 {
                            Some(i64::MIN)
                        } else {
                            Some(-(m as i64))
                        }
                    } else {
                        None
                    }
                } else {
                    if m <= 9223372036854775807u64 {
                        Some(m as i64)
                    } else {
                        None
                    }
                }
            },
            None => None,
        }
    } else {
        assert(cs@.skip(0) == s@);
        match parse_magnitude(&cs, 0) {
            Some(m) => {
                if m <= 9223372036854775807u64 {
                    Some(m as i64)
                } else {
                    None
                }
            },
            None => None,
        }
    }
}

// ---------------------------------------------------------------------------
// Searching
// ---------------------------------------------------------------------------

/// Whether `sub` occurs in `sup` starting at position `i`.
pub open spec fn occurs_at(sup: Seq<char>, sub: Seq<char>, i: int) -> bool {
    0 <= i && i + sub.len() <= sup.len() && sup.subrange(i, i + sub.len()) == sub
}

/// Whether `sub` occurs anywhere in `sup` (`str::contains`).
pub open spec fn seq_contains(sup: Seq<char>, sub: Seq<char>) -> bool {
    exists|i: int| occurs_at(sup, sub, i)
}

/// The first position at or after `from` where `sub` occurs in `sup`.
pub open spec fn first_occurrence_from(sup: Seq<char>, sub: Seq<char>, from: int) -> Option<
    int,
> {
    if exists|i: int| from <= i && occurs_at(sup, sub, i) {
        Some(
            choose|i: int|
                from <= i && occurs_at(sup, sub, i) && forall|j: int|
                    from <= j < i ==> !occurs_at(sup, sub, j),
        )
    } else {
        None
    }
}

fn occurs_at_exec(sup: &Vec<char>, sub: &Vec<char>, i: usize) -> (r: bool)
    requires
        i + sub.len() <= sup.len(),
    ensures
        r == occurs_at(sup@, sub@, i as int),
{
    let mut k: usize = 0;
    while k < sub.len()
        invariant
            k <= sub.len(),
            i + sub.len() <= sup.len(),
            forall|j: int| 0 <= j < k ==> sup@[i + j] == sub@[j],
        decreases sub.len() - k,
    {
        if sup[i + k] != sub[k] {
            assert(sup@.subrange(i as int, i + sub.len())[k as int] != sub@[k as int]);
            return false;
        }
        k = k + 1;
    }
    assert(sup@.subrange(i as int, i + sub.len()) == sub@);
    true
}

/// Searches `sub` in `sup` from position `from` on.
pub fn find_from(sup: &Vec<char>, sub: &Vec<char>, from: usize) -> (r: Option<usize>)
    ensures
        match r {
            Some(i) => from <= i && occurs_at(sup@, sub@, i as int) && forall|j: int|
                from <= j < i ==> !occurs_at(sup@, sub@, j),
            None => forall|j: int| from <= j ==> !occurs_at(sup@, sub@, j),
        },
        r == (match first_occurrence_from(sup@, sub@, from as int) {
            Some(i) => Some(i as usize),
            None => None::<usize>,
        }),
{
    if sub.len() > sup.len() {
        return None;
    }
    let last = sup.len() - sub.len();
    if from > last {
        return None;
    }
    let mut i: usize = from;
    while i <= last
        invariant
            sub.len() <= sup.len(),
            last == sup.len() - sub.len(),
            from <= i <= last + 1,
            forall|j: int| from <= j < i ==> !occurs_at(sup@, sub@, j),
        decreases last + 1 - i,
    {
        if occurs_at_exec(sup, sub, i) {
            proof {
                let w = choose|k: int|
                    from <= k && occurs_at(sup@, sub@, k) && forall|j: int|
                        from <= j < k ==> !occurs_at(sup@, sub@, j);
                assert(from <= i && occurs_at(sup@, sub@, i as int) && forall|j: int|
                    from <= j < i ==> !occurs_at(sup@, sub@, j));
                if w < i {
                } else if w > i {
                }
            }
            return Some(i);
        }
        if i == last {
            return None;
        }
        i = i + 1;
    }
    None
}

/// Whether `sub` occurs in `sup` (`str::contains` with a string pattern).
pub fn text_contains(sup: &Text, sub: &Text) -> (r: bool)
    ensures
        r == seq_contains(sup@, sub@),
{
    let a = chars_of(sup.as_str());
    let b = chars_of(sub.as_str());
    let f = find_from(&a, &b, 0);
    match f {
        Some(i) => true,
        None => {
            assert forall|i: int| !occurs_at(sup@, sub@, i) by {
                if i >= 0 {
                }
            }
            false
        },
    }
}

// ---------------------------------------------------------------------------
// Trimming and case mapping
// ---------------------------------------------------------------------------

/// The number of leading white-space characters.
pub open spec fn leading_ws(s: Seq<char>) -> nat
    decreases s.len(),
{
    if s.len() > 0 && is_white_space(s[0]) {
        1 + leading_ws(s.drop_first())
    } else {
        0
    }
}

/// The number of trailing white-space characters.
pub open spec fn trailing_ws(s: Seq<char>) -> nat
    decreases s.len(),
{
    if s.len() > 0 && is_white_space(s.last()) {
        1 + trailing_ws(s.drop_last())
    } else {
        0
    }
}

/// `str::trim_start`: without the leading white space.
pub open spec fn spec_trim_start(s: Seq<char>) -> Seq<char> {
    s.skip(leading_ws(s) as int)
}

/// `str::trim_end`: without the trailing white space.
pub open spec fn spec_trim_end(s: Seq<char>) -> Seq<char> {
    s.take(s.len() - trailing_ws(s))
}

/// `str::trim`: without leading and trailing white space.
pub open spec fn spec_trim(s: Seq<char>) -> Seq<char> {
    spec_trim_end(spec_trim_start(s))
}

proof fn lemma_leading_ws_bound(s: Seq<char>)
    ensures
        leading_ws(s) <= s.len(),
        forall|k: int| 0 <= k < leading_ws(s) ==> is_white_space(#[trigger] s[k]),
        leading_ws(s) < s.len() ==> !is_white_space(s[leading_ws(s) as int]),
    decreases s.len(),
{
    if s.len() > 0 && is_white_space(s[0]) {
        lemma_leading_ws_bound(s.drop_first());
        assert forall|k: int| 0 <= k < leading_ws(s) implies is_white_space(#[trigger] s[k]) by {
            if k > 0 {
                assert(s[k] == s.drop_first()[k - 1]);
            }
        }
    }
}

proof fn lemma_leading_ws_unique(s: Seq<char>, n: int)
    requires
        0 <= n <= s.len(),
        forall|k: int| 0 <= k < n ==> is_white_space(#[trigger] s[k]),
        n < s.len() ==> !is_white_space(s[n]),
    ensures
        leading_ws(s) == n,
    decreases s.len(),
{
    if n > 0 {
        assert(is_white_space(s[0]));
        assert forall|k: int| 0 <= k < n - 1 implies is_white_space(#[trigger] s.drop_first()[k]) by {
            assert(s.drop_first()[k] == s[k + 1]);
        }
        if n - 1 < s.drop_first().len() {
            assert(s.drop_first()[n - 1] == s[n]);
        }
        lemma_leading_ws_unique(s.drop_first(), n - 1);
    } else if s.len() > 0 {
        assert(!is_white_space(s[0]));
    }
}

proof fn lemma_trailing_ws_bound(s: Seq<char>)
    ensures
        trailing_ws(s) <= s.len(),
    decreases s.len(),
{
    if s.len() > 0 && is_white_space(s.last()) {
        lemma_trailing_ws_bound(s.drop_last());
    }
}

proof fn lemma_trailing_ws_props(s: Seq<char>)
    ensures
        trailing_ws(s) <= s.len(),
        forall|k: int| s.len() - trailing_ws(s) <= k < s.len() ==> is_white_space(#[trigger] s[k]),
        trailing_ws(s) < s.len() ==> !is_white_space(s[s.len() - trailing_ws(s) - 1]),
    decreases s.len(),
{
    if s.len() > 0 && is_white_space(s.last()) {
        let t = s.drop_last();
        lemma_trailing_ws_props(t);
        assert forall|k: int| s.len() - trailing_ws(s) <= k < s.len() implies is_white_space(#[trigger] s[k]) by {
            if k < s.len() - 1 {
                assert(s[k] == t[k]);
            }
        }
        if trailing_ws(s) < s.len() {
            assert(s[s.len() - trailing_ws(s) - 1] == t[t.len() - trailing_ws(t) - 1]);
        }
    }
}

/// Trimming the start removes exactly the white space that the text starts
/// with: what is left is the rest of the text, and starts with no white
/// space.
pub proof fn lemma_trim_start(s: Seq<char>)
    ensures
        ({
            let r = spec_trim_start(s);
            let k = s.len() - r.len();
            &&& r.len() <= s.len()
            &&& s =~= s.take(k) + r
            &&& forall|j: int| 0 <= j < k ==> is_white_space(#[trigger] s[j])
            &&& r.len() > 0 ==> !is_white_space(r[0])
        }),
{
    lemma_leading_ws_bound(s);
    let n = leading_ws(s) as int;
    assert(s =~= s.take(n) + s.skip(n));
    if n < s.len() {
        assert(s.skip(n)[0] == s[n]);
    }
}

/// Trimming the end removes exactly the white space that the text ends
/// with: what is left is the beginning of the text, and ends with no white
/// space.
pub proof fn lemma_trim_end(s: Seq<char>)
    ensures
        ({
            let r = spec_trim_end(s);
            &&& r.len() <= s.len()
            &&& s =~= r + s.skip(r.len() as int)
            &&& forall|j: int| r.len() <= j < s.len() ==> is_white_space(#[trigger] s[j])
            &&& r.len() > 0 ==> !is_white_space(r[r.len() - 1])
        }),
{
    lemma_trailing_ws_props(s);
    let m = s.len() - trailing_ws(s);
    assert(s =~= s.take(m) + s.skip(m));
    if m > 0 {
        assert(s.take(m)[m - 1] == s[m - 1]);
    }
}

/// Trimming both ends leaves a piece of the text that neither starts nor
/// ends with white space, with only white space around it.
pub proof fn lemma_trim(s: Seq<char>)
    ensures
        ({
            let r = spec_trim(s);
            exists|a: int| #![trigger s.subrange(a, a + r.len())]
                0 <= a && a + r.len() <= s.len() && s.subrange(a, a + r.len()) == r
                && (forall|j: int| 0 <= j < a ==> is_white_space(#[trigger] s[j]))
                && (forall|j: int| a + r.len() <= j < s.len() ==> is_white_space(#[trigger] s[j]))
                && (r.len() > 0 ==> !is_white_space(r[0]) && !is_white_space(r[r.len() - 1]))
        }),
{
    lemma_trim_start(s);
    let t = spec_trim_start(s);
    lemma_trim_end(t);
    let r = spec_trim(s);
    let a = s.len() - t.len();
    assert(s.subrange(a, a + r.len()) =~= r) by {
        assert forall|j: int| 0 <= j < r.len() implies s.subrange(a, a + r.len())[j] == r[j] by {
            assert(s[a + j] == (s.take(a) + t)[a + j]);
            assert(t[j] == (r + t.skip(r.len() as int))[j]);
        }
    }
    assert forall|j: int| a + r.len() <= j < s.len() implies is_white_space(#[trigger] s[j]) by {
        assert(s[j] == (s.take(a) + t)[j]);
        assert(t[j - a] == s[j]);
    }
    if r.len() > 0 {
        assert(r[0] == t[0]);
    }
}

proof fn lemma_trailing_ws_unique(s: Seq<char>, n: int)
    requires
        0 <= n <= s.len(),
        forall|k: int| s.len() - n <= k < s.len() ==> is_white_space(#[trigger] s[k]),
        n < s.len() ==> !is_white_space(s[s.len() - n - 1]),
    ensures
        trailing_ws(s) == n,
    decreases s.len(),
{
    if n > 0 {
        assert(is_white_space(s.last()));
        let t = s.drop_last();
        assert forall|k: int| t.len() - (n - 1) <= k < t.len() implies is_white_space(
            #[trigger] t[k],
        ) by {
            assert(t[k] == s[k]);
        }
        if n - 1 < t.len() {
            assert(t[t.len() - (n - 1) - 1] == s[s.len() - n - 1]);
        }
        lemma_trailing_ws_unique(t, n - 1);
    } else if s.len() > 0 {
        assert(!is_white_space(s.last()));
    }
}

fn count_leading_ws(cs: &Vec<char>) -> (r: usize)
    ensures
        r == leading_ws(cs@),
{
    let mut i: usize = 0;
    while i < cs.len() && char_is_whitespace(cs[i])
        invariant
            i <= cs.len(),
            forall|k: int| 0 <= k < i ==> is_white_space(#[trigger] cs@[k]),
        decreases cs.len() - i,
    {
        i = i + 1;
    }
    proof {
        lemma_leading_ws_unique(cs@, i as int);
    }
    i
}

fn count_trailing_ws(cs: &Vec<char>) -> (r: usize)
    ensures
        r == trailing_ws(cs@),
{
    let mut n: usize = 0;
    while n < cs.len() && char_is_whitespace(cs[cs.len() - n - 1])
        invariant
            n <= cs.len(),
            forall|k: int| cs.len() - n <= k < cs.len() ==> is_white_space(#[trigger] cs@[k]),
        decreases cs.len() - n,
    {
        n = n + 1;
    }
    proof {
        lemma_trailing_ws_unique(cs@, n as int);
    }
    n
}

impl Text {
    /// The text without leading white space (`str::trim_start`).
    pub fn trim_start(&self) -> (r: Text)
        ensures
            r@ == spec_trim_start(self@),
    {
        let cs = chars_of(self.as_str());
        let n = count_leading_ws(&cs);
        proof {
            lemma_leading_ws_bound(cs@);
        }
        Text(string_from_range(&cs, n, cs.len()))
    }

    /// The text without trailing white space (`str::trim_end`).
    pub fn trim_end(&self) -> (r: Text)
        ensures
            r@ == spec_trim_end(self@),
    {
        let cs = chars_of(self.as_str());
        let n = count_trailing_ws(&cs);
        proof {
            lemma_trailing_ws_bound(cs@);
        }
        Text(string_from_range(&cs, 0, cs.len() - n))
    }

    /// The text without leading and trailing white space (`str::trim`).
    pub fn trim(&self) -> (r: Text)
        ensures
            r@ == spec_trim(self@),
    {
        self.trim_start().trim_end()
    }

    /// The text in upper case (`str::to_uppercase`).
    pub fn to_uppercase(&self) -> (r: Text)
        ensures
            r@ == unicode_upper(self@),
    {
        Text(str_to_uppercase(self.as_str()))
    }

    /// The text in lower case (`str::to_lowercase`).
    pub fn to_lowercase(&self) -> (r: Text)
        ensures
            r@ == unicode_lower(self@),
    {
        Text(str_to_lowercase(self.as_str()))
    }
}

} // verus!

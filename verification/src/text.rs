//! Character-level helpers on which the rest of the crate is stated.
use vstd::prelude::*;

verus! {

broadcast use vstd::string::group_string_axioms;

/// The characters of `s`, in order.
pub fn chars_of(s: &str) -> (v: Vec<char>)
    ensures
        v@ == s@,
{
    let mut v: Vec<char> = Vec::new();
    for c in it: s.chars()
        invariant
            v@ == it.seq().take(it.index() as int),
    {
        v.push(c);
    }
    v
}

} // verus!

verus! {

/// ASCII lowercasing of one character; every other character is kept.
pub open spec fn ascii_lower(c: char) -> char {
    if 'A' <= c && c <= 'Z' {
        ((c as int) + 32) as char
    } else {
        c
    }
}

/// ASCII lowercasing of a text, character by character.
pub open spec fn lower_seq(s: Seq<char>) -> Seq<char> {
    s.map_values(|c: char| ascii_lower(c))
}

/// Lowercases one character as `char::to_ascii_lowercase` does.
pub fn lower_char(c: char) -> (r: char)
    ensures
        r == ascii_lower(c),
{
    if c >= 'A' && c <= 'Z' {
        let b: u8 = (c as u8) + 32;
        b as char
    } else {
        c
    }
}

/// The characters of `s`, ASCII-lowercased (what `str::to_ascii_lowercase` gives).
pub fn lower_chars(s: &str) -> (v: Vec<char>)
    ensures
        v@ == lower_seq(s@),
{
    let cs = chars_of(s);
    let mut v: Vec<char> = Vec::new();
    let n = cs.len();
    for i in 0..n
        invariant
            n == cs@.len(),
            cs@ == s@,
            v@ == lower_seq(cs@.take(i as int)),
    {
        v.push(lower_char(cs[i]));
        assert(cs@.take(i + 1) == cs@.take(i as int).push(cs@[i as int]));
    }
    assert(cs@.take(n as int) == cs@);
    v
}

} // verus!

verus! {

/// `pat` occurs in `text` starting at position `i`.
pub open spec fn occurs_at(text: Seq<char>, pat: Seq<char>, i: int) -> bool {
    &&& 0 <= i
    &&& i + pat.len() <= text.len()
    &&& text.subrange(i, i + pat.len()) == pat
}

/// `pat` occurs somewhere in `text` (what `str::contains` tests).
pub open spec fn contains_seq(text: Seq<char>, pat: Seq<char>) -> bool {
    exists|i: int| occurs_at(text, pat, i)
}

/// Substring search: does `pat` occur in `text`?
pub fn contains_chars(text: &Vec<char>, pat: &Vec<char>) -> (b: bool)
    ensures
        b == contains_seq(text@, pat@),
{
    let tn = text.len();
    let pn = pat.len();
    if pn > tn {
        return false;
    }
    let last = tn - pn;
    let mut i: usize = 0;
    while i <= last
        invariant
            tn == text@.len(),
            pn == pat@.len(),
            pn <= tn,
            last == tn - pn,
            i <= last + 1,
            forall|k: int| 0 <= k < i ==> !occurs_at(text@, pat@, k),
        decreases last + 1 - i,
    {
        let mut j: usize = 0;
        while j < pn && text[i + j] == pat[j]
            invariant
                tn == text@.len(),
                pn == pat@.len(),
                i + pn <= tn,
                j <= pn,
                forall|k: int| 0 <= k < j ==> text@[i + k] == pat@[k],
            decreases pn - j,
        {
            j = j + 1;
        }
        if j == pn {
            assert(text@.subrange(i as int, i + pn) =~= pat@);
            assert(occurs_at(text@, pat@, i as int));
            return true;
        }
        assert(text@.subrange(i as int, i + pn)[j as int] != pat@[j as int]);
        i = i + 1;
    }
    false
}

} // verus!

verus! {

/// Lexicographic "less than" of `a` and `b`, looking from position `i` on
/// (the positions before `i` are taken to be equal).
pub open spec fn lt_from(a: Seq<char>, b: Seq<char>, i: int) -> bool
    decreases a.len() - i,
{
    if i < 0 || i >= a.len() {
        0 <= i < b.len()
    } else if i >= b.len() {
        false
    } else if a[i] != b[i] {
        a[i] < b[i]
    } else {
        lt_from(a, b, i + 1)
    }
}

/// Lexicographic order on texts by character code, which is the order in which
/// `String`'s `Ord` puts them (UTF-8 keeps the order of code points).
pub open spec fn text_lt(a: Seq<char>, b: Seq<char>) -> bool {
    lt_from(a, b, 0)
}

proof fn lemma_lt_from_irreflexive(a: Seq<char>, i: int)
    requires
        0 <= i,
    ensures
        !lt_from(a, a, i),
    decreases a.len() - i,
{
    if i < a.len() {
        lemma_lt_from_irreflexive(a, i + 1);
    }
}

proof fn lemma_lt_from_asymmetric(a: Seq<char>, b: Seq<char>, i: int)
    requires
        0 <= i,
        lt_from(a, b, i),
    ensures
        !lt_from(b, a, i),
    decreases a.len() - i,
{
    if i < a.len() && i < b.len() && a[i] == b[i] {
        lemma_lt_from_asymmetric(a, b, i + 1);
    }
}

proof fn lemma_lt_from_transitive(a: Seq<char>, b: Seq<char>, c: Seq<char>, i: int)
    requires
        0 <= i,
        lt_from(a, b, i),
        lt_from(b, c, i),
    ensures
        lt_from(a, c, i),
    decreases a.len() - i,
{
    if i < a.len() && i < b.len() && i < c.len() && a[i] == b[i] && b[i] == c[i] {
        lemma_lt_from_transitive(a, b, c, i + 1);
    }
}

proof fn lemma_lt_from_total(a: Seq<char>, b: Seq<char>, i: int)
    requires
        0 <= i <= a.len(),
        i <= b.len(),
        forall|k: int| 0 <= k < i ==> a[k] == b[k],
    ensures
        lt_from(a, b, i) || lt_from(b, a, i) || a == b,
    decreases a.len() - i,
{
    if i == a.len() && i == b.len() {
        assert(a =~= b);
    } else if i < a.len() && i < b.len() && a[i] == b[i] {
        lemma_lt_from_total(a, b, i + 1);
    }
}

/// The order on texts is a strict total order.
pub proof fn lemma_text_lt_strict_total(a: Seq<char>, b: Seq<char>, c: Seq<char>)
    ensures
        !text_lt(a, a),
        text_lt(a, b) ==> !text_lt(b, a),
        text_lt(a, b) && text_lt(b, c) ==> text_lt(a, c),
        text_lt(a, b) || text_lt(b, a) || a == b,
{
    lemma_lt_from_irreflexive(a, 0);
    if text_lt(a, b) {
        lemma_lt_from_asymmetric(a, b, 0);
    }
    if text_lt(a, b) && text_lt(b, c) {
        lemma_lt_from_transitive(a, b, c, 0);
    }
    lemma_lt_from_total(a, b, 0);
}

/// Three-way comparison of two texts: negative, zero or positive as `a` comes
/// before, equals or comes after `b`.
pub fn compare_chars(a: &Vec<char>, b: &Vec<char>) -> (r: i8)
    ensures
        r < 0 <==> text_lt(a@, b@),
        r == 0 <==> a@ == b@,
        r > 0 <==> text_lt(b@, a@),
{
    proof {
        lemma_text_lt_strict_total(a@, b@, b@);
        lemma_text_lt_strict_total(b@, a@, a@);
    }
    let mut i: usize = 0;
    while i < a.len() && i < b.len() && a[i] == b[i]
        invariant
            i <= a@.len(),
            i <= b@.len(),
            forall|k: int| 0 <= k < i ==> a@[k] == b@[k],
            lt_from(a@, b@, 0) == lt_from(a@, b@, i as int),
            lt_from(b@, a@, 0) == lt_from(b@, a@, i as int),
        decreases a@.len() - i,
    {
        i = i + 1;
    }
    if i == a.len() && i == b.len() {
        assert(a@ =~= b@);
        0
    } else if i == a.len() {
        assert(a@ != b@);
        -1
    } else if i == b.len() {
        assert(a@ != b@);
        1
    } else if a[i] < b[i] {
        assert(a@[i as int] != b@[i as int]);
        -1
    } else {
        assert(a@[i as int] != b@[i as int]);
        1
    }
}

} // verus!

verus! {

/// The decimal digit character for `d` (0 to 9).
pub open spec fn digit_char(d: int) -> char {
    (('0' as int) + d) as char
}

/// The decimal digits of a natural number, most significant first, with no
/// leading zeros (zero itself is `"0"`).
pub open spec fn decimal_digits(n: nat) -> Seq<char>
    decreases n,
{
    if n < 10 {
        seq![digit_char(n as int)]
    } else {
        decimal_digits(n / 10).push(digit_char((n % 10) as int))
    }
}

/// The decimal text of an integer, as `i64::to_string` writes it: a `-` before
/// the digits of a negative number.
pub open spec fn decimal_text(n: int) -> Seq<char> {
    if n < 0 {
        seq!['-'] + decimal_digits((-n) as nat)
    } else {
        decimal_digits(n as nat)
    }
}

/// A decimal text holds no `'.'`.
pub proof fn lemma_decimal_has_no_dot(n: int)
    ensures
        !decimal_text(n).contains('.'),
{
    lemma_digits_have_no_dot((if n < 0 { -n } else { n }) as nat);
    if n < 0 {
        let s = seq!['-'] + decimal_digits((-n) as nat);
        assert forall|k: int| 0 <= k < s.len() implies s[k] != '.' by {
            if k > 0 {
                assert(s[k] == decimal_digits((-n) as nat)[k - 1]);
            }
        }
    }
}

proof fn lemma_digits_have_no_dot(n: nat)
    ensures
        forall|k: int| 0 <= k < decimal_digits(n).len() ==> decimal_digits(n)[k] != '.',
        decimal_digits(n).len() > 0,
    decreases n,
{
    if n >= 10 {
        lemma_digits_have_no_dot(n / 10);
    }
}

proof fn lemma_digits_are_digits(n: nat)
    ensures
        forall|k: int| 0 <= k < decimal_digits(n).len() ==> '0' <= #[trigger] decimal_digits(n)[k] <= '9',
    decreases n,
{
    let s = decimal_digits(n);
    let d = digit_char((n % 10) as int);
    assert('0' <= d <= '9');
    if n >= 10 {
        lemma_digits_are_digits(n / 10);
        assert forall|k: int| 0 <= k < s.len() implies '0' <= #[trigger] s[k] <= '9' by {
            if k < s.len() - 1 {
                assert(s[k] == decimal_digits(n / 10)[k]);
            }
        }
    } else {
        assert(s[0] == d);
    }
}

proof fn lemma_digits_injective(a: nat, b: nat)
    ensures
        decimal_digits(a) == decimal_digits(b) ==> a == b,
    decreases a,
{
    if decimal_digits(a) == decimal_digits(b) {
        lemma_digits_have_no_dot(a / 10);
        lemma_digits_have_no_dot(b / 10);
        if a < 10 && b < 10 {
            assert(decimal_digits(a)[0] == digit_char(a as int));
            assert(decimal_digits(b)[0] == digit_char(b as int));
        } else if a >= 10 && b >= 10 {
            let da = decimal_digits(a);
            assert(da.drop_last() == decimal_digits(a / 10));
            assert(decimal_digits(b).drop_last() == decimal_digits(b / 10));
            assert(da.last() == digit_char((a % 10) as int));
            assert(decimal_digits(b).last() == digit_char((b % 10) as int));
            lemma_digits_injective(a / 10, b / 10);
        } else {
            assert(decimal_digits(a).len() != decimal_digits(b).len());
        }
    }
}

/// Distinct integers have distinct decimal texts.
pub proof fn lemma_decimal_text_injective(a: int, b: int)
    ensures
        decimal_text(a) == decimal_text(b) ==> a == b,
{
    if decimal_text(a) == decimal_text(b) {
        let ma: nat = (if a < 0 { -a } else { a }) as nat;
        let mb: nat = (if b < 0 { -b } else { b }) as nat;
        lemma_digits_are_digits(ma);
        lemma_digits_are_digits(mb);
        lemma_digits_have_no_dot(ma);
        lemma_digits_have_no_dot(mb);
        if a < 0 && b < 0 {
            assert(decimal_digits(ma) =~= decimal_text(a).skip(1));
            assert(decimal_digits(mb) =~= decimal_text(b).skip(1));
            lemma_digits_injective(ma, mb);
        } else if a >= 0 && b >= 0 {
            lemma_digits_injective(ma, mb);
        } else if a < 0 {
            assert(decimal_text(a)[0] == '-');
            assert('0' <= decimal_digits(mb)[0] <= '9');
        } else {
            assert(decimal_text(b)[0] == '-');
            assert('0' <= decimal_digits(ma)[0] <= '9');
        }
    }
}

fn push_digit(s: &mut String, d: u64)
    requires
        d < 10,
    ensures
        final(s)@ == old(s)@.push(digit_char(d as int)),
{
    let t = match d {
        0 => "0",
        1 => "1",
        2 => "2",
        3 => "3",
        4 => "4",
        5 => "5",
        6 => "6",
        7 => "7",
        8 => "8",
        _ => "9",
    };
    proof {
        reveal_strlit("0");
        reveal_strlit("1");
        reveal_strlit("2");
        reveal_strlit("3");
        reveal_strlit("4");
        reveal_strlit("5");
        reveal_strlit("6");
        reveal_strlit("7");
        reveal_strlit("8");
        reveal_strlit("9");
    }
    s.append(t);
}

fn push_decimal_digits(s: &mut String, n: u64)
    ensures
        final(s)@ == old(s)@ + decimal_digits(n as nat),
    decreases n,
{
    if n >= 10 {
        push_decimal_digits(s, n / 10);
    }
    push_digit(s, n % 10);
    assert(decimal_digits(n as nat) == if n < 10 {
        seq![digit_char(n as int)]
    } else {
        decimal_digits((n / 10) as nat).push(digit_char((n % 10) as int))
    });
}

/// The decimal text of `n` (what `n.to_string()` gives).
pub fn decimal_string(n: i64) -> (s: String)
    ensures
        s@ == decimal_text(n as int),
{
    let mut s = String::new();
    if n < 0 {
        s.append("-");
        proof {
            reveal_strlit("-");
        }
        let m: u64 = (0i128 - (n as i128)) as u64;
        push_decimal_digits(&mut s, m);
    } else {
        push_decimal_digits(&mut s, n as u64);
    }
    s
}

} // verus!

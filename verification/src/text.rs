//! Character-level text handling shared by the command language, the
//! record validation and the messages: whitespace, ASCII case folding,
//! word splitting, decimal integers.

use vstd::prelude::*;

verus! {

// ---------- characters ----------

/// Unicode `White_Space` (the set `char::is_whitespace` recognises).
pub open spec fn is_ws(c: char) -> bool {
    ||| ('\u{9}' <= c && c <= '\u{d}')
    ||| c == ' '
    ||| c == '\u{85}'
    ||| c == '\u{a0}'
    ||| c == '\u{1680}'
    ||| ('\u{2000}' <= c && c <= '\u{200a}')
    ||| c == '\u{2028}'
    ||| c == '\u{2029}'
    ||| c == '\u{202f}'
    ||| c == '\u{205f}'
    ||| c == '\u{3000}'
}

pub fn is_whitespace(c: char) -> (r: bool)
    ensures
        r == is_ws(c),
{
    ('\u{9}' <= c && c <= '\u{d}') || c == ' ' || c == '\u{85}' || c == '\u{a0}' || c
        == '\u{1680}' || ('\u{2000}' <= c && c <= '\u{200a}') || c == '\u{2028}' || c
        == '\u{2029}' || c == '\u{202f}' || c == '\u{205f}' || c == '\u{3000}'
}

/// A text made of whitespace only (what `str::trim` turns into "").
pub open spec fn is_blank(s: Seq<char>) -> bool {
    forall|i: int| 0 <= i < s.len() ==> is_ws(#[trigger] s[i])
}

pub open spec fn is_upper(c: char) -> bool {
    'A' <= c && c <= 'Z'
}

pub open spec fn lower_char(c: char) -> char {
    if is_upper(c) {
        ((c as u32) + 32) as char
    } else {
        c
    }
}

/// ASCII lower case, other characters unchanged (`to_ascii_lowercase`).
pub open spec fn lower(s: Seq<char>) -> Seq<char> {
    s.map_values(|c: char| lower_char(c))
}

pub fn to_lower_char(c: char) -> (r: char)
    ensures
        r == lower_char(c),
{
    if 'A' <= c && c <= 'Z' {
        let b: u8 = c as u8;
        let r = (b + 32) as char;
        assert(r == ((c as u32) + 32) as char);
        r
    } else {
        c
    }
}

pub open spec fn is_digit(c: char) -> bool {
    '0' <= c && c <= '9'
}

pub open spec fn is_ascii_alnum(c: char) -> bool {
    ||| is_digit(c)
    ||| ('a' <= c && c <= 'z')
    ||| is_upper(c)
}

// ---------- strings ----------

/// Calls `String::push`: afterwards the string is the old one with `c`
/// appended.
#[verifier::external_body]
pub(crate) fn push_char(s: &mut String, c: char)
    ensures
        final(s)@ == old(s)@.push(c),
{
    s.push(c);
}

/// The characters of a string slice.
pub fn chars_of(s: &str) -> (v: Vec<char>)
    ensures
        v@ == s@,
{
    let n = s.unicode_len();
    let mut v: Vec<char> = Vec::new();
    let mut i: usize = 0;
    while i < n
        invariant
            n == s@.len(),
            i <= n,
            v@ == s@.take(i as int),
        decreases n - i,
    {
        let c = s.get_char(i);
        v.push(c);
        i = i + 1;
        assert(v@ =~= s@.take(i as int));
    }
    assert(v@ =~= s@);
    v
}

/// A string made of the given characters.
pub fn string_of(v: &[char]) -> (s: String)
    ensures
        s@ == v@,
{
    let mut s = String::new();
    let mut i: usize = 0;
    while i < v.len()
        invariant
            i <= v@.len(),
            s@ == v@.take(i as int),
        decreases v@.len() - i,
    {
        push_char(&mut s, v[i]);
        i = i + 1;
        assert(s@ =~= v@.take(i as int));
    }
    assert(v@.take(v@.len() as int) =~= v@);
    s
}

/// Appends a string slice.
pub fn append(s: &mut String, t: &str)
    ensures
        final(s)@ == old(s)@ + t@,
{
    s.append(t);
}

/// `a` followed by `b`, as a new string.
pub fn concat(a: &str, b: &str) -> (r: String)
    ensures
        r@ == a@ + b@,
{
    let mut r = String::from_str(a);
    r.append(b);
    r
}

/// Whether two texts are equal.
pub fn same_text(a: &[char], b: &str) -> (r: bool)
    ensures
        r == (a@ == b@),
{
    let n = b.unicode_len();
    if a.len() != n {
        return false;
    }
    let mut i: usize = 0;
    while i < n
        invariant
            n == b@.len(),
            n == a@.len(),
            i <= n,
            forall|j: int| 0 <= j < i ==> a@[j] == b@[j],
        decreases n - i,
    {
        if a[i] != b.get_char(i) {
            return false;
        }
        i = i + 1;
    }
    assert(a@ =~= b@);
    true
}

/// Whether two strings hold the same text.
pub fn str_eq(a: &str, b: &str) -> (r: bool)
    ensures
        r == (a@ == b@),
{
    let v = chars_of(a);
    same_text(v.as_slice(), b)
}

/// The text of an optional string, empty where there is none.
pub open spec fn text_or_empty(o: Option<String>) -> Seq<char> {
    match o {
        Some(s) => s@,
        None => Seq::empty(),
    }
}

/// Whether an optional string is present and equal to `b`.
pub fn opt_str_is(o: &Option<String>, b: &str) -> (r: bool)
    requires
        b@.len() > 0,
    ensures
        r == (text_or_empty(*o) == b@),
{
    match o {
        Some(s) => str_eq(s.as_str(), b),
        None => {
            assert(Seq::<char>::empty().len() == 0);
            false
        },
    }
}

/// A text without its leading whitespace (`str::trim_start`).
pub open spec fn trim_start(s: Seq<char>) -> Seq<char>
    decreases s.len(),
{
    if s.len() > 0 && is_ws(s[0]) {
        trim_start(s.drop_first())
    } else {
        s
    }
}

/// A text without its trailing whitespace (`str::trim_end`).
pub open spec fn trim_end(s: Seq<char>) -> Seq<char>
    decreases s.len(),
{
    if s.len() > 0 && is_ws(s.last()) {
        trim_end(s.drop_last())
    } else {
        s
    }
}

/// A text without leading or trailing whitespace (`str::trim`).
pub open spec fn trimmed(s: Seq<char>) -> Seq<char> {
    trim_end(trim_start(s))
}

/// The text without leading or trailing whitespace.
pub fn trim(s: &str) -> (r: String)
    ensures
        r@ == trimmed(s@),
{
    let cs = chars_of(s);
    let n = cs.len();
    let mut a: usize = 0;
    assert(cs@.skip(0) =~= cs@);
    while a < n && is_whitespace(cs[a])
        invariant
            n == cs@.len(),
            a <= n,
            trim_start(cs@) == trim_start(cs@.skip(a as int)),
        decreases n - a,
    {
        assert(cs@.skip(a as int).drop_first() =~= cs@.skip(a + 1));
        a = a + 1;
    }
    let ghost st = cs@.skip(a as int);
    assert(cs@.skip(0) =~= cs@);
    assert(trim_start(cs@) == st);
    let mut b: usize = n;
    assert(cs@.subrange(a as int, n as int) =~= st);
    while b > a && is_whitespace(cs[b - 1])
        invariant
            n == cs@.len(),
            a <= b <= n,
            st == cs@.skip(a as int),
            trim_end(st) == trim_end(cs@.subrange(a as int, b as int)),
        decreases b - a,
    {
        assert(cs@.subrange(a as int, b as int).drop_last() =~= cs@.subrange(a as int, b - 1));
        b = b - 1;
    }
    let mid = vstd::slice::slice_subrange(cs.as_slice(), a, b);
    assert(mid@ =~= cs@.subrange(a as int, b as int));
    string_of(mid)
}

/// Whether `p` begins the text `a`.
pub fn starts_with(a: &[char], p: &str) -> (r: bool)
    ensures
        r == p@.is_prefix_of(a@),
{
    let n = p.unicode_len();
    if n > a.len() {
        return false;
    }
    let mut i: usize = 0;
    while i < n
        invariant
            n == p@.len(),
            n <= a@.len(),
            i <= n,
            forall|j: int| 0 <= j < i ==> a@[j] == p@[j],
        decreases n - i,
    {
        if a[i] != p.get_char(i) {
            return false;
        }
        i = i + 1;
    }
    true
}

/// The ASCII lower case of a text.
pub fn lowercase(a: &[char]) -> (r: Vec<char>)
    ensures
        r@ == lower(a@),
{
    let mut r: Vec<char> = Vec::new();
    let mut i: usize = 0;
    while i < a.len()
        invariant
            i <= a@.len(),
            r@ == lower(a@.take(i as int)),
        decreases a@.len() - i,
    {
        let c = to_lower_char(a[i]);
        r.push(c);
        i = i + 1;
        assert(r@ =~= lower(a@.take(i as int)));
    }
    assert(a@.take(a@.len() as int) =~= a@);
    r
}

/// Whether the text is whitespace only.
pub fn blank(a: &[char]) -> (r: bool)
    ensures
        r == is_blank(a@),
{
    let mut i: usize = 0;
    while i < a.len()
        invariant
            i <= a@.len(),
            forall|j: int| 0 <= j < i ==> is_ws(#[trigger] a@[j]),
        decreases a@.len() - i,
    {
        if !is_whitespace(a[i]) {
            return false;
        }
        i = i + 1;
    }
    true
}

/// Whether the string is whitespace only.
pub fn str_blank(s: &str) -> (r: bool)
    ensures
        r == is_blank(s@),
{
    let v = chars_of(s);
    blank(v.as_slice())
}

/// The position of the first `c` in `s`.
pub open spec fn find_char(s: Seq<char>, c: char) -> Option<nat>
    decreases s.len(),
{
    if s.len() == 0 {
        None
    } else if s[0] == c {
        Some(0)
    } else {
        match find_char(s.drop_first(), c) {
            Some(k) => Some(k + 1),
            None => None,
        }
    }
}

proof fn lemma_find_char(s: Seq<char>, c: char, k: int)
    requires
        0 <= k <= s.len(),
        forall|j: int| 0 <= j < k ==> s[j] != c,
    ensures
        k < s.len() && s[k] == c ==> find_char(s, c) == Some(k as nat),
        k == s.len() ==> find_char(s, c) is None,
    decreases s.len(),
{
    if s.len() > 0 && k > 0 {
        let t = s.drop_first();
        assert forall|j: int| 0 <= j < k - 1 implies t[j] != c by {
            assert(t[j] == s[j + 1]);
        };
        lemma_find_char(t, c, k - 1);
    }
}

/// The position of the first `c` in `a` (what `split_once` splits at).
pub fn first_index(a: &[char], c: char) -> (r: Option<usize>)
    ensures
        match r {
            Some(k) => find_char(a@, c) == Some(k as nat) && k < a@.len(),
            None => find_char(a@, c) is None,
        },
{
    let mut i: usize = 0;
    while i < a.len()
        invariant
            i <= a@.len(),
            forall|j: int| 0 <= j < i ==> a@[j] != c,
        decreases a@.len() - i,
    {
        if a[i] == c {
            proof {
                lemma_find_char(a@, c, i as int);
            }
            return Some(i);
        }
        i = i + 1;
    }
    proof {
        lemma_find_char(a@, c, i as int);
    }
    None
}

/// Whether `t` occurs in `s`.
pub open spec fn contains_text(s: Seq<char>, t: Seq<char>) -> bool {
    exists|i: int| 0 <= i && i + t.len() <= s.len() && #[trigger] s.subrange(i, i + t.len()) == t
}

/// Whether `t` occurs in `a` (`str::contains`).
pub fn contains(a: &[char], t: &str) -> (r: bool)
    ensures
        r == contains_text(a@, t@),
{
    let tv = chars_of(t);
    let n = tv.len();
    if n > a.len() {
        assert forall|i: int| 0 <= i && i + t@.len() <= a@.len() implies #[trigger] a@.subrange(i, i + t@.len()) != t@ by {};
        return false;
    }
    let mut i: usize = 0;
    while i <= a.len() - n
        invariant
            n == t@.len(),
            tv@ == t@,
            n <= a@.len(),
            i <= a@.len() - n + 1,
            forall|k: int| 0 <= k < i ==> #[trigger] a@.subrange(k, k + n) != t@,
        decreases a@.len() - n + 1 - i,
    {
        let mut j: usize = 0;
        let mut same = true;
        while j < n
            invariant
                n == t@.len(),
                tv@ == t@,
                i + n <= a@.len(),
                j <= n,
                same == (forall|m: int| 0 <= m < j ==> a@[i + m] == t@[m]),
            decreases n - j,
        {
            assert(i + j < a@.len());
            assert(a@.len() == a.len());
            if a[i + j] != tv[j] {
                same = false;
            }
            j = j + 1;
        }
        if same {
            assert(a@.subrange(i as int, i + n) =~= t@);
            return true;
        }
        assert(a@.subrange(i as int, i + n) != t@) by {
            let m = choose|m: int| 0 <= m < n && a@[i + m] != t@[m];
            assert(a@.subrange(i as int, i + n)[m] == a@[i + m]);
        };
        i = i + 1;
    }
    false
}

// ---------- words ----------

/// Splitting at whitespace, left to right: `cur` is the word being read,
/// `acc` the words already complete.
pub open spec fn words_from(s: Seq<char>, cur: Seq<char>, acc: Seq<Seq<char>>) -> Seq<Seq<char>>
    decreases s.len(),
{
    if s.len() == 0 {
        if cur.len() > 0 {
            acc.push(cur)
        } else {
            acc
        }
    } else if is_ws(s[0]) {
        words_from(s.drop_first(), seq![], if cur.len() > 0 { acc.push(cur) } else { acc })
    } else {
        words_from(s.drop_first(), cur.push(s[0]), acc)
    }
}

/// The maximal runs of non-whitespace characters, in order
/// (what `str::split_whitespace` yields).
pub open spec fn words(s: Seq<char>) -> Seq<Seq<char>> {
    words_from(s, seq![], seq![])
}

pub open spec fn views(v: Seq<Vec<char>>) -> Seq<Seq<char>> {
    v.map_values(|w: Vec<char>| w@)
}

/// The words of a text.
pub fn split_words(a: &[char]) -> (r: Vec<Vec<char>>)
    ensures
        views(r@) == words(a@),
{
    let mut acc: Vec<Vec<char>> = Vec::new();
    let mut cur: Vec<char> = Vec::new();
    let mut i: usize = 0;
    assert(a@.skip(0) =~= a@);
    assert(views(acc@) =~= Seq::<Seq<char>>::empty());
    while i < a.len()
        invariant
            i <= a@.len(),
            words(a@) == words_from(a@.skip(i as int), cur@, views(acc@)),
        decreases a@.len() - i,
    {
        let c = a[i];
        let ghost rest = a@.skip(i as int);
        assert(rest.drop_first() =~= a@.skip(i + 1));
        if is_whitespace(c) {
            if cur.len() > 0 {
                let ghost before = acc@;
                let w = cur;
                acc.push(w);
                cur = Vec::new();
                assert(views(acc@) =~= views(before).push(w@));
            }
            assert(cur@ =~= Seq::<char>::empty());
        } else {
            cur.push(c);
        }
        i = i + 1;
    }
    if cur.len() > 0 {
        let ghost before = acc@;
        let w = cur;
        acc.push(w);
        assert(views(acc@) =~= views(before).push(w@));
    }
    assert(a@.skip(a@.len() as int) =~= Seq::<char>::empty());
    assert(views(acc@) =~= words(a@));
    acc
}

// ---------- decimal integers ----------

pub open spec fn digit_val(c: char) -> int {
    (c as int) - ('0' as int)
}

pub open spec fn all_digits(s: Seq<char>) -> bool {
    forall|i: int| 0 <= i < s.len() ==> is_digit(#[trigger] s[i])
}

/// The value of a run of decimal digits.
pub open spec fn digits_value(s: Seq<char>) -> int
    decreases s.len(),
{
    if s.len() == 0 {
        0
    } else {
        digits_value(s.drop_last()) * 10 + digit_val(s.last())
    }
}

/// An optionally signed run of decimal digits, and its value
/// (the syntax `FromStr` accepts for integers).
pub open spec fn int_literal(s: Seq<char>) -> Option<int> {
    if s.len() > 0 && (s[0] == '-' || s[0] == '+') {
        let d = s.drop_first();
        if d.len() > 0 && all_digits(d) {
            Some(
                if s[0] == '-' {
                    -digits_value(d)
                } else {
                    digits_value(d)
                },
            )
        } else {
            None
        }
    } else if s.len() > 0 && all_digits(s) {
        Some(digits_value(s))
    } else {
        None
    }
}

/// What `<i64 as FromStr>::from_str` gives back for a text.
pub open spec fn parse_i64_spec(s: Seq<char>) -> Option<i64> {
    match int_literal(s) {
        Some(v) => if i64::MIN <= v && v <= i64::MAX {
            Some(v as i64)
        } else {
            None
        },
        None => None,
    }
}

/// What `<i32 as FromStr>::from_str` gives back for a text.
pub open spec fn parse_i32_spec(s: Seq<char>) -> Option<i32> {
    match int_literal(s) {
        Some(v) => if i32::MIN <= v && v <= i32::MAX {
            Some(v as i32)
        } else {
            None
        },
        None => None,
    }
}

proof fn lemma_digits_value_nonneg(s: Seq<char>)
    requires
        all_digits(s),
    ensures
        digits_value(s) >= 0,
    decreases s.len(),
{
    if s.len() > 0 {
        assert(all_digits(s.drop_last()));
        lemma_digits_value_nonneg(s.drop_last());
        assert(is_digit(s[s.len() - 1]));
    }
}

proof fn lemma_digits_value_grows(s: Seq<char>, i: int)
    requires
        all_digits(s),
        0 <= i <= s.len(),
    ensures
        digits_value(s.take(i)) <= digits_value(s),
    decreases s.len() - i,
{
    if i < s.len() {
        lemma_digits_value_grows(s, i + 1);
        let t = s.take(i + 1);
        assert(t.drop_last() =~= s.take(i));
        assert(all_digits(s.take(i)));
        lemma_digits_value_nonneg(s.take(i));
        assert(is_digit(t.last()));
    } else {
        assert(s.take(i) =~= s);
    }
}

/// The value of an all-digit text, or None where it exceeds `limit`.
fn digits_up_to(d: &[char], limit: u64) -> (r: Option<u64>)
    requires
        all_digits(d@),
        d@.len() > 0,
        limit >= 9,
    ensures
        match r {
            Some(v) => v == digits_value(d@) && v <= limit,
            None => digits_value(d@) > limit,
        },
{
    let mut acc: u64 = 0;
    let mut i: usize = 0;
    while i < d.len()
        invariant
            all_digits(d@),
            i <= d@.len(),
            acc == digits_value(d@.take(i as int)),
            acc <= limit,
            limit >= 9,
        decreases d@.len() - i,
    {
        let c = d[i];
        assert(is_digit(d@[i as int]));
        assert('0' <= c && c <= '9');
        let dv: u64 = (c as u64) - ('0' as u64);
        assert(dv <= 9);
        let ghost t = d@.take(i + 1);
        assert(t.drop_last() =~= d@.take(i as int));
        assert(t.last() == c);
        if acc > (limit - dv) / 10 {
            // acc * 10 + dv > limit
            assert(digits_value(t) == acc * 10 + dv);
            proof {
                lemma_digits_value_grows(d@, i + 1);
            }
            return None;
        }
        acc = acc * 10 + dv;
        i = i + 1;
    }
    assert(d@.take(d@.len() as int) =~= d@);
    Some(acc)
}

/// A decimal integer between `-neg_limit` and `pos_limit`.
fn parse_bounded(s: &[char], neg_limit: u64, pos_limit: u64) -> (r: Option<(bool, u64)>)
    requires
        neg_limit >= 9,
        pos_limit >= 9,
    ensures
        match r {
            Some((neg, m)) => int_literal(s@) == Some(if neg { -(m as int) } else { m as int })
                && (if neg { m <= neg_limit } else { m <= pos_limit }),
            None => match int_literal(s@) {
                Some(v) => v < -(neg_limit as int) || v > pos_limit,
                None => true,
            },
        },
{
    if s.len() == 0 {
        return None;
    }
    let (neg, start): (bool, usize) = if s[0] == '-' {
        (true, 1)
    } else if s[0] == '+' {
        (false, 1)
    } else {
        (false, 0)
    };
    let d = vstd::slice::slice_subrange(s, start, s.len());
    assert(d@ =~= s@.skip(start as int));
    if d.len() == 0 {
        return None;
    }
    let mut i: usize = 0;
    while i < d.len()
        invariant
            i <= d@.len(),
            d@ == s@.skip(start as int),
            s@.len() > 0,
            start == 0 || !is_digit(s@[0]),
            start <= 1,
            (start == 1) == (s@[0] == '-' || s@[0] == '+'),
            forall|j: int| 0 <= j < i ==> is_digit(#[trigger] d@[j]),
        decreases d@.len() - i,
    {
        if !(d[i] >= '0' && d[i] <= '9') {
            assert(!all_digits(d@));
            assert(!all_digits(s@)) by {
                if start == 0 {
                    assert(d@ =~= s@);
                } else {
                    assert(!is_digit(s@[0]));
                    assert(d@ =~= s@.drop_first());
                }
            };
            return None;
        }
        i = i + 1;
    }
    assert(all_digits(d@));
    if start == 1 {
        assert(d@ =~= s@.drop_first());
    } else {
        assert(d@ =~= s@);
    }
    let limit = if neg { neg_limit } else { pos_limit };
    match digits_up_to(d, limit) {
        Some(m) => Some((neg, m)),
        None => None,
    }
}

/// Parses a text as `i64` (`<i64 as FromStr>::from_str`).
pub fn parse_i64(s: &[char]) -> (r: Option<i64>)
    ensures
        r == parse_i64_spec(s@),
{
    match parse_bounded(s, 9223372036854775808u64, 9223372036854775807u64) {
        Some((neg, m)) => {
            if neg {
                let v: i128 = -(m as i128);
                Some(v as i64)
            } else {
                Some(m as i64)
            }
        },
        None => None,
    }
}

/// Parses a text as `i32` (`<i32 as FromStr>::from_str`).
pub fn parse_i32(s: &[char]) -> (r: Option<i32>)
    ensures
        r == parse_i32_spec(s@),
{
    match parse_bounded(s, 2147483648u64, 2147483647u64) {
        Some((neg, m)) => {
            if neg {
                let v: i64 = -(m as i64);
                Some(v as i32)
            } else {
                Some(m as i32)
            }
        },
        None => None,
    }
}

pub open spec fn digit_char(d: nat) -> char {
    ((d + 48) as u32) as char
}

/// The decimal digits of a natural number, without leading zeros.
pub open spec fn decimal(n: nat) -> Seq<char>
    decreases n,
{
    if n < 10 {
        seq![digit_char(n)]
    } else {
        decimal(n / 10).push(digit_char(n % 10))
    }
}

/// The decimal form of an integer (its `Display`).
pub open spec fn int_decimal(i: int) -> Seq<char> {
    if i < 0 {
        seq!['-'] + decimal((-i) as nat)
    } else {
        decimal(i as nat)
    }
}

/// Appends the decimal digits of `n`.
pub fn push_decimal(s: &mut String, n: u128)
    ensures
        final(s)@ == old(s)@ + decimal(n as nat),
    decreases n,
{
    if n >= 10 {
        push_decimal(s, n / 10);
    }
    let d: u8 = (n % 10) as u8;
    let c = (d + 48) as char;
    assert(c == digit_char((n % 10) as nat));
    push_char(s, c);
    if n >= 10 {
        assert(s@ =~= old(s)@ + decimal(n as nat));
    } else {
        assert(s@ =~= old(s)@ + decimal(n as nat));
    }
}

/// Appends the decimal form of `v`.
pub fn push_int(s: &mut String, v: i64)
    ensures
        final(s)@ == old(s)@ + int_decimal(v as int),
{
    if v < 0 {
        push_char(s, '-');
        let m: i128 = -(v as i128);
        push_decimal(s, m as u128);
        assert(s@ =~= old(s)@ + int_decimal(v as int));
    } else {
        push_decimal(s, v as u128);
    }
}

/// The decimal form of `v` (`v.to_string()`).
pub fn int_to_string(v: i64) -> (r: String)
    ensures
        r@ == int_decimal(v as int),
{
    let mut s = String::new();
    push_int(&mut s, v);
    assert(s@ =~= int_decimal(v as int));
    s
}

} // verus!

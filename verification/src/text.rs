//! Character-level helpers over `Seq<char>` with verified executable counterparts.

use vstd::prelude::*;

verus! {

/// The Unicode `White_Space` property, which `char::is_whitespace` and `str::trim` use.
pub open spec fn is_ws(c: char) -> bool {
    ||| ('\t' <= c && c <= '\r')
    ||| c == ' '
    ||| c == '\u{85}'
    ||| c == '\u{a0}'
    ||| c == '\u{1680}'
    ||| ('\u{2000}' <= c && c <= '\u{200a}')
    ||| c == '\u{2028}'
    ||| c == '\u{2029}'
    ||| c == '\u{202f}'
    ||| c == '\u{205f}'
    ||| c == '\u{3000}'
}

/// `s` without its leading whitespace.
pub open spec fn trim_start_seq(s: Seq<char>) -> Seq<char>
    decreases s.len(),
{
    if s.len() > 0 && is_ws(s[0]) {
        trim_start_seq(s.drop_first())
    } else {
        s
    }
}

/// `s` without its trailing whitespace.
pub open spec fn trim_end_seq(s: Seq<char>) -> Seq<char>
    decreases s.len(),
{
    if s.len() > 0 && is_ws(s.last()) {
        trim_end_seq(s.drop_last())
    } else {
        s
    }
}

/// `s` without leading and trailing whitespace, as `str::trim` gives it.
pub open spec fn trim_seq(s: Seq<char>) -> Seq<char> {
    trim_end_seq(trim_start_seq(s))
}

proof fn lemma_trim_start_shape(s: Seq<char>)
    ensures
        exists|k: int| 0 <= k <= s.len() && trim_start_seq(s) == #[trigger] s.skip(k),
        trim_start_seq(s).len() > 0 ==> !is_ws(trim_start_seq(s)[0]),
    decreases s.len(),
{
    if s.len() > 0 && is_ws(s[0]) {
        lemma_trim_start_shape(s.drop_first());
        let k = choose|k: int| 0 <= k <= s.drop_first().len() && trim_start_seq(s.drop_first()) == #[trigger] s.drop_first().skip(k);
        assert(s.drop_first().skip(k) =~= s.skip(k + 1));
    } else {
        assert(s.skip(0) =~= s);
    }
}

proof fn lemma_trim_end_shape(s: Seq<char>)
    ensures
        exists|k: int| 0 <= k <= s.len() && trim_end_seq(s) == #[trigger] s.take(k),
        trim_end_seq(s).len() > 0 ==> !is_ws(trim_end_seq(s).last()),
    decreases s.len(),
{
    if s.len() > 0 && is_ws(s.last()) {
        lemma_trim_end_shape(s.drop_last());
        let k = choose|k: int| 0 <= k <= s.drop_last().len() && trim_end_seq(s.drop_last()) == #[trigger] s.drop_last().take(k);
        assert(s.drop_last().take(k) =~= s.take(k));
    } else {
        assert(s.take(s.len() as int) =~= s);
    }
}

proof fn lemma_trim_end_fixed(s: Seq<char>)
    requires
        s.len() == 0 || !is_ws(s.last()),
    ensures
        trim_end_seq(s) == s,
{
}

/// Trimming twice trims no more than trimming once.
pub proof fn lemma_trim_idempotent(s: Seq<char>)
    ensures
        trim_seq(trim_seq(s)) == trim_seq(s),
{
    let a = trim_start_seq(s);
    let u = trim_end_seq(a);
    lemma_trim_start_shape(s);
    lemma_trim_end_shape(a);
    let k = choose|k: int| 0 <= k <= a.len() && u == #[trigger] a.take(k);
    if u.len() > 0 {
        assert(u[0] == a[0]);
        assert(trim_start_seq(u) == u);
    } else {
        assert(trim_start_seq(u) == u);
    }
    lemma_trim_end_fixed(u);
}

pub fn is_whitespace(c: char) -> (r: bool)
    ensures
        r == is_ws(c),
{
    ('\t' <= c && c <= '\r') || c == ' ' || c == '\u{85}' || c == '\u{a0}' || c == '\u{1680}'
        || ('\u{2000}' <= c && c <= '\u{200a}') || c == '\u{2028}' || c == '\u{2029}'
        || c == '\u{202f}' || c == '\u{205f}' || c == '\u{3000}'
}

/// The characters of `s`, in order.
pub fn chars_of(s: &str) -> (out: Vec<char>)
    ensures
        out@ == s@,
{
    let mut out: Vec<char> = Vec::new();
    for c in it: s.chars()
        invariant
            out@ == it.seq().take(it.index() as int),
            it.seq() == s@,
    {
        out.push(c);
    }
    out
}

/// The characters of `s` from `start` up to `end`.
pub fn slice_chars(s: &Vec<char>, start: usize, end: usize) -> (out: Vec<char>)
    requires
        start <= end <= s.len(),
    ensures
        out@ == s@.subrange(start as int, end as int),
{
    let mut out: Vec<char> = Vec::new();
    let mut i = start;
    while i < end
        invariant
            start <= i <= end <= s.len(),
            out@ == s@.subrange(start as int, i as int),
        decreases end - i,
    {
        out.push(s[i]);
        i += 1;
    }
    out
}

/// `s` without leading and trailing whitespace.
pub fn trim_chars(s: &Vec<char>) -> (out: Vec<char>)
    ensures
        out@ == trim_seq(s@),
{
    let mut i: usize = 0;
    assert(s@.skip(0) =~= s@);
    while i < s.len() && is_whitespace(s[i])
        invariant
            i <= s.len(),
            trim_start_seq(s@) == trim_start_seq(s@.skip(i as int)),
        decreases s.len() - i,
    {
        assert(s@.skip(i as int).drop_first() =~= s@.skip(i + 1));
        i += 1;
    }
    assert(trim_start_seq(s@) == s@.subrange(i as int, s@.len() as int)) by {
        assert(s@.skip(i as int) =~= s@.subrange(i as int, s@.len() as int));
    }
    let mut j: usize = s.len();
    while j > i && is_whitespace(s[j - 1])
        invariant
            i <= j <= s.len(),
            trim_seq(s@) == trim_end_seq(s@.subrange(i as int, j as int)),
        decreases j,
    {
        assert(s@.subrange(i as int, j as int).drop_last() =~= s@.subrange(i as int, j - 1));
        j -= 1;
    }
    slice_chars(s, i, j)
}

/// `s` without its trailing whitespace, as a new `String`.
pub fn trim_end(s: &str) -> (out: String)
    ensures
        out@ == trim_end_seq(s@),
{
    let cs = chars_of(s);
    let mut j: usize = cs.len();
    assert(cs@.subrange(0, j as int) =~= cs@);
    while j > 0 && is_whitespace(cs[j - 1])
        invariant
            j <= cs.len(),
            trim_end_seq(s@) == trim_end_seq(cs@.subrange(0, j as int)),
        decreases j,
    {
        assert(cs@.subrange(0, j as int).drop_last() =~= cs@.subrange(0, j - 1));
        j -= 1;
    }
    to_string(&slice_chars(&cs, 0, j))
}

/// `s` without leading and trailing whitespace, as a new `String`.
pub fn trim(s: &str) -> (out: String)
    ensures
        out@ == trim_seq(s@),
{
    let cs = chars_of(s);
    let t = trim_chars(&cs);
    crate::external::string_from_chars(t.as_slice())
}


// ---------------------------------------------------------------------------
// ASCII classes and case
// ---------------------------------------------------------------------------

pub open spec fn is_digit_c(c: char) -> bool {
    '0' <= c && c <= '9'
}

pub open spec fn is_lower_c(c: char) -> bool {
    'a' <= c && c <= 'z'
}

pub open spec fn is_upper_c(c: char) -> bool {
    'A' <= c && c <= 'Z'
}

/// `char::is_ascii_alphanumeric`.
pub open spec fn is_alnum_c(c: char) -> bool {
    is_digit_c(c) || is_lower_c(c) || is_upper_c(c)
}

/// `char::is_ascii_hexdigit`.
pub open spec fn is_hex_c(c: char) -> bool {
    is_digit_c(c) || ('a' <= c && c <= 'f') || ('A' <= c && c <= 'F')
}

/// `char::to_ascii_uppercase`.
pub open spec fn upper_c(c: char) -> char {
    if is_lower_c(c) {
        ((c as int) - 32) as char
    } else {
        c
    }
}

/// `char::to_ascii_lowercase`.
pub open spec fn lower_c(c: char) -> char {
    if is_upper_c(c) {
        ((c as int) + 32) as char
    } else {
        c
    }
}

/// `str::to_ascii_uppercase`.
pub open spec fn upper_seq(s: Seq<char>) -> Seq<char> {
    Seq::new(s.len(), |i: int| upper_c(s[i]))
}

/// `str::to_ascii_lowercase`.
pub open spec fn lower_seq(s: Seq<char>) -> Seq<char> {
    Seq::new(s.len(), |i: int| lower_c(s[i]))
}

pub fn is_alnum(c: char) -> (r: bool)
    ensures
        r == is_alnum_c(c),
{
    ('0' <= c && c <= '9') || ('a' <= c && c <= 'z') || ('A' <= c && c <= 'Z')
}

pub fn is_hex(c: char) -> (r: bool)
    ensures
        r == is_hex_c(c),
{
    ('0' <= c && c <= '9') || ('a' <= c && c <= 'f') || ('A' <= c && c <= 'F')
}

pub fn upper(c: char) -> (r: char)
    ensures
        r == upper_c(c),
{
    if 'a' <= c && c <= 'z' {
        ((c as u8) - 32) as char
    } else {
        c
    }
}

pub fn lower(c: char) -> (r: char)
    ensures
        r == lower_c(c),
{
    if 'A' <= c && c <= 'Z' {
        ((c as u8) + 32) as char
    } else {
        c
    }
}

pub fn upper_chars(s: &Vec<char>) -> (out: Vec<char>)
    ensures
        out@ == upper_seq(s@),
{
    let mut out: Vec<char> = Vec::new();
    for i in 0..s.len()
        invariant
            out@ == upper_seq(s@).take(i as int),
    {
        out.push(upper(s[i]));
        assert(out@ =~= upper_seq(s@).take(i + 1));
    }
    assert(upper_seq(s@).take(s.len() as int) =~= upper_seq(s@));
    out
}

pub fn lower_chars(s: &Vec<char>) -> (out: Vec<char>)
    ensures
        out@ == lower_seq(s@),
{
    let mut out: Vec<char> = Vec::new();
    for i in 0..s.len()
        invariant
            out@ == lower_seq(s@).take(i as int),
    {
        out.push(lower(s[i]));
        assert(out@ =~= lower_seq(s@).take(i + 1));
    }
    assert(lower_seq(s@).take(s.len() as int) =~= lower_seq(s@));
    out
}

// ---------------------------------------------------------------------------
// Comparison and search
// ---------------------------------------------------------------------------

/// `s` begins with `p`.
pub open spec fn has_prefix(s: Seq<char>, p: Seq<char>) -> bool {
    p.len() <= s.len() && s.subrange(0, p.len() as int) == p
}

/// `p` stands in `s` at index `i`.
pub open spec fn occurs_at(s: Seq<char>, p: Seq<char>, i: int) -> bool {
    0 <= i && i + p.len() <= s.len() && s.subrange(i, i + p.len()) == p
}

/// `p` stands somewhere in `s`.
pub open spec fn occurs_in(s: Seq<char>, p: Seq<char>) -> bool {
    exists|i: int| occurs_at(s, p, i)
}

/// `i` is where `p` first stands in `s`.
pub open spec fn is_first_occ(s: Seq<char>, p: Seq<char>, i: int) -> bool {
    occurs_at(s, p, i) && forall|k: int| 0 <= k < i ==> !occurs_at(s, p, k)
}

/// Where `p` first stands in `s` (meaningful when it stands there).
pub open spec fn first_occ(s: Seq<char>, p: Seq<char>) -> int {
    choose|i: int| is_first_occ(s, p, i)
}

/// `i` is the first index of `c` in `s`.
pub open spec fn is_first_char(s: Seq<char>, c: char, i: int) -> bool {
    0 <= i < s.len() && s[i] == c && forall|k: int| 0 <= k < i ==> s[k] != c
}

/// The first index of `c` in `s` (meaningful when `s` holds `c`).
pub open spec fn first_char(s: Seq<char>, c: char) -> int {
    choose|i: int| is_first_char(s, c, i)
}

/// `i` is the last index of `c` in `s`.
pub open spec fn is_last_char(s: Seq<char>, c: char, i: int) -> bool {
    0 <= i < s.len() && s[i] == c && forall|k: int| i < k < s.len() ==> s[k] != c
}

/// The last index of `c` in `s` (meaningful when `s` holds `c`).
pub open spec fn last_char(s: Seq<char>, c: char) -> int {
    choose|i: int| is_last_char(s, c, i)
}

/// How many times `c` occurs in `s`.
pub open spec fn count_char(s: Seq<char>, c: char) -> nat
    decreases s.len(),
{
    if s.len() == 0 {
        0
    } else {
        count_char(s.drop_last(), c) + if s.last() == c { 1nat } else { 0nat }
    }
}

pub proof fn lemma_first_occ(s: Seq<char>, p: Seq<char>, i: int)
    requires
        is_first_occ(s, p, i),
    ensures
        first_occ(s, p) == i,
{
    let j = first_occ(s, p);
    assert(is_first_occ(s, p, j));
    if j < i {
        assert(!occurs_at(s, p, j));
    } else if i < j {
        assert(!occurs_at(s, p, i));
    }
}

pub proof fn lemma_first_char(s: Seq<char>, c: char, i: int)
    requires
        is_first_char(s, c, i),
    ensures
        first_char(s, c) == i,
{
    let j = first_char(s, c);
    assert(is_first_char(s, c, j));
    if j < i {
        assert(s[j] != c);
    } else if i < j {
        assert(s[i] != c);
    }
}

pub proof fn lemma_last_char(s: Seq<char>, c: char, i: int)
    requires
        is_last_char(s, c, i),
    ensures
        last_char(s, c) == i,
{
    let j = last_char(s, c);
    assert(is_last_char(s, c, j));
    if j < i {
        assert(s[i] != c);
    } else if i < j {
        assert(s[j] != c);
    }
}

pub fn chars_eq(a: &Vec<char>, b: &Vec<char>) -> (r: bool)
    ensures
        r == (a@ == b@),
{
    if a.len() != b.len() {
        return false;
    }
    for i in 0..a.len()
        invariant
            a.len() == b.len(),
            forall|k: int| 0 <= k < i ==> a@[k] == b@[k],
    {
        if a[i] != b[i] {
            return false;
        }
    }
    assert(a@ =~= b@);
    true
}

/// Whether `p` stands in `s` at index `i`.
pub fn matches_at(s: &Vec<char>, p: &Vec<char>, i: usize) -> (r: bool)
    ensures
        r == occurs_at(s@, p@, i as int),
{
    if i > s.len() || p.len() > s.len() - i {
        return false;
    }
    for k in 0..p.len()
        invariant
            i + p.len() <= s.len(),
            forall|m: int| 0 <= m < k ==> s@[i + m] == p@[m],
    {
        if s[i + k] != p[k] {
            assert(s@.subrange(i as int, i + p.len())[k as int] != p@[k as int]);
            return false;
        }
    }
    assert(s@.subrange(i as int, i + p.len()) =~= p@);
    true
}

pub fn starts_with(s: &Vec<char>, p: &Vec<char>) -> (r: bool)
    ensures
        r == has_prefix(s@, p@),
{
    matches_at(s, p, 0)
}

/// Where `p` first stands in `s`.
pub fn find_seq(s: &Vec<char>, p: &Vec<char>) -> (r: Option<usize>)
    ensures
        match r {
            Some(i) => is_first_occ(s@, p@, i as int) && first_occ(s@, p@) == i,
            None => !occurs_in(s@, p@),
        },
{
    for i in 0..s.len()
        invariant
            forall|k: int| 0 <= k < i ==> !occurs_at(s@, p@, k),
    {
        if matches_at(s, p, i) {
            proof {
                lemma_first_occ(s@, p@, i as int);
            }
            return Some(i);
        }
    }
    let n = s.len();
    if matches_at(s, p, n) {
        proof {
            lemma_first_occ(s@, p@, n as int);
        }
        return Some(n);
    }
    assert forall|k: int| !occurs_at(s@, p@, k) by {
        if 0 <= k < n {
        }
    }
    None
}

/// The first index of `c` in `s`.
pub fn find_char(s: &Vec<char>, c: char) -> (r: Option<usize>)
    ensures
        match r {
            Some(i) => is_first_char(s@, c, i as int) && first_char(s@, c) == i,
            None => !s@.contains(c),
        },
{
    for i in 0..s.len()
        invariant
            forall|k: int| 0 <= k < i ==> s@[k] != c,
    {
        if s[i] == c {
            proof {
                lemma_first_char(s@, c, i as int);
            }
            return Some(i);
        }
    }
    None
}

/// The last index of `c` in `s`.
pub fn rfind_char(s: &Vec<char>, c: char) -> (r: Option<usize>)
    ensures
        match r {
            Some(i) => is_last_char(s@, c, i as int) && last_char(s@, c) == i,
            None => !s@.contains(c),
        },
{
    let mut j: usize = s.len();
    while j > 0
        invariant
            j <= s.len(),
            forall|k: int| j <= k < s.len() ==> s@[k] != c,
        decreases j,
    {
        if s[j - 1] == c {
            proof {
                lemma_last_char(s@, c, j - 1);
            }
            return Some(j - 1);
        }
        j -= 1;
    }
    None
}

pub fn contains_char(s: &Vec<char>, c: char) -> (r: bool)
    ensures
        r == s@.contains(c),
{
    match find_char(s, c) {
        Some(i) => true,
        None => false,
    }
}

pub fn count_of(s: &Vec<char>, c: char) -> (r: usize)
    ensures
        r == count_char(s@, c),
{
    let mut n: usize = 0;
    for i in 0..s.len()
        invariant
            n == count_char(s@.take(i as int), c),
            n <= i,
    {
        assert(s@.take(i + 1).drop_last() =~= s@.take(i as int));
        if s[i] == c {
            n += 1;
        }
    }
    assert(s@.take(s.len() as int) =~= s@);
    n
}

/// `a` followed by `b`.
pub fn concat(a: &Vec<char>, b: &Vec<char>) -> (out: Vec<char>)
    ensures
        out@ == a@ + b@,
{
    let mut out = a.clone();
    let mut rest = b.clone();
    out.append(&mut rest);
    out
}


// ---------------------------------------------------------------------------
// Numbers as text
// ---------------------------------------------------------------------------

/// The ASCII digit for `d` (below ten).
pub open spec fn digit_char(d: nat) -> char {
    ((d as int) + 48) as char
}

/// The decimal text of `n`, as `Display` writes it.
pub open spec fn nat_text(n: nat) -> Seq<char>
    decreases n,
{
    if n < 10 {
        seq![digit_char(n)]
    } else {
        nat_text(n / 10).push(digit_char(n % 10))
    }
}

/// The decimal text of `n` is digits only, it starts with a digit, and it reads back as `n`.
pub proof fn lemma_nat_text_reads_back(n: nat)
    ensures
        nat_text(n).len() > 0,
        forall|i: int| 0 <= i < nat_text(n).len() ==> is_digit_c(#[trigger] nat_text(n)[i]),
        all_radix_digits(nat_text(n), 10),
        radix_value(nat_text(n), 10) == n,
    decreases n,
{
    if n < 10 {
        assert(char_digit(digit_char(n)) == n);
        assert(radix_value(nat_text(n), 10) == radix_value(nat_text(n).drop_last(), 10) * 10 + char_digit(nat_text(n).last()));
        assert(nat_text(n).drop_last() =~= Seq::<char>::empty());
    } else {
        lemma_nat_text_reads_back(n / 10);
        let prefix = nat_text(n / 10);
        let d = digit_char(n % 10);
        assert(char_digit(d) == n % 10);
        assert(nat_text(n) == prefix.push(d));
        assert(nat_text(n).drop_last() =~= prefix);
        assert forall|i: int| 0 <= i < nat_text(n).len() implies is_digit_c(#[trigger] nat_text(n)[i]) by {
            if i < prefix.len() {
                assert(nat_text(n)[i] == prefix[i]);
            }
        }
    }
    assert forall|i: int| 0 <= i < nat_text(n).len() implies char_digit(#[trigger] nat_text(n)[i]) < 10 by {
        assert(is_digit_c(nat_text(n)[i]));
    }
}

/// The decimal text of `i`, with a leading `-` when negative, as `Display` writes it.
pub open spec fn int_text(i: int) -> Seq<char> {
    if i < 0 {
        seq!['-'] + nat_text((-i) as nat)
    } else {
        nat_text(i as nat)
    }
}

/// The value of `c` as a digit of any radix up to 36, as `char::to_digit` reads it;
/// 36 or more when `c` is no such digit.
pub open spec fn char_digit(c: char) -> nat {
    if is_digit_c(c) {
        ((c as int) - 48) as nat
    } else if is_lower_c(c) {
        ((c as int) - 97 + 10) as nat
    } else if is_upper_c(c) {
        ((c as int) - 65 + 10) as nat
    } else {
        36
    }
}

/// Every character of `s` is a digit in `radix`.
pub open spec fn all_radix_digits(s: Seq<char>, radix: nat) -> bool {
    forall|i: int| 0 <= i < s.len() ==> char_digit(#[trigger] s[i]) < radix
}

/// The value of the digits `s` in `radix`.
pub open spec fn radix_value(s: Seq<char>, radix: nat) -> nat
    decreases s.len(),
{
    if s.len() == 0 {
        0
    } else {
        radix_value(s.drop_last(), radix) * radix + char_digit(s.last())
    }
}

/// `s` without one leading `+`.
pub open spec fn unsigned_digits(s: Seq<char>) -> Seq<char> {
    if s.len() > 0 && s[0] == '+' {
        s.drop_first()
    } else {
        s
    }
}

/// What `from_str_radix` of an unsigned integer type whose largest value is `max` gives:
/// an optional `+`, then at least one digit, with a value that fits.
pub open spec fn parse_unsigned(s: Seq<char>, radix: nat, max: nat) -> Option<nat> {
    let digits = unsigned_digits(s);
    if digits.len() > 0 && all_radix_digits(digits, radix) && radix_value(digits, radix) <= max {
        Some(radix_value(digits, radix))
    } else {
        None
    }
}

proof fn lemma_radix_value_grows(s: Seq<char>, radix: nat, i: int)
    requires
        0 <= i <= s.len(),
        radix >= 1,
    ensures
        radix_value(s.take(i), radix) <= radix_value(s, radix),
    decreases s.len() - i,
{
    if i < s.len() {
        lemma_radix_value_grows(s, radix, i + 1);
        assert(s.take(i + 1).drop_last() =~= s.take(i));
        let v = radix_value(s.take(i), radix);
        assert(v * radix >= v) by (nonlinear_arith)
            requires
                radix >= 1,
        ;
    } else {
        assert(s.take(i) =~= s);
    }
}

fn push_nat_text(out: &mut Vec<char>, n: u64)
    ensures
        final(out)@ == old(out)@ + nat_text(n as nat),
    decreases n,
{
    if n >= 10 {
        push_nat_text(out, n / 10);
    }
    let d: u8 = (n % 10) as u8;
    out.push((48u8 + d) as char);
    proof {
        if n >= 10 {
            assert(out@ =~= old(out)@ + nat_text((n / 10) as nat).push(digit_char((n % 10) as nat)));
        } else {
            assert(out@ =~= old(out)@ + seq![digit_char(n as nat)]);
        }
    }
}

/// The decimal text of `n`.
pub fn u64_text(n: u64) -> (out: Vec<char>)
    ensures
        out@ == nat_text(n as nat),
{
    let mut out: Vec<char> = Vec::new();
    push_nat_text(&mut out, n);
    assert(out@ =~= nat_text(n as nat));
    out
}

/// The decimal text of `i`.
pub fn i64_text(i: i64) -> (out: Vec<char>)
    ensures
        out@ == int_text(i as int),
{
    let mut out: Vec<char> = Vec::new();
    if i < 0 {
        out.push('-');
        let magnitude: u64 = (0i128 - (i as i128)) as u64;
        push_nat_text(&mut out, magnitude);
    } else {
        push_nat_text(&mut out, i as u64);
    }
    assert(out@ =~= int_text(i as int));
    out
}

pub fn digit_value(c: char) -> (r: u64)
    ensures
        r == char_digit(c),
{
    if '0' <= c && c <= '9' {
        (c as u64) - 48
    } else if 'a' <= c && c <= 'z' {
        (c as u64) - 97 + 10
    } else if 'A' <= c && c <= 'Z' {
        (c as u64) - 65 + 10
    } else {
        36
    }
}

/// `k` is the index of the first character of `d` that is no digit in `radix`, or the
/// length of `d` when all are.
pub open spec fn is_first_bad(d: Seq<char>, radix: nat, k: int) -> bool {
    &&& 0 <= k <= d.len()
    &&& forall|j: int| 0 <= j < k ==> char_digit(#[trigger] d[j]) < radix
    &&& k < d.len() ==> char_digit(d[k]) >= radix
}

/// The index of the first character of `d` that is no digit in `radix` (or its length).
pub open spec fn first_bad(d: Seq<char>, radix: nat) -> int {
    choose|k: int| is_first_bad(d, radix, k)
}

proof fn lemma_first_bad(d: Seq<char>, radix: nat, k: int)
    requires
        is_first_bad(d, radix, k),
    ensures
        first_bad(d, radix) == k,
{
    let j = first_bad(d, radix);
    assert(is_first_bad(d, radix, j));
    if j < k {
        assert(char_digit(d[j]) < radix);
    } else if k < j {
        assert(char_digit(d[k]) < radix);
    }
}

/// The message of the error `from_str_radix` gives when `s` is refused: empty text, a
/// character that is no digit, or digits whose value outgrows `max` before any such character.
pub open spec fn unsigned_error(s: Seq<char>, radix: nat, max: nat) -> Seq<char> {
    let d = unsigned_digits(s);
    if s.len() == 0 {
        "cannot parse integer from empty string"@
    } else if d.len() == 0 {
        "invalid digit found in string"@
    } else if radix_value(d.take(first_bad(d, radix)), radix) > max {
        "number too large to fit in target type"@
    } else {
        "invalid digit found in string"@
    }
}

pub open spec fn u64_res_view(r: Result<u64, String>) -> Result<nat, Seq<char>> {
    match r {
        Ok(v) => Ok(v as nat),
        Err(e) => Err(e@),
    }
}

/// What reading `s` as an unsigned integer of largest value `max` gives.
pub open spec fn spec_parse_unsigned(s: Seq<char>, radix: nat, max: nat) -> Result<nat, Seq<char>> {
    match parse_unsigned(s, radix, max) {
        Some(v) => Ok(v),
        None => Err(unsigned_error(s, radix, max)),
    }
}

/// Reads `s` as `from_str_radix` reads an unsigned integer whose largest value is `max`.
pub fn parse_unsigned_chars(s: &Vec<char>, radix: u64, max: u64) -> (r: Result<u64, String>)
    requires
        2 <= radix <= 36,
    ensures
        u64_res_view(r) == spec_parse_unsigned(s@, radix as nat, max as nat),
{
    if s.len() == 0 {
        return Err("cannot parse integer from empty string".to_string());
    }
    let start: usize = if s[0] == '+' { 1 } else { 0 };
    let ghost digits = unsigned_digits(s@);
    assert(digits =~= s@.skip(start as int));
    if start == s.len() {
        return Err("invalid digit found in string".to_string());
    }
    let mut acc: u64 = 0;
    let mut i: usize = start;
    assert(digits.take(0) =~= Seq::<char>::empty());
    while i < s.len()
        invariant
            start <= i <= s.len(),
            s.len() > 0,
            digits == s@.skip(start as int),
            digits == unsigned_digits(s@),
            digits.len() > 0,
            2 <= radix <= 36,
            all_radix_digits(digits.take(i - start), radix as nat),
            acc == radix_value(digits.take(i - start), radix as nat),
            acc <= max,
        decreases s.len() - i,
    {
        let d = digit_value(s[i]);
        assert(digits[i - start] == s@[i as int]);
        if d >= radix {
            proof {
                assert(!all_radix_digits(digits, radix as nat)) by {
                    if all_radix_digits(digits, radix as nat) {
                        assert(char_digit(digits[i - start]) < radix);
                    }
                }
                assert forall|j: int| 0 <= j < i - start implies char_digit(#[trigger] digits[j]) < radix by {
                    assert(digits.take(i - start)[j] == digits[j]);
                }
                lemma_first_bad(digits, radix as nat, i - start);
            }
            return Err("invalid digit found in string".to_string());
        }
        assert((acc as int) * (radix as int) <= 0xffff_ffff_ffff_ffff * 36) by (nonlinear_arith)
            requires
                acc <= 0xffff_ffff_ffff_ffffu64,
                radix <= 36,
        ;
        let next: u128 = (acc as u128) * (radix as u128) + (d as u128);
        assert(digits.take(i - start + 1).drop_last() =~= digits.take(i - start));
        if next > max as u128 {
            proof {
                assert(digits.take(i - start + 1).last() == s@[i as int]);
                assert(radix_value(digits.take(i - start + 1), radix as nat) == next);
                let k = first_bad(digits, radix as nat);
                assert(exists|kk: int| is_first_bad(digits, radix as nat, kk)) by {
                    lemma_first_bad_exists(digits, radix as nat);
                }
                assert(is_first_bad(digits, radix as nat, k));
                assert(k > i - start) by {
                    if k <= i - start {
                        if k < i - start {
                            assert(digits.take(i - start)[k] == digits[k]);
                        }
                        assert(char_digit(digits[k]) < radix);
                    }
                }
                lemma_radix_value_grows(digits.take(k), radix as nat, i - start + 1);
                assert(digits.take(k).take(i - start + 1) =~= digits.take(i - start + 1));
                if all_radix_digits(digits, radix as nat) {
                    lemma_radix_value_grows(digits, radix as nat, i - start + 1);
                }
            }
            return Err("number too large to fit in target type".to_string());
        }
        acc = next as u64;
        i += 1;
        assert forall|k: int| 0 <= k < i - start implies char_digit(
            #[trigger] digits.take(i - start)[k],
        ) < radix by {
            if k < i - start - 1 {
                assert(digits.take(i - start)[k] == digits.take(i - start - 1)[k]);
            }
        }
    }
    assert(digits.take(i - start) =~= digits);
    Ok(acc)
}

proof fn lemma_first_bad_exists(d: Seq<char>, radix: nat)
    ensures
        exists|k: int| is_first_bad(d, radix, k),
    decreases d.len(),
{
    if d.len() == 0 {
        assert(is_first_bad(d, radix, 0));
    } else if char_digit(d[0]) >= radix {
        assert(is_first_bad(d, radix, 0));
    } else {
        lemma_first_bad_exists(d.drop_first(), radix);
        let k = choose|k: int| is_first_bad(d.drop_first(), radix, k);
        assert forall|j: int| 0 <= j < k + 1 implies char_digit(#[trigger] d[j]) < radix by {
            if j > 0 {
                assert(d[j] == d.drop_first()[j - 1]);
            }
        }
        if k + 1 < d.len() {
            assert(d[k + 1] == d.drop_first()[k]);
        }
        assert(is_first_bad(d, radix, k + 1));
    }
}

// ---------------------------------------------------------------------------
// Lines
// ---------------------------------------------------------------------------

/// The views of a sequence of character vectors.
pub open spec fn vv(v: Seq<Vec<char>>) -> Seq<Seq<char>> {
    Seq::new(v.len(), |i: int| v[i]@)
}

/// `s` without one trailing carriage return.
pub open spec fn strip_cr(s: Seq<char>) -> Seq<char> {
    if s.len() > 0 && s.last() == '\r' {
        s.drop_last()
    } else {
        s
    }
}

/// The lines of `s` ended so far, and the text of the line still open.
pub open spec fn lines_state(s: Seq<char>) -> (Seq<Seq<char>>, Seq<char>)
    decreases s.len(),
{
    if s.len() == 0 {
        (Seq::empty(), Seq::empty())
    } else {
        let (done, cur) = lines_state(s.drop_last());
        if s.last() == '\n' {
            (done.push(strip_cr(cur)), Seq::empty())
        } else {
            (done, cur.push(s.last()))
        }
    }
}

/// The lines of `s`, as `str::lines` gives them: split at `\n`, a `\r` before each `\n`
/// dropped, and no empty line after a final `\n`.
pub open spec fn lines_seq(s: Seq<char>) -> Seq<Seq<char>> {
    let (done, cur) = lines_state(s);
    if cur.len() > 0 {
        done.push(cur)
    } else {
        done
    }
}

fn strip_cr_chars(v: Vec<char>) -> (out: Vec<char>)
    ensures
        out@ == strip_cr(v@),
{
    let mut v = v;
    if v.len() > 0 && v[v.len() - 1] == '\r' {
        v.pop();
    }
    v
}

/// The lines of `s`.
pub fn lines_of(s: &Vec<char>) -> (out: Vec<Vec<char>>)
    ensures
        vv(out@) == lines_seq(s@),
{
    let mut done: Vec<Vec<char>> = Vec::new();
    let mut cur: Vec<char> = Vec::new();
    for i in 0..s.len()
        invariant
            (vv(done@), cur@) == lines_state(s@.take(i as int)),
    {
        assert(s@.take(i + 1).drop_last() =~= s@.take(i as int));
        assert(s@.take(i + 1).last() == s@[i as int]);
        let c = s[i];
        if c == '\n' {
            let line = strip_cr_chars(cur);
            done.push(line);
            cur = Vec::new();
            assert(vv(done@) =~= lines_state(s@.take(i as int)).0.push(strip_cr(lines_state(s@.take(i as int)).1)));
        } else {
            cur.push(c);
            assert(vv(done@) =~= lines_state(s@.take(i + 1)).0);
        }
    }
    assert(s@.take(s.len() as int) =~= s@);
    if cur.len() > 0 {
        done.push(cur);
        assert(vv(done@) =~= lines_seq(s@));
    }
    done
}

// ---------------------------------------------------------------------------
// Views of optional and fallible text
// ---------------------------------------------------------------------------

pub open spec fn opt_view(o: Option<String>) -> Option<Seq<char>> {
    match o {
        Some(s) => Some(s@),
        None => None,
    }
}

/// A `String` holding `v`.
pub fn to_string(v: &Vec<char>) -> (out: String)
    ensures
        out@ == v@,
{
    crate::external::string_from_chars(v.as_slice())
}

/// A `String` holding `a` followed by `b`.
pub fn join2(a: &str, b: &Vec<char>) -> (out: String)
    ensures
        out@ == a@ + b@,
{
    let ca = chars_of(a);
    to_string(&concat(&ca, b))
}

/// A `String` holding `a`, `b` and `c` in turn.
pub fn join3(a: &str, b: &Vec<char>, c: &str) -> (out: String)
    ensures
        out@ == a@ + b@ + c@,
{
    let ca = chars_of(a);
    let cc = chars_of(c);
    to_string(&concat(&concat(&ca, b), &cc))
}

/// Whether `v` holds exactly the characters of `lit`.
pub fn is_text(v: &Vec<char>, lit: &str) -> (r: bool)
    ensures
        r == (v@ == lit@),
{
    let cl = chars_of(lit);
    chars_eq(v, &cl)
}

} // verus!

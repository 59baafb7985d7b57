use vstd::prelude::*;

verus! {

/// `s` ends with `t`.
pub open spec fn ends_with(s: Seq<char>, t: Seq<char>) -> bool {
    s.len() >= t.len() && s.subrange(s.len() - t.len(), s.len() as int) == t
}

/// `s` starts with `t`.
pub open spec fn starts_with(s: Seq<char>, t: Seq<char>) -> bool {
    s.len() >= t.len() && s.subrange(0, t.len() as int) == t
}

/// The value of the digit `c` in base `radix` (10 or 16), if it is one.
pub open spec fn digit_value(c: char, radix: nat) -> Option<nat> {
    if '0' <= c <= '9' {
        Some((c as nat - '0' as nat) as nat)
    } else if radix == 16 && 'a' <= c <= 'f' {
        Some((c as nat - 'a' as nat + 10) as nat)
    } else if radix == 16 && 'A' <= c <= 'F' {
        Some((c as nat - 'A' as nat + 10) as nat)
    } else {
        None
    }
}

/// Every character of `s` is a digit in base `radix`.
pub open spec fn all_digits(s: Seq<char>, radix: nat) -> bool {
    forall|i: int| 0 <= i < s.len() ==> (#[trigger] digit_value(s[i], radix)) is Some
}

/// The number the digits `s` stand for in base `radix`.
pub open spec fn digits_value(s: Seq<char>, radix: nat) -> nat
    decreases s.len(),
{
    if s.len() == 0 {
        0
    } else {
        digits_value(s.drop_last(), radix) * radix + match digit_value(s.last(), radix) {
            Some(d) => d,
            None => 0,
        }
    }
}

/// The digits of an unsigned number text: `s` without one leading `+`.
pub open spec fn unsigned_digits(s: Seq<char>) -> Seq<char> {
    if s.len() > 0 && s[0] == '+' {
        s.drop_first()
    } else {
        s
    }
}

/// The `u32` that the text `s` reads as in base `radix`: an optional `+`, then
/// one or more digits, of a value that fits.
pub open spec fn parse_uint(s: Seq<char>, radix: nat) -> Option<u32> {
    let d = unsigned_digits(s);
    if d.len() > 0 && all_digits(d, radix) && digits_value(d, radix) <= u32::MAX {
        Some(digits_value(d, radix) as u32)
    } else {
        None
    }
}

/// The decimal digit for `d < 10`.
pub open spec fn digit_char(d: nat) -> char {
    ((d + '0' as nat) as u32) as char
}

/// The decimal text of `n`, without leading zeros.
pub open spec fn decimal(n: nat) -> Seq<char>
    decreases n,
{
    if n < 10 {
        seq![digit_char(n)]
    } else {
        decimal(n / 10) + seq![digit_char(n % 10)]
    }
}

/// Relies on `Iterator::collect` over `str::chars`: the characters of `s`, in order.
#[verifier::external_body]
pub(crate) fn chars_of(s: &str) -> (r: Vec<char>)
    ensures
        r@ == s@,
{
    s.chars().collect()
}

/// Relies on `Iterator::collect` into a `String`: the text of the characters `v`.
#[verifier::external_body]
pub(crate) fn string_of(v: &Vec<char>) -> (r: String)
    ensures
        r@ == v@,
{
    v.iter().collect()
}

/// Relies on `u32::from_str_radix`, documented as: an optional `+`, then digits of
/// the radix (either case), with an error when the text is empty or the value overflows.
#[verifier::external_body]
pub(crate) fn parse_u32_radix(s: &str, radix: u32) -> (r: Option<u32>)
    requires
        radix == 10 || radix == 16,
    ensures
        r == parse_uint(s@, radix as nat),
{
    u32::from_str_radix(s, radix).ok()
}

/// Relies on `ToString::to_string` for `u32`: its decimal text.
#[verifier::external_body]
pub(crate) fn u32_text(n: u32) -> (r: String)
    ensures
        r@ == decimal(n as nat),
{
    n.to_string()
}

/// Whether `s` ends with two `'0'` characters.
pub fn ends_with_00(s: &String) -> (r: bool)
    ensures
        r == ends_with(s@, seq!['0', '0']),
{
    let c = chars_of(s.as_str());
    let n = c.len();
    if n < 2 {
        return false;
    }
    let r = c[n - 2] == '0' && c[n - 1] == '0';
    assert(r == (c@.subrange(n - 2, n as int) =~= seq!['0', '0']));
    r
}

/// Whether `s` starts with two `'0'` characters.
pub fn starts_with_00(s: &String) -> (r: bool)
    ensures
        r == starts_with(s@, seq!['0', '0']),
{
    let c = chars_of(s.as_str());
    if c.len() < 2 {
        return false;
    }
    let r = c[0] == '0' && c[1] == '0';
    assert(r == (c@.subrange(0, 2) =~= seq!['0', '0']));
    r
}

/// Whether `s` has no characters.
pub fn is_empty_text(s: &String) -> (r: bool)
    ensures
        r == (s@.len() == 0),
{
    let c = chars_of(s.as_str());
    c.len() == 0
}

/// Two character sequences hold the same characters.
pub fn eq_chars(a: &Vec<char>, b: &Vec<char>) -> (r: bool)
    ensures
        r == (a@ == b@),
{
    if a.len() != b.len() {
        return false;
    }
    let mut i: usize = 0;
    while i < a.len()
        invariant
            a.len() == b.len(),
            0 <= i <= a.len(),
            forall|j: int| 0 <= j < i ==> a@[j] == b@[j],
        decreases a.len() - i,
    {
        if a[i] != b[i] {
            return false;
        }
        i = i + 1;
    }
    assert(a@ =~= b@);
    true
}

/// The characters of `v` from `a` up to `b`.
pub fn sub_chars(v: &Vec<char>, a: usize, b: usize) -> (r: Vec<char>)
    requires
        a <= b <= v.len(),
    ensures
        r@ == v@.subrange(a as int, b as int),
{
    let mut r: Vec<char> = Vec::new();
    let mut i: usize = a;
    while i < b
        invariant
            a <= i <= b <= v.len(),
            r@ == v@.subrange(a as int, i as int),
        decreases b - i,
    {
        r.push(v[i]);
        i = i + 1;
        assert(r@ =~= v@.subrange(a as int, i as int));
    }
    r
}

/// Index of the first `c` in `s`.
pub open spec fn find_char(s: Seq<char>, c: char) -> Option<int>
    decreases s.len(),
{
    if s.len() == 0 {
        None
    } else if s[0] == c {
        Some(0)
    } else {
        match find_char(s.drop_first(), c) {
            Some(i) => Some(i + 1),
            None => None,
        }
    }
}

/// `s` split at its first `c`, the `c` itself dropped.
pub open spec fn split_once(s: Seq<char>, c: char) -> Option<(Seq<char>, Seq<char>)> {
    match find_char(s, c) {
        Some(i) => Some((s.take(i), s.skip(i + 1))),
        None => None,
    }
}

pub proof fn lemma_find_char(s: Seq<char>, c: char, i: int)
    requires
        0 <= i <= s.len(),
        forall|j: int| 0 <= j < i ==> s[j] != c,
    ensures
        i < s.len() && s[i] == c ==> find_char(s, c) == Some(i),
        i == s.len() ==> find_char(s, c) is None,
    decreases i,
{
    if i > 0 {
        lemma_find_char(s.drop_first(), c, i - 1);
    }
}

pub fn find_char_exec(s: &Vec<char>, c: char) -> (r: Option<usize>)
    ensures
        r matches Some(i) ==> i < s.len() && find_char(s@, c) == Some(i as int),
        r is None ==> find_char(s@, c) is None,
{
    let mut i: usize = 0;
    while i < s.len()
        invariant
            0 <= i <= s.len(),
            forall|j: int| 0 <= j < i ==> s@[j] != c,
        decreases s.len() - i,
    {
        if s[i] == c {
            proof {
                lemma_find_char(s@, c, i as int);
            }
            return Some(i);
        }
        i = i + 1;
    }
    proof {
        lemma_find_char(s@, c, i as int);
    }
    None
}

/// `s` split at its first `c`.
pub fn split_once_exec(s: &Vec<char>, c: char) -> (r: Option<(Vec<char>, Vec<char>)>)
    ensures
        r matches Some(p) ==> split_once(s@, c) == Some((p.0@, p.1@)),
        r is None ==> split_once(s@, c) is None,
{
    match find_char_exec(s, c) {
        Some(i) => Some((sub_chars(s, 0, i), sub_chars(s, i + 1, s.len()))),
        None => None,
    }
}

/// `s` without its trailing `'0'` characters.
pub open spec fn trim_zeros(s: Seq<char>) -> Seq<char>
    decreases s.len(),
{
    if s.len() > 0 && s.last() == '0' {
        trim_zeros(s.drop_last())
    } else {
        s
    }
}

pub fn trim_zeros_exec(s: &Vec<char>) -> (r: Vec<char>)
    ensures
        r@ == trim_zeros(s@),
{
    let mut j: usize = s.len();
    assert(s@.take(j as int) =~= s@);
    while j > 0 && s[j - 1] == '0'
        invariant
            0 <= j <= s.len(),
            trim_zeros(s@) == trim_zeros(s@.take(j as int)),
        decreases j,
    {
        assert(s@.take(j as int).drop_last() =~= s@.take(j - 1));
        j = j - 1;
    }
    sub_chars(s, 0, j)
}

/// The characters Unicode calls white space.
pub open spec fn is_space(c: char) -> bool {
    ('\t' <= c <= '\r') || c == ' ' || c == '\u{85}' || c == '\u{a0}' || c == '\u{1680}' || (
    '\u{2000}' <= c <= '\u{200a}') || c == '\u{2028}' || c == '\u{2029}' || c == '\u{202f}'
        || c == '\u{205f}' || c == '\u{3000}'
}

fn is_space_exec(c: char) -> (r: bool)
    ensures
        r == is_space(c),
{
    ('\t' <= c && c <= '\r') || c == ' ' || c == '\u{85}' || c == '\u{a0}' || c == '\u{1680}' || (
    '\u{2000}' <= c && c <= '\u{200a}') || c == '\u{2028}' || c == '\u{2029}' || c == '\u{202f}'
        || c == '\u{205f}' || c == '\u{3000}'
}

pub open spec fn trim_start_space(s: Seq<char>) -> Seq<char>
    decreases s.len(),
{
    if s.len() > 0 && is_space(s[0]) {
        trim_start_space(s.drop_first())
    } else {
        s
    }
}

pub open spec fn trim_end_space(s: Seq<char>) -> Seq<char>
    decreases s.len(),
{
    if s.len() > 0 && is_space(s.last()) {
        trim_end_space(s.drop_last())
    } else {
        s
    }
}

/// `s` without leading and trailing white space.
pub open spec fn trim_space(s: Seq<char>) -> Seq<char> {
    trim_end_space(trim_start_space(s))
}

pub fn trim_space_exec(s: &Vec<char>) -> (r: Vec<char>)
    ensures
        r@ == trim_space(s@),
{
    let mut i: usize = 0;
    assert(s@.skip(0) =~= s@);
    while i < s.len() && is_space_exec(s[i])
        invariant
            0 <= i <= s.len(),
            trim_start_space(s@) == trim_start_space(s@.skip(i as int)),
        decreases s.len() - i,
    {
        assert(s@.skip(i as int).drop_first() =~= s@.skip(i + 1));
        i = i + 1;
    }
    let t = sub_chars(s, i, s.len());
    assert(t@ =~= s@.skip(i as int));
    let mut j: usize = t.len();
    assert(t@.take(j as int) =~= t@);
    while j > 0 && is_space_exec(t[j - 1])
        invariant
            0 <= j <= t.len(),
            trim_end_space(t@) == trim_end_space(t@.take(j as int)),
        decreases j,
    {
        assert(t@.take(j as int).drop_last() =~= t@.take(j - 1));
        j = j - 1;
    }
    sub_chars(&t, 0, j)
}

/// The two hex digits that stand for `c` after a `%`, for the characters that are escaped.
pub open spec fn escape_code(c: char) -> Option<(char, char)> {
    if c == '%' {
        Some(('2', '5'))
    } else if c == '/' {
        Some(('2', 'F'))
    } else if c == '&' {
        Some(('2', '6'))
    } else if c == '?' {
        Some(('3', 'F'))
    } else if c == ' ' {
        Some(('2', '0'))
    } else if c == '(' {
        Some(('2', '8'))
    } else if c == ')' {
        Some(('2', '9'))
    } else if c == '~' {
        Some(('7', 'E'))
    } else {
        None
    }
}

/// The character that `%ab` stands for, if any.
pub open spec fn code_char(a: char, b: char) -> Option<char> {
    if a == '2' && b == '5' {
        Some('%')
    } else if a == '2' && b == 'F' {
        Some('/')
    } else if a == '2' && b == '6' {
        Some('&')
    } else if a == '3' && b == 'F' {
        Some('?')
    } else if a == '2' && b == '0' {
        Some(' ')
    } else if a == '2' && b == '8' {
        Some('(')
    } else if a == '2' && b == '9' {
        Some(')')
    } else if a == '7' && b == 'E' {
        Some('~')
    } else {
        None
    }
}

/// `s` with each escaped character replaced by its `%` code.
pub open spec fn escaped(s: Seq<char>) -> Seq<char>
    decreases s.len(),
{
    if s.len() == 0 {
        Seq::empty()
    } else {
        match escape_code(s[0]) {
            Some(p) => seq!['%', p.0, p.1] + escaped(s.drop_first()),
            None => seq![s[0]] + escaped(s.drop_first()),
        }
    }
}

/// `s` with each `%` code replaced by its character, scanning left to right.
pub open spec fn unescaped(s: Seq<char>) -> Seq<char>
    decreases s.len(),
{
    if s.len() == 0 {
        Seq::empty()
    } else if s.len() >= 3 && s[0] == '%' && code_char(s[1], s[2]) is Some {
        seq![code_char(s[1], s[2])->0] + unescaped(s.skip(3))
    } else {
        seq![s[0]] + unescaped(s.drop_first())
    }
}

/// Unescaping undoes escaping.
pub proof fn lemma_unescape_escaped(s: Seq<char>)
    ensures
        unescaped(escaped(s)) == s,
    decreases s.len(),
{
    if s.len() > 0 {
        lemma_unescape_escaped(s.drop_first());
        let e = escaped(s);
        let rest = escaped(s.drop_first());
        match escape_code(s[0]) {
            Some(p) => {
                assert(e.skip(3) =~= rest);
            },
            None => {
                assert(e.drop_first() =~= rest);
            },
        }
        assert(s =~= seq![s[0]] + s.drop_first());
    }
}

fn escape_code_exec(c: char) -> (r: Option<(char, char)>)
    ensures
        r == escape_code(c),
{
    if c == '%' {
        Some(('2', '5'))
    } else if c == '/' {
        Some(('2', 'F'))
    } else if c == '&' {
        Some(('2', '6'))
    } else if c == '?' {
        Some(('3', 'F'))
    } else if c == ' ' {
        Some(('2', '0'))
    } else if c == '(' {
        Some(('2', '8'))
    } else if c == ')' {
        Some(('2', '9'))
    } else if c == '~' {
        Some(('7', 'E'))
    } else {
        None
    }
}

fn code_char_exec(a: char, b: char) -> (r: Option<char>)
    ensures
        r == code_char(a, b),
{
    if a == '2' && b == '5' {
        Some('%')
    } else if a == '2' && b == 'F' {
        Some('/')
    } else if a == '2' && b == '6' {
        Some('&')
    } else if a == '3' && b == 'F' {
        Some('?')
    } else if a == '2' && b == '0' {
        Some(' ')
    } else if a == '2' && b == '8' {
        Some('(')
    } else if a == '2' && b == '9' {
        Some(')')
    } else if a == '7' && b == 'E' {
        Some('~')
    } else {
        None
    }
}

/// Escapes the characters `% / & ? space ( ) ~` of a text as `%` codes.
pub fn efficient_encode(input: &str) -> (r: String)
    ensures
        r@ == escaped(input@),
{
    let s = chars_of(input);
    let mut out: Vec<char> = Vec::new();
    let mut i: usize = 0;
    assert(s@.skip(0) =~= s@);
    while i < s.len()
        invariant
            0 <= i <= s.len(),
            out@ + escaped(s@.skip(i as int)) == escaped(s@),
        decreases s.len() - i,
    {
        assert(s@.skip(i as int).drop_first() =~= s@.skip(i + 1));
        let c = s[i];
        let ghost before = out@;
        match escape_code_exec(c) {
            Some(p) => {
                out.push('%');
                out.push(p.0);
                out.push(p.1);
                assert(out@ =~= before + seq!['%', p.0, p.1]);
            },
            None => {
                out.push(c);
                assert(out@ =~= before + seq![c]);
            },
        }
        assert(out@ + escaped(s@.skip(i + 1)) =~= before + escaped(s@.skip(i as int)));
        i = i + 1;
    }
    assert(out@ =~= out@ + escaped(s@.skip(i as int)));
    string_of(&out)
}

/// Replaces the `%` codes of `efficient_encode` by their characters, left to right;
/// any other character is copied.
pub fn efficient_decode(input: &str) -> (r: String)
    ensures
        r@ == unescaped(input@),
{
    let s = chars_of(input);
    let out = unescape_chars(&s);
    string_of(&out)
}

pub fn unescape_chars(s: &Vec<char>) -> (r: Vec<char>)
    ensures
        r@ == unescaped(s@),
{
    let mut out: Vec<char> = Vec::new();
    let mut i: usize = 0;
    assert(s@.skip(0) =~= s@);
    while i < s.len()
        invariant
            0 <= i <= s.len(),
            out@ + unescaped(s@.skip(i as int)) == unescaped(s@),
        decreases s.len() - i,
    {
        let ghost before = out@;
        let ghost rest = s@.skip(i as int);
        let mut decoded: Option<char> = None;
        if s.len() - i >= 3 && s[i] == '%' {
            decoded = code_char_exec(s[i + 1], s[i + 2]);
        }
        match decoded {
            Some(c) => {
                assert(rest.skip(3) =~= s@.skip(i + 3));
                out.push(c);
                i = i + 3;
            },
            None => {
                assert(rest.drop_first() =~= s@.skip(i + 1));
                out.push(s[i]);
                i = i + 1;
            },
        }
        assert(out@ + unescaped(s@.skip(i as int)) =~= before + unescaped(rest));
    }
    assert(out@ =~= out@ + unescaped(s@.skip(i as int)));
    out
}

} // verus!

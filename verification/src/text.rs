//! Character-level text handling shared by the parsers and the picker.
use vstd::prelude::*;

verus! {

// ---------------------------------------------------------------------------
// Standard text functions whose behaviour is taken as stated here.
// ---------------------------------------------------------------------------

/// `String::push`: appends one character to the end of the string.
#[verifier::external_body]
pub(crate) fn push_char(s: &mut String, c: char)
    ensures
        final(s)@ == old(s)@.push(c),
{
    s.push(c);
}

/// `String::pop`: removes and returns the last character, or returns `None`
/// and leaves the string unchanged when it is empty.
#[verifier::external_body]
pub(crate) fn pop_char(s: &mut String) -> (r: Option<char>)
    ensures
        old(s)@.len() == 0 ==> r is None && final(s)@ == old(s)@,
        old(s)@.len() > 0 ==> r == Some(old(s)@.last()) && final(s)@ == old(s)@.drop_last(),
{
    s.pop()
}

/// What `str::to_lowercase` returns for a string: its Unicode lowercase
/// mapping, which depends on the characters alone.
pub uninterp spec fn str_lowercase(s: Seq<char>) -> Seq<char>;

/// `str::to_lowercase`. Its result is named by `str_lowercase`; the Unicode
/// case tables it follows are not stated here.
#[verifier::external_body]
pub(crate) fn lowercase(s: &str) -> (r: String)
    ensures
        r@ == str_lowercase(s@),
{
    s.to_lowercase()
}

/// What `char::is_alphanumeric` answers for a character (Unicode `Alphabetic`
/// or `Numeric`).
pub uninterp spec fn char_alphanumeric(c: char) -> bool;

/// Whether an ASCII character is a digit or a Latin letter.
pub open spec fn ascii_alphanumeric(c: char) -> bool {
    ('0' <= c && c <= '9') || ('a' <= c && c <= 'z') || ('A' <= c && c <= 'Z')
}

/// `char::is_alphanumeric` (Unicode `Alphabetic` or `Numeric`). Its answer is
/// named by `char_alphanumeric`; for ASCII characters, where std documents
/// that exactly the digits and Latin letters are alphanumeric, it is stated;
/// the Unicode property tables beyond ASCII are not.
#[verifier::external_body]
pub(crate) fn is_alphanumeric(c: char) -> (r: bool)
    ensures
        r == char_alphanumeric(c),
        (c as u32) < 128 ==> r == ascii_alphanumeric(c),
{
    c.is_alphanumeric()
}

// ---------------------------------------------------------------------------
// Conversions between strings and character vectors.
// ---------------------------------------------------------------------------

/// The characters of `s`, in order.
pub fn chars_of(s: &str) -> (v: Vec<char>)
    ensures
        v@ == s@,
{
    let mut v: Vec<char> = Vec::new();
    for c in it: s.chars()
        invariant
            v@ == it.seq().take(it.index() as int),
    {
        v.push(c);
    }
    v
}

/// The string made of the characters `v[from..to]`.
pub fn string_of_range(v: &Vec<char>, from: usize, to: usize) -> (s: String)
    requires
        from <= to <= v@.len(),
    ensures
        s@ == v@.subrange(from as int, to as int),
{
    let mut s = String::new();
    let mut i: usize = from;
    while i < to
        invariant
            from <= i <= to <= v@.len(),
            s@ == v@.subrange(from as int, i as int),
        decreases to - i,
    {
        push_char(&mut s, v[i]);
        assert(v@.subrange(from as int, i + 1) == v@.subrange(from as int, i as int).push(v@[i as int]));
        i += 1;
    }
    s
}

/// The string made of all the characters of `v`.
pub fn string_of(v: &Vec<char>) -> (s: String)
    ensures
        s@ == v@,
{
    let s = string_of_range(v, 0, v.len());
    assert(v@.subrange(0, v@.len() as int) == v@);
    s
}

/// A string holding the characters of `s` followed by those of `t`.
pub fn join2(s: &str, t: &str) -> (r: String)
    ensures
        r@ == s@ + t@,
{
    let mut r = String::from_str(s);
    r.append(t);
    r
}

/// A string holding the characters of `a`, `b` and `c`, in that order.
pub fn join3(a: &str, b: &str, c: &str) -> (r: String)
    ensures
        r@ == a@ + b@ + c@,
{
    let mut r = String::from_str(a);
    r.append(b);
    r.append(c);
    r
}

/// Whether the strings hold the same characters.
pub fn same_text(a: &String, b: &String) -> (r: bool)
    ensures
        r == (a@ == b@),
{
    a.eq(b)
}

/// Whether the string slices hold the same characters.
pub fn same_str(a: &str, b: &str) -> (r: bool)
    ensures
        r == (a@ == b@),
{
    let x = chars_of(a);
    let y = chars_of(b);
    if x.len() != y.len() {
        return false;
    }
    let mut k: usize = 0;
    while k < x.len()
        invariant
            x@ == a@,
            y@ == b@,
            x@.len() == y@.len(),
            k <= x@.len(),
            forall|j: int| 0 <= j < k ==> x@[j] == y@[j],
        decreases x@.len() - k,
    {
        if x[k] != y[k] {
            return false;
        }
        k += 1;
    }
    assert(x@ =~= y@);
    true
}

/// Whether the optional strings are both absent, or both present with the
/// same characters.
pub open spec fn opt_view(o: Option<String>) -> Option<Seq<char>> {
    match o {
        Some(s) => Some(s@),
        None => None,
    }
}

/// A copy of an optional string.
pub fn copy_opt(o: &Option<String>) -> (r: Option<String>)
    ensures
        r == *o,
{
    match o {
        Some(s) => Some(s.clone()),
        None => None,
    }
}

// ---------------------------------------------------------------------------
// Searching.
// ---------------------------------------------------------------------------

/// Whether `needle` occurs as a contiguous run inside `hay` (the empty needle
/// occurs everywhere).
pub open spec fn seq_contains(hay: Seq<char>, needle: Seq<char>) -> bool {
    exists|i: int|
        0 <= i && i + needle.len() <= hay.len() && #[trigger] hay.subrange(i, i + needle.len())
            == needle
}

/// Whether `needle` occurs in `hay` at position `at`.
pub open spec fn occurs_at(hay: Seq<char>, needle: Seq<char>, at: int) -> bool {
    0 <= at && at + needle.len() <= hay.len() && hay.subrange(at, at + needle.len()) == needle
}

pub(crate) fn occurs_at_exec(hay: &Vec<char>, needle: &Vec<char>, at: usize) -> (r: bool)
    requires
        at + needle@.len() <= hay@.len(),
    ensures
        r == occurs_at(hay@, needle@, at as int),
{
    let mut k: usize = 0;
    let hay_len = hay.len();
    while k < needle.len()
        invariant
            hay_len == hay@.len(),
            at + needle@.len() <= hay@.len(),
            0 <= k <= needle@.len(),
            forall|j: int| 0 <= j < k ==> hay@[at + j] == needle@[j],
        decreases needle@.len() - k,
    {
        if hay[at + k] != needle[k] {
            assert(hay@.subrange(at as int, at + needle@.len())[k as int] != needle@[k as int]);
            return false;
        }
        k += 1;
    }
    assert(hay@.subrange(at as int, at + needle@.len()) =~= needle@);
    true
}

/// Whether `needle` occurs inside `hay`.
pub fn contains(hay: &Vec<char>, needle: &Vec<char>) -> (r: bool)
    ensures
        r == seq_contains(hay@, needle@),
{
    if needle.len() > hay.len() {
        return false;
    }
    if needle.len() == 0 {
        assert(hay@.subrange(0, 0 + needle@.len() as int) =~= needle@);
        return true;
    }
    let last: usize = hay.len() - needle.len();
    let hay_len = hay.len();
    let mut at: usize = 0;
    while at <= last
        invariant
            hay_len == hay@.len(),
            last + needle@.len() == hay_len,
            needle@.len() > 0,
            0 <= at <= last + 1,
            forall|i: int| 0 <= i < at ==> !occurs_at(hay@, needle@, i),
        decreases last + 1 - at,
    {
        if occurs_at_exec(hay, needle, at) {
            assert(hay@.subrange(at as int, at + needle@.len()) == needle@);
            return true;
        }
        at += 1;
    }
    assert forall|i: int|
        0 <= i && i + needle@.len() <= hay@.len() implies #[trigger] hay@.subrange(
        i,
        i + needle@.len(),
    ) != needle@ by {
        assert(!occurs_at(hay@, needle@, i));
    }
    false
}

/// The first position at or after `i` where `c` occurs in `s`.
pub open spec fn char_pos_from(s: Seq<char>, c: char, i: int) -> Option<int>
    decreases s.len() - i,
{
    if i < 0 || i >= s.len() {
        None
    } else if s[i] == c {
        Some(i)
    } else {
        char_pos_from(s, c, i + 1)
    }
}

/// The first position of `c` in `s`.
pub open spec fn char_pos(s: Seq<char>, c: char) -> Option<int> {
    char_pos_from(s, c, 0)
}

pub proof fn lemma_char_pos_from_bounds(s: Seq<char>, c: char, i: int)
    requires
        0 <= i,
    ensures
        char_pos_from(s, c, i) matches Some(p) ==> i <= p < s.len() && s[p] == c && (forall|
            j: int,
        | i <= j < p ==> s[j] != c),
        char_pos_from(s, c, i) is None ==> forall|j: int| i <= j < s.len() ==> s[j] != c,
    decreases s.len() - i,
{
    if i < 0 || i >= s.len() {
    } else if s[i] == c {
    } else {
        lemma_char_pos_from_bounds(s, c, i + 1);
        if char_pos_from(s, c, i) is None {
            assert forall|j: int| i <= j < s.len() implies s[j] != c by {
                if j > i {
                }
            }
        }
    }
}

/// The first position at or after `from` where `c` occurs in `v`.
pub fn find_char(v: &Vec<char>, c: char, from: usize) -> (r: Option<usize>)
    ensures
        r matches Some(p) ==> char_pos_from(v@, c, from as int) == Some(p as int),
        r is None ==> char_pos_from(v@, c, from as int) is None,
{
    let mut i: usize = from;
    if i >= v.len() {
        return None;
    }
    while i < v.len()
        invariant
            from <= i <= v@.len(),
            char_pos_from(v@, c, from as int) == char_pos_from(v@, c, i as int),
        decreases v@.len() - i,
    {
        if v[i] == c {
            return Some(i);
        }
        i += 1;
    }
    None
}

/// Whether `s` starts with `prefix`.
pub open spec fn has_prefix(s: Seq<char>, prefix: Seq<char>) -> bool {
    prefix.len() <= s.len() && s.take(prefix.len() as int) == prefix
}

/// Whether `s` starts with `prefix`.
pub fn starts_with(s: &Vec<char>, prefix: &Vec<char>) -> (r: bool)
    ensures
        r == has_prefix(s@, prefix@),
{
    if prefix.len() > s.len() {
        return false;
    }
    let r = occurs_at_exec(s, prefix, 0);
    assert(s@.take(prefix@.len() as int) == s@.subrange(0, prefix@.len() as int));
    r
}

/// The characters of `s` after the prefix `prefix`, when `s` starts with it.
pub open spec fn strip_prefix_spec(s: Seq<char>, prefix: Seq<char>) -> Option<Seq<char>> {
    if has_prefix(s, prefix) {
        Some(s.skip(prefix.len() as int))
    } else {
        None
    }
}

/// `s` without the prefix `prefix`, when `s` starts with it.
pub fn strip_prefix(s: &Vec<char>, prefix: &str) -> (r: Option<String>)
    ensures
        opt_view(r) == strip_prefix_spec(s@, prefix@),
{
    let p = chars_of(prefix);
    if starts_with(s, &p) {
        let rest = string_of_range(s, p.len(), s.len());
        assert(s@.subrange(p@.len() as int, s@.len() as int) == s@.skip(p@.len() as int));
        Some(rest)
    } else {
        None
    }
}


// ---------------------------------------------------------------------------
// Lines and tab-separated fields.
// ---------------------------------------------------------------------------

/// A line without one trailing carriage return.
pub open spec fn strip_cr(l: Seq<char>) -> Seq<char> {
    if l.len() > 0 && l.last() == '\r' {
        l.drop_last()
    } else {
        l
    }
}

/// The lines of `s` from position `p` on, as `str::lines` yields them: the
/// text is split at each `\n`, a line ended by `\n` loses one trailing `\r`,
/// and a final `\n` does not start another line.
pub open spec fn lines_from(s: Seq<char>, p: int) -> Seq<Seq<char>>
    decreases s.len() - p,
{
    if p < 0 || p >= s.len() {
        Seq::empty()
    } else {
        match char_pos_from(s, '\n', p) {
            None => seq![s.subrange(p, s.len() as int)],
            Some(i) => {
                proof {
                    lemma_char_pos_from_bounds(s, '\n', p);
                }
                seq![strip_cr(s.subrange(p, i))] + lines_from(s, i + 1)
            },
        }
    }
}

/// The lines of `s`, as `str::lines` yields them.
pub open spec fn lines_spec(s: Seq<char>) -> Seq<Seq<char>> {
    lines_from(s, 0)
}

/// The character sequences held by a vector of character vectors.
pub open spec fn vec_views(v: Seq<Vec<char>>) -> Seq<Seq<char>> {
    v.map_values(|x: Vec<char>| x@)
}

fn strip_cr_range(s: &Vec<char>, from: usize, to: usize) -> (r: Vec<char>)
    requires
        from <= to <= s@.len(),
    ensures
        r@ == strip_cr(s@.subrange(from as int, to as int)),
{
    let mut end = to;
    if to > from && s[to - 1] == '\r' {
        end = to - 1;
    }
    let mut r: Vec<char> = Vec::new();
    let mut i = from;
    while i < end
        invariant
            from <= i <= end <= to <= s@.len(),
            r@ == s@.subrange(from as int, i as int),
        decreases end - i,
    {
        r.push(s[i]);
        assert(s@.subrange(from as int, i + 1) == s@.subrange(from as int, i as int).push(
            s@[i as int],
        ));
        i += 1;
    }
    assert(s@.subrange(from as int, end as int) =~= strip_cr(s@.subrange(from as int, to as int)));
    r
}

/// The lines of `s`, as `str::lines` yields them.
pub fn split_lines(s: &Vec<char>) -> (lines: Vec<Vec<char>>)
    ensures
        vec_views(lines@) == lines_spec(s@),
{
    let mut lines: Vec<Vec<char>> = Vec::new();
    let mut p: usize = 0;
    while p < s.len()
        invariant
            p <= s@.len(),
            lines_spec(s@) == vec_views(lines@) + lines_from(s@, p as int),
        decreases s@.len() - p,
    {
        let ghost before = lines@;
        match find_char(s, '\n', p) {
            None => {
                let line = strip_cr_range(s, p, p);
                let mut last: Vec<char> = Vec::new();
                let mut i = p;
                while i < s.len()
                    invariant
                        p <= i <= s@.len(),
                        last@ == s@.subrange(p as int, i as int),
                    decreases s@.len() - i,
                {
                    last.push(s[i]);
                    assert(s@.subrange(p as int, i + 1) == s@.subrange(p as int, i as int).push(
                        s@[i as int],
                    ));
                    i += 1;
                }
                lines.push(last);
                assert(vec_views(lines@) =~= vec_views(before).push(s@.subrange(p as int, s@.len() as int)));
                assert(lines_from(s@, s@.len() as int) =~= Seq::<Seq<char>>::empty());
                assert(vec_views(before) + lines_from(s@, p as int) =~= vec_views(lines@));
                let _ = line;
                p = s.len();
            },
            Some(i) => {
                proof {
                    lemma_char_pos_from_bounds(s@, '\n', p as int);
                }
                let line = strip_cr_range(s, p, i);
                lines.push(line);
                assert(vec_views(lines@) =~= vec_views(before).push(strip_cr(s@.subrange(p as int, i as int))));
                assert(vec_views(before) + lines_from(s@, p as int) =~= vec_views(lines@) + lines_from(s@, i + 1));
                p = i + 1;
            },
        }
    }
    assert(lines_from(s@, p as int) =~= Seq::<Seq<char>>::empty());
    assert(vec_views(lines@) + lines_from(s@, p as int) =~= vec_views(lines@));
    lines
}

/// The first field of a tab-separated line (the whole line when it holds no
/// tab).
pub open spec fn field0(line: Seq<char>) -> Seq<char> {
    match char_pos(line, '\t') {
        None => line,
        Some(i) => line.take(i),
    }
}

/// The second field of a tab-separated line split into at most three fields,
/// or the empty text when there is none.
pub open spec fn field1(line: Seq<char>) -> Seq<char> {
    match char_pos(line, '\t') {
        None => Seq::empty(),
        Some(i) => match char_pos_from(line, '\t', i + 1) {
            None => line.subrange(i + 1, line.len() as int),
            Some(j) => line.subrange(i + 1, j),
        },
    }
}

/// The third field of a line split into at most three tab-separated fields
/// (all that follows the second tab), or the empty text when there is none.
pub open spec fn field2(line: Seq<char>) -> Seq<char> {
    match char_pos(line, '\t') {
        None => Seq::empty(),
        Some(i) => match char_pos_from(line, '\t', i + 1) {
            None => Seq::empty(),
            Some(j) => line.subrange(j + 1, line.len() as int),
        },
    }
}

/// The first three tab-separated fields of `line`, as `splitn(3, '\t')`
/// yields them, with a missing field read as the empty text.
pub fn split_fields3(line: &Vec<char>) -> (r: (String, String, String))
    ensures
        r.0@ == field0(line@),
        r.1@ == field1(line@),
        r.2@ == field2(line@),
{
    let n = line.len();
    match find_char(line, '\t', 0) {
        None => {
            let a = string_of(line);
            (a, String::new(), String::new())
        },
        Some(i) => {
            proof {
                lemma_char_pos_from_bounds(line@, '\t', 0);
            }
            let a = string_of_range(line, 0, i);
            assert(line@.subrange(0, i as int) == line@.take(i as int));
            match find_char(line, '\t', i + 1) {
                None => {
                    let b = string_of_range(line, i + 1, line.len());
                    (a, b, String::new())
                },
                Some(j) => {
                    proof {
                        lemma_char_pos_from_bounds(line@, '\t', i + 1);
                    }
                    let b = string_of_range(line, i + 1, j);
                    let c = string_of_range(line, j + 1, line.len());
                    (a, b, c)
                },
            }
        },
    }
}

// ---------------------------------------------------------------------------
// Decimal numbers.
// ---------------------------------------------------------------------------

/// The decimal digit character for `d` (0 to 9).
pub open spec fn digit_char(d: int) -> char {
    if d == 0 {
        '0'
    } else if d == 1 {
        '1'
    } else if d == 2 {
        '2'
    } else if d == 3 {
        '3'
    } else if d == 4 {
        '4'
    } else if d == 5 {
        '5'
    } else if d == 6 {
        '6'
    } else if d == 7 {
        '7'
    } else if d == 8 {
        '8'
    } else {
        '9'
    }
}

fn digit_char_exec(d: u64) -> (c: char)
    requires
        d < 10,
    ensures
        c == digit_char(d as int),
{
    if d == 0 {
        '0'
    } else if d == 1 {
        '1'
    } else if d == 2 {
        '2'
    } else if d == 3 {
        '3'
    } else if d == 4 {
        '4'
    } else if d == 5 {
        '5'
    } else if d == 6 {
        '6'
    } else if d == 7 {
        '7'
    } else if d == 8 {
        '8'
    } else {
        '9'
    }
}

/// The decimal notation of `n`, without leading zeros.
pub open spec fn decimal(n: nat) -> Seq<char>
    decreases n,
{
    if n < 10 {
        seq![digit_char(n as int)]
    } else {
        decimal(n / 10).push(digit_char((n % 10) as int))
    }
}

fn push_decimal(out: &mut Vec<char>, n: u128)
    ensures
        final(out)@ == old(out)@ + decimal(n as nat),
    decreases n,
{
    if n >= 10 {
        push_decimal(out, n / 10);
    }
    let d = digit_char_exec((n % 10) as u64);
    out.push(d);
    if n >= 10 {
        assert(old(out)@ + decimal(n as nat) =~= old(out)@ + decimal((n / 10) as nat) + seq![d]);
    } else {
        assert(old(out)@ + decimal(n as nat) =~= old(out)@.push(d));
    }
}

/// The decimal notation of `n`.
pub fn decimal_string(n: u64) -> (s: String)
    ensures
        s@ == decimal(n as nat),
{
    let mut v: Vec<char> = Vec::new();
    push_decimal(&mut v, n as u128);
    assert(v@ =~= decimal(n as nat));
    string_of(&v)
}

/// The decimal notation of a count that may exceed `u64`.
pub fn count_string(n: u128) -> (s: String)
    ensures
        s@ == decimal(n as nat),
{
    let mut v: Vec<char> = Vec::new();
    push_decimal(&mut v, n);
    assert(v@ =~= decimal(n as nat));
    string_of(&v)
}

/// The decimal notation of a number has at least one digit, and at least
/// two from ten on.
pub proof fn lemma_decimal_len(n: nat)
    ensures
        decimal(n).len() >= 1,
        n >= 10 ==> decimal(n).len() >= 2,
    decreases n,
{
    if n >= 10 {
        lemma_decimal_len(n / 10);
    }
}

proof fn lemma_digit_char_injective(x: int, y: int)
    requires
        0 <= x < 10,
        0 <= y < 10,
        digit_char(x) == digit_char(y),
    ensures
        x == y,
{
    if x == 0 {} else if x == 1 {} else if x == 2 {} else if x == 3 {} else if x == 4 {} else if x
        == 5 {} else if x == 6 {} else if x == 7 {} else if x == 8 {} else {}
}

/// Different numbers have different decimal notations.
pub proof fn lemma_decimal_injective(a: nat, b: nat)
    requires
        decimal(a) == decimal(b),
    ensures
        a == b,
    decreases a,
{
    lemma_decimal_len(a);
    lemma_decimal_len(b);
    if a < 10 && b < 10 {
        assert(decimal(a) == seq![digit_char(a as int)]);
        assert(decimal(b) == seq![digit_char(b as int)]);
        assert(decimal(a)[0] == digit_char(a as int));
        assert(decimal(b)[0] == digit_char(b as int));
        lemma_digit_char_injective(a as int, b as int);
    } else if a >= 10 && b >= 10 {
        let da = decimal(a);
        let db = decimal(b);
        assert(da.drop_last() == decimal(a / 10));
        assert(db.drop_last() == decimal(b / 10));
        assert(da.last() == db.last());
        lemma_decimal_injective(a / 10, b / 10);
        lemma_digit_char_injective((a % 10) as int, (b % 10) as int);
        assert(a == 10 * (a / 10) + a % 10);
        assert(b == 10 * (b / 10) + b % 10);
    } else {
        assert(decimal(a).len() != decimal(b).len());
    }
}

/// `k` zero characters (none when `k` is not positive).
pub open spec fn zeros(k: int) -> Seq<char> {
    Seq::new(if k > 0 { k as nat } else { 0 }, |i: int| '0')
}

/// `n` written as the format specification `{:0width}` writes an integer:
/// the sign, when negative, then zeros that bring the whole to `width`
/// characters, then the digits.
pub open spec fn zero_padded(n: int, width: int) -> Seq<char> {
    if n >= 0 {
        zeros(width - decimal(n as nat).len()) + decimal(n as nat)
    } else {
        seq!['-'] + zeros(width - 1 - decimal((-n) as nat).len()) + decimal((-n) as nat)
    }
}

/// Appends `n` written as `{:0width}` writes it.
pub fn push_zero_padded(out: &mut Vec<char>, n: i64, width: usize)
    ensures
        final(out)@ == old(out)@ + zero_padded(n as int, width as int),
{
    let mut digits: Vec<char> = Vec::new();
    let magnitude: u64 = if n >= 0 {
        n as u64
    } else {
        ((-(n + 1)) as u64) + 1
    };
    push_decimal(&mut digits, magnitude as u128);
    assert(digits@ =~= decimal(magnitude as nat));
    let ghost start = out@;
    let mut pad: usize = width;
    if n < 0 {
        out.push('-');
        pad = if width >= 1 { width - 1 } else { 0 };
    }
    let ghost signed = out@;
    let mut k: usize = digits.len();
    while k < pad
        invariant
            digits.len() <= k,
            k == digits@.len() || k <= pad,
            out@ == signed + zeros(k - digits@.len()),
        decreases pad - k,
    {
        out.push('0');
        assert(zeros(k + 1 - digits@.len()) =~= zeros(k - digits@.len()).push('0'));
        k += 1;
    }
    let ghost padded = out@;
    let mut i: usize = 0;
    while i < digits.len()
        invariant
            0 <= i <= digits@.len(),
            out@ == padded + digits@.take(i as int),
        decreases digits@.len() - i,
    {
        out.push(digits[i]);
        assert(digits@.take(i + 1) =~= digits@.take(i as int).push(digits@[i as int]));
        i += 1;
    }
    assert(digits@.take(digits@.len() as int) =~= digits@);
    if n >= 0 {
        assert(zeros(k - digits@.len()) =~= zeros(width - digits@.len()));
        assert(out@ =~= start + zero_padded(n as int, width as int));
    } else {
        assert(magnitude as int == -(n as int));
        assert(zeros(k - digits@.len()) =~= zeros(width - 1 - digits@.len()));
        assert(out@ =~= start + zero_padded(n as int, width as int));
    }
}

/// Whether `c` is an ASCII decimal digit.
pub open spec fn is_digit(c: char) -> bool {
    '0' <= c && c <= '9'
}

/// The value of the ASCII digit `c`.
pub open spec fn digit_value(c: char) -> int {
    (c as u32) as int - ('0' as u32) as int
}

/// The value of a run of decimal digits.
pub open spec fn digits_value(s: Seq<char>) -> int
    decreases s.len(),
{
    if s.len() == 0 {
        0
    } else {
        digits_value(s.drop_last()) * 10 + digit_value(s.last())
    }
}

/// Whether every character of `s` is an ASCII digit.
pub open spec fn all_digits(s: Seq<char>) -> bool {
    forall|i: int| 0 <= i < s.len() ==> is_digit(#[trigger] s[i])
}

/// What `str::parse::<i64>` gives for `s`: an optional `+` or `-` sign, then
/// one or more ASCII digits, whose value must fit in an `i64`.
pub open spec fn parse_i64_spec(s: Seq<char>) -> Option<i64> {
    let signed = s.len() > 0 && (s[0] == '-' || s[0] == '+');
    let negative = s.len() > 0 && s[0] == '-';
    let body = if signed {
        s.skip(1)
    } else {
        s
    };
    if body.len() == 0 || !all_digits(body) {
        None
    } else {
        let v = if negative {
            -digits_value(body)
        } else {
            digits_value(body)
        };
        if i64::MIN <= v <= i64::MAX {
            Some(v as i64)
        } else {
            None
        }
    }
}

proof fn lemma_digits_nonneg(s: Seq<char>)
    requires
        all_digits(s),
    ensures
        digits_value(s) >= 0,
    decreases s.len(),
{
    if s.len() > 0 {
        assert(all_digits(s.drop_last())) by {
            assert forall|i: int| 0 <= i < s.drop_last().len() implies is_digit(
                #[trigger] s.drop_last()[i],
            ) by {
                assert(s.drop_last()[i] == s[i]);
            }
        }
        lemma_digits_nonneg(s.drop_last());
        assert(is_digit(s[s.len() - 1]));
    }
}

proof fn lemma_digits_prefix_le(s: Seq<char>, k: int)
    requires
        all_digits(s),
        0 <= k <= s.len(),
    ensures
        digits_value(s.take(k)) <= digits_value(s),
    decreases s.len() - k,
{
    if k < s.len() {
        lemma_digits_prefix_le(s, k + 1);
        assert(s.take(k + 1).drop_last() =~= s.take(k));
        assert(all_digits(s.take(k))) by {
            assert forall|i: int| 0 <= i < s.take(k).len() implies is_digit(
                #[trigger] s.take(k)[i],
            ) by {
                assert(s.take(k)[i] == s[i]);
            }
        }
        lemma_digits_nonneg(s.take(k));
        assert(is_digit(s[k]));
        assert(s.take(k + 1).last() == s[k]);
    } else {
        assert(s.take(k) =~= s);
    }
}

/// Reads `s` as `str::parse::<i64>` does.
pub fn parse_i64(s: &Vec<char>) -> (r: Option<i64>)
    ensures
        r == parse_i64_spec(s@),
{
    let len = s.len();
    let mut start: usize = 0;
    let negative = len > 0 && s[0] == '-';
    if len > 0 && (s[0] == '-' || s[0] == '+') {
        start = 1;
    }
    let ghost body = if start == 1 {
        s@.skip(1)
    } else {
        s@
    };
    assert(body =~= s@.subrange(start as int, len as int));
    assert((s@.len() > 0 && (s@[0] == '-' || s@[0] == '+')) == (start == 1));
    assert(negative == (s@.len() > 0 && s@[0] == '-'));
    if start >= len {
        return None;
    }
    let limit: u64 = 0x8000_0000_0000_0000;
    let mut acc: u64 = 0;
    let mut i: usize = start;
    while i < len
        invariant
            len == s@.len(),
            start <= i <= len,
            body == s@.subrange(start as int, len as int),
            body == (if start == 1 { s@.skip(1) } else { s@ }),
            (s@.len() > 0 && (s@[0] == '-' || s@[0] == '+')) == (start == 1),
            negative == (s@.len() > 0 && s@[0] == '-'),
            all_digits(body.take(i - start)),
            acc as int == digits_value(body.take(i - start)),
            acc <= limit,
            limit == 0x8000_0000_0000_0000u64,
        decreases len - i,
    {
        let c = s[i];
        assert(body[i - start] == c);
        if !('0' <= c && c <= '9') {
            assert(!all_digits(body));
            return None;
        }
        let d: u64 = (c as u32 - '0' as u32) as u64;
        assert(body.take(i + 1 - start).drop_last() =~= body.take(i - start));
        assert(body.take(i + 1 - start).last() == c);
        assert(all_digits(body.take(i + 1 - start))) by {
            assert forall|j: int| 0 <= j < body.take(i + 1 - start).len() implies is_digit(
                #[trigger] body.take(i + 1 - start)[j],
            ) by {
                if j < i - start {
                    assert(body.take(i + 1 - start)[j] == body.take(i - start)[j]);
                }
            }
        }
        if acc > (limit - d) / 10 {
            assert(acc * 10 + d > limit) by (nonlinear_arith)
                requires
                    acc > (limit - d) / 10,
                    d < 10,
                    limit == 0x8000_0000_0000_0000u64,
            ;
            assert(digits_value(body.take(i + 1 - start)) > limit);
            proof {
                if all_digits(body) {
                    lemma_digits_prefix_le(body, i + 1 - start);
                }
            }
            return None;
        }
        acc = acc * 10 + d;
        i += 1;
    }
    assert(body.take(len - start) =~= body);
    assert(all_digits(body));
    assert(acc as int == digits_value(body));
    if negative {
        if acc == limit {
            Some(i64::MIN)
        } else {
            Some(-(acc as i64))
        }
    } else {
        if acc < limit {
            Some(acc as i64)
        } else {
            None
        }
    }
}

} // verus!

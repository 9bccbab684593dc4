//! Character-level string operations with their mathematical meaning.
use vstd::prelude::*;

verus! {

/// The characters of a string slice, in order.
pub fn chars_of(s: &str) -> (v: Vec<char>)
    ensures
        v@ == s@,
{
    let mut v: Vec<char> = Vec::new();
    for c in it: s.chars()
        invariant
            v@ == it.seq().take(it.index() as int),
            it.seq() == s@,
    {
        v.push(c);
    }
    v
}

/// Appends one character to a string.
#[verifier::external_body]
pub fn push_char(s: &mut String, c: char)
    ensures
        final(s)@ == old(s)@.push(c),
{
    s.push(c);
}

/// A string holding exactly the given characters.
pub fn string_of(v: &[char]) -> (s: String)
    ensures
        s@ == v@,
{
    let mut s = String::new();
    let mut i: usize = 0;
    while i < v.len()
        invariant
            i <= v@.len(),
            s@ == v@.take(i as int),
        decreases v@.len() - i,
    {
        push_char(&mut s, v[i]);
        i = i + 1;
    }
    s
}


/// Unicode `White_Space`, the class that `char::is_whitespace` tests.
pub open spec fn is_whitespace(c: char) -> bool {
    ||| '\u{9}' <= c <= '\u{d}'
    ||| c == ' '
    ||| c == '\u{85}'
    ||| c == '\u{a0}'
    ||| c == '\u{1680}'
    ||| '\u{2000}' <= c <= '\u{200a}'
    ||| c == '\u{2028}'
    ||| c == '\u{2029}'
    ||| c == '\u{202f}'
    ||| c == '\u{205f}'
    ||| c == '\u{3000}'
}

/// A round bracket, either way round.
pub open spec fn is_paren(c: char) -> bool {
    c == '(' || c == ')'
}

/// The two sets of characters that get stripped from the ends of a text.
#[derive(Clone, Copy, PartialEq, Eq)]
pub enum Strip {
    Whitespace,
    Parens,
}

pub open spec fn strips(k: Strip, c: char) -> bool {
    match k {
        Strip::Whitespace => is_whitespace(c),
        Strip::Parens => is_paren(c),
    }
}

fn strips_exec(k: Strip, c: char) -> (b: bool)
    ensures
        b == strips(k, c),
{
    match k {
        Strip::Whitespace => {
            ('\u{9}' <= c && c <= '\u{d}') || c == ' ' || c == '\u{85}' || c == '\u{a0}'
                || c == '\u{1680}' || ('\u{2000}' <= c && c <= '\u{200a}') || c == '\u{2028}'
                || c == '\u{2029}' || c == '\u{202f}' || c == '\u{205f}' || c == '\u{3000}'
        },
        Strip::Parens => c == '(' || c == ')',
    }
}

/// Whether a character is Unicode whitespace: `char::is_whitespace`.
pub fn is_whitespace_exec(c: char) -> (b: bool)
    ensures
        b == is_whitespace(c),
{
    strips_exec(Strip::Whitespace, c)
}

/// The text without the stripped characters at its start.
pub open spec fn strip_start(k: Strip, s: Seq<char>) -> Seq<char>
    decreases s.len(),
{
    if s.len() > 0 && strips(k, s[0]) {
        strip_start(k, s.drop_first())
    } else {
        s
    }
}

/// The text without the stripped characters at its end.
pub open spec fn strip_end(k: Strip, s: Seq<char>) -> Seq<char>
    decreases s.len(),
{
    if s.len() > 0 && strips(k, s.last()) {
        strip_end(k, s.drop_last())
    } else {
        s
    }
}

/// `str::trim_matches` with the given class, on both ends.
pub open spec fn strip(k: Strip, s: Seq<char>) -> Seq<char> {
    strip_end(k, strip_start(k, s))
}

/// `str::trim`: no Unicode whitespace at either end.
pub open spec fn trim(s: Seq<char>) -> Seq<char> {
    strip(Strip::Whitespace, s)
}

/// The characters `v[a..b]` as a vector of their own.
pub fn sub_chars(v: &[char], a: usize, b: usize) -> (r: Vec<char>)
    requires
        a <= b <= v@.len(),
    ensures
        r@ == v@.subrange(a as int, b as int),
{
    let mut r: Vec<char> = Vec::new();
    let mut i = a;
    while i < b
        invariant
            a <= i <= b <= v@.len(),
            r@ == v@.subrange(a as int, i as int),
        decreases b - i,
    {
        r.push(v[i]);
        i = i + 1;
        assert(r@ =~= v@.subrange(a as int, i as int));
    }
    r
}

/// Strips the characters of class `k` from both ends.
pub fn strip_chars(k: Strip, v: &[char]) -> (r: Vec<char>)
    ensures
        r@ == strip(k, v@),
{
    let n = v.len();
    let mut i: usize = 0;
    assert(v@.skip(0) =~= v@);
    while i < n && strips_exec(k, v[i])
        invariant
            i <= n == v@.len(),
            strip_start(k, v@) == strip_start(k, v@.skip(i as int)),
        decreases n - i,
    {
        assert(v@.skip(i as int).drop_first() =~= v@.skip(i + 1));
        i = i + 1;
    }
    assert(strip_start(k, v@) == v@.subrange(i as int, n as int)) by {
        assert(v@.skip(i as int) =~= v@.subrange(i as int, n as int));
    }
    let mut j: usize = n;
    while j > i && strips_exec(k, v[j - 1])
        invariant
            i <= j <= n == v@.len(),
            strip(k, v@) == strip_end(k, v@.subrange(i as int, j as int)),
        decreases j,
    {
        assert(v@.subrange(i as int, j as int).drop_last() =~= v@.subrange(i as int, j - 1));
        j = j - 1;
    }
    sub_chars(v, i, j)
}

proof fn lemma_strip_start_ascii(k: Strip, s: Seq<char>)
    requires
        vstd::utf8::is_ascii_chars(s),
    ensures
        vstd::utf8::is_ascii_chars(strip_start(k, s)),
    decreases s.len(),
{
    if s.len() > 0 && strips(k, s[0]) {
        assert forall|i: int| 0 <= i < s.drop_first().len() implies '\0' <= #[trigger] s.drop_first()[i]
            <= '\u{7f}' by {
            assert(s.drop_first()[i] == s[i + 1]);
        }
        lemma_strip_start_ascii(k, s.drop_first());
    }
}

proof fn lemma_strip_end_ascii(k: Strip, s: Seq<char>)
    requires
        vstd::utf8::is_ascii_chars(s),
    ensures
        vstd::utf8::is_ascii_chars(strip_end(k, s)),
    decreases s.len(),
{
    if s.len() > 0 && strips(k, s.last()) {
        assert forall|i: int| 0 <= i < s.drop_last().len() implies '\0' <= #[trigger] s.drop_last()[i]
            <= '\u{7f}' by {
            assert(s.drop_last()[i] == s[i]);
        }
        lemma_strip_end_ascii(k, s.drop_last());
    }
}

/// Stripping keeps a text ASCII.
pub proof fn lemma_strip_ascii(k: Strip, s: Seq<char>)
    requires
        vstd::utf8::is_ascii_chars(s),
    ensures
        vstd::utf8::is_ascii_chars(strip(k, s)),
{
    lemma_strip_start_ascii(k, s);
    lemma_strip_end_ascii(k, strip_start(k, s));
}

/// Stripping the start leaves a suffix of the text that starts with a kept character, and
/// removes only characters of the class.
pub proof fn lemma_strip_start_shape(k: Strip, s: Seq<char>)
    ensures
        strip_start(k, s).len() <= s.len(),
        strip_start(k, s) == s.skip(s.len() - strip_start(k, s).len()),
        strip_start(k, s).len() > 0 ==> !strips(k, strip_start(k, s)[0]),
        forall|i: int| 0 <= i < s.len() - strip_start(k, s).len() ==> strips(k, #[trigger] s[i]),
    decreases s.len(),
{
    if s.len() > 0 && strips(k, s[0]) {
        lemma_strip_start_shape(k, s.drop_first());
        let r = strip_start(k, s.drop_first());
        assert(s.drop_first().skip(s.drop_first().len() - r.len()) =~= s.skip(s.len() - r.len()));
        assert forall|i: int| 0 <= i < s.len() - r.len() implies strips(k, #[trigger] s[i]) by {
            if i > 0 {
                assert(s[i] == s.drop_first()[i - 1]);
            }
        }
    } else {
        assert(s.skip(0) =~= s);
    }
}

/// Stripping the end leaves a prefix of the text that ends with a kept character.
pub proof fn lemma_strip_end_shape(k: Strip, s: Seq<char>)
    ensures
        strip_end(k, s).len() <= s.len(),
        strip_end(k, s) == s.take(strip_end(k, s).len() as int),
        strip_end(k, s).len() > 0 ==> !strips(k, strip_end(k, s).last()),
    decreases s.len(),
{
    if s.len() > 0 && strips(k, s.last()) {
        lemma_strip_end_shape(k, s.drop_last());
        let r = strip_end(k, s.drop_last());
        assert(s.drop_last().take(r.len() as int) =~= s.take(r.len() as int));
    } else {
        assert(s.take(s.len() as int) =~= s);
    }
}

/// A trimmed text is empty, or starts and ends with a character that is no whitespace.
pub proof fn lemma_trim_shape(s: Seq<char>)
    ensures
        trim(s).len() > 0 ==> !is_whitespace(trim(s)[0]) && !is_whitespace(trim(s).last()),
{
    let u = strip_start(Strip::Whitespace, s);
    lemma_strip_start_shape(Strip::Whitespace, s);
    lemma_strip_end_shape(Strip::Whitespace, u);
    let v = strip_end(Strip::Whitespace, u);
    if v.len() > 0 {
        assert(v[0] == u[0]);
        assert(!strips(Strip::Whitespace, u[0]));
    }
}

/// A text that is empty, or starts and ends with a character that is no whitespace, is its
/// own trim.
pub proof fn lemma_trim_fixed(s: Seq<char>)
    requires
        s.len() > 0 ==> !is_whitespace(s[0]) && !is_whitespace(s.last()),
    ensures
        trim(s) == s,
{
    assert(strip_start(Strip::Whitespace, s) == s);
    assert(strip_end(Strip::Whitespace, s) == s);
}

/// Trimming twice trims once.
pub proof fn lemma_trim_idempotent(s: Seq<char>)
    ensures
        trim(trim(s)) == trim(s),
{
    lemma_trim_shape(s);
    lemma_trim_fixed(trim(s));
}

/// `str::trim`, as characters.
pub fn trim_chars(v: &[char]) -> (r: Vec<char>)
    ensures
        r@ == trim(v@),
{
    strip_chars(Strip::Whitespace, v)
}


/// `str::split` with a character separator: the pieces between separators.
pub open spec fn split(s: Seq<char>, c: char) -> Seq<Seq<char>>
    decreases s.len(),
{
    if s.len() == 0 {
        seq![Seq::empty()]
    } else {
        let rest = split(s.drop_last(), c);
        if s.last() == c {
            rest.push(Seq::empty())
        } else {
            rest.update(rest.len() - 1, rest.last().push(s.last()))
        }
    }
}

pub proof fn lemma_split_len(s: Seq<char>, c: char)
    ensures
        split(s, c).len() >= 1,
    decreases s.len(),
{
    if s.len() > 0 {
        lemma_split_len(s.drop_last(), c);
    }
}

/// The views of a sequence of character vectors.
pub open spec fn vviews(v: Seq<Vec<char>>) -> Seq<Seq<char>> {
    v.map_values(|x: Vec<char>| x@)
}

/// The pieces of `v` between occurrences of `c`.
pub fn split_chars(v: &[char], c: char) -> (r: Vec<Vec<char>>)
    ensures
        vviews(r@) == split(v@, c),
{
    let mut parts: Vec<Vec<char>> = Vec::new();
    let mut cur: Vec<char> = Vec::new();
    let n = v.len();
    assert(v@.take(0) =~= Seq::<char>::empty());
    assert(vviews(parts@).push(cur@) =~= split(v@.take(0), c));
    let mut i: usize = 0;
    while i < n
        invariant
            i <= n == v@.len(),
            vviews(parts@).push(cur@) == split(v@.take(i as int), c),
        decreases n - i,
    {
        let ghost before = vviews(parts@);
        let ghost cur_before = cur@;
        proof {
            lemma_split_len(v@.take(i as int), c);
            assert(v@.take(i + 1).drop_last() =~= v@.take(i as int));
            assert(v@.take(i + 1).last() == v@[i as int]);
        }
        if v[i] == c {
            parts.push(cur);
            cur = Vec::new();
            assert(vviews(parts@) =~= before.push(cur_before));
            assert(vviews(parts@).push(cur@) =~= split(v@.take(i + 1), c));
        } else {
            cur.push(v[i]);
            assert(vviews(parts@).push(cur@) =~= split(v@.take(i + 1), c));
        }
        i = i + 1;
    }
    assert(v@.take(n as int) =~= v@);
    let ghost before = vviews(parts@);
    parts.push(cur);
    assert(vviews(parts@) =~= before.push(cur@));
    parts
}

/// The views of a sequence of strings.
pub open spec fn views(v: Seq<String>) -> Seq<Seq<char>> {
    v.map_values(|s: String| s@)
}

/// `[T]::join`: the pieces with `sep` between each two.
pub open spec fn join(parts: Seq<Seq<char>>, sep: Seq<char>) -> Seq<char>
    decreases parts.len(),
{
    if parts.len() == 0 {
        Seq::empty()
    } else if parts.len() == 1 {
        parts[0]
    } else {
        join(parts.drop_last(), sep) + sep + parts.last()
    }
}

/// The strings of `parts` with `sep` between each two.
pub fn join_strings(parts: &Vec<String>, sep: &str) -> (r: String)
    ensures
        r@ == join(views(parts@), sep@),
{
    let mut r = String::new();
    let n = parts.len();
    let mut i: usize = 0;
    while i < n
        invariant
            i <= n == parts@.len(),
            r@ == join(views(parts@).take(i as int), sep@),
        decreases n - i,
    {
        assert(views(parts@).take(i + 1).drop_last() =~= views(parts@).take(i as int));
        if i > 0 {
            r.append(sep);
        }
        r.append(parts[i].as_str());
        proof {
            if i == 0 {
                assert(views(parts@).take(1) =~= seq![parts@[0]@]);
            }
        }
        i = i + 1;
    }
    assert(views(parts@).take(n as int) =~= views(parts@));
    r
}

/// `str::replace('\'', "''")`: every single quote doubled.
pub open spec fn escape_quotes(s: Seq<char>) -> Seq<char>
    decreases s.len(),
{
    if s.len() == 0 {
        Seq::empty()
    } else if s.last() == '\'' {
        escape_quotes(s.drop_last()) + seq!['\'', '\'']
    } else {
        escape_quotes(s.drop_last()).push(s.last())
    }
}

/// Appends `v` with every single quote doubled.
pub fn push_escaped(r: &mut String, v: &[char])
    ensures
        final(r)@ == old(r)@ + escape_quotes(v@),
{
    let n = v.len();
    let mut i: usize = 0;
    assert(v@.take(0) =~= Seq::<char>::empty());
    assert(r@ =~= old(r)@ + escape_quotes(v@.take(0)));
    while i < n
        invariant
            i <= n == v@.len(),
            r@ == old(r)@ + escape_quotes(v@.take(i as int)),
        decreases n - i,
    {
        assert(v@.take(i + 1).drop_last() =~= v@.take(i as int));
        let ch = v[i];
        if ch == '\'' {
            push_char(r, '\'');
            push_char(r, '\'');
            assert(r@ =~= old(r)@ + escape_quotes(v@.take(i + 1)));
        } else {
            push_char(r, ch);
            assert(r@ =~= old(r)@ + escape_quotes(v@.take(i + 1)));
        }
        i = i + 1;
    }
    assert(v@.take(n as int) =~= v@);
}

/// The first position of `c` in `s`.
pub open spec fn find(s: Seq<char>, c: char) -> Option<int>
    decreases s.len(),
{
    if s.len() == 0 {
        None
    } else if s[0] == c {
        Some(0)
    } else {
        match find(s.drop_first(), c) {
            Some(i) => Some(i + 1),
            None => None,
        }
    }
}

/// `str::split_once` with a character: the text before and after the first `c`.
pub open spec fn split_once(s: Seq<char>, c: char) -> Option<(Seq<char>, Seq<char>)> {
    match find(s, c) {
        Some(i) => Some((s.take(i), s.skip(i + 1))),
        None => None,
    }
}

pub proof fn lemma_find_bounds(s: Seq<char>, c: char)
    ensures
        find(s, c) matches Some(i) ==> 0 <= i < s.len() && s[i] == c,
    decreases s.len(),
{
    if s.len() > 0 && s[0] != c {
        lemma_find_bounds(s.drop_first(), c);
    }
}

/// The first position of `c` in `v`.
pub fn find_char(v: &[char], c: char) -> (r: Option<usize>)
    ensures
        r matches Some(i) ==> find(v@, c) == Some(i as int),
        r is None ==> find(v@, c) is None,
{
    let n = v.len();
    let mut i: usize = 0;
    assert(v@.skip(0) =~= v@);
    while i < n
        invariant
            i <= n == v@.len(),
            find(v@, c) == (match find(v@.skip(i as int), c) {
                Some(j) => Some(j + i),
                None => None,
            }),
        decreases n - i,
    {
        if v[i] == c {
            return Some(i);
        }
        assert(v@.skip(i as int).drop_first() =~= v@.skip(i + 1));
        i = i + 1;
    }
    None
}

/// The text before and after the first `c` in `v`.
pub fn split_once_chars(v: &[char], c: char) -> (r: Option<(Vec<char>, Vec<char>)>)
    ensures
        r matches Some((a, b)) ==> split_once(v@, c) == Some((a@, b@)),
        r is None ==> split_once(v@, c) is None,
{
    match find_char(v, c) {
        Some(i) => {
            proof {
                lemma_find_bounds(v@, c);
            }
            let n = v.len();
            assert(i < n);
            let a = sub_chars(v, 0, i);
            let b = sub_chars(v, i + 1, n);
            assert(a@ =~= v@.take(i as int));
            assert(b@ =~= v@.skip(i + 1));
            Some((a, b))
        },
        None => None,
    }
}


/// `str::contains` with a text pattern.
pub open spec fn contains(s: Seq<char>, pat: Seq<char>) -> bool {
    exists|i: int| 0 <= i <= s.len() - pat.len() && #[trigger] s.subrange(i, i + pat.len()) == pat
}

fn matches_at(v: &[char], pat: &[char], i: usize) -> (b: bool)
    requires
        i + pat@.len() <= v@.len(),
    ensures
        b == (v@.subrange(i as int, i + pat@.len()) == pat@),
{
    let m = pat.len();
    let n = v.len();
    let mut k: usize = 0;
    while k < m
        invariant
            k <= m == pat@.len(),
            n == v@.len(),
            i + m <= n,
            forall|j: int| 0 <= j < k ==> v@[i + j] == pat@[j],
        decreases m - k,
    {
        if v[i + k] != pat[k] {
            assert(v@.subrange(i as int, i + m)[k as int] != pat@[k as int]);
            return false;
        }
        k = k + 1;
    }
    assert(v@.subrange(i as int, i + m) =~= pat@);
    true
}

/// Whether `pat` occurs in `v`.
pub fn contains_chars(v: &[char], pat: &[char]) -> (b: bool)
    ensures
        b == contains(v@, pat@),
{
    let n = v.len();
    let m = pat.len();
    if m > n {
        return false;
    }
    if m == 0 {
        assert(v@.subrange(0int, 0int + pat@.len()) =~= pat@);
        return true;
    }
    let mut i: usize = 0;
    while i <= n - m
        invariant
            1 <= m <= n == v@.len(),
            m == pat@.len(),
            forall|j: int| 0 <= j < i ==> #[trigger] v@.subrange(j, j + m) != pat@,
        decreases n - m + 1 - i,
    {
        if matches_at(v, pat, i) {
            return true;
        }
        i = i + 1;
    }
    false
}

/// A character's code after `char::to_ascii_lowercase`.
pub open spec fn ascii_fold(c: char) -> u32 {
    if 'A' <= c <= 'Z' {
        (c as u32 + 32) as u32
    } else {
        c as u32
    }
}

fn ascii_fold_exec(c: char) -> (r: u32)
    ensures
        r == ascii_fold(c),
{
    let x = c as u32;
    if 65 <= x && x <= 90 {
        x + 32
    } else {
        x
    }
}

/// `str::eq_ignore_ascii_case`.
pub open spec fn eq_ignore_ascii_case(a: Seq<char>, b: Seq<char>) -> bool {
    a.len() == b.len() && forall|i: int| 0 <= i < a.len() ==> ascii_fold(#[trigger] a[i]) == ascii_fold(b[i])
}

/// Whether `a` and `b` are the same text up to the case of ASCII letters.
pub fn eq_ignore_ascii_case_chars(a: &[char], b: &[char]) -> (r: bool)
    ensures
        r == eq_ignore_ascii_case(a@, b@),
{
    if a.len() != b.len() {
        return false;
    }
    let n = a.len();
    let mut i: usize = 0;
    while i < n
        invariant
            i <= n == a@.len() == b@.len(),
            forall|j: int| 0 <= j < i ==> ascii_fold(#[trigger] a@[j]) == ascii_fold(b@[j]),
        decreases n - i,
    {
        if ascii_fold_exec(a[i]) != ascii_fold_exec(b[i]) {
            return false;
        }
        i = i + 1;
    }
    true
}

/// An ASCII letter or digit: `char::is_ascii_alphanumeric`.
pub open spec fn is_ascii_alphanumeric(c: char) -> bool {
    ('a' <= c <= 'z') || ('A' <= c <= 'Z') || ('0' <= c <= '9')
}

pub fn is_ascii_alphanumeric_exec(c: char) -> (b: bool)
    ensures
        b == is_ascii_alphanumeric(c),
{
    ('a' <= c && c <= 'z') || ('A' <= c && c <= 'Z') || ('0' <= c && c <= '9')
}

/// An ASCII decimal digit.
pub open spec fn is_digit(c: char) -> bool {
    '0' <= c <= '9'
}

/// The value of a decimal digit.
pub open spec fn digit_value(c: char) -> int {
    c as int - '0' as int
}

/// The character of a decimal digit.
pub open spec fn digit_char(d: int) -> char {
    if d <= 0 { '0' }
    else if d == 1 { '1' }
    else if d == 2 { '2' }
    else if d == 3 { '3' }
    else if d == 4 { '4' }
    else if d == 5 { '5' }
    else if d == 6 { '6' }
    else if d == 7 { '7' }
    else if d == 8 { '8' }
    else { '9' }
}

fn digit_char_exec(d: u64) -> (c: char)
    requires
        d < 10,
    ensures
        c == digit_char(d as int),
{
    if d == 0 { '0' }
    else if d == 1 { '1' }
    else if d == 2 { '2' }
    else if d == 3 { '3' }
    else if d == 4 { '4' }
    else if d == 5 { '5' }
    else if d == 6 { '6' }
    else if d == 7 { '7' }
    else if d == 8 { '8' }
    else { '9' }
}

/// The decimal digits of a natural number, most significant first.
pub open spec fn digits(n: nat) -> Seq<char>
    decreases n,
{
    if n < 10 {
        seq![digit_char(n as int)]
    } else {
        digits(n / 10).push(digit_char((n % 10) as int))
    }
}

/// An integer as `Display` writes it.
pub open spec fn decimal(n: int) -> Seq<char> {
    if n < 0 {
        seq!['-'] + digits((-n) as nat)
    } else {
        digits(n as nat)
    }
}

fn push_digits(r: &mut String, n: u64)
    ensures
        final(r)@ == old(r)@ + digits(n as nat),
    decreases n,
{
    if n >= 10 {
        push_digits(r, n / 10);
    }
    push_char(r, digit_char_exec(n % 10));
    assert(final(r)@ =~= old(r)@ + digits(n as nat));
}

/// Appends `n` in decimal.
pub fn push_decimal(r: &mut String, n: i64)
    ensures
        final(r)@ == old(r)@ + decimal(n as int),
{
    if n < 0 {
        push_char(r, '-');
        let m: u64 = (0i128 - n as i128) as u64;
        push_digits(r, m);
        assert(final(r)@ =~= old(r)@ + decimal(n as int));
    } else {
        push_digits(r, n as u64);
    }
}

/// Appends `n` in decimal.
pub fn push_decimal_usize(r: &mut String, n: usize)
    ensures
        final(r)@ == old(r)@ + decimal(n as int),
{
    push_digits(r, n as u64);
}


/// The value of a run of decimal digits.
pub open spec fn digits_value(s: Seq<char>) -> int
    decreases s.len(),
{
    if s.len() == 0 {
        0
    } else {
        digits_value(s.drop_last()) * 10 + digit_value(s.last())
    }
}

pub open spec fn all_digits(s: Seq<char>) -> bool {
    forall|i: int| 0 <= i < s.len() ==> is_digit(#[trigger] s[i])
}

/// The integer that `str::parse` reads: an optional sign, then one or more digits.
pub open spec fn parse_int(s: Seq<char>) -> Option<int> {
    if s.len() > 0 && (s[0] == '+' || s[0] == '-') {
        let d = s.drop_first();
        if d.len() > 0 && all_digits(d) {
            Some(if s[0] == '-' { -digits_value(d) } else { digits_value(d) })
        } else {
            None
        }
    } else if s.len() > 0 && all_digits(s) {
        Some(digits_value(s))
    } else {
        None
    }
}

/// `str::parse::<i32>`, with `None` for its error.
pub open spec fn parse_i32(s: Seq<char>) -> Option<i32> {
    match parse_int(s) {
        Some(v) => if i32::MIN <= v <= i32::MAX {
            Some(v as i32)
        } else {
            None
        },
        None => None,
    }
}

pub proof fn lemma_digits_value_nonneg(s: Seq<char>)
    requires
        all_digits(s),
    ensures
        digits_value(s) >= 0,
    decreases s.len(),
{
    if s.len() > 0 {
        assert(all_digits(s.drop_last()));
        assert(is_digit(s[s.len() - 1]));
        lemma_digits_value_nonneg(s.drop_last());
    }
}

const DIGITS_CAP: u64 = 0x1_0000_0000;

/// The value of the digits `v[from..]`, or `DIGITS_CAP` when it is at least that; `None` when a
/// character there is no digit or there is none.
fn capped_digits_value(v: &[char], from: usize) -> (r: Option<u64>)
    requires
        from <= v@.len(),
    ensures
        r is Some <==> (from < v@.len() && all_digits(v@.skip(from as int))),
        r matches Some(x) ==> x == (if digits_value(v@.skip(from as int)) < DIGITS_CAP {
            digits_value(v@.skip(from as int))
        } else {
            DIGITS_CAP as int
        }),
{
    let n = v.len();
    if from >= n {
        return None;
    }
    let ghost d = v@.skip(from as int);
    let mut acc: u64 = 0;
    let mut i: usize = from;
    assert(d.take(0) =~= Seq::<char>::empty());
    while i < n
        invariant
            from <= i <= n == v@.len(),
            d == v@.skip(from as int),
            all_digits(d.take(i - from)),
            acc == (if digits_value(d.take(i - from)) < DIGITS_CAP {
                digits_value(d.take(i - from))
            } else {
                DIGITS_CAP as int
            }),
        decreases n - i,
    {
        let c = v[i];
        if !('0' <= c && c <= '9') {
            assert(d[i - from] == c);
            return None;
        }
        let ghost before = d.take(i - from);
        let ghost after = d.take(i - from + 1);
        assert(after.drop_last() =~= before);
        assert(after.last() == c);
        assert(all_digits(after)) by {
            assert forall|k: int| 0 <= k < after.len() implies is_digit(#[trigger] after[k]) by {
                if k < before.len() {
                    assert(after[k] == before[k]);
                }
            }
        }
        proof {
            lemma_digits_value_nonneg(before);
        }
        let dv: u64 = (c as u32 - '0' as u32) as u64;
        assert(dv == digit_value(c));
        if acc >= DIGITS_CAP {
            acc = DIGITS_CAP;
        } else {
            let next = acc * 10 + dv;
            acc = if next >= DIGITS_CAP { DIGITS_CAP } else { next };
        }
        i = i + 1;
    }
    assert(d.take(n - from) =~= d);
    Some(acc)
}

/// `str::parse::<i32>` on characters, with `None` for its error.
pub fn parse_i32_chars(v: &[char]) -> (r: Option<i32>)
    ensures
        r == parse_i32(v@),
{
    let n = v.len();
    if n > 0 && (v[0] == '+' || v[0] == '-') {
        let neg = v[0] == '-';
        assert(v@.skip(1) =~= v@.drop_first());
        match capped_digits_value(v, 1) {
            None => None,
            Some(x) => {
                if neg {
                    if x <= 0x8000_0000 {
                        Some((0i64 - x as i64) as i32)
                    } else {
                        None
                    }
                } else if x <= 0x7fff_ffff {
                    Some(x as i32)
                } else {
                    None
                }
            },
        }
    } else {
        assert(v@.skip(0) =~= v@);
        match capped_digits_value(v, 0) {
            None => None,
            Some(x) => if x <= 0x7fff_ffff {
                Some(x as i32)
            } else {
                None
            },
        }
    }
}

/// `i32::clamp`.
pub open spec fn clamp(x: int, lo: int, hi: int) -> int {
    if x < lo {
        lo
    } else if x > hi {
        hi
    } else {
        x
    }
}

pub fn clamp_i32(x: i32, lo: i32, hi: i32) -> (r: i32)
    requires
        lo <= hi,
    ensures
        r == clamp(x as int, lo as int, hi as int),
{
    if x < lo {
        lo
    } else if x > hi {
        hi
    } else {
        x
    }
}

/// What `str::to_lowercase` gives for a text: the full Unicode lowercase mapping.
pub uninterp spec fn unicode_lowercase(s: Seq<char>) -> Seq<char>;

/// The text with its ASCII capitals made small.
pub open spec fn ascii_lowercase(s: Seq<char>) -> Seq<char> {
    Seq::new(s.len(), |i: int| (ascii_fold(s[i]) as char))
}

/// Calls `str::to_lowercase`. Its result is named `unicode_lowercase`; where the text is all
/// ASCII the contract says what it is, as the Unicode mapping leaves all but `A`..`Z` alone
/// there. What it gives for other characters is not stated.
#[verifier::external_body]
pub fn to_lowercase(s: &str) -> (r: String)
    ensures
        r@ == unicode_lowercase(s@),
        vstd::utf8::is_ascii_chars(s@) ==> r@ == ascii_lowercase(s@),
{
    s.to_lowercase()
}


/// Maps `f` over `items` left to right, stopping at the first error.
pub open spec fn collect_all<A, E>(
    items: Seq<A>,
    f: spec_fn(A) -> Result<Seq<char>, E>,
) -> Result<Seq<Seq<char>>, E>
    decreases items.len(),
{
    if items.len() == 0 {
        Ok(Seq::empty())
    } else {
        match collect_all(items.drop_last(), f) {
            Err(e) => Err(e),
            Ok(done) => match f(items.last()) {
                Ok(x) => Ok(done.push(x)),
                Err(e) => Err(e),
            },
        }
    }
}

pub proof fn lemma_collect_all_step<A, E>(
    items: Seq<A>,
    i: int,
    f: spec_fn(A) -> Result<Seq<char>, E>,
)
    requires
        0 <= i < items.len(),
    ensures
        collect_all(items.take(i + 1), f) == (match collect_all(items.take(i), f) {
            Err(e) => Err(e),
            Ok(done) => match f(items[i]) {
                Ok(x) => Ok(done.push(x)),
                Err(e) => Err(e),
            },
        }),
{
    assert(items.take(i + 1).drop_last() =~= items.take(i));
}

pub proof fn lemma_collect_all_len<A, E>(items: Seq<A>, f: spec_fn(A) -> Result<Seq<char>, E>)
    ensures
        collect_all(items, f) matches Ok(r) ==> r.len() == items.len(),
    decreases items.len(),
{
    if items.len() > 0 {
        lemma_collect_all_len(items.drop_last(), f);
    }
}

/// Where mapping succeeds, every item mapped to the piece at its place.
pub proof fn lemma_collect_all_ok<A, E>(items: Seq<A>, f: spec_fn(A) -> Result<Seq<char>, E>)
    ensures
        collect_all(items, f) matches Ok(r) ==> r.len() == items.len() && forall|i: int|
            0 <= i < items.len() ==> f(#[trigger] items[i]) == Ok::<Seq<char>, E>(r[i]),
    decreases items.len(),
{
    if items.len() > 0 {
        lemma_collect_all_ok(items.drop_last(), f);
        if let Ok(r) = collect_all(items, f) {
            let prev = collect_all(items.drop_last(), f)->Ok_0;
            assert forall|i: int| 0 <= i < items.len() implies f(#[trigger] items[i]) == Ok::<
                Seq<char>,
                E,
            >(r[i]) by {
                if i < items.len() - 1 {
                    assert(items[i] == items.drop_last()[i]);
                    assert(r[i] == prev[i]);
                }
            }
        }
    }
}

pub proof fn lemma_collect_all_err<A, E>(
    items: Seq<A>,
    i: int,
    f: spec_fn(A) -> Result<Seq<char>, E>,
)
    requires
        0 <= i <= items.len(),
        collect_all(items.take(i), f) is Err,
    ensures
        collect_all(items, f) == collect_all(items.take(i), f),
    decreases items.len() - i,
{
    if i < items.len() {
        lemma_collect_all_step(items, i, f);
        lemma_collect_all_err(items, i + 1, f);
    } else {
        assert(items.take(i) =~= items);
    }
}

/// The views of a sequence of pairs of strings.
pub open spec fn pair_views(v: Seq<(String, String)>) -> Seq<(Seq<char>, Seq<char>)> {
    v.map_values(|p: (String, String)| (p.0@, p.1@))
}

/// The value of the last pair whose key is `key`, as a map built from the pairs in order keeps.
pub open spec fn lookup(pairs: Seq<(Seq<char>, Seq<char>)>, key: Seq<char>) -> Option<Seq<char>>
    decreases pairs.len(),
{
    if pairs.len() == 0 {
        None
    } else if pairs.last().0 == key {
        Some(pairs.last().1)
    } else {
        lookup(pairs.drop_last(), key)
    }
}

/// The value of the last pair whose key is `key`.
pub fn lookup_pairs<'a>(pairs: &'a Vec<(String, String)>, key: &str) -> (r: Option<&'a String>)
    ensures
        match r {
            Some(v) => lookup(pair_views(pairs@), key@) == Some(v@),
            None => lookup(pair_views(pairs@), key@) is None,
        },
{
    let k = owned_str(key);
    let mut j: usize = pairs.len();
    assert(pair_views(pairs@).take(j as int) =~= pair_views(pairs@));
    while j > 0
        invariant
            j <= pairs@.len(),
            k@ == key@,
            lookup(pair_views(pairs@), key@) == lookup(pair_views(pairs@).take(j as int), key@),
        decreases j,
    {
        let ghost t = pair_views(pairs@).take(j as int);
        assert(t.drop_last() =~= pair_views(pairs@).take(j - 1));
        if pairs[j - 1].0 == k {
            return Some(&pairs[j - 1].1);
        }
        j = j - 1;
    }
    None
}

/// The owned copy of a text.
pub fn owned_str(s: &str) -> (r: String)
    ensures
        r@ == s@,
{
    s.to_owned()
}

/// Whether the characters spell the text `b`.
pub fn chars_eq_str(a: &[char], b: &str) -> (r: bool)
    ensures
        r == (a@ == b@),
{
    let bv = chars_of(b);
    if a.len() != bv.len() {
        return false;
    }
    let n = a.len();
    let mut i: usize = 0;
    while i < n
        invariant
            i <= n == a@.len() == bv@.len(),
            bv@ == b@,
            forall|j: int| 0 <= j < i ==> a@[j] == bv@[j],
        decreases n - i,
    {
        if a[i] != bv[i] {
            assert(a@[i as int] != b@[i as int]);
            return false;
        }
        i = i + 1;
    }
    assert(a@ =~= bv@);
    true
}


/// The number of bytes of a character in UTF-8: `char::len_utf8`.
pub open spec fn utf8_len(c: char) -> nat {
    if (c as u32) < 0x80 {
        1
    } else if (c as u32) < 0x800 {
        2
    } else if (c as u32) < 0x10000 {
        3
    } else {
        4
    }
}

fn utf8_len_exec(c: char) -> (r: u128)
    ensures
        r == utf8_len(c),
{
    let x = c as u32;
    if x < 0x80 {
        1
    } else if x < 0x800 {
        2
    } else if x < 0x10000 {
        3
    } else {
        4
    }
}

/// The number of bytes of a text in UTF-8: `str::len`.
pub open spec fn byte_len(s: Seq<char>) -> nat
    decreases s.len(),
{
    if s.len() == 0 {
        0
    } else {
        byte_len(s.drop_last()) + utf8_len(s.last())
    }
}

/// Whether byte offset `n` falls between two characters of the text.
pub open spec fn is_boundary(s: Seq<char>, n: nat) -> bool {
    exists|k: int| 0 <= k <= s.len() && #[trigger] byte_len(s.take(k)) == n
}

/// Whether `&s[..n]` and `&s[n..]` can be taken: `n` lies beyond the text or on a boundary
/// (slicing panics otherwise).
pub open spec fn slicing_ok(s: Seq<char>, n: nat) -> bool {
    byte_len(s) < n || is_boundary(s, n)
}

pub proof fn lemma_byte_len_mono(s: Seq<char>, j: int, k: int)
    requires
        0 <= j < k <= s.len(),
    ensures
        byte_len(s.take(j)) < byte_len(s.take(k)),
    decreases k - j,
{
    assert(s.take(k).drop_last() =~= s.take(k - 1));
    if j < k - 1 {
        lemma_byte_len_mono(s, j, k - 1);
    }
}

pub proof fn lemma_byte_len_ascii(s: Seq<char>)
    requires
        forall|i: int| 0 <= i < s.len() ==> (#[trigger] s[i] as u32) < 0x80,
    ensures
        byte_len(s) == s.len(),
    decreases s.len(),
{
    if s.len() > 0 {
        lemma_byte_len_ascii(s.drop_last());
    }
}

/// Whether byte offset `n` can be sliced at in `v`.
pub fn slicing_ok_chars(v: &[char], n: usize) -> (b: bool)
    ensures
        b == slicing_ok(v@, n as nat),
{
    let len = v.len();
    let mut total: u128 = 0;
    let mut k: usize = 0;
    assert(v@.take(0) =~= Seq::<char>::empty());
    while k < len && total < n as u128
        invariant
            k <= len == v@.len(),
            total == byte_len(v@.take(k as int)),
            forall|j: int| 0 <= j < k ==> byte_len(#[trigger] v@.take(j)) < n,
        decreases len - k,
    {
        assert(v@.take(k + 1).drop_last() =~= v@.take(k as int));
        total = total + utf8_len_exec(v[k]);
        k = k + 1;
    }
    if total == n as u128 {
        return true;
    }
    if total > n as u128 {
        assert forall|j: int| 0 <= j <= v@.len() implies #[trigger] byte_len(v@.take(j)) != n by {
            if j > k {
                lemma_byte_len_mono(v@, k as int, j);
            }
        }
        assert(v@.take(len as int) =~= v@);
        proof {
            if k < len {
                lemma_byte_len_mono(v@, k as int, len as int);
            }
        }
        return false;
    }
    assert(v@.take(len as int) =~= v@);
    true
}

/// Whether the text starts with `w`, ignoring the case of ASCII letters.
pub open spec fn starts_with_ci(s: Seq<char>, w: Seq<char>) -> bool {
    s.len() >= w.len() && eq_ignore_ascii_case(s.take(w.len() as int), w)
}


/// Strips the characters of class `k` from the start only.
pub fn strip_start_chars(k: Strip, v: &[char]) -> (r: Vec<char>)
    ensures
        r@ == strip_start(k, v@),
{
    let n = v.len();
    let mut i: usize = 0;
    assert(v@.skip(0) =~= v@);
    while i < n && strips_exec(k, v[i])
        invariant
            i <= n == v@.len(),
            strip_start(k, v@) == strip_start(k, v@.skip(i as int)),
        decreases n - i,
    {
        assert(v@.skip(i as int).drop_first() =~= v@.skip(i + 1));
        i = i + 1;
    }
    assert(v@.skip(i as int) =~= v@.subrange(i as int, n as int));
    sub_chars(v, i, n)
}

/// Whether `v` starts with `w`, ignoring the case of ASCII letters.
pub fn starts_with_ci_chars(v: &[char], w: &[char]) -> (b: bool)
    ensures
        b == starts_with_ci(v@, w@),
{
    if v.len() < w.len() {
        return false;
    }
    let head = sub_chars(v, 0, w.len());
    assert(head@ =~= v@.take(w@.len() as int));
    eq_ignore_ascii_case_chars(&head, w)
}

} // verus!

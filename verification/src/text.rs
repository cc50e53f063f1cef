//! Character-level text utilities with exact specifications: the parts of
//! `str`'s behaviour (trimming, splitting, lines, integer parsing and
//! printing) that the connector's logic relies on.
use vstd::prelude::*;

verus! {

broadcast use vstd::string::group_string_axioms;

/// Unicode `White_Space`, the property that `char::is_whitespace` tests.
pub open spec fn is_space(c: char) -> bool {
    let u = c as u32;
    ||| 9 <= u <= 13
    ||| u == 32
    ||| u == 0x85
    ||| u == 0xa0
    ||| u == 0x1680
    ||| 0x2000 <= u <= 0x200a
    ||| u == 0x2028
    ||| u == 0x2029
    ||| u == 0x202f
    ||| u == 0x205f
    ||| u == 0x3000
}

/// `s` without its leading white space.
pub open spec fn trim_start(s: Seq<char>) -> Seq<char>
    decreases s.len(),
{
    if s.len() > 0 && is_space(s[0]) {
        trim_start(s.drop_first())
    } else {
        s
    }
}

/// `s` without its trailing white space.
pub open spec fn trim_end(s: Seq<char>) -> Seq<char>
    decreases s.len(),
{
    if s.len() > 0 && is_space(s.last()) {
        trim_end(s.drop_last())
    } else {
        s
    }
}

/// `str::trim`: white space removed at both ends.
pub open spec fn trim(s: Seq<char>) -> Seq<char> {
    trim_end(trim_start(s))
}

/// `str::split` on one separator character: the pieces between separators,
/// empty pieces included, so that there is always one more piece than
/// separators.
pub open spec fn split_on(s: Seq<char>, sep: char) -> Seq<Seq<char>>
    decreases s.len(),
{
    if s.len() == 0 {
        seq![Seq::<char>::empty()]
    } else {
        let r = split_on(s.drop_last(), sep);
        if s.last() == sep {
            r.push(Seq::<char>::empty())
        } else {
            r.update(r.len() - 1, r.last().push(s.last()))
        }
    }
}

/// Appends one character to a string (`String::push`).
#[verifier::external_body]
pub fn push_char(s: &mut String, c: char)
    ensures
        final(s)@ == old(s)@.push(c),
{
    s.push(c);
}

/// The characters of `s`, in order.
pub fn chars_of(s: &str) -> (v: Vec<char>)
    ensures
        v@ == s@,
{
    let mut v: Vec<char> = Vec::new();
    for c in it: s.chars()
        invariant
            v@ == it.seq().take(it.index()),
            it.seq() == s@,
    {
        v.push(c);
    }
    v
}

/// A new string holding `v[from..to]`.
pub fn string_of_range(v: &Vec<char>, from: usize, to: usize) -> (s: String)
    requires
        from <= to <= v@.len(),
    ensures
        s@ == v@.subrange(from as int, to as int),
{
    let mut s = String::new();
    let mut i = from;
    while i < to
        invariant
            from <= i <= to <= v@.len(),
            s@ == v@.subrange(from as int, i as int),
        decreases to - i,
    {
        push_char(&mut s, v[i]);
        assert(v@.subrange(from as int, i + 1) == v@.subrange(from as int, i as int).push(v@[i as int]));
        i = i + 1;
    }
    s
}

/// Whether `c` is white space (`char::is_whitespace`).
pub fn is_space_char(c: char) -> (b: bool)
    ensures
        b == is_space(c),
{
    let u = c as u32;
    (9 <= u && u <= 13) || u == 32 || u == 0x85 || u == 0xa0 || u == 0x1680 || (0x2000 <= u && u
        <= 0x200a) || u == 0x2028 || u == 0x2029 || u == 0x202f || u == 0x205f || u == 0x3000
}

proof fn lemma_trim_start_step(s: Seq<char>, i: int)
    requires
        0 <= i < s.len(),
        is_space(s[i]),
    ensures
        trim_start(s.subrange(i, s.len() as int)) == trim_start(s.subrange(i + 1, s.len() as int)),
{
    assert(s.subrange(i, s.len() as int).drop_first() == s.subrange(i + 1, s.len() as int));
}

proof fn lemma_trim_end_step(s: Seq<char>, j: int)
    requires
        0 < j <= s.len(),
        is_space(s[j - 1]),
    ensures
        trim_end(s.subrange(0, j)) == trim_end(s.subrange(0, j - 1)),
{
    assert(s.subrange(0, j).drop_last() == s.subrange(0, j - 1));
}

/// The bounds of `v[from..to]` once white space is trimmed at both ends.
pub fn trim_bounds(v: &Vec<char>, from: usize, to: usize) -> (r: (usize, usize))
    requires
        from <= to <= v@.len(),
    ensures
        from <= r.0 <= r.1 <= to,
        v@.subrange(r.0 as int, r.1 as int) == trim(v@.subrange(from as int, to as int)),
{
    let ghost s = v@.subrange(from as int, to as int);
    let mut i = from;
    while i < to && is_space_char(v[i])
        invariant
            from <= i <= to <= v@.len(),
            s == v@.subrange(from as int, to as int),
            trim_start(s) == trim_start(v@.subrange(i as int, to as int)),
        decreases to - i,
    {
        proof {
            lemma_trim_start_step(v@.subrange(0, to as int), i as int);
            assert(v@.subrange(0, to as int).subrange(i as int, to as int) == v@.subrange(i as int, to as int));
            assert(v@.subrange(0, to as int).subrange(i + 1, to as int) == v@.subrange(i + 1, to as int));
        }
        i = i + 1;
    }
    assert(trim_start(s) == v@.subrange(i as int, to as int));
    let mut j = to;
    while j > i && is_space_char(v[j - 1])
        invariant
            from <= i <= j <= to <= v@.len(),
            trim_start(s) == v@.subrange(i as int, to as int),
            trim(s) == trim_end(v@.subrange(i as int, j as int)),
        decreases j - i,
    {
        proof {
            let u = v@.subrange(i as int, to as int);
            lemma_trim_end_step(u, j - i);
            assert(u.subrange(0, j - i) == v@.subrange(i as int, j as int));
            assert(u.subrange(0, j - i - 1) == v@.subrange(i as int, j - 1));
        }
        j = j - 1;
    }
    (i, j)
}

/// `str::trim` as a new string.
pub fn trim_string(s: &str) -> (t: String)
    ensures
        t@ == trim(s@),
{
    let v = chars_of(s);
    let (a, b) = trim_bounds(&v, 0, v.len());
    assert(v@.subrange(0, v@.len() as int) == v@);
    string_of_range(&v, a, b)
}


/// The pieces of `v[from..to]` between occurrences of `sep` (`str::split`).
pub fn split_range(v: &Vec<char>, from: usize, to: usize, sep: char) -> (pieces: Vec<String>)
    requires
        from <= to <= v@.len(),
    ensures
        pieces.deep_view() == split_on(v@.subrange(from as int, to as int), sep),
{
    let mut pieces: Vec<String> = Vec::new();
    let mut start = from;
    let mut i = from;
    assert(v@.subrange(from as int, from as int) == Seq::<char>::empty());
    assert(pieces.deep_view() == Seq::<Seq<char>>::empty());
    while i < to
        invariant
            from <= start <= i <= to <= v@.len(),
            split_on(v@.subrange(from as int, i as int), sep) == pieces.deep_view().push(
                v@.subrange(start as int, i as int),
            ),
        decreases to - i,
    {
        let ghost prefix = v@.subrange(from as int, i + 1);
        assert(prefix.drop_last() == v@.subrange(from as int, i as int));
        assert(prefix.last() == v@[i as int]);
        if v[i] == sep {
            let piece = string_of_range(v, start, i);
            pieces.push(piece);
            start = i + 1;
            assert(v@.subrange(start as int, i + 1) == Seq::<char>::empty());
        } else {
            assert(v@.subrange(start as int, i + 1) == v@.subrange(start as int, i as int).push(v@[i as int]));
        }
        i = i + 1;
    }
    let last = string_of_range(v, start, to);
    pieces.push(last);
    pieces
}

/// ASCII lower case of one character (`char::to_ascii_lowercase`).
pub open spec fn ascii_lower(c: char) -> char {
    if 'A' <= c <= 'Z' {
        ((c as u8) + 32) as u8 as char
    } else {
        c
    }
}

/// `str::eq_ignore_ascii_case`.
pub open spec fn eq_ignore_ascii_case(a: Seq<char>, b: Seq<char>) -> bool {
    a.len() == b.len() && forall|i: int| 0 <= i < a.len() ==> ascii_lower(#[trigger] a[i]) == ascii_lower(b[i])
}

fn ascii_lower_char(c: char) -> (r: char)
    ensures
        r == ascii_lower(c),
{
    if 'A' <= c && c <= 'Z' {
        ((c as u8) + 32) as char
    } else {
        c
    }
}

/// Whether two strings are equal up to ASCII case.
pub fn equals_ignoring_ascii_case(a: &str, b: &str) -> (r: bool)
    ensures
        r == eq_ignore_ascii_case(a@, b@),
{
    let x = chars_of(a);
    let y = chars_of(b);
    if x.len() != y.len() {
        return false;
    }
    let mut i: usize = 0;
    while i < x.len()
        invariant
            x@ == a@,
            y@ == b@,
            x@.len() == y@.len(),
            i <= x@.len(),
            forall|k: int| 0 <= k < i ==> ascii_lower(#[trigger] x@[k]) == ascii_lower(y@[k]),
        decreases x.len() - i,
    {
        if ascii_lower_char(x[i]) != ascii_lower_char(y[i]) {
            return false;
        }
        i = i + 1;
    }
    true
}

/// The value of one ASCII decimal digit.
pub open spec fn digit_value(c: char) -> nat {
    ((c as u32) - ('0' as u32)) as nat
}

pub open spec fn is_digit(c: char) -> bool {
    '0' <= c <= '9'
}

/// The number that a string of decimal digits writes.
pub open spec fn digits_value(d: Seq<char>) -> nat
    decreases d.len(),
{
    if d.len() == 0 {
        0
    } else {
        digits_value(d.drop_last()) * 10 + digit_value(d.last())
    }
}

/// Every character of `d` is an ASCII digit.
pub open spec fn all_digits(d: Seq<char>) -> bool {
    forall|i: int| 0 <= i < d.len() ==> is_digit(#[trigger] d[i])
}

/// The digits of an unsigned integer's text as `str::parse` reads it: an
/// optional `+`, then at least one ASCII digit and nothing else.
pub open spec fn unsigned_digits(s: Seq<char>) -> Option<Seq<char>> {
    let d = if s.len() > 0 && s[0] == '+' {
        s.drop_first()
    } else {
        s
    };
    if d.len() > 0 && all_digits(d) {
        Some(d)
    } else {
        None
    }
}

/// What `str::parse` gives for an unsigned integer type whose largest value
/// is `max`.
pub open spec fn parse_unsigned(s: Seq<char>, max: nat) -> Option<nat> {
    match unsigned_digits(s) {
        Some(d) => if digits_value(d) <= max {
            Some(digits_value(d))
        } else {
            None
        },
        None => None,
    }
}

proof fn lemma_digits_value_monotone(d: Seq<char>, k: int)
    requires
        0 <= k <= d.len(),
        forall|i: int| 0 <= i < d.len() ==> is_digit(#[trigger] d[i]),
    ensures
        digits_value(d.subrange(0, k)) <= digits_value(d),
    decreases d.len() - k,
{
    if k < d.len() {
        lemma_digits_value_monotone(d, k + 1);
        assert(d.subrange(0, k + 1).drop_last() == d.subrange(0, k));
    } else {
        assert(d.subrange(0, k) == d);
    }
}

/// `str::parse::<u64>`.
pub fn parse_u64(s: &str) -> (r: Option<u64>)
    ensures
        match parse_unsigned(s@, u64::MAX as nat) {
            Some(n) => r == Some(n as u64),
            None => r is None,
        },
{
    let v = chars_of(s);
    let start: usize = if v.len() > 0 && v[0] == '+' { 1 } else { 0 };
    let ghost d = v@.subrange(start as int, v@.len() as int);
    assert(start == 1 ==> d == s@.drop_first());
    assert(start == 0 ==> d == s@);
    if start == v.len() {
        return None;
    }
    let mut value: u64 = 0;
    let mut i = start;
    while i < v.len()
        invariant
            v@ == s@,
            start <= i <= v@.len(),
            d == v@.subrange(start as int, v@.len() as int),
            start <= 1,
            (start == 1) == (s@.len() > 0 && s@[0] == '+'),
            start == 1 ==> d == s@.drop_first(),
            start == 0 ==> d == s@,
            forall|k: int| start <= k < i ==> is_digit(#[trigger] v@[k]),
            value == digits_value(v@.subrange(start as int, i as int)),
        decreases v.len() - i,
    {
        let c = v[i];
        assert(v@.subrange(start as int, i + 1).drop_last() == v@.subrange(start as int, i as int));
        if !('0' <= c && c <= '9') {
            assert(d[i - start] == v@[i as int]);
            assert(!all_digits(d));
            assert(unsigned_digits(s@) is None);
            return None;
        }
        let digit = (c as u32 - '0' as u32) as u64;
        if value > (u64::MAX - digit) / 10 {
            proof {
                assert forall|k: int| 0 <= k < i + 1 - start implies is_digit(#[trigger] v@.subrange(start as int, i + 1)[k]) by {
                    assert(v@.subrange(start as int, i + 1)[k] == v@[start + k]);
                }
                let full = v@.subrange(start as int, i + 1);
                assert(digits_value(full) == value * 10 + digit);
                assert(digits_value(full) > u64::MAX) by (nonlinear_arith)
                    requires
                        value > (u64::MAX - digit) / 10,
                        digit <= 9,
                        digits_value(full) == value * 10 + digit,
                ;
                if all_digits(d) {
                    lemma_digits_value_monotone(d, i + 1 - start);
                    assert(d.subrange(0, i + 1 - start) == full);
                    assert(unsigned_digits(s@) == Some(d));
                }
                assert(parse_unsigned(s@, u64::MAX as nat) is None);
            }
            return None;
        }
        value = value * 10 + digit;
        i = i + 1;
    }
    assert(v@.subrange(start as int, v@.len() as int) == d);
    Some(value)
}

/// The decimal text of a number (`ToString` on an unsigned integer).
pub open spec fn decimal_text(n: nat) -> Seq<char>
    decreases n,
{
    if n < 10 {
        seq![(('0' as u8) + n) as u8 as char]
    } else {
        decimal_text(n / 10).push((('0' as u8) + n % 10) as u8 as char)
    }
}

/// Appends the decimal text of `n` to `s`.
pub fn push_decimal(s: &mut String, n: u64)
    ensures
        final(s)@ == old(s)@ + decimal_text(n as nat),
    decreases n,
{
    if n < 10 {
        let c = (48u8 + (n as u8)) as char;
        push_char(s, c);
        assert(old(s)@.push(c) == old(s)@ + seq![c]);
    } else {
        push_decimal(s, n / 10);
        let c = (48u8 + ((n % 10) as u8)) as char;
        push_char(s, c);
        assert(old(s)@ + decimal_text(n as nat) == (old(s)@ + decimal_text((n / 10) as nat)).push(c));
    }
}


proof fn lemma_split_on_nonempty(s: Seq<char>, sep: char)
    ensures
        split_on(s, sep).len() > 0,
    decreases s.len(),
{
    if s.len() > 0 {
        lemma_split_on_nonempty(s.drop_last(), sep);
    }
}

/// A line without the `'\r'` that ends it, if any.
pub open spec fn strip_cr(p: Seq<char>) -> Seq<char> {
    if p.len() > 0 && p.last() == '\r' {
        p.drop_last()
    } else {
        p
    }
}

/// `str::lines`: the text split at `"\n"` or `"\r\n"`, where a final line
/// ending adds no empty line.
pub open spec fn lines(s: Seq<char>) -> Seq<Seq<char>> {
    let pieces = split_on(s, '\n');
    let ended = pieces.drop_last().map_values(|p: Seq<char>| strip_cr(p));
    if pieces.last().len() > 0 {
        ended.push(pieces.last())
    } else {
        ended
    }
}

/// `split_on` always yields at least one piece.
pub proof fn lemma_lines_pieces(s: Seq<char>)
    ensures
        split_on(s, '\n').len() > 0,
{
    lemma_split_on_nonempty(s, '\n');
}


/// The number of characters before the first white space (`s.len()` if none).
pub open spec fn word_len(s: Seq<char>) -> nat
    decreases s.len(),
{
    if s.len() == 0 || is_space(s[0]) {
        0
    } else {
        1 + word_len(s.drop_first())
    }
}

/// The first whitespace-separated word of `s`, if any.
pub open spec fn first_word(s: Seq<char>) -> Option<Seq<char>> {
    let t = trim_start(s);
    if t.len() == 0 {
        None
    } else {
        Some(t.take(word_len(t) as int))
    }
}

/// `s` after its first whitespace-separated word.
pub open spec fn after_first_word(s: Seq<char>) -> Seq<char> {
    let t = trim_start(s);
    t.skip(word_len(t) as int)
}

/// `str::split_whitespace().nth(1)`: the second word of `s`.
#[verifier::opaque]
pub open spec fn second_word(s: Seq<char>) -> Option<Seq<char>> {
    first_word(after_first_word(s))
}

/// The index of the first white space at or after `i` (`v.len()` if none).
pub fn skip_word(v: &Vec<char>, i: usize) -> (j: usize)
    requires
        i <= v@.len(),
    ensures
        i <= j <= v@.len(),
        j - i == word_len(v@.skip(i as int)),
{
    let mut j = i;
    while j < v.len() && !is_space_char(v[j])
        invariant
            i <= j <= v@.len(),
            word_len(v@.skip(i as int)) == (j - i) + word_len(v@.skip(j as int)),
        decreases v.len() - j,
    {
        assert(v@.skip(j as int).drop_first() == v@.skip(j + 1));
        j = j + 1;
    }
    j
}

/// The index of the first character that is not white space at or after
/// `i` (`v.len()` if none).
pub fn skip_space(v: &Vec<char>, i: usize) -> (j: usize)
    requires
        i <= v@.len(),
    ensures
        i <= j <= v@.len(),
        trim_start(v@.skip(i as int)) == v@.skip(j as int),
{
    let mut j = i;
    while j < v.len() && is_space_char(v[j])
        invariant
            i <= j <= v@.len(),
            trim_start(v@.skip(i as int)) == trim_start(v@.skip(j as int)),
        decreases v.len() - j,
    {
        assert(v@.skip(j as int).drop_first() == v@.skip(j + 1));
        j = j + 1;
    }
    j
}

/// `pattern` occurs in `s` at index `i`.
pub open spec fn occurs_at(s: Seq<char>, pattern: Seq<char>, i: int) -> bool {
    0 <= i && i + pattern.len() <= s.len() && s.subrange(i, i + pattern.len()) == pattern
}

/// `str::find`: the index of the first occurrence of `pattern` in `s`.
#[verifier::opaque]
pub open spec fn find_spec(s: Seq<char>, pattern: Seq<char>) -> Option<int> {
    if exists|i: int| occurs_at(s, pattern, i) {
        Some(choose|i: int| occurs_at(s, pattern, i) && forall|j: int| 0 <= j < i ==> !occurs_at(s, pattern, j))
    } else {
        None
    }
}

fn occurs_at_exec(v: &Vec<char>, p: &Vec<char>, i: usize) -> (b: bool)
    requires
        i + p@.len() <= v@.len(),
    ensures
        b == occurs_at(v@, p@, i as int),
{
    let n = v.len();
    let mut k: usize = 0;
    while k < p.len()
        invariant
            n == v@.len(),
            i + p@.len() <= v@.len(),
            k <= p@.len(),
            forall|m: int| 0 <= m < k ==> v@[i + m] == p@[m],
        decreases p.len() - k,
    {
        if v[i + k] != p[k] {
            assert(v@.subrange(i as int, i + p@.len())[k as int] != p@[k as int]);
            return false;
        }
        k = k + 1;
    }
    assert(v@.subrange(i as int, i + p@.len()) == p@);
    true
}

/// The index of the first occurrence of `p` in `v`.
pub fn find_chars(v: &Vec<char>, p: &Vec<char>) -> (r: Option<usize>)
    ensures
        r is None <==> find_spec(v@, p@) is None,
        r matches Some(i) ==> find_spec(v@, p@) == Some(i as int) && occurs_at(v@, p@, i as int),
{
    reveal(find_spec);
    if p.len() > v.len() {
        assert(!exists|i: int| occurs_at(v@, p@, i));
        return None;
    }
    let last = v.len() - p.len();
    let mut i: usize = 0;
    loop
        invariant
            p@.len() <= v@.len(),
            last == v@.len() - p@.len(),
            i <= last,
            forall|j: int| 0 <= j < i ==> !occurs_at(v@, p@, j),
        ensures
            forall|j: int| 0 <= j <= last ==> !occurs_at(v@, p@, j),
        decreases last - i,
    {
        if occurs_at_exec(v, p, i) {
            proof {
                reveal(find_spec);
                let c = choose|k: int| occurs_at(v@, p@, k) && forall|j: int| 0 <= j < k ==> !occurs_at(v@, p@, j);
                assert(occurs_at(v@, p@, i as int) && forall|j: int| 0 <= j < i ==> !occurs_at(v@, p@, j));
                if c < i {
                } else if c > i {
                }
                assert(c == i);
            }
            return Some(i);
        }
        if i == last {
            break;
        }
        i = i + 1;
    }
    assert(!exists|k: int| occurs_at(v@, p@, k));
    None
}


/// Reads the second word off the positions that `skip_space` and
/// `skip_word` find.
pub proof fn lemma_second_word(s: Seq<char>, at: int, i0: int, j0: int, i1: int, j1: int)
    requires
        0 <= at <= i0 <= j0 <= i1 <= j1 <= s.len(),
        trim_start(s.skip(at)) == s.skip(i0),
        j0 - i0 == word_len(s.skip(i0)),
        trim_start(s.skip(j0)) == s.skip(i1),
        j1 - i1 == word_len(s.skip(i1)),
    ensures
        second_word(s.skip(at)) == if i1 == s.len() {
            None
        } else {
            Some(s.subrange(i1, j1))
        },
{
    reveal(second_word);
    assert(s.skip(i0).skip(j0 - i0) == s.skip(j0));
    assert(after_first_word(s.skip(at)) == s.skip(j0));
    if i1 < s.len() {
        assert(s.skip(i1).take(j1 - i1) == s.subrange(i1, j1));
    }
}

/// Appends `t` to `s`.
pub fn append_str(s: &mut String, t: &str)
    ensures
        final(s)@ == old(s)@ + t@,
{
    let v = chars_of(t);
    let mut i: usize = 0;
    while i < v.len()
        invariant
            v@ == t@,
            i <= v@.len(),
            s@ == old(s)@ + v@.take(i as int),
        decreases v.len() - i,
    {
        push_char(s, v[i]);
        assert(v@.take(i + 1) == v@.take(i as int).push(v@[i as int]));
        i = i + 1;
    }
    assert(v@.take(v@.len() as int) == v@);
}

/// A copy of `t` as a `String`.
pub fn owned(t: &str) -> (s: String)
    ensures
        s@ == t@,
{
    let mut s = String::new();
    append_str(&mut s, t);
    s
}

/// A copy of a list of strings.
pub fn copy_strings(v: &Vec<String>) -> (c: Vec<String>)
    ensures
        c.deep_view() == v.deep_view(),
{
    let mut c: Vec<String> = Vec::new();
    let mut i: usize = 0;
    while i < v.len()
        invariant
            i <= v@.len(),
            c.deep_view() == v.deep_view().take(i as int),
        decreases v.len() - i,
    {
        c.push(v[i].clone());
        assert(v.deep_view().take(i + 1) == v.deep_view().take(i as int).push(v.deep_view()[i as int]));
        i = i + 1;
    }
    assert(v.deep_view().take(i as int) == v.deep_view());
    c
}

} // verus!

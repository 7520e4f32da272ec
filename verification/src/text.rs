//! Character-sequence helpers shared by the parsers and the renderer.
//!
//! Text is handled as `Seq<char>` in specifications and as `Vec<char>` in
//! executable code; a `String` is only produced at the very end.
use vstd::prelude::*;

verus! {

// ---------------------------------------------------------------------------
// Conversions
// ---------------------------------------------------------------------------

/// The characters of `s`, in order.
pub fn chars_of(s: &str) -> (v: Vec<char>)
    ensures
        v@ == s@,
{
    let mut v: Vec<char> = Vec::new();
    for c in it: s.chars()
        invariant
            v@ == it.seq().take(it.index() as int),
    {
        v.push(c);
    }
    v
}

/// Collects characters into a `String` (`String::from_iter`); the string's
/// characters are exactly those of `v`, in order.
#[verifier::external_body]
pub(crate) fn string_from_chars(v: &Vec<char>) -> (s: String)
    ensures
        s@ == v@,
{
    String::from_iter(v.iter())
}

/// Appends the characters of `s` to `out`.
pub fn push_str(out: &mut Vec<char>, s: &str)
    ensures
        final(out)@ == old(out)@ + s@,
{
    let ghost start = out@;
    for c in it: s.chars()
        invariant
            out@ == start + it.seq().take(it.index() as int),
    {
        out.push(c);
    }
}

/// Appends the characters of `s` to `out`.
pub fn push_chars(out: &mut Vec<char>, s: &Vec<char>)
    ensures
        final(out)@ == old(out)@ + s@,
{
    let ghost start = out@;
    let mut i: usize = 0;
    while i < s.len()
        invariant
            i <= s.len(),
            out@ == start + s@.take(i as int),
        decreases s.len() - i,
    {
        out.push(s[i]);
        i = i + 1;
    }
}

/// Whether two character vectors hold the same characters.
pub fn same_chars(a: &Vec<char>, b: &Vec<char>) -> (r: bool)
    ensures
        r == (a@ == b@),
{
    if a.len() != b.len() {
        return false;
    }
    let mut i: usize = 0;
    while i < a.len()
        invariant
            a.len() == b.len(),
            i <= a.len(),
            forall|j: int| 0 <= j < i ==> a@[j] == b@[j],
        decreases a.len() - i,
    {
        if a[i] != b[i] {
            return false;
        }
        i = i + 1;
    }
    assert(a@ =~= b@);
    true
}

/// Whether the characters of `a` equal those of the string `b`.
pub fn same_as_str(a: &Vec<char>, b: &str) -> (r: bool)
    ensures
        r == (a@ == b@),
{
    let bv = chars_of(b);
    same_chars(a, &bv)
}

// ---------------------------------------------------------------------------
// ASCII case
// ---------------------------------------------------------------------------

/// `char::to_ascii_lowercase`: only `A`..=`Z` change.
pub open spec fn ascii_lower(c: char) -> char {
    if 'A' <= c && c <= 'Z' {
        ((c as u32) + 32) as char
    } else {
        c
    }
}

/// `str::to_ascii_lowercase`, character by character.
pub open spec fn ascii_lowercase(s: Seq<char>) -> Seq<char> {
    Seq::new(s.len(), |i: int| ascii_lower(s[i]))
}

/// The ASCII lower-case form of `c`.
pub fn lower_char(c: char) -> (r: char)
    ensures
        r == ascii_lower(c),
{
    if 'A' <= c && c <= 'Z' {
        let x: u8 = (c as u8) + 32;
        x as char
    } else {
        c
    }
}

/// The ASCII lower-case form of `s`.
pub fn lowercase(s: &Vec<char>) -> (r: Vec<char>)
    ensures
        r@ == ascii_lowercase(s@),
{
    let mut r: Vec<char> = Vec::new();
    let mut i: usize = 0;
    while i < s.len()
        invariant
            i <= s.len(),
            r@ == ascii_lowercase(s@).take(i as int),
        decreases s.len() - i,
    {
        r.push(lower_char(s[i]));
        i = i + 1;
    }
    r
}

// ---------------------------------------------------------------------------
// Whitespace
// ---------------------------------------------------------------------------

/// `char::is_whitespace`: the Unicode `White_Space` property.
pub open spec fn is_space(c: char) -> bool {
    ||| ('\u{9}' <= c && c <= '\u{d}')
    ||| c == ' '
    ||| c == '\u{85}'
    ||| c == '\u{a0}'
    ||| c == '\u{1680}'
    ||| ('\u{2000}' <= c && c <= '\u{200a}')
    ||| c == '\u{2028}'
    ||| c == '\u{2029}'
    ||| c == '\u{202f}'
    ||| c == '\u{205f}'
    ||| c == '\u{3000}'
}

/// Whether `c` is white space.
pub fn space(c: char) -> (r: bool)
    ensures
        r == is_space(c),
{
    ('\u{9}' <= c && c <= '\u{d}') || c == ' ' || c == '\u{85}' || c == '\u{a0}' || c
        == '\u{1680}' || ('\u{2000}' <= c && c <= '\u{200a}') || c == '\u{2028}' || c
        == '\u{2029}' || c == '\u{202f}' || c == '\u{205f}' || c == '\u{3000}'
}

/// `s` without its leading white space.
pub open spec fn trim_front(s: Seq<char>) -> Seq<char>
    decreases s.len(),
{
    if s.len() > 0 && is_space(s[0]) {
        trim_front(s.drop_first())
    } else {
        s
    }
}

/// `s` without its trailing white space.
pub open spec fn trim_back(s: Seq<char>) -> Seq<char>
    decreases s.len(),
{
    if s.len() > 0 && is_space(s.last()) {
        trim_back(s.drop_last())
    } else {
        s
    }
}

/// `str::trim`.
pub open spec fn trim(s: Seq<char>) -> Seq<char> {
    trim_back(trim_front(s))
}

proof fn lemma_trim_front_skip(s: Seq<char>, i: int)
    requires
        0 <= i <= s.len(),
        forall|j: int| 0 <= j < i ==> is_space(s[j]),
    ensures
        trim_front(s) == trim_front(s.skip(i)),
    decreases i,
{
    if i > 0 {
        assert(s.drop_first().skip(i - 1) =~= s.skip(i));
        assert forall|j: int| 0 <= j < i - 1 implies is_space(s.drop_first()[j]) by {
            assert(s.drop_first()[j] == s[j + 1]);
        }
        lemma_trim_front_skip(s.drop_first(), i - 1);
    } else {
        assert(s.skip(0) =~= s);
    }
}

proof fn lemma_trim_back_take(s: Seq<char>, k: int)
    requires
        0 <= k <= s.len(),
        forall|j: int| k <= j < s.len() ==> is_space(s[j]),
    ensures
        trim_back(s) == trim_back(s.take(k)),
    decreases s.len() - k,
{
    if k < s.len() {
        assert(s.drop_last().take(k) =~= s.take(k));
        lemma_trim_back_take(s.drop_last(), k);
    } else {
        assert(s.take(k) =~= s);
    }
}

/// `s` with leading and trailing white space removed.
pub fn trimmed(s: &Vec<char>) -> (r: Vec<char>)
    ensures
        r@ == trim(s@),
{
    let mut start: usize = 0;
    while start < s.len() && space(s[start])
        invariant
            start <= s.len(),
            forall|j: int| 0 <= j < start ==> is_space(s@[j]),
        decreases s.len() - start,
    {
        start = start + 1;
    }
    proof {
        lemma_trim_front_skip(s@, start as int);
    }
    let ghost front = s@.skip(start as int);
    assert(trim_front(s@) == front);
    let mut end: usize = s.len();
    while end > start && space(s[end - 1])
        invariant
            start <= end <= s.len(),
            forall|j: int| end <= j < s.len() ==> is_space(s@[j]),
        decreases end,
    {
        end = end - 1;
    }
    proof {
        lemma_trim_back_take(front, end - start);
        assert(front.take(end - start) =~= s@.subrange(start as int, end as int));
    }
    let mut r: Vec<char> = Vec::new();
    let mut i: usize = start;
    while i < end
        invariant
            start <= i <= end <= s.len(),
            r@ == s@.subrange(start as int, i as int),
        decreases end - i,
    {
        r.push(s[i]);
        i = i + 1;
    }
    r
}


// ---------------------------------------------------------------------------
// Splitting
// ---------------------------------------------------------------------------

/// The number of leading characters of `s` that are not white space.
pub open spec fn word_len(s: Seq<char>) -> nat
    decreases s.len(),
{
    if s.len() == 0 || is_space(s[0]) {
        0
    } else {
        1 + word_len(s.drop_first())
    }
}

/// Trimming the front keeps a suffix of `s` that is empty or begins with a
/// character that is not white space.
pub proof fn lemma_trim_front_len(s: Seq<char>)
    ensures
        trim_front(s).len() <= s.len(),
        trim_front(s).len() > 0 ==> !is_space(trim_front(s)[0]),
        trim_front(s) == s.skip(s.len() - trim_front(s).len()),
    decreases s.len(),
{
    if s.len() > 0 && is_space(s[0]) {
        lemma_trim_front_len(s.drop_first());
        assert(s.drop_first().skip(s.drop_first().len() - trim_front(s).len()) =~= s.skip(
            s.len() - trim_front(s).len(),
        ));
    } else {
        assert(s.skip(0) =~= s);
    }
}

/// `word_len` counts the leading run of characters that are not white space.
pub proof fn lemma_word_len(s: Seq<char>)
    ensures
        word_len(s) <= s.len(),
        s.len() > 0 && !is_space(s[0]) ==> word_len(s) >= 1,
        forall|j: int| 0 <= j < word_len(s) ==> !is_space(s[j]),
        word_len(s) < s.len() ==> is_space(s[word_len(s) as int]),
    decreases s.len(),
{
    if s.len() > 0 && !is_space(s[0]) {
        lemma_word_len(s.drop_first());
        assert forall|j: int| 0 <= j < word_len(s) implies !is_space(s[j]) by {
            if j > 0 {
                assert(s[j] == s.drop_first()[j - 1]);
            }
        }
    }
}

/// `str::split_whitespace`: the maximal runs of characters that are not
/// white space, in order.
pub open spec fn fields(s: Seq<char>) -> Seq<Seq<char>>
    decreases s.len(),
{
    let t = trim_front(s);
    if t.len() == 0 {
        seq![]
    } else {
        let w = word_len(t);
        proof {
            lemma_trim_front_len(s);
            lemma_word_len(t);
        }
        seq![t.take(w as int)] + fields(t.skip(w as int))
    }
}

proof fn lemma_fields_step(s: Seq<char>, i: int, k: int)
    requires
        0 <= i < k <= s.len(),
        forall|j: int| i <= j < k ==> !is_space(s[j]),
        k < s.len() ==> is_space(s[k]),
        !is_space(s[i]),
    ensures
        fields(s.skip(i)) == seq![s.subrange(i, k)] + fields(s.skip(k)),
{
    let t = s.skip(i);
    assert(trim_front(t) == t);
    lemma_word_len(t);
    assert(word_len(t) == k - i) by {
        if word_len(t) < k - i {
            assert(is_space(t[word_len(t) as int]));
            assert(t[word_len(t) as int] == s[i + word_len(t)]);
        }
        if word_len(t) > k - i {
            assert(!is_space(t[k - i]));
        }
    }
    assert(t.take(k - i) =~= s.subrange(i, k));
    assert(t.skip(k - i) =~= s.skip(k));
}

proof fn lemma_fields_spaces(s: Seq<char>, i: int, k: int)
    requires
        0 <= i <= k <= s.len(),
        forall|j: int| i <= j < k ==> is_space(s[j]),
    ensures
        fields(s.skip(i)) == fields(s.skip(k)),
{
    assert forall|j: int| 0 <= j < k - i implies is_space(s.skip(i)[j]) by {}
    lemma_trim_front_skip(s.skip(i), k - i);
    assert(s.skip(i).skip(k - i) =~= s.skip(k));
    lemma_trim_front_len(s.skip(k));
    if trim_front(s.skip(k)).len() > 0 {
        lemma_word_len(trim_front(s.skip(k)));
    }
}

/// Appends one piece to a list of pieces.
pub(crate) fn push_piece(r: &mut Vec<Vec<char>>, piece: Vec<char>)
    ensures
        final(r).deep_view() == old(r).deep_view().push(piece@),
{
    let ghost before = r.deep_view();
    let ghost old_v = r@;
    r.push(piece);
    assert(r@ == old_v.push(piece));
    assert forall|j: int| 0 <= j < r@.len() implies r.deep_view()[j] == before.push(piece@)[j] by {
        if j < old_v.len() {
            assert(r@[j] == old_v[j]);
        }
    }
    assert(r.deep_view() =~= before.push(piece@));
}

/// The first position at or after `i` that is not white space (or the end).
fn skip_spaces(s: &Vec<char>, i: usize) -> (k: usize)
    requires
        i <= s.len(),
    ensures
        i <= k <= s.len(),
        forall|j: int| i <= j < k ==> is_space(s@[j]),
        k < s.len() ==> !is_space(s@[k as int]),
{
    let mut k = i;
    while k < s.len() && space(s[k])
        invariant
            i <= k <= s.len(),
            forall|j: int| i <= j < k ==> is_space(s@[j]),
        decreases s.len() - k,
    {
        k = k + 1;
    }
    k
}

/// The run of non-space characters starting at `i`, and the position after it.
fn take_word(s: &Vec<char>, i: usize) -> (res: (Vec<char>, usize))
    requires
        i <= s.len(),
    ensures
        i <= res.1 <= s.len(),
        forall|j: int| i <= j < res.1 ==> !is_space(s@[j]),
        res.1 < s.len() ==> is_space(s@[res.1 as int]),
        res.0@ == s@.subrange(i as int, res.1 as int),
{
    let mut k = i;
    let mut word: Vec<char> = Vec::new();
    while k < s.len() && !space(s[k])
        invariant
            i <= k <= s.len(),
            forall|j: int| i <= j < k ==> !is_space(s@[j]),
            word@ == s@.subrange(i as int, k as int),
        decreases s.len() - k,
    {
        word.push(s[k]);
        k = k + 1;
    }
    (word, k)
}

/// The white-space separated fields of `s`.
pub fn split_fields(s: &Vec<char>) -> (r: Vec<Vec<char>>)
    ensures
        r.deep_view() == fields(s@),
{
    let mut r: Vec<Vec<char>> = Vec::new();
    let mut i: usize = 0;
    assert(s@.skip(0) =~= s@);
    assert(r.deep_view() + fields(s@) =~= fields(s@));
    while i < s.len()
        invariant
            i <= s.len(),
            fields(s@) == r.deep_view() + fields(s@.skip(i as int)),
        decreases s.len() - i,
    {
        let k = skip_spaces(s, i);
        proof {
            lemma_fields_spaces(s@, i as int, k as int);
        }
        i = k;
        if i < s.len() {
            let (word, k2) = take_word(s, i);
            proof {
                lemma_fields_step(s@, i as int, k2 as int);
            }
            let ghost before = r.deep_view();
            push_piece(&mut r, word);
            assert(before + (seq![s@.subrange(i as int, k2 as int)] + fields(s@.skip(k2 as int)))
                =~= r.deep_view() + fields(s@.skip(k2 as int)));
            i = k2;
        }
    }
    proof {
        assert(s@.skip(s@.len() as int) =~= Seq::<char>::empty());
        assert(fields(Seq::<char>::empty()) =~= Seq::<Seq<char>>::empty());
        assert(r.deep_view() + Seq::<Seq<char>>::empty() =~= r.deep_view());
    }
    r
}

/// The number of leading characters of `s` before the first line feed.
pub open spec fn line_len(s: Seq<char>) -> nat
    decreases s.len(),
{
    if s.len() == 0 || s[0] == '\n' {
        0
    } else {
        1 + line_len(s.drop_first())
    }
}

/// `l` without one trailing carriage return.
pub open spec fn strip_cr(l: Seq<char>) -> Seq<char> {
    if l.len() > 0 && l.last() == '\r' {
        l.drop_last()
    } else {
        l
    }
}

proof fn lemma_line_len(s: Seq<char>)
    ensures
        line_len(s) <= s.len(),
        forall|j: int| 0 <= j < line_len(s) ==> s[j] != '\n',
        line_len(s) < s.len() ==> s[line_len(s) as int] == '\n',
    decreases s.len(),
{
    if s.len() > 0 && s[0] != '\n' {
        lemma_line_len(s.drop_first());
        assert forall|j: int| 0 <= j < line_len(s) implies s[j] != '\n' by {
            if j > 0 {
                assert(s[j] == s.drop_first()[j - 1]);
            }
        }
    }
}

/// `str::lines`: pieces ended by a line feed (or by the end of `s`), each
/// without its line feed and without a carriage return just before it; no
/// empty piece after a final line feed.
pub open spec fn lines(s: Seq<char>) -> Seq<Seq<char>>
    decreases s.len(),
{
    if s.len() == 0 {
        seq![]
    } else {
        let k = line_len(s);
        if k >= s.len() {
            seq![s]
        } else {
            seq![strip_cr(s.take(k as int))] + lines(s.skip((k + 1) as int))
        }
    }
}

/// A line ended by a line feed at `k` is the first line of what follows `i`.
pub proof fn lemma_lines_step(s: Seq<char>, i: int, k: int)
    requires
        0 <= i <= k < s.len(),
        forall|j: int| i <= j < k ==> s[j] != '\n',
        s[k] == '\n',
    ensures
        lines(s.skip(i)) == seq![strip_cr(s.subrange(i, k))] + lines(s.skip(k + 1)),
{
    let t = s.skip(i);
    lemma_line_len(t);
    assert(line_len(t) == k - i) by {
        if line_len(t) < k - i {
            assert(t[line_len(t) as int] == s[i + line_len(t)]);
        }
        if line_len(t) > k - i {
            assert(t[k - i] == s[k]);
        }
    }
    assert(t.take(k - i) =~= s.subrange(i, k));
    assert(t.skip(k - i + 1) =~= s.skip(k + 1));
}

/// Text without a line feed is a single line.
pub proof fn lemma_lines_last(s: Seq<char>, i: int)
    requires
        0 <= i < s.len(),
        forall|j: int| i <= j < s.len() ==> s[j] != '\n',
    ensures
        lines(s.skip(i)) == seq![s.subrange(i, s.len() as int)],
{
    let t = s.skip(i);
    lemma_line_len(t);
    if line_len(t) < t.len() {
        assert(t[line_len(t) as int] == s[i + line_len(t)]);
    }
    assert(t =~= s.subrange(i, s.len() as int));
}

/// The characters from `i` up to the next line feed, and its position.
fn take_line(s: &Vec<char>, i: usize) -> (res: (Vec<char>, usize))
    requires
        i <= s.len(),
    ensures
        i <= res.1 <= s.len(),
        forall|j: int| i <= j < res.1 ==> s@[j] != '\n',
        res.1 < s.len() ==> s@[res.1 as int] == '\n',
        res.0@ == s@.subrange(i as int, res.1 as int),
{
    let mut k = i;
    let mut line: Vec<char> = Vec::new();
    while k < s.len() && s[k] != '\n'
        invariant
            i <= k <= s.len(),
            forall|j: int| i <= j < k ==> s@[j] != '\n',
            line@ == s@.subrange(i as int, k as int),
        decreases s.len() - k,
    {
        line.push(s[k]);
        k = k + 1;
    }
    (line, k)
}

/// The lines of `s`.
pub fn split_lines(s: &Vec<char>) -> (r: Vec<Vec<char>>)
    ensures
        r.deep_view() == lines(s@),
{
    let mut r: Vec<Vec<char>> = Vec::new();
    let mut i: usize = 0;
    assert(s@.skip(0) =~= s@);
    assert(r.deep_view() + lines(s@) =~= lines(s@));
    while i < s.len()
        invariant
            i <= s.len(),
            lines(s@) == r.deep_view() + lines(s@.skip(i as int)),
        decreases s.len() - i,
    {
        let (mut line, k) = take_line(s, i);
        let ghost before = r.deep_view();
        if k < s.len() {
            proof {
                lemma_lines_step(s@, i as int, k as int);
            }
            let n = line.len();
            if n > 0 && line[n - 1] == '\r' {
                line.pop();
            }
            assert(line@ =~= strip_cr(s@.subrange(i as int, k as int)));
            push_piece(&mut r, line);
            assert(before + (seq![strip_cr(s@.subrange(i as int, k as int))] + lines(
                s@.skip(k + 1),
            )) =~= r.deep_view() + lines(s@.skip(k + 1)));
            i = k + 1;
        } else {
            proof {
                lemma_lines_last(s@, i as int);
                assert(s@.skip(k as int) =~= Seq::<char>::empty());
            }
            push_piece(&mut r, line);
            assert(before + seq![s@.subrange(i as int, s@.len() as int)] =~= r.deep_view()
                + lines(s@.skip(k as int)));
            i = k;
        }
    }
    proof {
        assert(s@.skip(s@.len() as int) =~= Seq::<char>::empty());
        assert(r.deep_view() + Seq::<Seq<char>>::empty() =~= r.deep_view());
    }
    r
}

// ---------------------------------------------------------------------------
// Numbers
// ---------------------------------------------------------------------------

/// An ASCII decimal digit.
pub open spec fn is_digit(c: char) -> bool {
    '0' <= c && c <= '9'
}

/// The value of a decimal digit.
pub open spec fn digit_value(c: char) -> nat {
    ((c as u32) - 48) as nat
}

/// Whether every character of `d` is a decimal digit.
pub open spec fn all_digits(d: Seq<char>) -> bool {
    forall|i: int| 0 <= i < d.len() ==> is_digit(d[i])
}

/// The number written by the decimal digits `d`.
pub open spec fn digits_value(d: Seq<char>) -> nat
    decreases d.len(),
{
    if d.len() == 0 {
        0
    } else {
        digits_value(d.drop_last()) * 10 + digit_value(d.last())
    }
}

/// `s` without one leading `+`.
pub open spec fn unsigned_digits(s: Seq<char>) -> Seq<char> {
    if s.len() > 0 && s[0] == '+' {
        s.drop_first()
    } else {
        s
    }
}

/// `str::parse` for an unsigned integer type whose largest value is `max`:
/// an optional `+`, then at least one decimal digit, with a value of at most
/// `max`.
pub open spec fn parse_unsigned(s: Seq<char>, max: nat) -> Option<nat> {
    let d = unsigned_digits(s);
    if d.len() > 0 && all_digits(d) && digits_value(d) <= max {
        Some(digits_value(d))
    } else {
        None
    }
}

/// `str::parse::<i32>`: an optional sign, then at least one decimal digit,
/// with a value in the range of `i32`.
pub open spec fn parse_i32_spec(s: Seq<char>) -> Option<int> {
    if s.len() > 0 && s[0] == '-' {
        let d = s.drop_first();
        if d.len() > 0 && all_digits(d) && digits_value(d) <= 2147483648 {
            Some(-(digits_value(d) as int))
        } else {
            None
        }
    } else {
        match parse_unsigned(s, 2147483647) {
            Some(n) => Some(n as int),
            None => None,
        }
    }
}

proof fn lemma_digits_prefix(d: Seq<char>, k: int)
    requires
        0 <= k <= d.len(),
    ensures
        digits_value(d.take(k)) <= digits_value(d),
    decreases d.len() - k,
{
    if k < d.len() {
        lemma_digits_prefix(d.drop_last(), k);
        assert(d.drop_last().take(k) =~= d.take(k));
    } else {
        assert(d.take(k) =~= d);
    }
}

proof fn lemma_digits_step(d: Seq<char>, k: int)
    requires
        0 <= k < d.len(),
    ensures
        digits_value(d.take(k + 1)) == digits_value(d.take(k)) * 10 + digit_value(d[k]),
{
    assert(d.take(k + 1).drop_last() =~= d.take(k));
}

/// Reads the digits `s[from..]` as a number of at most `max`.
fn digits_at_most(s: &Vec<char>, from: usize, max: u64) -> (r: Option<u64>)
    requires
        from <= s.len(),
    ensures
        ({
            let d = s@.skip(from as int);
            match r {
                Some(v) => d.len() > 0 && all_digits(d) && digits_value(d) <= max && v
                    == digits_value(d),
                None => !(d.len() > 0 && all_digits(d) && digits_value(d) <= max),
            }
        }),
{
    let ghost d = s@.skip(from as int);
    if from >= s.len() {
        return None;
    }
    let mut value: u64 = 0;
    let mut i: usize = from;
    assert(d.take(0) =~= Seq::<char>::empty());
    while i < s.len()
        invariant
            from <= i <= s.len(),
            d == s@.skip(from as int),
            all_digits(d.take(i - from)),
            value == digits_value(d.take(i - from)),
            value <= max,
        decreases s.len() - i,
    {
        let c = s[i];
        assert(c == d[i - from]);
        if !('0' <= c && c <= '9') {
            return None;
        }
        let digit: u64 = ((c as u32) - 48) as u64;
        let next: u128 = (value as u128) * 10 + (digit as u128);
        proof {
            lemma_digits_step(d, i - from);
        }
        if next > max as u128 {
            proof {
                lemma_digits_prefix(d, i - from + 1);
            }
            return None;
        }
        value = next as u64;
        i = i + 1;
        proof {
            let k: int = i - from;
            assert forall|j: int| 0 <= j < k implies is_digit(#[trigger] d.take(k)[j]) by {
                if j < k - 1 {
                    assert(d.take(k)[j] == d.take(k - 1)[j]);
                }
            }
        }
    }
    assert(d.take(i - from) =~= d);
    Some(value)
}

/// `str::parse` into an unsigned integer of at most `max`.
pub fn parse_unsigned_max(s: &Vec<char>, max: u64) -> (r: Option<u64>)
    ensures
        match parse_unsigned(s@, max as nat) {
            Some(n) => r == Some(n as u64),
            None => r is None,
        },
{
    if s.len() > 0 && s[0] == '+' {
        assert(s@.skip(1) =~= s@.drop_first());
        digits_at_most(s, 1, max)
    } else {
        assert(s@.skip(0) =~= s@);
        digits_at_most(s, 0, max)
    }
}

/// `str::parse::<u64>`.
pub fn parse_u64(s: &Vec<char>) -> (r: Option<u64>)
    ensures
        match parse_unsigned(s@, u64::MAX as nat) {
            Some(n) => r == Some(n as u64),
            None => r is None,
        },
{
    parse_unsigned_max(s, u64::MAX)
}

/// `str::parse::<u16>`.
pub fn parse_u16(s: &Vec<char>) -> (r: Option<u16>)
    ensures
        match parse_unsigned(s@, u16::MAX as nat) {
            Some(n) => r == Some(n as u16),
            None => r is None,
        },
{
    match parse_unsigned_max(s, u16::MAX as u64) {
        Some(v) => Some(v as u16),
        None => None,
    }
}

/// `str::parse::<i32>`.
pub fn parse_i32(s: &Vec<char>) -> (r: Option<i32>)
    ensures
        match parse_i32_spec(s@) {
            Some(n) => r == Some(n as i32),
            None => r is None,
        },
{
    if s.len() > 0 && s[0] == '-' {
        assert(s@.skip(1) =~= s@.drop_first());
        match digits_at_most(s, 1, 2147483648) {
            Some(v) => {
                let n: i64 = -(v as i64);
                Some(n as i32)
            },
            None => None,
        }
    } else {
        match parse_unsigned_max(s, 2147483647) {
            Some(v) => Some(v as i32),
            None => None,
        }
    }
}

/// The character of the decimal digit `d`.
pub open spec fn digit_char(d: nat) -> char {
    (d + 48) as char
}

/// The decimal form of `n`, as `{n}` formats it.
pub open spec fn decimal(n: nat) -> Seq<char>
    decreases n,
{
    if n < 10 {
        seq![digit_char(n)]
    } else {
        decimal(n / 10).push(digit_char(n % 10))
    }
}

/// Appends the decimal form of `n`.
pub fn push_decimal(out: &mut Vec<char>, n: u64)
    ensures
        final(out)@ == old(out)@ + decimal(n as nat),
    decreases n,
{
    let ghost start = out@;
    if n >= 10 {
        push_decimal(out, n / 10);
    }
    let d: u8 = (n % 10) as u8;
    let c: char = (d + 48) as char;
    out.push(c);
    assert(out@ =~= start + decimal(n as nat));
}

/// `n` copies of `c`.
pub open spec fn repeat(c: char, n: nat) -> Seq<char> {
    Seq::new(n, |i: int| c)
}

/// `s` padded with spaces on the right to at least `w` characters, as
/// `{s:<w}` formats it.
pub open spec fn pad_right(s: Seq<char>, w: nat) -> Seq<char> {
    if s.len() < w {
        s + repeat(' ', (w - s.len()) as nat)
    } else {
        s
    }
}

/// Appends `n` copies of `c`.
pub fn push_repeat(out: &mut Vec<char>, c: char, n: usize)
    ensures
        final(out)@ == old(out)@ + repeat(c, n as nat),
{
    let ghost start = out@;
    let mut i: usize = 0;
    while i < n
        invariant
            i <= n,
            out@ == start + repeat(c, i as nat),
        decreases n - i,
    {
        out.push(c);
        i = i + 1;
        assert(out@ =~= start + repeat(c, i as nat));
    }
}

/// Appends `s` padded with spaces on the right to at least `w` characters.
pub fn push_padded(out: &mut Vec<char>, s: &Vec<char>, w: usize)
    ensures
        final(out)@ == old(out)@ + pad_right(s@, w as nat),
{
    let ghost start = out@;
    push_chars(out, s);
    if s.len() < w {
        push_repeat(out, ' ', w - s.len());
    }
    assert(out@ =~= start + pad_right(s@, w as nat));
}

} // verus!

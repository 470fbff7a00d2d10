//! Text handling on Unicode scalar sequences: the `White_Space` property,
//! trimming, splitting into words, and decimal numerals.

use vstd::prelude::*;

verus! {

/// The Unicode `White_Space` property, the set that `char::is_whitespace`
/// tests for.
pub open spec fn is_space(c: char) -> bool {
    let v = c as u32;
    ||| 0x09 <= v <= 0x0d
    ||| v == 0x20
    ||| v == 0x85
    ||| v == 0xa0
    ||| v == 0x1680
    ||| 0x2000 <= v <= 0x200a
    ||| v == 0x2028
    ||| v == 0x2029
    ||| v == 0x202f
    ||| v == 0x205f
    ||| v == 0x3000
}

/// Whether `c` has the Unicode `White_Space` property.
pub fn is_space_char(c: char) -> (space: bool)
    ensures
        space == is_space(c),
{
    let v = c as u32;
    (0x09 <= v && v <= 0x0d) || v == 0x20 || v == 0x85 || v == 0xa0 || v == 0x1680
        || (0x2000 <= v && v <= 0x200a) || v == 0x2028 || v == 0x2029 || v == 0x202f
        || v == 0x205f || v == 0x3000
}

/// Number of white-space characters at the start of `s`.
pub open spec fn leading_spaces(s: Seq<char>) -> nat
    decreases s.len(),
{
    if s.len() > 0 && is_space(s[0]) {
        1 + leading_spaces(s.drop_first())
    } else {
        0
    }
}

/// Number of white-space characters at the end of `s`.
pub open spec fn trailing_spaces(s: Seq<char>) -> nat
    decreases s.len(),
{
    if s.len() > 0 && is_space(s.last()) {
        1 + trailing_spaces(s.drop_last())
    } else {
        0
    }
}

/// `s` without its leading and trailing white space.
pub open spec fn trimmed(s: Seq<char>) -> Seq<char> {
    let rest = s.skip(leading_spaces(s) as int);
    rest.take(rest.len() - trailing_spaces(rest))
}

proof fn lemma_leading_spaces(s: Seq<char>, i: int)
    requires
        0 <= i <= s.len(),
        forall|j: int| 0 <= j < i ==> is_space(#[trigger] s[j]),
        i == s.len() || !is_space(s[i]),
    ensures
        leading_spaces(s) == i,
    decreases i,
{
    if i > 0 {
        lemma_leading_spaces(s.drop_first(), i - 1);
    }
}

proof fn lemma_trailing_spaces(s: Seq<char>, j: int)
    requires
        0 <= j <= s.len(),
        forall|k: int| j <= k < s.len() ==> is_space(#[trigger] s[k]),
        j == 0 || !is_space(s[j - 1]),
    ensures
        trailing_spaces(s) == s.len() - j,
    decreases s.len() - j,
{
    if j < s.len() {
        lemma_trailing_spaces(s.drop_last(), j);
    }
}

/// `s` with leading and trailing white space removed, as `str::trim` does.
pub fn trim(s: &str) -> (t: &str)
    ensures
        t@ == trimmed(s@),
{
    let n = s.unicode_len();
    let mut i: usize = 0;
    while i < n && is_space_char(s.get_char(i))
        invariant
            n == s@.len(),
            i <= n,
            forall|j: int| 0 <= j < i ==> is_space(#[trigger] s@[j]),
        decreases n - i,
    {
        i = i + 1;
    }
    proof { lemma_leading_spaces(s@, i as int); }
    let mut j: usize = n;
    while j > i && is_space_char(s.get_char(j - 1))
        invariant
            n == s@.len(),
            i <= j <= n,
            forall|k: int| j <= k < n ==> is_space(#[trigger] s@[k]),
        decreases j,
    {
        j = j - 1;
    }
    proof {
        let rest = s@.skip(i as int);
        assert forall|k: int| j - i <= k < rest.len() implies is_space(#[trigger] rest[k]) by {
            assert(rest[k] == s@[k + i]);
        }
        if j > i {
            assert(rest[j - i - 1] == s@[j - 1]);
        }
        lemma_trailing_spaces(rest, j - i);
        assert(s@.subrange(i as int, j as int) =~= rest.take(rest.len() - trailing_spaces(rest)));
    }
    s.substring_char(i, j)
}


/// The words of `rest`, given that the word in progress so far is `cur`:
/// maximal runs of non-white-space characters, in order.
pub open spec fn words_from(rest: Seq<char>, cur: Seq<char>) -> Seq<Seq<char>>
    decreases rest.len(),
{
    if rest.len() == 0 {
        if cur.len() > 0 { seq![cur] } else { seq![] }
    } else if is_space(rest[0]) {
        (if cur.len() > 0 { seq![cur] } else { seq![] }) + words_from(rest.drop_first(), seq![])
    } else {
        words_from(rest.drop_first(), cur.push(rest[0]))
    }
}

/// The words of `s`, as `str::split_whitespace` yields them.
pub open spec fn words(s: Seq<char>) -> Seq<Seq<char>> {
    words_from(s, seq![])
}

/// The white-space separated words of `s`, in order.
pub fn split_words(s: &str) -> (ws: Vec<String>)
    ensures
        ws@.len() == words(s@).len(),
        forall|k: int| 0 <= k < ws@.len() ==> #[trigger] ws@[k]@ == words(s@)[k],
{
    let n = s.unicode_len();
    let mut out: Vec<String> = Vec::new();
    let ghost mut done: Seq<Seq<char>> = seq![];
    let mut start: usize = 0;
    let mut i: usize = 0;
    assert(s@.skip(0) =~= s@);
    assert(s@.subrange(0, 0) =~= Seq::<char>::empty());
    assert(done + words(s@) =~= words(s@));
    while i < n
        invariant
            n == s@.len(),
            start <= i <= n,
            out@.len() == done.len(),
            forall|k: int| 0 <= k < out@.len() ==> #[trigger] out@[k]@ == done[k],
            words(s@) == done + words_from(s@.skip(i as int), s@.subrange(start as int, i as int)),
        decreases n - i,
    {
        let c = s.get_char(i);
        let ghost rest = s@.skip(i as int);
        let ghost cur = s@.subrange(start as int, i as int);
        assert(rest[0] == c);
        assert(rest.drop_first() =~= s@.skip(i + 1));
        if is_space_char(c) {
            if start < i {
                let w = s.substring_char(start, i).to_owned();
                out.push(w);
                proof {
                    assert(done + (seq![cur] + words_from(rest.drop_first(), seq![]))
                        =~= done.push(cur) + words_from(rest.drop_first(), seq![]));
                    done = done.push(cur);
                }
            } else {
                proof {
                    assert(cur.len() == 0);
                    assert(seq![] + words_from(rest.drop_first(), seq![]) =~= words_from(rest.drop_first(), seq![]));
                }
            }
            assert(s@.subrange(i + 1, i + 1) =~= seq![]);
            start = i + 1;
        } else {
            assert(cur.push(c) =~= s@.subrange(start as int, i + 1));
        }
        i = i + 1;
    }
    proof {
        let rest = s@.skip(n as int);
        assert(rest.len() == 0);
    }
    if start < n {
        let w = s.substring_char(start, n).to_owned();
        out.push(w);
        proof {
            done = done.push(s@.subrange(start as int, n as int));
        }
    }
    assert(words(s@) =~= done);
    out
}

/// Whether two texts hold the same characters.
pub fn same_text(a: &str, b: &str) -> (same: bool)
    ensures
        same == (a@ == b@),
{
    let n = a.unicode_len();
    if n != b.unicode_len() {
        return false;
    }
    let mut i: usize = 0;
    while i < n
        invariant
            n == a@.len(),
            n == b@.len(),
            i <= n,
            forall|j: int| 0 <= j < i ==> a@[j] == b@[j],
        decreases n - i,
    {
        if a.get_char(i) != b.get_char(i) {
            return false;
        }
        i = i + 1;
    }
    assert(a@ =~= b@);
    true
}

/// An ASCII decimal digit.
pub open spec fn is_digit(c: char) -> bool {
    '0' <= c <= '9'
}

/// The value of a decimal digit character.
pub open spec fn digit_value(c: char) -> int {
    c as int - '0' as int
}

/// The character of a decimal digit `0 <= d < 10`.
pub open spec fn digit_char(d: nat) -> char {
    ('0' as int + d) as char
}

/// The characters of an optional text.
pub open spec fn opt_view(s: Option<String>) -> Option<Seq<char>> {
    match s {
        Some(t) => Some(t@),
        None => None,
    }
}

/// The value of a numeral written with decimal digits, most significant first.
pub open spec fn digits_value(s: Seq<char>) -> int
    decreases s.len(),
{
    if s.len() == 0 {
        0
    } else {
        10 * digits_value(s.drop_last()) + digit_value(s.last())
    }
}

/// Every character of `s` is a decimal digit.
pub open spec fn all_digits(s: Seq<char>) -> bool {
    forall|i: int| 0 <= i < s.len() ==> is_digit(#[trigger] s[i])
}

/// What `str::parse::<usize>` yields: an optional `+` sign followed by one
/// or more decimal digits whose value fits in a `usize`; anything else fails.
pub open spec fn parsed_usize(s: Seq<char>) -> Option<usize> {
    let body = if s.len() > 0 && s[0] == '+' { s.drop_first() } else { s };
    if body.len() > 0 && all_digits(body) && digits_value(body) <= usize::MAX {
        Some(digits_value(body) as usize)
    } else {
        None
    }
}

/// The decimal numeral of `n`, without leading zeros.
pub open spec fn decimal(n: nat) -> Seq<char>
    decreases n,
{
    if n < 10 {
        seq![digit_char(n)]
    } else {
        decimal(n / 10).push(digit_char(n % 10))
    }
}

proof fn lemma_digits_monotone(s: Seq<char>, k: int)
    requires
        all_digits(s),
        0 <= k <= s.len(),
    ensures
        0 <= digits_value(s.take(k)) <= digits_value(s),
    decreases s.len(),
{
    if s.len() > 0 {
        if k == s.len() {
            assert(s.take(k) =~= s);
            lemma_digits_monotone(s.drop_last(), s.len() - 1);
            assert(s.drop_last().take(s.len() - 1) =~= s.drop_last());
        } else {
            lemma_digits_monotone(s.drop_last(), k);
            assert(s.drop_last().take(k) =~= s.take(k));
            lemma_digits_monotone(s.drop_last(), s.len() - 1);
            assert(s.drop_last().take(s.len() - 1) =~= s.drop_last());
        }
    }
}

/// Parse `s` as `str::parse::<usize>` does.
pub fn parse_usize(s: &str) -> (value: Option<usize>)
    ensures
        value == parsed_usize(s@),
{
    let n = s.unicode_len();
    if n == 0 {
        return None;
    }
    let start: usize = if s.get_char(0) == '+' { 1 } else { 0 };
    let ghost body = if s@[0] == '+' { s@.drop_first() } else { s@ };
    assert(body =~= s@.skip(start as int));
    if start == n {
        return None;
    }
    let mut acc: usize = 0;
    let mut i: usize = start;
    assert(body.take(0) =~= Seq::<char>::empty());
    while i < n
        invariant
            n == s@.len(),
            start <= i <= n,
            start < n,
            body =~= s@.skip(start as int),
            body == (if s@.len() > 0 && s@[0] == '+' { s@.drop_first() } else { s@ }),
            all_digits(body.take(i - start)),
            acc == digits_value(body.take(i - start)),
        decreases n - i,
    {
        let c = s.get_char(i);
        assert(body[i - start] == c);
        assert(body.take(i - start + 1).drop_last() =~= body.take(i - start));
        if !('0' <= c && c <= '9') {
            assert(!is_digit(body[i - start]));
            assert(!all_digits(body));
            assert(parsed_usize(s@) is None);
            return None;
        }
        let d = (c as u32 - '0' as u32) as usize;
        let next = if acc <= (usize::MAX - d) / 10 { Some(acc * 10 + d) } else { None };
        match next {
            Some(v) => {
                acc = v;
            }
            None => {
                proof {
                    if all_digits(body) {
                        lemma_digits_monotone(body, i - start + 1);
                    }
                }
                return None;
            }
        }
        i = i + 1;
    }
    assert(body.take(n - start) =~= body);
    Some(acc)
}

proof fn lemma_decimal(n: nat)
    ensures
        decimal(n).len() > 0,
        all_digits(decimal(n)),
        decimal(n)[0] != '+',
        digits_value(decimal(n)) == n,
    decreases n,
{
    assert(digit_value(digit_char(n % 10)) == n % 10);
    if n >= 10 {
        lemma_decimal(n / 10);
        let d = decimal(n / 10);
        assert(decimal(n).drop_last() =~= d);
        assert(decimal(n).last() == digit_char(n % 10));
        assert(n == 10 * (n / 10) + n % 10);
        assert(decimal(n)[0] == d[0]);
    } else {
        assert(decimal(n).drop_last() =~= Seq::<char>::empty());
        assert(digits_value(Seq::<char>::empty()) == 0);
    }
}

/// Reading back the numeral of a `u32` gives the number: parsing the text
/// that `decimal_text` writes recovers the value that was written.
pub proof fn law_numeral_roundtrip(n: u32)
    ensures
        parsed_usize(decimal(n as nat)) == Some(n as usize),
{
    lemma_decimal(n as nat);
}

/// The one-character text of the digit `d`.
fn digit_text(d: u32) -> (t: &'static str)
    requires
        d < 10,
    ensures
        t@ == seq![digit_char(d as nat)],
{
    if d == 0 { proof { reveal_strlit("0"); } "0" }
    else if d == 1 { proof { reveal_strlit("1"); } "1" }
    else if d == 2 { proof { reveal_strlit("2"); } "2" }
    else if d == 3 { proof { reveal_strlit("3"); } "3" }
    else if d == 4 { proof { reveal_strlit("4"); } "4" }
    else if d == 5 { proof { reveal_strlit("5"); } "5" }
    else if d == 6 { proof { reveal_strlit("6"); } "6" }
    else if d == 7 { proof { reveal_strlit("7"); } "7" }
    else if d == 8 { proof { reveal_strlit("8"); } "8" }
    else { proof { reveal_strlit("9"); } "9" }
}

/// The decimal numeral of `n`, as `u32::to_string` writes it.
pub fn decimal_text(n: u32) -> (t: String)
    ensures
        t@ == decimal(n as nat),
    decreases n,
{
    if n < 10 {
        String::from_str(digit_text(n))
    } else {
        let mut t = decimal_text(n / 10);
        t.append(digit_text(n % 10));
        t
    }
}

/// The numeral of `n` is a non-empty run of decimal digits.
pub proof fn lemma_decimal_digits(n: nat)
    ensures
        decimal(n).len() > 0,
        all_digits(decimal(n)),
{
    lemma_decimal(n);
}

proof fn lemma_leading_spaces_bound(s: Seq<char>)
    ensures
        leading_spaces(s) <= s.len(),
        leading_spaces(s) < s.len() ==> !is_space(s[leading_spaces(s) as int]),
        forall|j: int| 0 <= j < leading_spaces(s) ==> is_space(#[trigger] s[j]),
    decreases s.len(),
{
    if s.len() > 0 && is_space(s[0]) {
        lemma_leading_spaces_bound(s.drop_first());
        assert forall|j: int| 0 <= j < leading_spaces(s) implies is_space(#[trigger] s[j]) by {
            if j > 0 {
                assert(s[j] == s.drop_first()[j - 1]);
            }
        }
    }
}

proof fn lemma_trailing_spaces_bound(s: Seq<char>)
    ensures
        trailing_spaces(s) <= s.len(),
        trailing_spaces(s) < s.len() ==> !is_space(s[s.len() - trailing_spaces(s) - 1]),
        forall|j: int| s.len() - trailing_spaces(s) <= j < s.len() ==> is_space(#[trigger] s[j]),
    decreases s.len(),
{
    if s.len() > 0 && is_space(s.last()) {
        lemma_trailing_spaces_bound(s.drop_last());
        assert forall|j: int| s.len() - trailing_spaces(s) <= j < s.len() implies is_space(#[trigger] s[j]) by {
            if j < s.len() - 1 {
                assert(s[j] == s.drop_last()[j]);
            }
        }
    }
}

/// The trimmed text neither starts nor ends with white space.
pub proof fn lemma_trimmed_ends(s: Seq<char>)
    ensures
        trimmed(s).len() > 0 ==> !is_space(trimmed(s)[0]) && !is_space(trimmed(s).last()),
{
    lemma_leading_spaces_bound(s);
    let rest = s.skip(leading_spaces(s) as int);
    lemma_trailing_spaces_bound(rest);
    let t = trimmed(s);
    if t.len() > 0 {
        assert(t[0] == rest[0]);
        assert(rest[0] == s[leading_spaces(s) as int]);
        if trailing_spaces(rest) == rest.len() {
            assert(false);
        }
        assert(t.last() == rest[rest.len() - trailing_spaces(rest) - 1]);
    }
}

/// Text that neither starts nor ends with white space is its own trim.
pub proof fn lemma_trim_clean(t: Seq<char>)
    requires
        t.len() > 0 ==> !is_space(t[0]) && !is_space(t.last()),
    ensures
        trimmed(t) == t,
{
    assert(leading_spaces(t) == 0);
    assert(t.skip(0) =~= t);
    assert(trailing_spaces(t) == 0);
    assert(t.take(t.len() as int) =~= t);
}

/// A numeral followed by a line break trims to the numeral.
pub proof fn lemma_trim_digits_line(d: Seq<char>)
    requires
        d.len() > 0,
        all_digits(d),
    ensures
        trimmed(d + "\n"@) == d,
{
    reveal_strlit("\n");
    let s = d + "\n"@;
    assert(!is_space(s[0]));
    assert(leading_spaces(s) == 0);
    assert(s.skip(0) =~= s);
    assert(is_space(s.last()));
    assert(s.drop_last() =~= d);
    assert(!is_space(d.last()));
    assert(trailing_spaces(d) == 0);
    assert(trailing_spaces(s) == 1);
    assert(s.take(s.len() - 1) =~= d);
}

/// A lone line break trims to nothing.
pub proof fn lemma_trim_newline()
    ensures
        trimmed("\n"@) == Seq::<char>::empty(),
{
    reveal_strlit("\n");
    let s = "\n"@;
    assert(is_space(s[0]));
    assert(s.drop_first() =~= Seq::<char>::empty());
    assert(leading_spaces(s.drop_first()) == 0);
    assert(leading_spaces(s) == 1);
    assert(s.skip(1) =~= Seq::<char>::empty());
}

/// A word: a non-empty run of characters none of which is white space.
pub open spec fn is_word(w: Seq<char>) -> bool {
    w.len() > 0 && forall|j: int| 0 <= j < w.len() ==> !is_space(#[trigger] w[j])
}

proof fn lemma_words_from_are_words(rest: Seq<char>, cur: Seq<char>)
    requires
        forall|j: int| 0 <= j < cur.len() ==> !is_space(#[trigger] cur[j]),
    ensures
        forall|k: int| 0 <= k < words_from(rest, cur).len() ==> is_word(#[trigger] words_from(rest, cur)[k]),
    decreases rest.len(),
{
    if rest.len() == 0 {
        if cur.len() > 0 {
            assert(words_from(rest, cur) =~= seq![cur]);
            assert(is_word(seq![cur][0]));
        }
    } else if is_space(rest[0]) {
        lemma_words_from_are_words(rest.drop_first(), seq![]);
        let head: Seq<Seq<char>> = if cur.len() > 0 { seq![cur] } else { seq![] };
        let tail = words_from(rest.drop_first(), seq![]);
        assert(words_from(rest, cur) == head + tail);
        assert forall|k: int| 0 <= k < (head + tail).len() implies is_word(#[trigger] (head + tail)[k]) by {
            if k < head.len() {
                assert((head + tail)[k] == cur);
            } else {
                assert((head + tail)[k] == tail[k - head.len()]);
            }
        }
    } else {
        let next = cur.push(rest[0]);
        assert forall|j: int| 0 <= j < next.len() implies !is_space(#[trigger] next[j]) by {
            if j < cur.len() {
                assert(next[j] == cur[j]);
            }
        }
        lemma_words_from_are_words(rest.drop_first(), next);
        assert(words_from(rest, cur) == words_from(rest.drop_first(), next));
    }
}

/// Every word that splitting yields is non-empty and free of white space,
/// so the parts of a `LAT LON` line carry no stray blanks.
pub proof fn law_words_are_words(s: Seq<char>)
    ensures
        forall|k: int| 0 <= k < words(s).len() ==> is_word(#[trigger] words(s)[k]),
{
    lemma_words_from_are_words(s, seq![]);
}

} // verus!

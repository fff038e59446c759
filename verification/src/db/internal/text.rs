//! Text primitives: quoting for SQL string literals, decimal numerals,
//! trimming and splitting.
use vstd::prelude::*;
use vstd::string::*;

verus! {

/// `String::push` of the standard library: the string grows by exactly the
/// character given, at its end.
pub assume_specification[ String::push ](s: &mut String, c: char)
    ensures
        final(s)@ == old(s)@.push(c),
;

/// `==` on `str` of the standard library: two string slices are equal exactly
/// when they hold the same characters in the same order.
pub assume_specification[ <str as PartialEq>::eq ](a: &str, b: &str) -> (r: bool)
    ensures
        r == (a@ == b@),
;

/// The quote character that delimits an SQL string literal.
pub open spec fn quote_char() -> char {
    '\''
}

/// `s` with every single quote written twice, which is how SQL spells a quote
/// inside a string literal.
pub open spec fn doubled_quotes(s: Seq<char>) -> Seq<char>
    decreases s.len(),
{
    if s.len() == 0 {
        Seq::empty()
    } else if s.last() == quote_char() {
        doubled_quotes(s.drop_last()).push(quote_char()).push(quote_char())
    } else {
        doubled_quotes(s.drop_last()).push(s.last())
    }
}

/// The SQL string literal that denotes `s`.
pub open spec fn quoted(s: Seq<char>) -> Seq<char> {
    seq![quote_char()] + doubled_quotes(s) + seq![quote_char()]
}

/// The inverse of [`doubled_quotes`]: reads a quote followed by a quote as one
/// quote, and gives `None` where a quote stands alone.
pub open spec fn undoubled_quotes(s: Seq<char>) -> Option<Seq<char>>
    decreases s.len(),
{
    if s.len() == 0 {
        Some(Seq::empty())
    } else if s.last() != quote_char() {
        match undoubled_quotes(s.drop_last()) {
            Some(head) => Some(head.push(s.last())),
            None => None,
        }
    } else if s.len() >= 2 && s[s.len() - 2] == quote_char() {
        match undoubled_quotes(s.drop_last().drop_last()) {
            Some(head) => Some(head.push(quote_char())),
            None => None,
        }
    } else {
        None
    }
}

/// Doubling the quotes of a longer text: the doubling of its front, then that
/// of its last character.
pub proof fn lemma_doubled_quotes_push(s: Seq<char>, c: char)
    ensures
        doubled_quotes(s.push(c)) == if c == quote_char() {
            doubled_quotes(s).push(quote_char()).push(quote_char())
        } else {
            doubled_quotes(s).push(c)
        },
{
    assert(s.push(c).drop_last() == s);
}

/// Doubling the quotes of two texts joined: the doublings joined.
pub proof fn lemma_doubled_quotes_concat(a: Seq<char>, b: Seq<char>)
    ensures
        doubled_quotes(a + b) == doubled_quotes(a) + doubled_quotes(b),
    decreases b.len(),
{
    if b.len() == 0 {
        assert(a + b == a);
        assert(doubled_quotes(a) + doubled_quotes(b) == doubled_quotes(a));
    } else {
        let front = b.drop_last();
        lemma_doubled_quotes_concat(a, front);
        assert((a + b).drop_last() == a + front);
        assert((a + b).last() == b.last());
        if b.last() == quote_char() {
            assert(doubled_quotes(a) + doubled_quotes(front).push(quote_char()).push(quote_char())
                == (doubled_quotes(a) + doubled_quotes(front)).push(quote_char()).push(
                quote_char(),
            ));
        } else {
            assert(doubled_quotes(a) + doubled_quotes(front).push(b.last()) == (doubled_quotes(a)
                + doubled_quotes(front)).push(b.last()));
        }
    }
}

/// Escaping loses nothing: undoing the doubling gives the text back.
pub proof fn lemma_undoubled_doubled(s: Seq<char>)
    ensures
        undoubled_quotes(doubled_quotes(s)) == Some(s),
    decreases s.len(),
{
    if s.len() == 0 {
    } else {
        let front = s.drop_last();
        lemma_undoubled_doubled(front);
        let d = doubled_quotes(front);
        assert(s == front.push(s.last()));
        if s.last() == quote_char() {
            let e = d.push(quote_char()).push(quote_char());
            assert(e.drop_last().drop_last() == d);
            assert(e[e.len() - 2] == quote_char());
        } else {
            let e = d.push(s.last());
            assert(e.drop_last() == d);
        }
    }
}

/// Writes every single quote of `value` twice.
pub fn escape_quotes(value: &str) -> (escaped: String)
    ensures
        escaped@ == doubled_quotes(value@),
{
    let mut escaped = String::new();
    for c in it: value.chars()
        invariant
            it.seq() == value@,
            escaped@ == doubled_quotes(value@.take(it.index() as int)),
    {
        proof {
            let done = value@.take(it.index() as int);
            assert(value@.take(it.index() + 1) == done.push(c));
            lemma_doubled_quotes_push(done, c);
        }
        if c == '\'' {
            escaped.push('\'');
            escaped.push('\'');
        } else {
            escaped.push(c);
        }
    }
    proof {
        assert(value@.take(value@.len() as int) == value@);
    }
    escaped
}

/// The SQL string literal for `value`: the text between single quotes, with
/// the quotes inside it doubled.
pub fn quote_text(value: &str) -> (literal: String)
    ensures
        literal@ == quoted(value@),
{
    let mut literal = String::new();
    literal.push('\'');
    let escaped = escape_quotes(value);
    literal.append(escaped.as_str());
    literal.push('\'');
    proof {
        assert(literal@ == quoted(value@));
    }
    literal
}

/// The character for a decimal digit.
pub open spec fn digit(d: int) -> char {
    (d + 48) as char
}

/// The decimal numeral of a natural number, without leading zeros.
pub open spec fn decimal(n: nat) -> Seq<char>
    decreases n,
{
    if n < 10 {
        seq![digit(n as int)]
    } else {
        decimal(n / 10).push(digit((n % 10) as int))
    }
}

/// The decimal numeral of an integer: a minus sign before the numeral of its
/// magnitude where it is negative.
pub open spec fn signed_decimal(i: int) -> Seq<char> {
    if i < 0 {
        seq!['-'] + decimal((-i) as nat)
    } else {
        decimal(i as nat)
    }
}

/// The number that a sequence of decimal digits denotes, and `None` for the
/// empty sequence and for one that holds anything but digits.
pub open spec fn decimal_value(s: Seq<char>) -> Option<nat>
    decreases s.len(),
{
    if s.len() == 0 {
        None
    } else if !('0' <= s.last() <= '9') {
        None
    } else if s.len() == 1 {
        Some((s.last() as int - 48) as nat)
    } else {
        match decimal_value(s.drop_last()) {
            Some(front) => Some((front * 10 + (s.last() as int - 48)) as nat),
            None => None,
        }
    }
}

/// A numeral denotes the number it was written for.
pub proof fn lemma_decimal_value(n: nat)
    ensures
        decimal_value(decimal(n)) == Some(n),
        decimal(n).len() >= 1,
        forall|i: int| 0 <= i < decimal(n).len() ==> '0' <= #[trigger] decimal(n)[i] <= '9',
    decreases n,
{
    if n < 10 {
        assert(decimal(n) == seq![digit(n as int)]);
        assert(decimal(n).last() == digit(n as int));
    } else {
        lemma_decimal_value(n / 10);
        let front = decimal(n / 10);
        let d = digit((n % 10) as int);
        assert(decimal(n) == front.push(d));
        assert(front.push(d).drop_last() == front);
        assert(front.push(d).last() == d);
    }
}

fn digit_char(d: u8) -> (c: char)
    requires
        d < 10,
    ensures
        c == digit(d as int),
{
    (48u8 + d) as char
}

/// Appends the decimal numeral of `n` to `out`.
pub fn push_decimal(out: &mut String, n: u128)
    ensures
        final(out)@ == old(out)@ + decimal(n as nat),
    decreases n,
{
    if n >= 10 {
        push_decimal(out, n / 10);
    }
    out.push(digit_char((n % 10) as u8));
}

/// Appends the decimal numeral of `i` to `out`, with its sign where it is
/// negative.
pub fn push_signed_decimal(out: &mut String, i: i128)
    ensures
        final(out)@ == old(out)@ + signed_decimal(i as int),
{
    if i < 0 {
        out.push('-');
        let magnitude: u128 = ((-(i + 1)) as u128) + 1;
        push_decimal(out, magnitude);
    } else {
        push_decimal(out, i as u128);
    }
}

/// The decimal numeral of `n`.
pub fn decimal_text(n: u128) -> (text: String)
    ensures
        text@ == decimal(n as nat),
{
    let mut text = String::new();
    push_decimal(&mut text, n);
    text
}

/// The decimal numeral of `i`.
pub fn signed_decimal_text(i: i128) -> (text: String)
    ensures
        text@ == signed_decimal(i as int),
{
    let mut text = String::new();
    push_signed_decimal(&mut text, i);
    text
}

/// A character that trimming removes: one with the Unicode property
/// White_Space.
pub open spec fn is_space(c: char) -> bool {
    let code = c as u32;
    ||| 0x9 <= code <= 0xd
    ||| code == 0x20
    ||| code == 0x85
    ||| code == 0xa0
    ||| code == 0x1680
    ||| 0x2000 <= code <= 0x200a
    ||| code == 0x2028
    ||| code == 0x2029
    ||| code == 0x202f
    ||| code == 0x205f
    ||| code == 0x3000
}

/// `s` without the white space at its start.
pub open spec fn trim_start(s: Seq<char>) -> Seq<char>
    decreases s.len(),
{
    if s.len() > 0 && is_space(s[0]) {
        trim_start(s.drop_first())
    } else {
        s
    }
}

/// `s` without the white space at its end.
pub open spec fn trim_end(s: Seq<char>) -> Seq<char>
    decreases s.len(),
{
    if s.len() > 0 && is_space(s.last()) {
        trim_end(s.drop_last())
    } else {
        s
    }
}

/// `s` without the white space at its two ends.
pub open spec fn trimmed(s: Seq<char>) -> Seq<char> {
    trim_end(trim_start(s))
}

/// The position of the first `c` in `s`, or the length of `s` where it holds
/// none.
pub open spec fn first_index_of(s: Seq<char>, c: char) -> int
    decreases s.len(),
{
    if s.len() == 0 {
        0
    } else if s[0] == c {
        0
    } else {
        1 + first_index_of(s.drop_first(), c)
    }
}

/// The pieces of `s` between the occurrences of `separator`: one more piece
/// than there are separators, empty pieces included.
pub open spec fn split(s: Seq<char>, separator: char) -> Seq<Seq<char>>
    decreases s.len(),
{
    let k = first_index_of(s, separator);
    if 0 <= k < s.len() {
        seq![s.take(k)] + split(s.skip(k + 1), separator)
    } else {
        seq![s]
    }
}

/// The texts of a list of string slices.
pub open spec fn texts(pieces: Seq<&str>) -> Seq<Seq<char>> {
    pieces.map_values(|piece: &str| piece@)
}

/// The first occurrence is where `c` stands with no `c` before it.
pub proof fn lemma_first_index_of(s: Seq<char>, c: char, k: int)
    requires
        0 <= k <= s.len(),
        forall|j: int| 0 <= j < k ==> s[j] != c,
        k < s.len() ==> s[k] == c,
    ensures
        first_index_of(s, c) == k,
    decreases s.len(),
{
    if k > 0 {
        let rest = s.drop_first();
        assert forall|j: int| 0 <= j < k - 1 implies rest[j] != c by {
            assert(rest[j] == s[j + 1]);
        }
        lemma_first_index_of(rest, c, k - 1);
    }
}

/// A split always gives at least one piece.
pub proof fn lemma_split_nonempty(s: Seq<char>, separator: char)
    ensures
        split(s, separator).len() >= 1,
    decreases s.len(),
{
    let k = first_index_of(s, separator);
    if 0 <= k < s.len() {
        lemma_split_nonempty(s.skip(k + 1), separator);
    }
}

/// What trimming the start leaves, given where the white space ends.
pub proof fn lemma_trim_start(s: Seq<char>, a: int)
    requires
        0 <= a <= s.len(),
        forall|j: int| 0 <= j < a ==> is_space(s[j]),
        a < s.len() ==> !is_space(s[a]),
    ensures
        trim_start(s) == s.skip(a),
    decreases s.len(),
{
    if a > 0 {
        let rest = s.drop_first();
        assert forall|j: int| 0 <= j < a - 1 implies is_space(rest[j]) by {
            assert(rest[j] == s[j + 1]);
        }
        lemma_trim_start(rest, a - 1);
        assert(rest.skip(a - 1) == s.skip(a));
    } else {
        assert(s.skip(0) == s);
    }
}

/// What trimming the end leaves, given where the white space begins.
pub proof fn lemma_trim_end(s: Seq<char>, b: int)
    requires
        0 <= b <= s.len(),
        forall|j: int| b <= j < s.len() ==> is_space(s[j]),
        b > 0 ==> !is_space(s[b - 1]),
    ensures
        trim_end(s) == s.take(b),
    decreases s.len(),
{
    if b < s.len() {
        let rest = s.drop_last();
        lemma_trim_end(rest, b);
        assert(rest.take(b) == s.take(b));
    } else {
        assert(s.take(b) == s);
    }
}

/// Whether the character `c` occurs nowhere in `s`.
pub open spec fn free_of(s: Seq<char>, c: char) -> bool {
    forall|i: int| 0 <= i < s.len() ==> s[i] != c
}

/// A word that can stand in a column list as it is: it is not empty, and it
/// holds no white space, no comma and no parenthesis.
pub open spec fn plain_word(s: Seq<char>) -> bool {
    &&& s.len() > 0
    &&& forall|i: int|
        0 <= i < s.len() ==> !is_space(#[trigger] s[i]) && s[i] != ',' && s[i] != '(' && s[i]
            != ')'
}

/// A text without the separator is one piece.
pub proof fn lemma_split_whole(s: Seq<char>, separator: char)
    requires
        free_of(s, separator),
    ensures
        split(s, separator) == seq![s],
{
    lemma_first_index_of(s, separator, s.len() as int);
}

/// A text that begins with a piece without the separator, and then the
/// separator: its first piece is that one, and the others are the pieces of
/// what follows.
pub proof fn lemma_split_first(head: Seq<char>, rest: Seq<char>, separator: char)
    requires
        free_of(head, separator),
    ensures
        split(head + seq![separator] + rest, separator) == seq![head] + split(rest, separator),
{
    let s = head + seq![separator] + rest;
    let k = head.len() as int;
    assert(s[k] == separator);
    assert forall|j: int| 0 <= j < k implies s[j] != separator by {
        assert(s[j] == head[j]);
    }
    lemma_first_index_of(s, separator, k);
    assert(s.take(k) == head);
    assert(s.skip(k + 1) == rest);
}

/// Trimming leaves a plain word as it is.
pub proof fn lemma_trimmed_plain_word(s: Seq<char>)
    requires
        plain_word(s),
    ensures
        trimmed(s) == s,
{
    lemma_trim_start(s, 0);
    assert(s.skip(0) == s);
    lemma_trim_end(s, s.len() as int);
    assert(s.take(s.len() as int) == s);
}

/// Whether trimming removes `c`.
pub fn is_whitespace(c: char) -> (r: bool)
    ensures
        r == is_space(c),
{
    let code = c as u32;
    (0x9 <= code && code <= 0xd) || code == 0x20 || code == 0x85 || code == 0xa0 || code == 0x1680
        || (0x2000 <= code && code <= 0x200a) || code == 0x2028 || code == 0x2029 || code == 0x202f
        || code == 0x205f || code == 0x3000
}

/// The part of `s` between its leading and its trailing white space.
pub fn trim<'a>(s: &'a str) -> (r: &'a str)
    ensures
        r@ == trimmed(s@),
{
    let n = s.unicode_len();
    let mut first: usize = n;
    let mut end: usize = 0;
    let mut i: usize = 0;
    for c in it: s.chars()
        invariant
            it.seq() == s@,
            i == it.index(),
            n == s@.len(),
            first <= n,
            end <= i,
            forall|j: int| 0 <= j < i && j < first ==> is_space(s@[j]),
            first < n ==> first < i && !is_space(s@[first as int]) && first < end,
            first == n ==> end == 0,
            forall|j: int| end <= j < i ==> is_space(s@[j]),
            end > 0 ==> !is_space(s@[end - 1]),
    {
        if !is_whitespace(c) {
            if first == n {
                first = i;
            }
            end = i + 1;
        }
        i += 1;
    }
    if first == n {
        proof {
            lemma_trim_start(s@, n as int);
            assert(s@.skip(n as int) == Seq::<char>::empty());
            assert(s@.subrange(0, 0) == Seq::<char>::empty());
        }
        s.substring_char(0, 0)
    } else {
        proof {
            lemma_trim_start(s@, first as int);
            let rest = s@.skip(first as int);
            assert forall|j: int| end - first <= j < rest.len() implies is_space(rest[j]) by {
                assert(rest[j] == s@[j + first]);
            }
            assert(rest[end - first - 1] == s@[end - 1]);
            lemma_trim_end(rest, end - first);
            assert(rest.take(end - first) == s@.subrange(first as int, end as int));
        }
        s.substring_char(first, end)
    }
}

/// The pieces of `input` between the occurrences of `separator`.
pub fn split_on<'a>(input: &'a str, separator: char) -> (pieces: Vec<&'a str>)
    ensures
        texts(pieces@) == split(input@, separator),
{
    let n = input.unicode_len();
    let mut pieces: Vec<&'a str> = Vec::new();
    let mut start: usize = 0;
    let mut i: usize = 0;
    proof {
        assert(input@.skip(0) == input@);
        assert(texts(pieces@) + split(input@, separator) == split(input@, separator));
    }
    for c in it: input.chars()
        invariant
            it.seq() == input@,
            i == it.index(),
            n == input@.len(),
            start <= i,
            forall|j: int| start <= j < i ==> input@[j] != separator,
            texts(pieces@) + split(input@.skip(start as int), separator) == split(
                input@,
                separator,
            ),
    {
        if c == separator {
            let piece = input.substring_char(start, i);
            proof {
                let rest = input@.skip(start as int);
                assert forall|j: int| 0 <= j < i - start implies rest[j] != separator by {
                    assert(rest[j] == input@[j + start]);
                }
                assert(rest[i - start] == separator);
                lemma_first_index_of(rest, separator, i - start);
                assert(rest.take(i - start) == piece@);
                assert(rest.skip(i - start + 1) == input@.skip(i + 1));
                assert(texts(pieces@.push(piece)) == texts(pieces@).push(piece@));
                assert(texts(pieces@).push(piece@) + split(input@.skip(i + 1), separator) == texts(
                    pieces@,
                ) + (seq![piece@] + split(input@.skip(i + 1), separator)));
            }
            pieces.push(piece);
            start = i + 1;
        }
        i += 1;
    }
    let piece = input.substring_char(start, i);
    proof {
        let rest = input@.skip(start as int);
        assert forall|j: int| 0 <= j < rest.len() implies rest[j] != separator by {
            assert(rest[j] == input@[j + start]);
        }
        lemma_first_index_of(rest, separator, rest.len() as int);
        assert(piece@ == rest);
        assert(texts(pieces@.push(piece)) == texts(pieces@).push(piece@));
        assert(texts(pieces@).push(piece@) == texts(pieces@) + seq![rest]);
    }
    pieces.push(piece);
    pieces
}

} // verus!

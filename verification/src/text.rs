//! Text as sequences of characters: searching, splitting, numbers.

use vstd::prelude::*;
use vstd::string::StringExecFns;

verus! {

/// The characters of `s`, one by one.
pub fn chars_of(s: &str) -> (chars: Vec<char>)
    ensures
        chars@ == s@,
{
    let mut chars: Vec<char> = Vec::new();
    for c in it: s.chars()
        invariant
            it.seq() == s@,
            chars@ == it.seq().take(it.index() as int),
    {
        chars.push(c);
        assert(chars@ =~= it.seq().take(it.index() + 1));
    }
    assert(s@.take(s@.len() as int) =~= s@);
    chars
}

/// The text that an optional string holds.
pub open spec fn text_of(value: Option<String>) -> Option<Seq<char>> {
    match value {
        Some(s) => Some(s@),
        None => None,
    }
}

/// Whether two texts hold the same characters.
pub fn same_text(a: &str, b: &str) -> (same: bool)
    ensures
        same == (a@ == b@),
{
    let x = String::from_str(a);
    let y = String::from_str(b);
    x == y
}

/// Whether `needle` stands in `hay` at position `i`.
pub open spec fn occurs_at(hay: Seq<char>, needle: Seq<char>, i: int) -> bool {
    &&& 0 <= i
    &&& i + needle.len() <= hay.len()
    &&& hay.subrange(i, i + needle.len()) == needle
}

/// Whether `needle` stands somewhere in `hay`. The empty text stands in
/// every text.
pub open spec fn contains(hay: Seq<char>, needle: Seq<char>) -> bool {
    exists|i: int| occurs_at(hay, needle, i)
}

fn matches_at(hay: &Vec<char>, needle: &Vec<char>, i: usize) -> (found: bool)
    requires
        i + needle.len() <= hay.len(),
    ensures
        found == occurs_at(hay@, needle@, i as int),
{
    let n = needle.len();
    let mut k: usize = 0;
    while k < n
        invariant
            n == needle.len(),
            i + n <= hay.len(),
            k <= n,
            forall|j: int| 0 <= j < k ==> hay@[i + j] == needle@[j],
        decreases n - k,
    {
        if hay[i + k] != needle[k] {
            assert(hay@.subrange(i as int, i + n)[k as int] == hay@[i + k]);
            return false;
        }
        k = k + 1;
    }
    assert(hay@.subrange(i as int, i + n) =~= needle@);
    true
}

/// Searches `hay` for `needle`, position by position.
pub fn chars_contain(hay: &Vec<char>, needle: &Vec<char>) -> (found: bool)
    ensures
        found == contains(hay@, needle@),
{
    if needle.len() > hay.len() {
        return false;
    }
    let last = hay.len() - needle.len();
    let mut i: usize = 0;
    while i < last
        invariant
            last == hay.len() - needle.len(),
            i <= last,
            forall|k: int| 0 <= k < i ==> !occurs_at(hay@, needle@, k),
        decreases last - i,
    {
        if matches_at(hay, needle, i) {
            return true;
        }
        i = i + 1;
    }
    matches_at(hay, needle, last)
}

/// Whether `needle` stands somewhere in `hay`.
pub fn text_contains(hay: &str, needle: &str) -> (found: bool)
    ensures
        found == contains(hay@, needle@),
{
    let h = chars_of(hay);
    let n = chars_of(needle);
    chars_contain(&h, &n)
}

/// Whether `c` is white space: the characters that Unicode marks as
/// `White_Space`.
pub open spec fn is_whitespace(c: char) -> bool {
    let u = c as u32;
    ||| 0x09 <= u <= 0x0d
    ||| u == 0x20
    ||| u == 0x85
    ||| u == 0xa0
    ||| u == 0x1680
    ||| 0x2000 <= u <= 0x200a
    ||| u == 0x2028
    ||| u == 0x2029
    ||| u == 0x202f
    ||| u == 0x205f
    ||| u == 0x3000
}

/// Tells whether `c` is white space.
pub fn char_is_whitespace(c: char) -> (b: bool)
    ensures
        b == is_whitespace(c),
{
    let u: u32 = c as u32;
    (0x09 <= u && u <= 0x0d) || u == 0x20 || u == 0x85 || u == 0xa0 || u == 0x1680 || (0x2000 <= u
        && u <= 0x200a) || u == 0x2028 || u == 0x2029 || u == 0x202f || u == 0x205f || u == 0x3000
}

/// The first position from `i` on whose character meets `stop`, or the
/// length of `s` where none does.
pub open spec fn first_from(s: Seq<char>, stop: spec_fn(char) -> bool, i: int) -> int
    decreases s.len() - i,
{
    if 0 <= i < s.len() && !stop(s[i]) {
        first_from(s, stop, i + 1)
    } else {
        i
    }
}

/// `first_from` looks forward only, stops inside the text, passes over
/// nothing that meets `stop`, and lands on a character that does.
pub proof fn lemma_first_from(s: Seq<char>, stop: spec_fn(char) -> bool, i: int)
    requires
        0 <= i <= s.len(),
    ensures
        i <= first_from(s, stop, i) <= s.len(),
        forall|k: int| i <= k < first_from(s, stop, i) ==> !stop(#[trigger] s[k]),
        first_from(s, stop, i) < s.len() ==> stop(s[first_from(s, stop, i)]),
    decreases s.len() - i,
{
    if i < s.len() && !stop(s[i]) {
        lemma_first_from(s, stop, i + 1);
    }
}

/// Where nothing from `i` up to `j` meets `stop`, and `j` is the end of the
/// text or meets `stop`, the search from `i` ends at `j`.
pub proof fn lemma_first_from_is(s: Seq<char>, stop: spec_fn(char) -> bool, i: int, j: int)
    requires
        0 <= i <= j <= s.len(),
        forall|k: int| i <= k < j ==> !stop(#[trigger] s[k]),
        j < s.len() ==> stop(s[j]),
    ensures
        first_from(s, stop, i) == j,
    decreases j - i,
{
    if i < j {
        lemma_first_from_is(s, stop, i + 1, j);
    }
}

/// The test for white space, as a value.
pub open spec fn white() -> spec_fn(char) -> bool {
    |c: char| is_whitespace(c)
}

/// The test for being the character `sep`, as a value.
pub open spec fn is_char(sep: char) -> spec_fn(char) -> bool {
    |c: char| c == sep
}

/// The white-space-separated fields of `s` from position `i` on.
pub open spec fn fields_from(s: Seq<char>, i: int) -> Seq<Seq<char>>
    decreases s.len() - i,
{
    if i < 0 || i >= s.len() {
        Seq::empty()
    } else if is_whitespace(s[i]) {
        fields_from(s, i + 1)
    } else {
        let end = first_from(s, white(), i);
        proof {
            lemma_first_from(s, white(), i + 1);
        }
        seq![s.subrange(i, end)] + fields_from(s, end)
    }
}

/// The fields of `s`: its maximal runs of characters that are not white
/// space, in order. Text that is empty or all white space has none.
pub open spec fn fields(s: Seq<char>) -> Seq<Seq<char>> {
    fields_from(s, 0)
}

/// Every field is a run of characters that are not white space, and none
/// is empty.
pub proof fn lemma_fields_are_words(s: Seq<char>, i: int, k: int)
    requires
        0 <= i <= s.len(),
        0 <= k < fields_from(s, i).len(),
    ensures
        fields_from(s, i)[k].len() > 0,
        forall|j: int|
            0 <= j < fields_from(s, i)[k].len() ==> !is_whitespace(#[trigger] fields_from(s, i)[k][j]),
    decreases s.len() - i,
{
    if i < s.len() {
        if is_whitespace(s[i]) {
            lemma_fields_are_words(s, i + 1, k);
        } else {
            let end = first_from(s, white(), i);
            lemma_first_from(s, white(), i);
            lemma_first_from(s, white(), i + 1);
            if k == 0 {
                let word = s.subrange(i, end);
                assert(fields_from(s, i)[0] == word);
                assert forall|j: int| 0 <= j < word.len() implies !is_whitespace(
                    #[trigger] word[j],
                ) by {
                    assert(word[j] == s[i + j]);
                    assert(!white()(s[i + j]));
                }
            } else {
                assert(fields_from(s, i)[k] == fields_from(s, end)[k - 1]);
                lemma_fields_are_words(s, end, k - 1);
            }
        }
    }
}

/// The pieces of `s` from position `i` on, cut at every `sep`.
pub open spec fn pieces_from(s: Seq<char>, sep: char, i: int) -> Seq<Seq<char>>
    decreases s.len() - i,
{
    if i < 0 || i > s.len() {
        Seq::empty()
    } else {
        let end = first_from(s, is_char(sep), i);
        proof {
            lemma_first_from(s, is_char(sep), i);
        }
        if end >= s.len() {
            seq![s.subrange(i, s.len() as int)]
        } else {
            seq![s.subrange(i, end)] + pieces_from(s, sep, end + 1)
        }
    }
}

/// The pieces into which the occurrences of `sep` cut `s`. There is one
/// piece more than there are occurrences; a piece may be empty.
pub open spec fn pieces(s: Seq<char>, sep: char) -> Seq<Seq<char>> {
    pieces_from(s, sep, 0)
}

/// No piece holds the separator.
pub proof fn lemma_pieces_hold_no_separator(s: Seq<char>, sep: char, i: int, k: int)
    requires
        0 <= i <= s.len(),
        0 <= k < pieces_from(s, sep, i).len(),
    ensures
        forall|j: int|
            0 <= j < pieces_from(s, sep, i)[k].len() ==> #[trigger] pieces_from(s, sep, i)[k][j] != sep,
    decreases s.len() - i,
{
    let end = first_from(s, is_char(sep), i);
    lemma_first_from(s, is_char(sep), i);
    if k == 0 {
        let piece = s.subrange(i, end);
        assert(pieces_from(s, sep, i)[0] == piece);
        assert forall|j: int| 0 <= j < piece.len() implies #[trigger] piece[j] != sep by {
            assert(piece[j] == s[i + j]);
            assert(!is_char(sep)(s[i + j]));
        }
    } else {
        assert(pieces_from(s, sep, i)[k] == pieces_from(s, sep, end + 1)[k - 1]);
        lemma_pieces_hold_no_separator(s, sep, end + 1, k - 1);
    }
}

/// The texts that a vector of character vectors holds.
pub open spec fn texts(v: Seq<Vec<char>>) -> Seq<Seq<char>> {
    v.map_values(|w: Vec<char>| w@)
}

/// Cuts `s` into its fields.
pub fn split_fields(s: &Vec<char>) -> (out: Vec<Vec<char>>)
    ensures
        texts(out@) == fields(s@),
{
    let n = s.len();
    let ghost stop = white();
    let mut out: Vec<Vec<char>> = Vec::new();
    let mut i: usize = 0;
    assert(texts(out@) + fields_from(s@, 0) =~= fields(s@));
    while i < n
        invariant
            n == s.len(),
            i <= n,
            stop == white(),
            texts(out@) + fields_from(s@, i as int) == fields(s@),
        decreases n - i,
    {
        if char_is_whitespace(s[i]) {
            i = i + 1;
        } else {
            let start = i;
            let mut word: Vec<char> = Vec::new();
            assert(word@ =~= s@.subrange(start as int, i as int));
            while i < n && !char_is_whitespace(s[i])
                invariant
                    n == s.len(),
                    start <= i <= n,
                    stop == white(),
                    word@ == s@.subrange(start as int, i as int),
                    first_from(s@, stop, start as int) == first_from(s@, stop, i as int),
                decreases n - i,
            {
                word.push(s[i]);
                i = i + 1;
                assert(word@ =~= s@.subrange(start as int, i as int));
            }
            assert(first_from(s@, stop, i as int) == i);
            let ghost before = out@;
            out.push(word);
            assert(texts(out@) =~= texts(before).push(word@));
            assert(texts(out@) + fields_from(s@, i as int) =~= texts(before) + (seq![word@]
                + fields_from(s@, i as int)));
        }
    }
    assert(texts(out@) + fields_from(s@, n as int) =~= texts(out@));
    out
}

/// Cuts `s` at every `sep`.
pub fn split_pieces(s: &Vec<char>, sep: char) -> (out: Vec<Vec<char>>)
    ensures
        texts(out@) == pieces(s@, sep),
{
    let n = s.len();
    let ghost stop = is_char(sep);
    let mut out: Vec<Vec<char>> = Vec::new();
    let mut word: Vec<char> = Vec::new();
    let mut start: usize = 0;
    let mut i: usize = 0;
    assert(texts(out@) + pieces_from(s@, sep, 0) =~= pieces(s@, sep));
    assert(word@ =~= s@.subrange(0, 0));
    while i < n
        invariant
            n == s.len(),
            start <= i <= n,
            stop == is_char(sep),
            word@ == s@.subrange(start as int, i as int),
            first_from(s@, stop, start as int) == first_from(s@, stop, i as int),
            texts(out@) + pieces_from(s@, sep, start as int) == pieces(s@, sep),
        decreases n - i,
    {
        if s[i] == sep {
            assert(first_from(s@, stop, i as int) == i);
            let ghost before = out@;
            out.push(word);
            assert(texts(out@) =~= texts(before).push(word@));
            assert(texts(out@) + pieces_from(s@, sep, i + 1) =~= texts(before) + (seq![word@]
                + pieces_from(s@, sep, i + 1)));
            word = Vec::new();
            i = i + 1;
            start = i;
            assert(word@ =~= s@.subrange(start as int, i as int));
        } else {
            word.push(s[i]);
            i = i + 1;
            assert(word@ =~= s@.subrange(start as int, i as int));
        }
    }
    assert(first_from(s@, stop, n as int) == n);
    let ghost before = out@;
    out.push(word);
    assert(texts(out@) =~= texts(before).push(word@));
    assert(texts(out@) =~= texts(before) + seq![word@]);
    out
}

/// Whether `c` is one of the ten decimal digits.
pub open spec fn is_digit(c: char) -> bool {
    0x30 <= c as u32 <= 0x39
}

/// The number that the digit `c` stands for.
pub open spec fn digit_value(c: char) -> int {
    c as u32 - 0x30
}

/// Whether `s` holds decimal digits and nothing else.
pub open spec fn all_digits(s: Seq<char>) -> bool {
    forall|i: int| 0 <= i < s.len() ==> is_digit(#[trigger] s[i])
}

/// The number that the digits `s` write in base ten; 0 for no digits.
pub open spec fn decimal_value(s: Seq<char>) -> int
    decreases s.len(),
{
    if s.len() == 0 {
        0
    } else {
        10 * decimal_value(s.drop_last()) + digit_value(s.last())
    }
}

/// The number from 0 to 255 that `s` writes: an optional `+`, then one or
/// more decimal digits and nothing else. Leading zeros count for nothing.
pub open spec fn parsed_u8(s: Seq<char>) -> Option<u8> {
    let digits = if s.len() > 0 && s[0] == '+' {
        s.skip(1)
    } else {
        s
    };
    if digits.len() > 0 && all_digits(digits) && decimal_value(digits) <= 255 {
        Some(decimal_value(digits) as u8)
    } else {
        None
    }
}

/// Digits written in front of a number never make it smaller.
pub proof fn lemma_decimal_value_grows(s: Seq<char>, k: int)
    requires
        all_digits(s),
        0 <= k <= s.len(),
    ensures
        0 <= decimal_value(s.take(k)) <= decimal_value(s),
    decreases s.len() - k,
{
    if k == s.len() {
        assert(s.take(k) =~= s);
        lemma_decimal_value_nonnegative(s);
    } else {
        lemma_decimal_value_grows(s, k + 1);
        assert(s.take(k + 1).drop_last() =~= s.take(k));
        assert(is_digit(s[k]));
        lemma_decimal_value_nonnegative(s.take(k));
    }
}

proof fn lemma_decimal_value_nonnegative(s: Seq<char>)
    requires
        all_digits(s),
    ensures
        0 <= decimal_value(s),
    decreases s.len(),
{
    if s.len() > 0 {
        assert(is_digit(s[s.len() - 1]));
        lemma_decimal_value_nonnegative(s.drop_last());
    }
}

/// Reads a number from 0 to 255.
pub fn parse_u8(s: &Vec<char>) -> (n: Option<u8>)
    ensures
        n == parsed_u8(s@),
{
    let len = s.len();
    let start: usize = if len > 0 && s[0] == '+' {
        1
    } else {
        0
    };
    let ghost digits = s@.skip(start as int);
    assert(s@.skip(0) =~= s@);
    if start == len {
        return None;
    }
    let mut value: u32 = 0;
    let mut i: usize = start;
    assert(digits.take(0) =~= Seq::<char>::empty());
    while i < len
        invariant
            len == s.len(),
            start <= i <= len,
            digits == s@.skip(start as int),
            digits == if s@.len() > 0 && s@[0] == '+' {
                s@.skip(1)
            } else {
                s@
            },
            all_digits(digits.take(i - start)),
            value == decimal_value(digits.take(i - start)),
            value <= 255,
        decreases len - i,
    {
        let c = s[i];
        let u: u32 = c as u32;
        if u < 0x30 || u > 0x39 {
            assert(digits[i - start] == c && !is_digit(c));
            return None;
        }
        let ghost shorter = digits.take(i - start);
        let ghost longer = digits.take(i - start + 1);
        assert(longer.drop_last() =~= shorter);
        assert(longer.last() == c);
        assert forall|k: int| 0 <= k < longer.len() implies is_digit(#[trigger] longer[k]) by {
            if k < shorter.len() {
                assert(longer[k] == shorter[k]);
            }
        }
        value = 10 * value + (u - 0x30);
        i = i + 1;
        if value > 255 {
            proof {
                if all_digits(digits) {
                    lemma_decimal_value_grows(digits, i - start);
                }
            }
            return None;
        }
    }
    assert(digits.take(len - start) =~= digits);
    Some(value as u8)
}

/// The character that writes the digit `d`.
pub open spec fn digit_char(d: int) -> char {
    if d == 0 {
        '0'
    } else if d == 1 {
        '1'
    } else if d == 2 {
        '2'
    } else if d == 3 {
        '3'
    } else if d == 4 {
        '4'
    } else if d == 5 {
        '5'
    } else if d == 6 {
        '6'
    } else if d == 7 {
        '7'
    } else if d == 8 {
        '8'
    } else {
        '9'
    }
}

/// The digits that write `n` in base ten, without leading zeros.
pub open spec fn decimal_text(n: nat) -> Seq<char>
    decreases n,
{
    if n < 10 {
        seq![digit_char(n as int)]
    } else {
        decimal_text(n / 10).push(digit_char((n % 10) as int))
    }
}

/// What is written in base ten is read back as the same number.
pub proof fn lemma_decimal_text_reads_back(n: u8)
    ensures
        parsed_u8(decimal_text(n as nat)) == Some(n),
{
    let text = decimal_text(n as nat);
    reveal_with_fuel(decimal_text, 3);
    reveal_with_fuel(decimal_value, 4);
    let ones = digit_char((n % 10) as int);
    let tens = digit_char((n / 10 % 10) as int);
    let hundreds = digit_char((n / 100) as int);
    assert(is_digit(ones) && digit_value(ones) == n % 10);
    assert(is_digit(tens) && digit_value(tens) == n / 10 % 10);
    assert(is_digit(hundreds) && digit_value(hundreds) == n / 100);
    if n < 10 {
        assert(text =~= seq![ones]);
        assert(text.drop_last() =~= Seq::<char>::empty());
    } else if n < 100 {
        assert(text =~= seq![tens, ones]);
        assert(text.drop_last() =~= seq![tens]);
        assert(seq![tens].drop_last() =~= Seq::<char>::empty());
    } else {
        assert(text =~= seq![hundreds, tens, ones]);
        assert(text.drop_last() =~= seq![hundreds, tens]);
        assert(seq![hundreds, tens].drop_last() =~= seq![hundreds]);
        assert(seq![hundreds].drop_last() =~= Seq::<char>::empty());
    }
    assert(text[0] != '+');
    assert(decimal_value(text) == n);
}

fn digit_text(d: u8) -> (text: &'static str)
    requires
        d < 10,
    ensures
        text@ == seq![digit_char(d as int)],
{
    proof {
        reveal_strlit("0");
        reveal_strlit("1");
        reveal_strlit("2");
        reveal_strlit("3");
        reveal_strlit("4");
        reveal_strlit("5");
        reveal_strlit("6");
        reveal_strlit("7");
        reveal_strlit("8");
        reveal_strlit("9");
    }
    let text = if d == 0 {
        "0"
    } else if d == 1 {
        "1"
    } else if d == 2 {
        "2"
    } else if d == 3 {
        "3"
    } else if d == 4 {
        "4"
    } else if d == 5 {
        "5"
    } else if d == 6 {
        "6"
    } else if d == 7 {
        "7"
    } else if d == 8 {
        "8"
    } else {
        "9"
    };
    assert(text@ =~= seq![digit_char(d as int)]);
    text
}

/// Writes `n` in base ten.
pub fn u8_to_string(n: u8) -> (text: String)
    ensures
        text@ == decimal_text(n as nat),
{
    let mut text = String::new();
    if n >= 100 {
        text.append(digit_text(n / 100));
    }
    if n >= 10 {
        text.append(digit_text((n / 10) % 10));
    }
    text.append(digit_text(n % 10));
    proof {
        reveal_with_fuel(decimal_text, 3);
        assert(text@ =~= decimal_text(n as nat));
    }
    text
}

} // verus!

use vstd::prelude::*;
use vstd::string::*;

verus! {

/// The character of hexadecimal digit `d` (0-15), in upper or lower case.
pub open spec fn hex_digit_char(d: int, upper: bool) -> char {
    if d < 10 {
        ('0' as int + d) as char
    } else if upper {
        ('A' as int + (d - 10)) as char
    } else {
        ('a' as int + (d - 10)) as char
    }
}

/// The two hexadecimal digits of a byte, most significant first (`{:02X}` or `{:02x}`).
pub open spec fn hex_byte_chars(b: u8, upper: bool) -> Seq<char> {
    seq![hex_digit_char(b as int / 16, upper), hex_digit_char(b as int % 16, upper)]
}

/// The bytes in two-digit hexadecimal, separated by single spaces.
pub open spec fn hex_join(bytes: Seq<u8>, upper: bool) -> Seq<char>
    decreases bytes.len(),
{
    if bytes.len() == 0 {
        Seq::empty()
    } else if bytes.len() == 1 {
        hex_byte_chars(bytes[0], upper)
    } else {
        hex_join(bytes.drop_last(), upper) + seq![' '] + hex_byte_chars(bytes.last(), upper)
    }
}

/// The decimal digits of `n`, without leading zeros.
pub open spec fn decimal_chars(n: nat) -> Seq<char>
    decreases n,
{
    if n < 10 {
        seq![('0' as int + n) as char]
    } else {
        decimal_chars(n / 10).push(('0' as int + n % 10) as char)
    }
}

fn digit_str(d: u8, upper: bool) -> (s: &'static str)
    requires
        d < 16,
    ensures
        s@ == seq![hex_digit_char(d as int, upper)],
{
    proof {
        reveal_strlit("0");
        reveal_strlit("1");
        reveal_strlit("2");
        reveal_strlit("3");
        reveal_strlit("4");
        reveal_strlit("5");
        reveal_strlit("6");
        reveal_strlit("7");
        reveal_strlit("8");
        reveal_strlit("9");
        reveal_strlit("A");
        reveal_strlit("B");
        reveal_strlit("C");
        reveal_strlit("D");
        reveal_strlit("E");
        reveal_strlit("F");
        reveal_strlit("a");
        reveal_strlit("b");
        reveal_strlit("c");
        reveal_strlit("d");
        reveal_strlit("e");
        reveal_strlit("f");
    }
    if d == 0 {
        "0"
    } else if d == 1 {
        "1"
    } else if d == 2 {
        "2"
    } else if d == 3 {
        "3"
    } else if d == 4 {
        "4"
    } else if d == 5 {
        "5"
    } else if d == 6 {
        "6"
    } else if d == 7 {
        "7"
    } else if d == 8 {
        "8"
    } else if d == 9 {
        "9"
    } else if upper {
        if d == 10 {
            "A"
        } else if d == 11 {
            "B"
        } else if d == 12 {
            "C"
        } else if d == 13 {
            "D"
        } else if d == 14 {
            "E"
        } else {
            "F"
        }
    } else {
        if d == 10 {
            "a"
        } else if d == 11 {
            "b"
        } else if d == 12 {
            "c"
        } else if d == 13 {
            "d"
        } else if d == 14 {
            "e"
        } else {
            "f"
        }
    }
}

/// Appends the two hexadecimal digits of `b`.
pub fn push_hex_byte(out: &mut String, b: u8, upper: bool)
    ensures
        final(out)@ == old(out)@ + hex_byte_chars(b, upper),
{
    out.append(digit_str(b / 16, upper));
    out.append(digit_str(b % 16, upper));
}

/// Appends the decimal digits of `n`.
pub fn push_decimal(out: &mut String, n: u128)
    ensures
        final(out)@ == old(out)@ + decimal_chars(n as nat),
    decreases n,
{
    if n >= 10 {
        push_decimal(out, n / 10);
    }
    out.append(digit_str((n % 10) as u8, true));
}

/// The lowest `digits` hexadecimal digits of `n`, most significant first,
/// zero-padded (`{:0digits$x}` for a value that fits).
pub open spec fn hex_fixed(n: nat, digits: nat, upper: bool) -> Seq<char>
    decreases digits,
{
    if digits == 0 {
        Seq::empty()
    } else {
        hex_fixed(n / 16, (digits - 1) as nat, upper).push(hex_digit_char((n % 16) as int, upper))
    }
}

/// Appends the lowest `digits` hexadecimal digits of `n`, zero-padded.
pub fn push_hex_fixed(out: &mut String, n: u64, digits: u8, upper: bool)
    ensures
        final(out)@ == old(out)@ + hex_fixed(n as nat, digits as nat, upper),
    decreases digits,
{
    if digits > 0 {
        push_hex_fixed(out, n / 16, digits - 1, upper);
        out.append(digit_str((n % 16) as u8, upper));
    }
}

/// Appends the bytes as two-digit hexadecimal separated by spaces.
pub fn push_hex_join(out: &mut String, bytes: &[u8], upper: bool)
    ensures
        final(out)@ == old(out)@ + hex_join(bytes@, upper),
{
    let ghost start = out@;
    proof { reveal_strlit(" "); }
    let mut i: usize = 0;
    while i < bytes.len()
        invariant
            i <= bytes.len(),
            out@ == start + hex_join(bytes@.take(i as int), upper),
        decreases bytes.len() - i,
    {
        let ghost before = out@;
        proof { reveal_strlit(" "); }
        if i > 0 {
            out.append(" ");
        }
        push_hex_byte(out, bytes[i], upper);
        proof {
            let t = bytes@.take(i + 1);
            assert(t.drop_last() =~= bytes@.take(i as int));
            assert(t.last() == bytes@[i as int]);
            if i == 0 {
                assert(hex_join(t, upper) == hex_byte_chars(t[0], upper));
                assert(out@ =~= start + hex_join(t, upper));
            } else {
                assert(hex_join(t, upper) == hex_join(t.drop_last(), upper) + seq![' ']
                    + hex_byte_chars(t.last(), upper));
                assert(out@ =~= start + hex_join(t, upper));
            }
        }
        i += 1;
    }
    assert(bytes@.take(bytes.len() as int) =~= bytes@);
}

/// ASCII whitespace as `str::split_ascii_whitespace` knows it.
pub open spec fn is_ascii_ws(c: char) -> bool {
    c == ' ' || c == '\t' || c == '\n' || c == '\x0C' || c == '\r'
}

/// The non-empty runs of characters between ASCII whitespace, in order
/// (what `str::split_ascii_whitespace` yields).
pub open spec fn ascii_words(s: Seq<char>) -> Seq<Seq<char>>
    decreases s.len(),
{
    if s.len() == 0 {
        Seq::empty()
    } else {
        let words = ascii_words(s.drop_last());
        let c = s.last();
        if is_ascii_ws(c) {
            words
        } else if s.len() >= 2 && !is_ascii_ws(s[s.len() - 2]) {
            words.update(words.len() - 1, words.last().push(c))
        } else {
            words.push(seq![c])
        }
    }
}

/// A text that ends in a word has at least one word, and the last one ends
/// with that character.
pub proof fn lemma_ascii_words_nonempty(s: Seq<char>)
    requires
        s.len() > 0,
        !is_ascii_ws(s.last()),
    ensures
        ascii_words(s).len() > 0,
    decreases s.len(),
{
    if s.len() >= 2 && !is_ascii_ws(s[s.len() - 2]) {
        assert(s.drop_last().last() == s[s.len() - 2]);
        lemma_ascii_words_nonempty(s.drop_last());
    }
}

/// Splitting a text just after whitespace (or at its start) splits its words.
pub proof fn lemma_ascii_words_split(s: Seq<char>, i: int, j: int)
    requires
        0 <= i <= j <= s.len(),
        i == 0 || is_ascii_ws(s[i - 1]),
    ensures
        ascii_words(s.take(j)) == ascii_words(s.take(i)) + ascii_words(s.subrange(i, j)),
    decreases j - i,
{
    if j == i {
        assert(s.subrange(i, j) =~= Seq::<char>::empty());
        assert(ascii_words(s.take(i)) + Seq::<Seq<char>>::empty() =~= ascii_words(s.take(i)));
    } else {
        lemma_ascii_words_split(s, i, j - 1);
        let a = s.take(j);
        let b = s.subrange(i, j);
        assert(a.drop_last() =~= s.take(j - 1));
        assert(b.drop_last() =~= s.subrange(i, j - 1));
        assert(a.last() == b.last());
        let head = ascii_words(s.take(i));
        let tail = ascii_words(b.drop_last());
        let c = b.last();
        if is_ascii_ws(c) {
        } else if b.len() >= 2 && !is_ascii_ws(b[b.len() - 2]) {
            assert(a[a.len() - 2] == b[b.len() - 2]);
            assert(b.drop_last().last() == b[b.len() - 2]);
            lemma_ascii_words_nonempty(b.drop_last());
            assert((head + tail).update((head + tail).len() - 1, (head + tail).last().push(c))
                =~= head + tail.update(tail.len() - 1, tail.last().push(c)));
        } else {
            if b.len() >= 2 {
                assert(a[a.len() - 2] == b[b.len() - 2]);
            } else if a.len() >= 2 {
                assert(a[a.len() - 2] == s[i - 1]);
            }
            assert((head + tail).push(seq![c]) =~= head + tail.push(seq![c]));
        }
    }
}

/// Value of hexadecimal digit `c`, if it is one.
pub open spec fn hex_digit_value(c: char) -> Option<int> {
    if '0' <= c <= '9' {
        Some(c as int - '0' as int)
    } else if 'a' <= c <= 'f' {
        Some(c as int - 'a' as int + 10)
    } else if 'A' <= c <= 'F' {
        Some(c as int - 'A' as int + 10)
    } else {
        None
    }
}

pub open spec fn all_hex_digits(d: Seq<char>) -> bool {
    forall|k: int| 0 <= k < d.len() ==> (#[trigger] hex_digit_value(d[k])) is Some
}

/// The number that the hexadecimal digits `d` spell.
pub open spec fn hex_value(d: Seq<char>) -> int
    decreases d.len(),
{
    if d.len() == 0 {
        0
    } else {
        hex_value(d.drop_last()) * 16 + hex_digit_value(d.last())->0
    }
}

/// What `u8::from_str_radix(t, 16)` accepts: an optional `+` before at least
/// one digit, and a value that fits in a byte.
pub open spec fn hex_byte(t: Seq<char>) -> Option<u8> {
    let d = if t.len() > 1 && t[0] == '+' { t.drop_first() } else { t };
    if d.len() > 0 && all_hex_digits(d) && hex_value(d) <= 255 {
        Some(hex_value(d) as u8)
    } else {
        None
    }
}

proof fn lemma_hex_digit_round_trip(d: int, upper: bool)
    requires
        0 <= d < 16,
    ensures
        hex_digit_value(hex_digit_char(d, upper)) == Some(d),
        !is_ascii_ws(hex_digit_char(d, upper)),
{
}

proof fn lemma_hex_value_one(c: char)
    requires
        hex_digit_value(c) is Some,
    ensures
        hex_value(seq![c]) == hex_digit_value(c)->0,
{
    let d = seq![c];
    assert(d.drop_last() =~= Seq::<char>::empty());
    assert(hex_value(Seq::<char>::empty()) == 0);
    assert(d.last() == c);
}

proof fn lemma_hex_byte_round_trip(b: u8, upper: bool)
    ensures
        hex_byte(hex_byte_chars(b, upper)) == Some(b),
        !is_ascii_ws(hex_byte_chars(b, upper)[0]),
        !is_ascii_ws(hex_byte_chars(b, upper)[1]),
{
    let t = hex_byte_chars(b, upper);
    lemma_hex_digit_round_trip(b as int / 16, upper);
    lemma_hex_digit_round_trip(b as int % 16, upper);
    assert(all_hex_digits(t));
    assert(t.drop_last() =~= seq![t[0]]);
    lemma_hex_value_one(t[0]);
    assert(hex_value(t.drop_last()) == b as int / 16);
    assert(t.last() == t[1]);
    assert(hex_value(t) == (b as int / 16) * 16 + b as int % 16);
    assert(hex_value(t) == b as int);
}

proof fn lemma_ascii_words_one(c: char)
    requires
        !is_ascii_ws(c),
    ensures
        ascii_words(seq![c]) == seq![seq![c]],
{
    let s = seq![c];
    assert(s.drop_last() =~= Seq::<char>::empty());
    assert(ascii_words(Seq::<char>::empty()) == Seq::<Seq<char>>::empty());
    assert(s.last() == c);
    assert(Seq::<Seq<char>>::empty().push(seq![c]) =~= seq![seq![c]]);
}

proof fn lemma_ascii_words_two(c0: char, c1: char)
    requires
        !is_ascii_ws(c0),
        !is_ascii_ws(c1),
    ensures
        ascii_words(seq![c0, c1]) == seq![seq![c0, c1]],
{
    let s = seq![c0, c1];
    assert(s.drop_last() =~= seq![c0]);
    lemma_ascii_words_one(c0);
    assert(s.last() == c1);
    assert(s[s.len() - 2] == c0);
    assert(seq![c0].push(c1) =~= seq![c0, c1]);
    assert(seq![seq![c0]].update(0, seq![c0, c1]) =~= seq![seq![c0, c1]]);
}

proof fn lemma_hex_join_words(bytes: Seq<u8>, upper: bool)
    ensures
        ascii_words(hex_join(bytes, upper)) == Seq::new(bytes.len(), |k: int| hex_byte_chars(bytes[k], upper)),
        bytes.len() > 0 ==> hex_join(bytes, upper).len() > 0 && !is_ascii_ws(hex_join(bytes, upper).last()),
    decreases bytes.len(),
{
    if bytes.len() == 0 {
        assert(ascii_words(hex_join(bytes, upper)) =~= Seq::new(0, |k: int| hex_byte_chars(bytes[k], upper)));
    } else if bytes.len() == 1 {
        let t = hex_byte_chars(bytes[0], upper);
        lemma_hex_byte_round_trip(bytes[0], upper);
        assert(t =~= seq![t[0], t[1]]);
        lemma_ascii_words_two(t[0], t[1]);
        assert(ascii_words(hex_join(bytes, upper)) =~= Seq::new(1, |k: int| hex_byte_chars(bytes[k], upper)));
    } else {
        lemma_hex_join_words(bytes.drop_last(), upper);
        lemma_hex_join_step(bytes, upper);
    }
}

proof fn lemma_hex_join_step(bytes: Seq<u8>, upper: bool)
    requires
        bytes.len() >= 2,
        ascii_words(hex_join(bytes.drop_last(), upper)) == Seq::new(
            (bytes.len() - 1) as nat,
            |k: int| hex_byte_chars(bytes.drop_last()[k], upper),
        ),
    ensures
        ascii_words(hex_join(bytes, upper)) == Seq::new(bytes.len(), |k: int| hex_byte_chars(bytes[k], upper)),
        hex_join(bytes, upper).len() > 0 && !is_ascii_ws(hex_join(bytes, upper).last()),
{
    let head = hex_join(bytes.drop_last(), upper);
    let tail = hex_byte_chars(bytes.last(), upper);
    let s = hex_join(bytes, upper);
    lemma_hex_byte_round_trip(bytes.last(), upper);
    let i: int = head.len() as int + 1;
    assert(s == head + seq![' '] + tail);
    assert(is_ascii_ws(s[i - 1]));
    lemma_ascii_words_split(s, i, s.len() as int);
    assert(s.take(s.len() as int) =~= s);
    assert(s.take(i).drop_last() =~= head);
    assert(s.take(i).last() == ' ');
    assert(ascii_words(s.take(i)) == ascii_words(head));
    assert(s.subrange(i, s.len() as int) =~= seq![tail[0], tail[1]]);
    lemma_ascii_words_two(tail[0], tail[1]);
    assert(seq![tail[0], tail[1]] =~= tail);
    assert(ascii_words(s) =~= Seq::new(bytes.len(), |k: int| hex_byte_chars(bytes[k], upper)));
    assert(s.last() == tail[1]);
}

/// The hexadecimal digits are 0-9 then A-F (or a-f): digit `d` is the
/// `d`-th character of "0123456789ABCDEF", or of "0123456789abcdef".
pub proof fn law_hex_digits(d: int)
    requires
        0 <= d < 16,
    ensures
        hex_digit_char(d, true) == "0123456789ABCDEF"@[d],
        hex_digit_char(d, false) == "0123456789abcdef"@[d],
{
    reveal_strlit("0123456789ABCDEF");
    reveal_strlit("0123456789abcdef");
}

/// Hexadecimal text reads back as the bytes it was written from: its
/// ASCII words are exactly the bytes' two-digit forms, each of which reads
/// as that byte.
pub proof fn law_hex_text_reads_back(bytes: Seq<u8>, upper: bool)
    ensures
        ascii_words(hex_join(bytes, upper)).len() == bytes.len(),
        forall|k: int| 0 <= k < bytes.len() ==> hex_byte(#[trigger] ascii_words(hex_join(bytes, upper))[k]) == Some(bytes[k]),
{
    lemma_hex_join_words(bytes, upper);
    assert forall|k: int| 0 <= k < bytes.len() implies hex_byte(#[trigger] ascii_words(hex_join(bytes, upper))[k]) == Some(bytes[k]) by {
        lemma_hex_byte_round_trip(bytes[k], upper);
    }
}

proof fn lemma_hex_value_grows(d: Seq<char>, j: int)
    requires
        0 <= j <= d.len(),
        all_hex_digits(d),
    ensures
        hex_value(d) >= hex_value(d.take(j)) >= 0,
    decreases d.len(),
{
    if j == d.len() {
        assert(d.take(j) =~= d);
        lemma_hex_value_nonneg(d);
    } else {
        assert(all_hex_digits(d.drop_last())) by {
            assert forall|k: int| 0 <= k < d.drop_last().len() implies
                (#[trigger] hex_digit_value(d.drop_last()[k])) is Some by {
                assert(d.drop_last()[k] == d[k]);
            }
        }
        assert(d.drop_last().take(j) =~= d.take(j));
        lemma_hex_value_grows(d.drop_last(), j);
        assert(hex_digit_value(d[d.len() - 1]) is Some);
    }
}

proof fn lemma_hex_value_nonneg(d: Seq<char>)
    requires
        all_hex_digits(d),
    ensures
        hex_value(d) >= 0,
    decreases d.len(),
{
    if d.len() > 0 {
        assert(all_hex_digits(d.drop_last())) by {
            assert forall|k: int| 0 <= k < d.drop_last().len() implies
                (#[trigger] hex_digit_value(d.drop_last()[k])) is Some by {
                assert(d.drop_last()[k] == d[k]);
            }
        }
        lemma_hex_value_nonneg(d.drop_last());
        assert(hex_digit_value(d[d.len() - 1]) is Some);
    }
}

fn hex_digit(c: char) -> (value: Option<u8>)
    ensures
        match hex_digit_value(c) {
            Some(v) => value == Some(v as u8) && v < 16,
            None => value is None,
        },
{
    if '0' <= c && c <= '9' {
        Some((c as u32 - '0' as u32) as u8)
    } else if 'a' <= c && c <= 'f' {
        Some((c as u32 - 'a' as u32 + 10) as u8)
    } else if 'A' <= c && c <= 'F' {
        Some((c as u32 - 'A' as u32 + 10) as u8)
    } else {
        None
    }
}

/// Parses the characters `text[start..end]` as `u8::from_str_radix(_, 16)` does.
pub fn parse_hex_byte(text: &str, start: usize, end: usize) -> (value: Option<u8>)
    requires
        start <= end <= text@.len(),
    ensures
        value == hex_byte(text@.subrange(start as int, end as int)),
{
    let ghost t = text@.subrange(start as int, end as int);
    let mut i = start;
    if end - start > 1 && text.get_char(start) == '+' {
        i = start + 1;
    }
    let ghost first = i;
    let ghost d = if t.len() > 1 && t[0] == '+' { t.drop_first() } else { t };
    assert(d =~= text@.subrange(first as int, end as int));
    if i == end {
        return None;
    }
    let mut v: u16 = 0;
    while i < end
        invariant
            start <= first <= i <= end <= text@.len(),
            d == text@.subrange(first as int, end as int),
            t == text@.subrange(start as int, end as int),
            d == (if t.len() > 1 && t[0] == '+' { t.drop_first() } else { t }),
            all_hex_digits(d.take(i - first)),
            v as int == hex_value(d.take(i - first)),
            v <= 255,
            first < end,
        decreases end - i,
    {
        let c = text.get_char(i);
        let ghost prefix = d.take(i - first);
        let ghost next = d.take(i + 1 - first);
        assert(next.drop_last() =~= prefix);
        assert(next.last() == c);
        match hex_digit(c) {
            None => {
                assert(!all_hex_digits(d)) by {
                    assert(d[i - first] == c);
                    assert(hex_digit_value(d[i - first]) is None);
                }
                return None;
            },
            Some(digit) => {
                assert(all_hex_digits(next)) by {
                    assert forall|k: int| 0 <= k < next.len() implies
                        (#[trigger] hex_digit_value(next[k])) is Some by {
                        if k < prefix.len() {
                            assert(next[k] == prefix[k]);
                        }
                    }
                }
                v = v * 16 + digit as u16;
                assert(v as int == hex_value(next));
                if v > 255 {
                    proof {
                        if all_hex_digits(d) {
                            lemma_hex_value_grows(d, i + 1 - first);
                        }
                    }
                    return None;
                }
            },
        }
        i += 1;
    }
    assert(d.take(end - first) =~= d);
    Some(v as u8)
}

/// Whether two texts hold the same characters.
pub fn str_equal(a: &str, b: &str) -> (equal: bool)
    ensures
        equal == (a@ == b@),
{
    let n = a.unicode_len();
    if n != b.unicode_len() {
        return false;
    }
    let mut i: usize = 0;
    while i < n
        invariant
            n == a@.len() == b@.len(),
            i <= n,
            forall|k: int| 0 <= k < i ==> a@[k] == b@[k],
        decreases n - i,
    {
        if a.get_char(i) != b.get_char(i) {
            return false;
        }
        i += 1;
    }
    assert(a@ =~= b@);
    true
}

/// ASCII upper-case letters to lower case; every other character unchanged.
pub open spec fn ascii_lower(c: char) -> char {
    if 'A' <= c <= 'Z' {
        ((c as int) + 32) as char
    } else {
        c
    }
}

pub open spec fn ascii_lower_seq(s: Seq<char>) -> Seq<char> {
    Seq::new(s.len(), |k: int| ascii_lower(s[k]))
}

/// Whether `needle` occurs in `hay` as a contiguous run.
pub open spec fn contains_run(hay: Seq<char>, needle: Seq<char>) -> bool {
    exists|i: int| 0 <= i && i + needle.len() <= hay.len() && #[trigger] hay.subrange(i, i + needle.len()) == needle
}

pub fn to_ascii_lower(c: char) -> (lower: char)
    ensures
        lower == ascii_lower(c),
{
    if 'A' <= c && c <= 'Z' {
        ((c as u8) + 32) as char
    } else {
        c
    }
}

/// Appends the characters of `text`, lowered, to `out`.
pub fn push_lowered(out: &mut Vec<char>, text: &str)
    ensures
        final(out)@ == old(out)@ + ascii_lower_seq(text@),
{
    let n = text.unicode_len();
    let mut i: usize = 0;
    while i < n
        invariant
            n == text@.len(),
            i <= n,
            out@ == old(out)@ + ascii_lower_seq(text@.take(i as int)),
        decreases n - i,
    {
        out.push(to_ascii_lower(text.get_char(i)));
        i += 1;
        assert(ascii_lower_seq(text@.take(i as int)) =~= ascii_lower_seq(text@.take(i - 1)).push(
            ascii_lower(text@[i - 1]),
        ));
    }
    assert(text@.take(n as int) =~= text@);
}

/// Whether the ASCII-lowered `a` equals the ASCII-lowered `b`.
pub fn eq_ignore_ascii_case(a: &str, b: &str) -> (equal: bool)
    ensures
        equal == (ascii_lower_seq(a@) == ascii_lower_seq(b@)),
{
    let n = a.unicode_len();
    if n != b.unicode_len() {
        proof {
            if ascii_lower_seq(a@) == ascii_lower_seq(b@) {
                assert(ascii_lower_seq(a@).len() == ascii_lower_seq(b@).len());
            }
        }
        return false;
    }
    let mut i: usize = 0;
    while i < n
        invariant
            n == a@.len() == b@.len(),
            i <= n,
            forall|k: int| 0 <= k < i ==> ascii_lower(a@[k]) == ascii_lower(b@[k]),
        decreases n - i,
    {
        if to_ascii_lower(a.get_char(i)) != to_ascii_lower(b.get_char(i)) {
            proof {
                assert(ascii_lower_seq(a@)[i as int] != ascii_lower_seq(b@)[i as int]);
            }
            return false;
        }
        i += 1;
    }
    assert(ascii_lower_seq(a@) =~= ascii_lower_seq(b@));
    true
}

/// Whether `needle` occurs in `hay`.
pub fn contains_chars(hay: &Vec<char>, needle: &str) -> (found: bool)
    ensures
        found == contains_run(hay@, needle@),
{
    let m = needle.unicode_len();
    if m > hay.len() {
        proof {
            if contains_run(hay@, needle@) {
                let i = choose|i: int| 0 <= i && i + needle@.len() <= hay@.len() && #[trigger] hay@.subrange(i, i + needle@.len()) == needle@;
            }
        }
        return false;
    }
    let mut start: usize = 0;
    while start <= hay.len() - m
        invariant
            m == needle@.len(),
            m <= hay@.len(),
            start <= hay@.len() - m + 1,
            forall|i: int| 0 <= i < start ==> #[trigger] hay@.subrange(i, i + m) != needle@,
        decreases hay.len() - start,
    {
        let mut k: usize = 0;
        let mut matched = true;
        while k < m
            invariant
                m == needle@.len(),
                start + m <= hay.len(),
                k <= m,
                matched == forall|j: int| 0 <= j < k ==> hay@[start + j] == needle@[j],
            decreases m - k,
        {
            if hay[start + k] != needle.get_char(k) {
                matched = false;
            }
            k += 1;
        }
        if matched {
            assert(hay@.subrange(start as int, start + m) =~= needle@);
            return true;
        }
        assert(hay@.subrange(start as int, start + m) != needle@) by {
            let j = choose|j: int| 0 <= j < m && hay@[start + j] != needle@[j];
            assert(hay@.subrange(start as int, start + m)[j] == hay@[start + j]);
        }
        start += 1;
    }
    proof {
        if contains_run(hay@, needle@) {
            let i = choose|i: int| 0 <= i && i + needle@.len() <= hay@.len() && #[trigger] hay@.subrange(i, i + needle@.len()) == needle@;
            assert(i < start);
        }
    }
    false
}

/// Unicode `White_Space`, as `str::trim` removes it.
pub open spec fn is_unicode_ws(c: char) -> bool {
    ||| '\t' <= c <= '\r'
    ||| c == ' '
    ||| c == '\u{85}'
    ||| c == '\u{A0}'
    ||| c == '\u{1680}'
    ||| '\u{2000}' <= c <= '\u{200A}'
    ||| c == '\u{2028}'
    ||| c == '\u{2029}'
    ||| c == '\u{202F}'
    ||| c == '\u{205F}'
    ||| c == '\u{3000}'
}

fn unicode_ws(c: char) -> (ws: bool)
    ensures
        ws == is_unicode_ws(c),
{
    ('\t' <= c && c <= '\r') || c == ' ' || c == '\u{85}' || c == '\u{A0}' || c == '\u{1680}' || ('\u{2000}' <= c
        && c <= '\u{200A}') || c == '\u{2028}' || c == '\u{2029}' || c == '\u{202F}' || c == '\u{205F}'
        || c == '\u{3000}'
}

pub open spec fn trim_front(s: Seq<char>) -> Seq<char>
    decreases s.len(),
{
    if s.len() > 0 && is_unicode_ws(s[0]) {
        trim_front(s.drop_first())
    } else {
        s
    }
}

pub open spec fn trim_back(s: Seq<char>) -> Seq<char>
    decreases s.len(),
{
    if s.len() > 0 && is_unicode_ws(s.last()) {
        trim_back(s.drop_last())
    } else {
        s
    }
}

/// The text without leading and trailing Unicode whitespace.
pub open spec fn trim_spec(s: Seq<char>) -> Seq<char> {
    trim_back(trim_front(s))
}

/// Where the trimmed part of `text` starts and ends.
pub fn trim_bounds(text: &str) -> (bounds: (usize, usize))
    ensures
        bounds.0 <= bounds.1 <= text@.len(),
        text@.subrange(bounds.0 as int, bounds.1 as int) == trim_spec(text@),
{
    let n = text.unicode_len();
    let mut start: usize = 0;
    assert(text@.subrange(0, n as int) =~= text@);
    while start < n && unicode_ws(text.get_char(start))
        invariant
            n == text@.len(),
            start <= n,
            trim_front(text@) == trim_front(text@.subrange(start as int, n as int)),
        decreases n - start,
    {
        assert(text@.subrange(start as int, n as int).drop_first() =~= text@.subrange(start + 1, n as int));
        start += 1;
    }
    let ghost front = text@.subrange(start as int, n as int);
    assert(trim_front(front) == front);
    let mut end: usize = n;
    while end > start && unicode_ws(text.get_char(end - 1))
        invariant
            n == text@.len(),
            start <= end <= n,
            front == text@.subrange(start as int, n as int),
            trim_back(front) == trim_back(text@.subrange(start as int, end as int)),
        decreases end,
    {
        assert(text@.subrange(start as int, end as int).drop_last() =~= text@.subrange(start as int, end - 1));
        end -= 1;
    }
    (start, end)
}

/// The number that the decimal digits `d` spell.
pub open spec fn decimal_value(d: Seq<char>) -> int
    decreases d.len(),
{
    if d.len() == 0 {
        0
    } else {
        decimal_value(d.drop_last()) * 10 + (d.last() as int - '0' as int)
    }
}

pub open spec fn all_decimal_digits(d: Seq<char>) -> bool {
    forall|k: int| 0 <= k < d.len() ==> '0' <= #[trigger] d[k] <= '9'
}

/// What `str::parse::<u16>` accepts: an optional `+` before at least one
/// decimal digit, and a value that fits in 16 bits.
pub open spec fn decimal_u16(t: Seq<char>) -> Option<u16> {
    let d = if t.len() > 1 && t[0] == '+' { t.drop_first() } else { t };
    if d.len() > 0 && all_decimal_digits(d) && decimal_value(d) <= 65535 {
        Some(decimal_value(d) as u16)
    } else {
        None
    }
}

proof fn lemma_decimal_value_grows(d: Seq<char>, j: int)
    requires
        0 <= j <= d.len(),
        all_decimal_digits(d),
    ensures
        decimal_value(d) >= decimal_value(d.take(j)) >= 0,
    decreases d.len(),
{
    if j == d.len() {
        assert(d.take(j) =~= d);
        lemma_decimal_value_nonneg(d);
    } else {
        assert(all_decimal_digits(d.drop_last())) by {
            assert forall|k: int| 0 <= k < d.drop_last().len() implies '0' <= #[trigger] d.drop_last()[k] <= '9' by {
                assert(d.drop_last()[k] == d[k]);
            }
        }
        assert(d.drop_last().take(j) =~= d.take(j));
        lemma_decimal_value_grows(d.drop_last(), j);
        assert('0' <= d[d.len() - 1] <= '9');
    }
}

proof fn lemma_decimal_value_nonneg(d: Seq<char>)
    requires
        all_decimal_digits(d),
    ensures
        decimal_value(d) >= 0,
    decreases d.len(),
{
    if d.len() > 0 {
        assert(all_decimal_digits(d.drop_last())) by {
            assert forall|k: int| 0 <= k < d.drop_last().len() implies '0' <= #[trigger] d.drop_last()[k] <= '9' by {
                assert(d.drop_last()[k] == d[k]);
            }
        }
        lemma_decimal_value_nonneg(d.drop_last());
        assert('0' <= d[d.len() - 1] <= '9');
    }
}

/// Parses the characters `text[start..end]` as `str::parse::<u16>` does.
pub fn parse_decimal_u16(text: &str, start: usize, end: usize) -> (value: Option<u16>)
    requires
        start <= end <= text@.len(),
    ensures
        value == decimal_u16(text@.subrange(start as int, end as int)),
{
    let ghost t = text@.subrange(start as int, end as int);
    let mut i = start;
    if end - start > 1 && text.get_char(start) == '+' {
        i = start + 1;
    }
    let ghost first = i;
    let ghost d = if t.len() > 1 && t[0] == '+' { t.drop_first() } else { t };
    assert(d =~= text@.subrange(first as int, end as int));
    if i == end {
        return None;
    }
    let mut v: u32 = 0;
    while i < end
        invariant
            start <= first <= i <= end <= text@.len(),
            d == text@.subrange(first as int, end as int),
            t == text@.subrange(start as int, end as int),
            d == (if t.len() > 1 && t[0] == '+' { t.drop_first() } else { t }),
            all_decimal_digits(d.take(i - first)),
            v as int == decimal_value(d.take(i - first)),
            v <= 65535,
            first < end,
        decreases end - i,
    {
        let c = text.get_char(i);
        let ghost prefix = d.take(i - first);
        let ghost next = d.take(i + 1 - first);
        assert(next.drop_last() =~= prefix);
        assert(next.last() == c);
        if !('0' <= c && c <= '9') {
            assert(!all_decimal_digits(d)) by {
                assert(d[i - first] == c);
            }
            return None;
        }
        assert(all_decimal_digits(next)) by {
            assert forall|k: int| 0 <= k < next.len() implies '0' <= #[trigger] next[k] <= '9' by {
                if k < prefix.len() {
                    assert(next[k] == prefix[k]);
                }
            }
        }
        v = v * 10 + (c as u32 - '0' as u32);
        assert(v as int == decimal_value(next));
        if v > 65535 {
            proof {
                if all_decimal_digits(d) {
                    lemma_decimal_value_grows(d, i + 1 - first);
                }
            }
            return None;
        }
        i += 1;
    }
    assert(d.take(end - first) =~= d);
    Some(v as u16)
}

} // verus!

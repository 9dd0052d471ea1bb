//! Text: number formatting and the small amount of parsing the library does.
//!
//! Text is modelled as a sequence of characters. Numbers are rendered the way
//! the usual formatting directives render them: `dec` is `{}`, `hex` is `{:x}`
//! or `{:X}`, and `hex_pad` adds leading zeros up to a width.

use vstd::prelude::*;

verus! {

/// `String::push` appends one character.
pub assume_specification[ String::push ](s: &mut String, c: char)
    ensures
        final(s)@ == old(s)@.push(c),
;

/// The text that `String::from_utf8_lossy` makes of some bytes.
pub uninterp spec fn utf8_lossy(b: Seq<u8>) -> Seq<char>;

/// `String::from_utf8_lossy`: valid UTF-8 is decoded as it is; of other bytes
/// only the name of the result is known.
#[verifier::external_body]
pub(crate) fn string_from_utf8_lossy(b: &[u8]) -> (r: String)
    ensures
        r@ == utf8_lossy(b@),
        vstd::utf8::valid_utf8(b@) ==> r@ == vstd::utf8::decode_utf8(b@),
{
    String::from_utf8_lossy(b).into_owned()
}

/// `std::str::from_utf8`: the text of some bytes, unless they are no UTF-8.
#[verifier::external_body]
pub(crate) fn string_from_utf8(b: &[u8]) -> (r: Option<String>)
    ensures
        match r {
            Some(s) => vstd::utf8::valid_utf8(b@) && s@ == vstd::utf8::decode_utf8(b@),
            None => !vstd::utf8::valid_utf8(b@),
        },
{
    match std::str::from_utf8(b) {
        Ok(s) => Some(s.to_owned()),
        Err(_) => None,
    }
}

/// The characters of an optional text.
pub open spec fn opt_text(o: Option<String>) -> Option<Seq<char>> {
    match o {
        Some(s) => Some(s@),
        None => None,
    }
}

/// The characters of each text of a list.
pub open spec fn strings(v: Seq<String>) -> Seq<Seq<char>> {
    v.map_values(|s: String| s@)
}

// ---------------------------------------------------------------- numbers

/// The digit for a value below 16.
pub open spec fn digit(v: nat, upper: bool) -> char {
    if v < 10 {
        (48 + v) as char
    } else if upper {
        (55 + v) as char
    } else {
        (87 + v) as char
    }
}

/// `n` in decimal.
pub open spec fn dec(n: nat) -> Seq<char>
    decreases n,
{
    if n < 10 {
        seq![digit(n, false)]
    } else {
        dec(n / 10).push(digit(n % 10, false))
    }
}

/// `n` in hexadecimal, without leading zeros.
pub open spec fn hex(n: nat, upper: bool) -> Seq<char>
    decreases n,
{
    if n < 16 {
        seq![digit(n, upper)]
    } else {
        hex(n / 16, upper).push(digit(n % 16, upper))
    }
}

/// `n` copies of `c`.
pub open spec fn repeat(c: char, n: nat) -> Seq<char> {
    Seq::new(n, |i: int| c)
}

/// `n` in hexadecimal with leading zeros up to `width` digits.
pub open spec fn hex_pad(n: nat, width: nat, upper: bool) -> Seq<char> {
    let h = hex(n, upper);
    if h.len() < width {
        repeat('0', (width - h.len()) as nat) + h
    } else {
        h
    }
}

fn digit_char(v: u64, upper: bool) -> (c: char)
    requires
        v < 16,
    ensures
        c == digit(v as nat, upper),
{
    let d: u8 = v as u8;
    if d < 10 {
        (48 + d) as char
    } else if upper {
        (55 + d) as char
    } else {
        (87 + d) as char
    }
}

/// Appends `n` in decimal.
pub fn push_dec(out: &mut String, n: u64)
    ensures
        final(out)@ == old(out)@ + dec(n as nat),
    decreases n,
{
    if n >= 10 {
        push_dec(out, n / 10);
    }
    out.push(digit_char(n % 10, false));
    assert(out@ =~= old(out)@ + dec(n as nat));
}

/// Appends `n` in hexadecimal.
pub fn push_hex(out: &mut String, n: u64, upper: bool)
    ensures
        final(out)@ == old(out)@ + hex(n as nat, upper),
    decreases n,
{
    if n >= 16 {
        push_hex(out, n / 16, upper);
    }
    out.push(digit_char(n % 16, upper));
    assert(out@ =~= old(out)@ + hex(n as nat, upper));
}

fn hex_len(n: u64, upper: bool) -> (r: usize)
    ensures
        r == hex(n as nat, upper).len(),
        1 <= r <= n + 1,
    decreases n,
{
    if n < 16 {
        1
    } else {
        let rest: usize = hex_len(n / 16, upper);
        proof {
            hex_at_most_16(n, upper);
        }
        rest + 1
    }
}

proof fn hex_at_most_16(n: u64, upper: bool)
    ensures
        hex(n as nat, upper).len() <= 16,
{
    reveal_with_fuel(hex, 17);
}

/// Appends `n` in hexadecimal with leading zeros up to `width` digits.
pub fn push_hex_pad(out: &mut String, n: u64, width: usize, upper: bool)
    ensures
        final(out)@ == old(out)@ + hex_pad(n as nat, width as nat, upper),
{
    let len: usize = hex_len(n, upper);
    let mut i: usize = len;
    while i < width
        invariant
            len == hex(n as nat, upper).len(),
            len <= i,
            i <= width || i == len,
            out@ == old(out)@ + repeat('0', (i - len) as nat),
        decreases width - i,
    {
        out.push('0');
        i += 1;
    }
    push_hex(out, n, upper);
    assert(out@ =~= old(out)@ + hex_pad(n as nat, width as nat, upper));
}

/// `s` with spaces before it up to `width` characters.
pub open spec fn pad_left(s: Seq<char>, width: nat) -> Seq<char> {
    if s.len() < width {
        repeat(' ', (width - s.len()) as nat) + s
    } else {
        s
    }
}

/// `s` with spaces behind it up to `width` characters.
pub open spec fn pad_right(s: Seq<char>, width: nat) -> Seq<char> {
    if s.len() < width {
        s + repeat(' ', (width - s.len()) as nat)
    } else {
        s
    }
}

fn push_spaces(out: &mut String, n: usize)
    ensures
        final(out)@ == old(out)@ + repeat(' ', n as nat),
{
    let mut i: usize = 0;
    assert(out@ =~= old(out)@ + repeat(' ', 0));
    while i < n
        invariant
            i <= n,
            out@ == old(out)@ + repeat(' ', i as nat),
        decreases n - i,
    {
        out.push(' ');
        i += 1;
        assert(out@ =~= old(out)@ + repeat(' ', i as nat));
    }
}

/// Appends `s` with spaces before it up to `width` characters.
pub fn push_pad_left(out: &mut String, s: &str, width: usize)
    ensures
        final(out)@ == old(out)@ + pad_left(s@, width as nat),
{
    let len: usize = chars_of(s).len();
    if len < width {
        push_spaces(out, width - len);
    }
    out.append(s);
    assert(out@ =~= old(out)@ + pad_left(s@, width as nat));
}

/// Appends `s` with spaces behind it up to `width` characters.
pub fn push_pad_right(out: &mut String, s: &str, width: usize)
    ensures
        final(out)@ == old(out)@ + pad_right(s@, width as nat),
{
    let len: usize = chars_of(s).len();
    out.append(s);
    if len < width {
        push_spaces(out, width - len);
    }
    assert(out@ =~= old(out)@ + pad_right(s@, width as nat));
}

/// `n` in decimal.
pub fn dec_text(n: u64) -> (r: String)
    ensures
        r@ == dec(n as nat),
{
    let mut t = String::new();
    push_dec(&mut t, n);
    assert(t@ =~= dec(n as nat));
    t
}

/// `items` in hexadecimal inside square brackets, separated by a comma and a
/// space, each with leading zeros up to `width`.
pub open spec fn hex_list(items: Seq<u64>, width: nat) -> Seq<char> {
    "["@ + hex_items(items, width) + "]"@
}

/// The inside of `hex_list`.
pub open spec fn hex_items(items: Seq<u64>, width: nat) -> Seq<char>
    decreases items.len(),
{
    if items.len() == 0 {
        Seq::empty()
    } else if items.len() == 1 {
        hex_pad(items[0] as nat, width, true)
    } else {
        hex_items(items.drop_last(), width) + ", "@ + hex_pad(items.last() as nat, width, true)
    }
}

/// Appends `items` as a bracketed list of hexadecimal numbers.
pub fn push_hex_list(out: &mut String, items: &[u64], width: usize)
    ensures
        final(out)@ == old(out)@ + hex_list(items@, width as nat),
{
    out.append("[");
    let ghost start = out@;
    assert(items@.take(0).len() == 0);
    let mut i: usize = 0;
    while i < items.len()
        invariant
            i <= items@.len(),
            out@ == start + hex_items(items@.take(i as int), width as nat),
        decreases items@.len() - i,
    {
        let ghost before = items@.take(i as int);
        let ghost after = items@.take(i + 1);
        assert(after.drop_last() =~= before);
        if i > 0 {
            out.append(", ");
        }
        push_hex_pad(out, items[i], width, true);
        i += 1;
        assert(out@ =~= start + hex_items(after, width as nat));
    }
    assert(items@.take(i as int) =~= items@);
    out.append("]");
    assert(out@ =~= old(out)@ + hex_list(items@, width as nat));
}

/// `items` in decimal inside square brackets, separated by a comma and a space.
pub open spec fn dec_list(items: Seq<u8>) -> Seq<char> {
    "["@ + dec_items(items) + "]"@
}

/// The inside of `dec_list`.
pub open spec fn dec_items(items: Seq<u8>) -> Seq<char>
    decreases items.len(),
{
    if items.len() == 0 {
        Seq::empty()
    } else if items.len() == 1 {
        dec(items[0] as nat)
    } else {
        dec_items(items.drop_last()) + ", "@ + dec(items.last() as nat)
    }
}

/// Appends `items` as a bracketed list of decimal numbers.
pub fn push_dec_list(out: &mut String, items: &[u8])
    ensures
        final(out)@ == old(out)@ + dec_list(items@),
{
    out.append("[");
    let ghost start = out@;
    assert(items@.take(0).len() == 0);
    let mut i: usize = 0;
    while i < items.len()
        invariant
            i <= items@.len(),
            out@ == start + dec_items(items@.take(i as int)),
        decreases items@.len() - i,
    {
        let ghost before = items@.take(i as int);
        let ghost after = items@.take(i + 1);
        assert(after.drop_last() =~= before);
        if i > 0 {
            out.append(", ");
        }
        push_dec(out, items[i] as u64);
        i += 1;
        assert(out@ =~= start + dec_items(after));
    }
    assert(items@.take(i as int) =~= items@);
    out.append("]");
    assert(out@ =~= old(out)@ + dec_list(items@));
}

/// `label` and `value` in one text.
pub fn labelled(label: &str, value: &str) -> (r: String)
    ensures
        r@ == label@ + value@,
{
    let mut t = label.to_owned();
    t.append(value);
    t
}

// ------------------------------------------------------------- characters

/// The characters of `s`.
pub fn chars_of(s: &str) -> (v: Vec<char>)
    ensures
        v@ == s@,
{
    let mut v: Vec<char> = Vec::new();
    for c in it: s.chars()
        invariant
            v@ == s@.take(it.index() as int),
            it.seq() == s@,
            it.index() <= s@.len(),
    {
        v.push(c);
        assert(s@.take(it.index() + 1) =~= s@.take(it.index() as int).push(c));
    }
    assert(v@ =~= s@);
    v
}

/// The text that holds the characters `cs`.
pub fn string_of(cs: &[char]) -> (s: String)
    ensures
        s@ == cs@,
{
    let mut s = String::new();
    let mut i: usize = 0;
    while i < cs.len()
        invariant
            i <= cs@.len(),
            s@ == cs@.take(i as int),
        decreases cs@.len() - i,
    {
        s.push(cs[i]);
        i += 1;
        assert(cs@.take(i as int) =~= cs@.take(i - 1).push(cs@[i - 1]));
    }
    assert(cs@.take(i as int) =~= cs@);
    s
}

/// Whether two texts hold the same characters.
pub fn same_text(a: &str, b: &str) -> (r: bool)
    ensures
        r == (a@ == b@),
{
    let x = a.to_owned();
    let y = b.to_owned();
    x == y
}

/// Whether `s` starts with `p`.
pub open spec fn has_prefix(s: Seq<char>, p: Seq<char>) -> bool {
    p.len() <= s.len() && s.take(p.len() as int) == p
}

/// Whether the characters start with `prefix`.
pub fn starts_with(s: &[char], prefix: &str) -> (r: bool)
    ensures
        r == has_prefix(s@, prefix@),
{
    let p = chars_of(prefix);
    if s.len() < p.len() {
        return false;
    }
    let mut i: usize = 0;
    while i < p.len()
        invariant
            i <= p@.len() <= s@.len(),
            p@ == prefix@,
            forall|k: int| 0 <= k < i ==> s@[k] == p@[k],
        decreases p@.len() - i,
    {
        if s[i] != p[i] {
            assert(s@.take(p@.len() as int)[i as int] == s@[i as int]);
            return false;
        }
        i += 1;
    }
    assert(s@.take(p@.len() as int) =~= p@);
    true
}

/// What stands before the first `c`: all of `s` where it holds none.
pub open spec fn before(s: Seq<char>, c: char) -> Seq<char>
    decreases s.len(),
{
    if s.len() == 0 || s[0] == c {
        Seq::empty()
    } else {
        seq![s[0]] + before(s.skip(1), c)
    }
}

proof fn before_is(s: Seq<char>, c: char, n: int)
    requires
        0 <= n <= s.len(),
        forall|k: int| 0 <= k < n ==> s[k] != c,
        n == s.len() || s[n] == c,
    ensures
        before(s, c) == s.take(n),
    decreases n,
{
    if n > 0 {
        let t = s.skip(1);
        assert forall|k: int| 0 <= k < n - 1 implies t[k] != c by {
            assert(t[k] == s[k + 1]);
        }
        before_is(t, c, n - 1);
        assert(s.take(n) =~= seq![s[0]] + t.take(n - 1));
    } else {
        assert(s.take(0) =~= Seq::<char>::empty());
    }
}

/// Cuts off what follows the first `c`.
pub fn cut_before(s: &[char], c: char) -> (r: &[char])
    ensures
        r@ == before(s@, c),
{
    let mut n: usize = 0;
    while n < s.len() && s[n] != c
        invariant
            n <= s@.len(),
            forall|k: int| 0 <= k < n ==> s@[k] != c,
        decreases s@.len() - n,
    {
        n += 1;
    }
    proof {
        before_is(s@, c, n as int);
    }
    assert(s@.subrange(0, n as int) =~= s@.take(n as int));
    &s[0..n]
}

/// Whether a character occurs.
pub fn holds(s: &[char], c: char) -> (r: bool)
    ensures
        r == s@.contains(c),
{
    let mut i: usize = 0;
    while i < s.len()
        invariant
            i <= s@.len(),
            forall|k: int| 0 <= k < i ==> s@[k] != c,
        decreases s@.len() - i,
    {
        if s[i] == c {
            assert(s@[i as int] == c);
            return true;
        }
        i += 1;
    }
    false
}

/// Whether two lists of characters are the same.
pub fn same_chars(a: &[char], b: &[char]) -> (r: bool)
    ensures
        r == (a@ == b@),
{
    if a.len() != b.len() {
        return false;
    }
    let mut i: usize = 0;
    while i < a.len()
        invariant
            i <= a@.len() == b@.len(),
            forall|k: int| 0 <= k < i ==> a@[k] == b@[k],
        decreases a@.len() - i,
    {
        if a[i] != b[i] {
            return false;
        }
        i += 1;
    }
    assert(a@ =~= b@);
    true
}

/// Whether `c` has the Unicode property `White_Space`.
pub open spec fn is_white(c: char) -> bool {
    ||| '\t' <= c <= '\r'
    ||| c == ' '
    ||| c == '\u{85}'
    ||| c == '\u{a0}'
    ||| c == '\u{1680}'
    ||| '\u{2000}' <= c <= '\u{200a}'
    ||| c == '\u{2028}'
    ||| c == '\u{2029}'
    ||| c == '\u{202f}'
    ||| c == '\u{205f}'
    ||| c == '\u{3000}'
}

/// Whether `c` separates words.
pub fn white(c: char) -> (r: bool)
    ensures
        r == is_white(c),
{
    ('\t' <= c && c <= '\r') || c == ' ' || c == '\u{85}' || c == '\u{a0}' || c == '\u{1680}' || (
    '\u{2000}' <= c && c <= '\u{200a}') || c == '\u{2028}' || c == '\u{2029}' || c == '\u{202f}' || c
        == '\u{205f}' || c == '\u{3000}'
}

/// Whether `c` is one of `0` to `9`.
pub open spec fn is_digit(c: char) -> bool {
    '0' <= c <= '9'
}

/// Whether `c` is an ASCII letter or digit.
pub open spec fn is_alphanumeric(c: char) -> bool {
    is_digit(c) || 'a' <= c <= 'z' || 'A' <= c <= 'Z'
}

/// Whether `c` is an ASCII letter or digit.
pub fn alphanumeric(c: char) -> (r: bool)
    ensures
        r == is_alphanumeric(c),
{
    ('0' <= c && c <= '9') || ('a' <= c && c <= 'z') || ('A' <= c && c <= 'Z')
}

/// The words of `s`: its longest runs of characters that are not white space.
pub open spec fn words(s: Seq<char>) -> Seq<Seq<char>>
    decreases s.len(),
{
    if s.len() == 0 {
        Seq::empty()
    } else {
        let t = s.drop_last();
        let c = s.last();
        if is_white(c) {
            words(t)
        } else if t.len() == 0 || is_white(t.last()) {
            words(t).push(seq![c])
        } else {
            words(t).drop_last().push(words(t).last().push(c))
        }
    }
}

/// What a list of character vectors stands for.
pub open spec fn texts(v: Seq<Vec<char>>) -> Seq<Seq<char>> {
    v.map_values(|w: Vec<char>| w@)
}

/// Splits at white space.
pub fn split_words(s: &[char]) -> (r: Vec<Vec<char>>)
    ensures
        texts(r@) == words(s@),
{
    let mut r: Vec<Vec<char>> = Vec::new();
    let mut cur: Vec<char> = Vec::new();
    let mut i: usize = 0;
    assert(texts(r@) =~= Seq::empty());
    while i < s.len()
        invariant
            i <= s@.len(),
            cur@.len() == 0 <==> (i == 0 || is_white(s@[i - 1])),
            words(s@.take(i as int)) == if cur@.len() == 0 {
                texts(r@)
            } else {
                texts(r@).push(cur@)
            },
        decreases s@.len() - i,
    {
        let ghost t = s@.take(i as int);
        let ghost u = s@.take(i + 1);
        assert(u.drop_last() =~= t);
        assert(u.last() == s@[i as int]);
        if i > 0 {
            assert(t.last() == s@[i - 1]);
        }
        if white(s[i]) {
            if cur.len() > 0 {
                let ghost before = r@;
                let ghost w = cur@;
                r.push(cur);
                assert(texts(r@) =~= texts(before).push(w));
                cur = Vec::new();
            }
        } else {
            let ghost w = cur@;
            cur.push(s[i]);
            proof {
                if w.len() > 0 {
                    assert(words(t).drop_last() =~= texts(r@));
                } else {
                    assert(seq![s@[i as int]] =~= cur@);
                }
            }
        }
        i += 1;
    }
    assert(s@.take(i as int) =~= s@);
    if cur.len() > 0 {
        let ghost before = r@;
        let ghost w = cur@;
        r.push(cur);
        assert(texts(r@) =~= texts(before).push(w));
    }
    r
}

/// `s` without white space at its start.
pub open spec fn trim_start(s: Seq<char>) -> Seq<char>
    decreases s.len(),
{
    if s.len() > 0 && is_white(s[0]) {
        trim_start(s.skip(1))
    } else {
        s
    }
}

/// `s` without white space at its end.
pub open spec fn trim_end(s: Seq<char>) -> Seq<char>
    decreases s.len(),
{
    if s.len() > 0 && is_white(s.last()) {
        trim_end(s.drop_last())
    } else {
        s
    }
}

/// `s` without white space at either end.
pub open spec fn trim(s: Seq<char>) -> Seq<char> {
    trim_end(trim_start(s))
}

/// Removes white space at the start.
pub fn trimmed_start(s: &[char]) -> (r: &[char])
    ensures
        r@ == trim_start(s@),
{
    let mut i: usize = 0;
    assert(s@.skip(0) =~= s@);
    while i < s.len() && white(s[i])
        invariant
            i <= s@.len(),
            trim_start(s@) == trim_start(s@.skip(i as int)),
        decreases s@.len() - i,
    {
        assert(s@.skip(i as int).skip(1) =~= s@.skip(i + 1));
        i += 1;
    }
    assert(s@.subrange(i as int, s@.len() as int) =~= s@.skip(i as int));
    &s[i..s.len()]
}

/// Removes white space at both ends.
pub fn trimmed(s: &[char]) -> (r: &[char])
    ensures
        r@ == trim(s@),
{
    let t = trimmed_start(s);
    let mut n: usize = t.len();
    assert(t@.take(n as int) =~= t@);
    while n > 0 && white(t[n - 1])
        invariant
            n <= t@.len(),
            trim_end(t@) == trim_end(t@.take(n as int)),
        decreases n,
    {
        assert(t@.take(n as int).drop_last() =~= t@.take(n - 1));
        n -= 1;
    }
    assert(t@.subrange(0, n as int) =~= t@.take(n as int));
    &t[0..n]
}

/// Complete lines of `s` and what follows the last line feed. A carriage
/// return right before a line feed belongs to the line end.
pub open spec fn split_lines(s: Seq<char>) -> (Seq<Seq<char>>, Seq<char>)
    decreases s.len(),
{
    if s.len() == 0 {
        (Seq::empty(), Seq::empty())
    } else {
        let (done, cur) = split_lines(s.drop_last());
        if s.last() == '\n' {
            (
                done.push(
                    if cur.len() > 0 && cur.last() == '\r' {
                        cur.drop_last()
                    } else {
                        cur
                    },
                ),
                Seq::empty(),
            )
        } else {
            (done, cur.push(s.last()))
        }
    }
}

/// The lines of `s`.
pub open spec fn lines(s: Seq<char>) -> Seq<Seq<char>> {
    let (done, cur) = split_lines(s);
    if cur.len() == 0 {
        done
    } else {
        done.push(cur)
    }
}

/// Splits into lines.
pub fn line_list(s: &[char]) -> (r: Vec<Vec<char>>)
    ensures
        texts(r@) == lines(s@),
{
    let mut r: Vec<Vec<char>> = Vec::new();
    let mut cur: Vec<char> = Vec::new();
    let mut i: usize = 0;
    assert(texts(r@) =~= Seq::empty());
    while i < s.len()
        invariant
            i <= s@.len(),
            split_lines(s@.take(i as int)) == (texts(r@), cur@),
        decreases s@.len() - i,
    {
        let ghost u = s@.take(i + 1);
        assert(u.drop_last() =~= s@.take(i as int));
        assert(u.last() == s@[i as int]);
        if s[i] == '\n' {
            let ghost whole = cur@;
            if cur.len() > 0 && cur[cur.len() - 1] == '\r' {
                cur.pop();
                assert(cur@ =~= whole.drop_last());
            }
            let ghost before = r@;
            let ghost w = cur@;
            r.push(cur);
            assert(texts(r@) =~= texts(before).push(w));
            cur = Vec::new();
            assert(cur@ =~= Seq::empty());
        } else {
            cur.push(s[i]);
        }
        i += 1;
    }
    assert(s@.take(i as int) =~= s@);
    if cur.len() > 0 {
        let ghost before = r@;
        let ghost w = cur@;
        r.push(cur);
        assert(texts(r@) =~= texts(before).push(w));
    }
    r
}

// ---------------------------------------------------------------- parsing

/// The value of `c` as a digit in `radix`, where it is one.
pub open spec fn digit_value(c: char, radix: nat) -> Option<nat> {
    let v = if '0' <= c <= '9' {
        (c as int - '0' as int) as nat
    } else if 'a' <= c <= 'z' {
        (c as int - 'a' as int + 10) as nat
    } else if 'A' <= c <= 'Z' {
        (c as int - 'A' as int + 10) as nat
    } else {
        radix
    };
    if v < radix {
        Some(v)
    } else {
        None
    }
}

/// `s` without a plus sign in front.
pub open spec fn without_plus(s: Seq<char>) -> Seq<char> {
    if s.len() > 0 && s[0] == '+' {
        s.skip(1)
    } else {
        s
    }
}

fn digit_of(c: char, radix: u32) -> (r: Option<u32>)
    requires
        2 <= radix <= 16,
    ensures
        r is Some == digit_value(c, radix as nat) is Some,
        r matches Some(v) ==> v < radix && digit_value(c, radix as nat) == Some(v as nat),
{
    let v: u32 = if '0' <= c && c <= '9' {
        c as u32 - '0' as u32
    } else if 'a' <= c && c <= 'z' {
        c as u32 - 'a' as u32 + 10
    } else if 'A' <= c && c <= 'Z' {
        c as u32 - 'A' as u32 + 10
    } else {
        radix
    };
    if v < radix {
        Some(v)
    } else {
        None
    }
}

/// Why a number cannot be read.
#[derive(Debug, Clone, Copy, PartialEq, Eq, Structural)]
pub enum NumberFault {
    /// There is nothing to read.
    Empty,
    /// A character is no digit.
    Digit,
    /// The value is too large.
    Overflow,
}

impl NumberFault {
    /// The fault in words.
    pub open spec fn spec_text(self) -> Seq<char> {
        match self {
            NumberFault::Empty => "cannot parse integer from empty string"@,
            NumberFault::Digit => "invalid digit found in string"@,
            NumberFault::Overflow => "number too large to fit in target type"@,
        }
    }

    /// The fault in words.
    pub fn text(self) -> (r: &'static str)
        ensures
            r@ == self.spec_text(),
    {
        match self {
            NumberFault::Empty => "cannot parse integer from empty string",
            NumberFault::Digit => "invalid digit found in string",
            NumberFault::Overflow => "number too large to fit in target type",
        }
    }
}

/// The value of a run of digits, or the first fault from the left.
pub open spec fn scanned(s: Seq<char>, radix: nat, max: nat) -> Result<nat, NumberFault>
    decreases s.len(),
{
    if s.len() == 0 {
        Ok(0)
    } else {
        match scanned(s.drop_last(), radix, max) {
            Err(f) => Err(f),
            Ok(v) => match digit_value(s.last(), radix) {
                None => Err(NumberFault::Digit),
                Some(d) => if v * radix + d > max {
                    Err(NumberFault::Overflow)
                } else {
                    Ok(v * radix + d)
                },
            },
        }
    }
}

/// The number that `s` spells in `radix`, or why there is none.
pub open spec fn number_result(s: Seq<char>, radix: nat, max: nat) -> Result<nat, NumberFault> {
    let d = without_plus(s);
    if s.len() == 0 {
        Err(NumberFault::Empty)
    } else if d.len() == 0 {
        Err(NumberFault::Digit)
    } else {
        scanned(d, radix, max)
    }
}

proof fn scanned_fault_stays(s: Seq<char>, k: int, radix: nat, max: nat)
    requires
        0 <= k <= s.len(),
        scanned(s.take(k), radix, max) is Err,
    ensures
        scanned(s, radix, max) == scanned(s.take(k), radix, max),
    decreases s.len() - k,
{
    if k < s.len() {
        assert(s.take(k + 1).drop_last() =~= s.take(k));
        scanned_fault_stays(s, k + 1, radix, max);
    } else {
        assert(s.take(k) =~= s);
    }
}

/// Reads a number in `radix` of at most `max`, or says why there is none.
pub fn read_number(s: &[char], radix: u32, max: u64) -> (r: Result<u64, NumberFault>)
    requires
        2 <= radix <= 16,
    ensures
        match number_result(s@, radix as nat, max as nat) {
            Ok(v) => r matches Ok(n) && n == v,
            Err(f) => r == Err::<u64, NumberFault>(f),
        },
{
    if s.len() == 0 {
        return Err(NumberFault::Empty);
    }
    let d = if s[0] == '+' {
        assert(s@.skip(1) =~= s@.subrange(1, s@.len() as int));
        &s[1..s.len()]
    } else {
        s
    };
    if d.len() == 0 {
        return Err(NumberFault::Digit);
    }
    let mut acc: u64 = 0;
    let mut i: usize = 0;
    assert(d@.take(0).len() == 0);
    while i < d.len()
        invariant
            i <= d@.len(),
            2 <= radix <= 16,
            d@ == without_plus(s@),
            s@.len() > 0,
            d@.len() > 0,
            acc <= max,
            scanned(d@.take(i as int), radix as nat, max as nat) == Ok::<nat, NumberFault>(
                acc as nat,
            ),
        decreases d@.len() - i,
    {
        let ghost u = d@.take(i + 1);
        assert(u.drop_last() =~= d@.take(i as int));
        assert(u.last() == d@[i as int]);
        match digit_of(d[i], radix) {
            None => {
                proof {
                    scanned_fault_stays(d@, i + 1, radix as nat, max as nat);
                }
                return Err(NumberFault::Digit);
            },
            Some(v) => {
                assert(acc * radix <= 0xffff_ffff_ffff_ffff * 16) by (nonlinear_arith)
                    requires
                        acc <= 0xffff_ffff_ffff_ffff,
                        radix <= 16,
                ;
                let next: u128 = acc as u128 * radix as u128 + v as u128;
                if next > max as u128 {
                    proof {
                        scanned_fault_stays(d@, i + 1, radix as nat, max as nat);
                    }
                    return Err(NumberFault::Overflow);
                }
                acc = next as u64;
            },
        }
        i += 1;
    }
    assert(d@.take(i as int) =~= d@);
    Ok(acc)
}

// ---------------------------------------------------------------- the laws

proof fn digit_reads_back(v: nat, upper: bool)
    requires
        v < 16,
    ensures
        digit_value(digit(v, upper), 16) == Some(v),
        v < 10 ==> digit_value(digit(v, upper), 10) == Some(v),
        digit(v, upper) != '+',
{
}

proof fn dec_scans_back(n: nat, max: nat)
    requires
        n <= max,
    ensures
        scanned(dec(n), 10, max) == Ok::<nat, NumberFault>(n),
        dec(n).len() >= 1,
        dec(n)[0] != '+',
    decreases n,
{
    let s = dec(n);
    if n < 10 {
        digit_reads_back(n, false);
        assert(s.drop_last() =~= Seq::<char>::empty());
        assert(scanned(s.drop_last(), 10, max) == Ok::<nat, NumberFault>(0));
    } else {
        dec_scans_back(n / 10, max);
        digit_reads_back(n % 10, false);
        assert(s.drop_last() =~= dec(n / 10));
        assert(n / 10 * 10 + n % 10 == n);
    }
}

/// A number survives the way into decimal text and back.
pub proof fn decimal_round_trip(n: nat, max: nat)
    requires
        n <= max,
    ensures
        number_result(dec(n), 10, max) == Ok::<nat, NumberFault>(n),
{
    dec_scans_back(n, max);
}

proof fn hex_scans_back(n: nat, upper: bool, max: nat)
    requires
        n <= max,
    ensures
        scanned(hex(n, upper), 16, max) == Ok::<nat, NumberFault>(n),
        hex(n, upper).len() >= 1,
        hex(n, upper)[0] != '+',
    decreases n,
{
    let s = hex(n, upper);
    if n < 16 {
        digit_reads_back(n, upper);
        assert(s.drop_last() =~= Seq::<char>::empty());
        assert(scanned(s.drop_last(), 16, max) == Ok::<nat, NumberFault>(0));
    } else {
        hex_scans_back(n / 16, upper, max);
        digit_reads_back(n % 16, upper);
        assert(s.drop_last() =~= hex(n / 16, upper));
        assert(n / 16 * 16 + n % 16 == n);
    }
}

proof fn zeros_scan_as_nothing(z: nat, s: Seq<char>, max: nat)
    ensures
        scanned(repeat('0', z) + s, 16, max) == scanned(s, 16, max),
    decreases z, s.len(),
{
    let t = repeat('0', z) + s;
    if s.len() > 0 {
        zeros_scan_as_nothing(z, s.drop_last(), max);
        assert(t.drop_last() =~= repeat('0', z) + s.drop_last());
    } else if z > 0 {
        zeros_scan_as_nothing((z - 1) as nat, s, max);
        assert(t.drop_last() =~= repeat('0', (z - 1) as nat) + s);
        assert(t.last() == '0');
    }
    if z == 0 {
        assert(t =~= s);
    }
}

/// A number survives the way into hexadecimal text and back, in either case and with any
/// number of leading zeros; the text has at least as many digits as were asked for.
pub proof fn hexadecimal_round_trip(n: nat, width: nat, upper: bool, max: nat)
    requires
        n <= max,
    ensures
        number_result(hex_pad(n, width, upper), 16, max) == Ok::<nat, NumberFault>(n),
        hex_pad(n, width, upper).len() >= width,
{
    let h = hex(n, upper);
    hex_scans_back(n, upper, max);
    if h.len() < width {
        zeros_scan_as_nothing((width - h.len()) as nat, h, max);
        assert(hex_pad(n, width, upper)[0] == '0');
    }
}

/// A number too large for its type is refused, never cut: reading the decimal text of a number
/// above the limit gives an overflow.
pub proof fn large_number_is_refused(n: nat, max: nat)
    requires
        n > max,
    ensures
        number_result(dec(n), 10, max) == Err::<nat, NumberFault>(NumberFault::Overflow),
{
    large_number_overflows(n, max);
    dec_scans_back(n, n);
}

proof fn large_number_overflows(n: nat, max: nat)
    requires
        n > max,
    ensures
        scanned(dec(n), 10, max) == Err::<nat, NumberFault>(NumberFault::Overflow),
    decreases n,
{
    let s = dec(n);
    if n < 10 {
        digit_reads_back(n, false);
        assert(s.drop_last() =~= Seq::<char>::empty());
        assert(scanned(s.drop_last(), 10, max) == Ok::<nat, NumberFault>(0));
    } else {
        digit_reads_back(n % 10, false);
        assert(s.drop_last() =~= dec(n / 10));
        assert(n / 10 * 10 + n % 10 == n);
        if n / 10 > max {
            large_number_overflows(n / 10, max);
        } else {
            dec_scans_back(n / 10, max);
        }
    }
}

proof fn trim_start_cuts(s: Seq<char>) -> (k: int)
    ensures
        0 <= k <= s.len(),
        trim_start(s) == s.skip(k),
        forall|i: int| 0 <= i < k ==> is_white(#[trigger] s[i]),
        k < s.len() ==> !is_white(s[k]),
    decreases s.len(),
{
    if s.len() > 0 && is_white(s[0]) {
        let k = trim_start_cuts(s.skip(1));
        assert(s.skip(1).skip(k) =~= s.skip(k + 1));
        assert forall|i: int| 0 <= i < k + 1 implies is_white(#[trigger] s[i]) by {
            if i > 0 {
                assert(s.skip(1)[i - 1] == s[i]);
            }
        }
        if k + 1 < s.len() {
            assert(s.skip(1)[k] == s[k + 1]);
        }
        k + 1
    } else {
        assert(s.skip(0) =~= s);
        0
    }
}

proof fn trim_end_cuts(s: Seq<char>) -> (k: int)
    ensures
        0 <= k <= s.len(),
        trim_end(s) == s.take(k),
        forall|i: int| k <= i < s.len() ==> is_white(#[trigger] s[i]),
        k > 0 ==> !is_white(s[k - 1]),
    decreases s.len(),
{
    if s.len() > 0 && is_white(s.last()) {
        let t = s.drop_last();
        let k = trim_end_cuts(t);
        assert(t.take(k) =~= s.take(k));
        assert forall|i: int| k <= i < s.len() implies is_white(#[trigger] s[i]) by {
            if i < s.len() - 1 {
                assert(t[i] == s[i]);
            }
        }
        if k > 0 {
            assert(t[k - 1] == s[k - 1]);
        }
        k
    } else {
        assert(s.take(s.len() as int) =~= s);
        s.len() as int
    }
}

/// Trimming takes white space off both ends and nothing else: the text is some white space,
/// the result, and some white space, and the result neither starts nor ends with any.
pub proof fn trimming_is_exact(s: Seq<char>)
    ensures
        exists|j: int, k: int|
            0 <= j <= k <= s.len() && trim(s) == #[trigger] s.subrange(j, k) && (forall|i: int|
                0 <= i < j || k <= i < s.len() ==> is_white(#[trigger] s[i])),
        trim(s).len() > 0 ==> !is_white(trim(s)[0]) && !is_white(trim(s).last()),
{
    let j = trim_start_cuts(s);
    let t = s.skip(j);
    let n = trim_end_cuts(t);
    let k = j + n;
    assert(trim(s) == t.take(n));
    assert(t.take(n) =~= s.subrange(j, k));
    assert forall|i: int| 0 <= i < j || k <= i < s.len() implies is_white(#[trigger] s[i]) by {
        if i >= k {
            assert(t[i - j] == s[i]);
        }
    }
    if n > 0 {
        assert(t[0] == s[j]);
        if is_white(t[0]) {
            assert(j < s.len());
        }
    }
}

proof fn words_step(a: Seq<char>, w: char, b: Seq<char>)
    requires
        is_white(w),
    ensures
        words(a.push(w) + b) == words(a) + words(b),
        b.len() > 0 && !is_white(b.last()) ==> words(b).len() > 0,
    decreases b.len(),
{
    let s = a.push(w) + b;
    if b.len() == 0 {
        assert(s =~= a.push(w));
        assert(s.drop_last() =~= a);
        assert(words(a) + words(b) =~= words(a));
    } else {
        let c = b.drop_last();
        words_step(a, w, c);
        assert(s.drop_last() =~= a.push(w) + c);
        let t = s.drop_last();
        if !is_white(b.last()) {
            if c.len() == 0 {
                assert(t.last() == w);
                assert(words(s) =~= words(a) + words(b));
            } else {
                assert(t.last() == c.last());
                if is_white(c.last()) {
                    assert(words(s) =~= words(a) + words(b));
                } else {
                    assert(words(s) =~= words(a) + words(b));
                }
            }
        }
    }
}

/// White space parts words and nothing else does: the words of two texts with a white space
/// between them are the words of the one and then those of the other.
pub proof fn white_space_parts_words(a: Seq<char>, w: char, b: Seq<char>)
    requires
        is_white(w),
    ensures
        words(a.push(w) + b) == words(a) + words(b),
{
    words_step(a, w, b);
}

/// A text without white space is one word, all of it.
pub proof fn one_word(s: Seq<char>)
    requires
        s.len() > 0,
        forall|i: int| 0 <= i < s.len() ==> !is_white(#[trigger] s[i]),
    ensures
        words(s) == seq![s],
    decreases s.len(),
{
    let t = s.drop_last();
    if t.len() > 0 {
        assert forall|i: int| 0 <= i < t.len() implies !is_white(#[trigger] t[i]) by {
            assert(t[i] == s[i]);
        }
        one_word(t);
        assert(t.last() == s[t.len() - 1]);
        assert(!is_white(s[s.len() - 1]));
        assert(t.push(s.last()) =~= s);
        assert(words(s) == words(t).drop_last().push(words(t).last().push(s.last())));
        assert(words(s) =~= seq![s]);
    } else {
        assert(!is_white(s[s.len() - 1]));
        assert(s =~= seq![s.last()]);
        assert(words(t) =~= Seq::<Seq<char>>::empty());
        assert(words(s) == words(t).push(seq![s.last()]));
        assert(words(s) =~= seq![s]);
    }
}

proof fn line_grows(s: Seq<char>)
    requires
        forall|i: int| 0 <= i < s.len() ==> #[trigger] s[i] != '\n',
    ensures
        split_lines(s) == (Seq::<Seq<char>>::empty(), s),
    decreases s.len(),
{
    if s.len() > 0 {
        let t = s.drop_last();
        assert forall|i: int| 0 <= i < t.len() implies #[trigger] t[i] != '\n' by {
            assert(t[i] == s[i]);
        }
        line_grows(t);
        assert(s[s.len() - 1] != '\n');
        assert(t.push(s.last()) =~= s);
    }
}

proof fn lines_go_on(l: Seq<char>, rest: Seq<char>)
    requires
        forall|i: int| 0 <= i < l.len() ==> #[trigger] l[i] != '\n',
    ensures
        ({
            let first = if l.len() > 0 && l.last() == '\r' {
                l.drop_last()
            } else {
                l
            };
            split_lines(l.push('\n') + rest) == (
                seq![first] + split_lines(rest).0,
                split_lines(rest).1,
            )
        }),
    decreases rest.len(),
{
    let s = l.push('\n') + rest;
    let first = if l.len() > 0 && l.last() == '\r' {
        l.drop_last()
    } else {
        l
    };
    if rest.len() == 0 {
        assert(s =~= l.push('\n'));
        assert(s.drop_last() =~= l);
        line_grows(l);
        assert(split_lines(s).0 =~= seq![first] + split_lines(rest).0);
    } else {
        lines_go_on(l, rest.drop_last());
        assert(s.drop_last() =~= l.push('\n') + rest.drop_last());
        assert(s.last() == rest.last());
        assert(split_lines(s).0 =~= seq![first] + split_lines(rest).0);
    }
}

/// The first line of a text is what stands before its first line feed, without a carriage
/// return right before that; the other lines are the lines of what follows.
pub proof fn first_line_ends_at_line_feed(l: Seq<char>, rest: Seq<char>)
    requires
        forall|i: int| 0 <= i < l.len() ==> #[trigger] l[i] != '\n',
    ensures
        lines(l.push('\n') + rest) == seq![
            if l.len() > 0 && l.last() == '\r' {
                l.drop_last()
            } else {
                l
            },
        ] + lines(rest),
{
    lines_go_on(l, rest);
    let first = if l.len() > 0 && l.last() == '\r' {
        l.drop_last()
    } else {
        l
    };
    assert(lines(l.push('\n') + rest) =~= seq![first] + lines(rest));
}

/// A text without a line feed is one line, all of it, unless it is empty.
pub proof fn one_line(s: Seq<char>)
    requires
        forall|i: int| 0 <= i < s.len() ==> #[trigger] s[i] != '\n',
    ensures
        s.len() > 0 ==> lines(s) == seq![s],
        s.len() == 0 ==> lines(s) == Seq::<Seq<char>>::empty(),
{
    line_grows(s);
    assert(Seq::<Seq<char>>::empty().push(s) =~= seq![s]);
}

/// What stands before a character is everything up to its first place.
pub proof fn before_ends_at_first(s: Seq<char>, c: char, n: int)
    requires
        0 <= n <= s.len(),
        forall|k: int| 0 <= k < n ==> s[k] != c,
        n == s.len() || s[n] == c,
    ensures
        before(s, c) == s.take(n),
{
    before_is(s, c, n);
}

proof fn hex_is_plain(n: nat, upper: bool)
    ensures
        hex(n, upper).len() >= 1,
        forall|i: int|
            0 <= i < hex(n, upper).len() ==> is_alphanumeric(#[trigger] hex(n, upper)[i]) && hex(
                n,
                upper,
            )[i] != 'x',
    decreases n,
{
    if n >= 16 {
        hex_is_plain(n / 16, upper);
        let s = hex(n / 16, upper);
        assert forall|i: int| 0 <= i < hex(n, upper).len() implies is_alphanumeric(
            #[trigger] hex(n, upper)[i],
        ) && hex(n, upper)[i] != 'x' by {
            if i < s.len() {
                assert(hex(n, upper)[i] == s[i]);
            }
        }
    }
}

/// Hexadecimal text has letters and digits only, and no `x`.
pub proof fn hex_pad_is_plain(n: nat, width: nat, upper: bool)
    ensures
        hex_pad(n, width, upper).len() >= 1,
        forall|i: int|
            0 <= i < hex_pad(n, width, upper).len() ==> is_alphanumeric(
                #[trigger] hex_pad(n, width, upper)[i],
            ) && hex_pad(n, width, upper)[i] != 'x',
{
    hex_is_plain(n, upper);
    let h = hex(n, upper);
    let p = hex_pad(n, width, upper);
    assert forall|i: int| 0 <= i < p.len() implies is_alphanumeric(#[trigger] p[i]) && p[i]
        != 'x' by {
        if h.len() < width {
            let z = width - h.len();
            if i >= z {
                assert(p[i] == h[i - z]);
            } else {
                assert(p[i] == '0');
            }
        }
    }
}

/// A line feed at the end is taken off where a line is trimmed, and a text without white space
/// at its ends stays as it is.
pub proof fn trimming_line_feed(s: Seq<char>)
    requires
        s.len() > 0,
        !is_white(s[0]),
        !is_white(s.last()),
    ensures
        trim(s) == s,
        trim(s + seq!['\n']) == s,
{
    let t = s + seq!['\n'];
    assert(t[0] == s[0]);
    assert(trim_start(t) == t);
    assert(t.last() == '\n');
    assert(t.drop_last() =~= s);
    reveal_with_fuel(trim_end, 3);
    assert(trim_end(s) == s);
    assert(trim_end(t) == trim_end(s));
}

/// Padding puts spaces on one side, as many as are missing, and keeps the text.
pub proof fn padding_keeps_text(s: Seq<char>, width: nat)
    ensures
        pad_left(s, width).len() == if s.len() < width { width } else { s.len() },
        pad_right(s, width).len() == pad_left(s, width).len(),
        pad_left(s, width).skip(pad_left(s, width).len() - s.len()) == s,
        pad_right(s, width).take(s.len() as int) == s,
        forall|i: int|
            0 <= i < width - s.len() ==> #[trigger] pad_left(s, width)[i] == ' ',
        forall|i: int|
            s.len() <= i < width ==> #[trigger] pad_right(s, width)[i] == ' ',
{
    let l = pad_left(s, width);
    assert(l.skip(l.len() - s.len()) =~= s);
    assert(pad_right(s, width).take(s.len() as int) =~= s);
}

/// A plus sign in front of a number changes nothing, and neither nothing nor a lone plus sign is
/// a number.
pub proof fn plus_sign_is_read(n: nat, max: nat)
    requires
        n <= max,
    ensures
        number_result(seq!['+'] + dec(n), 10, max) == Ok::<nat, NumberFault>(n),
        number_result(seq!['+'], 10, max) == Err::<nat, NumberFault>(NumberFault::Digit),
        number_result(Seq::empty(), 10, max) == Err::<nat, NumberFault>(NumberFault::Empty),
{
    dec_scans_back(n, max);
    let s = seq!['+'] + dec(n);
    assert(s.skip(1) =~= dec(n));
}

/// Only digits make a number: a character that is no digit and no letter is refused wherever it
/// stands, but for a plus sign in front, and so is a letter in decimal.
pub proof fn strange_characters_are_refused(s: Seq<char>, i: int, radix: nat, max: nat)
    requires
        radix == 10 || radix == 16,
        0 <= i < s.len(),
        i > 0 || s[i] != '+',
        !('0' <= s[i] <= '9'),
        radix == 16 ==> !('a' <= s[i] <= 'f') && !('A' <= s[i] <= 'F'),
    ensures
        number_result(s, radix, max) is Err,
{
    let d = without_plus(s);
    let k = if d == s {
        i
    } else {
        i - 1
    };
    assert(s[0] == '+' ==> d == s.skip(1));
    assert(d[k] == s[i]);
    let t = d.take(k + 1);
    assert(t.last() == s[i]);
    assert(digit_value(s[i], radix) is None);
    assert(scanned(t, radix, max) is Err);
    scanned_fault_stays(d, k + 1, radix, max);
}

/// A text starts with another exactly where it has as many characters and each of the other's
/// stands at its place.
pub proof fn prefix_is_exact(s: Seq<char>, p: Seq<char>)
    ensures
        has_prefix(s, p) <==> p.len() <= s.len() && forall|i: int|
            0 <= i < p.len() ==> #[trigger] s[i] == p[i],
{
    if p.len() <= s.len() {
        let t = s.take(p.len() as int);
        if forall|i: int| 0 <= i < p.len() ==> #[trigger] s[i] == p[i] {
            assert(t =~= p);
        }
        if t == p {
            assert forall|i: int| 0 <= i < p.len() implies #[trigger] s[i] == p[i] by {
                assert(t[i] == s[i]);
            }
        }
    }
}

} // verus!

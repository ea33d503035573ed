//! Text helpers over `Seq<char>`.

use vstd::prelude::*;
use vstd::string::*;

verus! {

/// `String::push`: appends one character to the end of the text.
pub assume_specification[ String::push ](s: &mut String, c: char)
    ensures
        final(s)@ == old(s)@.push(c),
;

/// Two texts with the same UTF-8 encoding are the same text.
pub proof fn lemma_utf8_injective(a: Seq<char>, b: Seq<char>)
    requires
        vstd::utf8::encode_utf8(a) == vstd::utf8::encode_utf8(b),
    ensures
        a == b,
{
    vstd::utf8::encode_utf8_decode_utf8(a);
    vstd::utf8::encode_utf8_decode_utf8(b);
}

/// Whether two texts are equal.
pub fn str_eq(a: &str, b: &str) -> (r: bool)
    ensures
        r == (a@ == b@),
{
    let x = a.as_bytes();
    let y = b.as_bytes();
    if x.len() != y.len() {
        return false;
    }
    let n: usize = x.len();
    let mut i: usize = 0;
    while i < n
        invariant
            i <= n,
            n == x@.len(),
            n == y@.len(),
            x@ == a.spec_bytes(),
            y@ == b.spec_bytes(),
            forall|j: int| 0 <= j < i ==> x@[j] == y@[j],
        decreases n - i,
    {
        if x[i] != y[i] {
            return false;
        }
        i += 1;
    }
    proof {
        assert(x@ =~= y@);
        lemma_utf8_injective(a@, b@);
    }
    true
}

/// The characters of a text, one by one.
pub fn to_chars(s: &str) -> (r: Vec<char>)
    ensures
        r@ == s@,
{
    let mut r: Vec<char> = Vec::new();
    for c in it: s.chars()
        invariant
            it.seq() == s@,
            r@ == s@.take(it.index()),
    {
        proof {
            assert(s@.take(it.index() + 1) =~= s@.take(it.index()).push(c));
        }
        r.push(c);
    }
    proof {
        assert(s@.take(s@.len() as int) =~= s@);
    }
    r
}

/// The text made of `cs[from..to]`.
pub fn from_chars(cs: &Vec<char>, from: usize, to: usize) -> (r: String)
    requires
        from <= to <= cs@.len(),
    ensures
        r@ == cs@.subrange(from as int, to as int),
{
    let mut r = String::new();
    let mut i: usize = from;
    while i < to
        invariant
            from <= i <= to <= cs@.len(),
            r@ == cs@.subrange(from as int, i as int),
        decreases to - i,
    {
        r.push(cs[i]);
        i += 1;
        proof {
            assert(cs@.subrange(from as int, i as int) =~= cs@.subrange(
                from as int,
                i - 1,
            ).push(cs@[i - 1]));
        }
    }
    r
}

/// Whether `needle` occurs in `hay`.
pub open spec fn contains_text(hay: Seq<char>, needle: Seq<char>) -> bool {
    exists|i: int| #[trigger] occurs_at(hay, needle, i)
}

/// Whether `needle` stands in `hay` from position `i` on.
pub open spec fn occurs_at(hay: Seq<char>, needle: Seq<char>, i: int) -> bool {
    0 <= i && i + needle.len() <= hay.len() && hay.subrange(i, i + needle.len()) == needle
}

/// Whether `needle` stands in `hay` from position `i` on.
pub fn chars_at(hay: &Vec<char>, needle: &Vec<char>, i: usize) -> (r: bool)
    ensures
        r == occurs_at(hay@, needle@, i as int),
{
    if i > hay.len() || needle.len() > hay.len() - i {
        return false;
    }
    let end: usize = hay.len();
    let mut j: usize = 0;
    while j < needle.len()
        invariant
            j <= needle@.len(),
            end == hay@.len(),
            i + needle@.len() <= end,
            forall|k: int| 0 <= k < j ==> hay@[i + k] == needle@[k],
        decreases needle@.len() - j,
    {
        if hay[i + j] != needle[j] {
            proof {
                assert(hay@.subrange(i as int, i + needle@.len())[j as int] != needle@[j as int]);
            }
            return false;
        }
        j += 1;
    }
    proof {
        assert(hay@.subrange(i as int, i + needle@.len()) =~= needle@);
    }
    true
}

/// Whether `needle` occurs in `hay`.
pub fn contains(hay: &str, needle: &str) -> (r: bool)
    ensures
        r == contains_text(hay@, needle@),
{
    let h = to_chars(hay);
    let n = to_chars(needle);
    if n.len() > h.len() {
        return false;
    }
    let last: usize = h.len() - n.len();
    let mut i: usize = 0;
    while i <= last
        invariant
            i <= last + 1,
            last == h@.len() - n@.len(),
            h@ == hay@,
            n@ == needle@,
            forall|k: int| 0 <= k < i ==> !#[trigger] occurs_at(hay@, needle@, k),
        decreases last + 1 - i,
    {
        if chars_at(&h, &n, i) {
            return true;
        }
        if i == last {
            return false;
        }
        i += 1;
    }
    false
}

/// Whether a text starts with another.
pub open spec fn has_prefix(s: Seq<char>, prefix: Seq<char>) -> bool {
    prefix.len() <= s.len() && s.take(prefix.len() as int) == prefix
}

/// What stands behind a prefix.
pub open spec fn behind(s: Seq<char>, prefix: Seq<char>) -> Option<Seq<char>> {
    if has_prefix(s, prefix) {
        Some(s.skip(prefix.len() as int))
    } else {
        None
    }
}

/// What stands before a suffix.
pub open spec fn before_suffix(s: Seq<char>, suffix: Seq<char>) -> Option<Seq<char>> {
    if suffix.len() <= s.len() && s.skip(s.len() - suffix.len()) == suffix {
        Some(s.take(s.len() - suffix.len()))
    } else {
        None
    }
}

/// Whether a text starts with another.
pub fn starts_with(s: &str, prefix: &str) -> (r: bool)
    ensures
        r == has_prefix(s@, prefix@),
{
    let cs = to_chars(s);
    let p = to_chars(prefix);
    proof {
        if prefix@.len() <= s@.len() {
            assert(s@.subrange(0, prefix@.len() as int) =~= s@.take(prefix@.len() as int));
        }
    }
    chars_at(&cs, &p, 0)
}

/// What stands behind a prefix.
pub fn strip_prefix(s: &str, prefix: &str) -> (r: Option<String>)
    ensures
        r matches Some(t) ==> behind(s@, prefix@) == Some(t@),
        r is None ==> behind(s@, prefix@) is None,
{
    let cs = to_chars(s);
    let p = to_chars(prefix);
    if starts_with(s, prefix) {
        let t = from_chars(&cs, p.len(), cs.len());
        proof {
            assert(t@ =~= s@.skip(prefix@.len() as int));
        }
        Some(t)
    } else {
        None
    }
}

/// What stands before a suffix.
pub fn strip_suffix(s: &str, suffix: &str) -> (r: Option<String>)
    ensures
        r matches Some(t) ==> before_suffix(s@, suffix@) == Some(t@),
        r is None ==> before_suffix(s@, suffix@) is None,
{
    let cs = to_chars(s);
    let p = to_chars(suffix);
    if p.len() > cs.len() {
        return None;
    }
    let at: usize = cs.len() - p.len();
    proof {
        assert(s@.subrange(at as int, at + suffix@.len()) =~= s@.skip(at as int));
    }
    if chars_at(&cs, &p, at) {
        let t = from_chars(&cs, 0, at);
        proof {
            assert(t@ =~= s@.take(at as int));
        }
        Some(t)
    } else {
        None
    }
}

/// The texts of a list.
pub open spec fn texts(v: Seq<String>) -> Seq<Seq<char>> {
    Seq::new(v.len(), |i: int| v[i]@)
}

/// The texts of a list, one after the other, with `sep` between them.
pub open spec fn joined(parts: Seq<Seq<char>>, sep: Seq<char>) -> Seq<char>
    decreases parts.len(),
{
    if parts.len() == 0 {
        Seq::empty()
    } else if parts.len() == 1 {
        parts[0]
    } else {
        joined(parts.drop_last(), sep) + sep + parts.last()
    }
}

/// The texts of a list, one after the other, with `sep` between them.
pub fn join(parts: &Vec<String>, sep: &str) -> (r: String)
    ensures
        r@ == joined(texts(parts@), sep@),
{
    let mut r = String::new();
    let mut i: usize = 0;
    while i < parts.len()
        invariant
            i <= parts@.len(),
            r@ == joined(texts(parts@).take(i as int), sep@),
        decreases parts@.len() - i,
    {
        proof {
            let all = texts(parts@);
            assert(all.take(i + 1).drop_last() =~= all.take(i as int));
            assert(all.take(i + 1).last() == parts@[i as int]@);
        }
        if i > 0 {
            r.append(sep);
        }
        r.append(parts[i].as_str());
        proof {
            if i == 0 {
                assert(r@ =~= parts@[0]@);
            }
        }
        i += 1;
    }
    proof {
        assert(texts(parts@).take(parts@.len() as int) =~= texts(parts@));
    }
    r
}

/// The characters that count as white space.
pub open spec fn is_white(c: char) -> bool {
    let v = c as u32;
    ||| 0x09 <= v <= 0x0D
    ||| v == 0x20
    ||| v == 0x85
    ||| v == 0xA0
    ||| v == 0x1680
    ||| 0x2000 <= v <= 0x200A
    ||| v == 0x2028
    ||| v == 0x2029
    ||| v == 0x202F
    ||| v == 0x205F
    ||| v == 0x3000
}

/// Whether a character counts as white space.
pub fn is_whitespace(c: char) -> (r: bool)
    ensures
        r == is_white(c),
{
    let v: u32 = c as u32;
    (0x09 <= v && v <= 0x0D) || v == 0x20 || v == 0x85 || v == 0xA0 || v == 0x1680 || (0x2000 <= v
        && v <= 0x200A) || v == 0x2028 || v == 0x2029 || v == 0x202F || v == 0x205F || v == 0x3000
}

/// How many white characters a text starts with.
pub open spec fn white_prefix(s: Seq<char>) -> nat
    decreases s.len(),
{
    if s.len() > 0 && is_white(s[0]) {
        1 + white_prefix(s.drop_first())
    } else {
        0
    }
}

/// A text without the white space at its start.
pub open spec fn trimmed_start(s: Seq<char>) -> Seq<char> {
    s.skip(white_prefix(s) as int)
}

/// A text without the white space at its end.
pub open spec fn trimmed_end(s: Seq<char>) -> Seq<char>
    decreases s.len(),
{
    if s.len() > 0 && is_white(s.last()) {
        trimmed_end(s.drop_last())
    } else {
        s
    }
}

/// A text without the white space at either end.
pub open spec fn trimmed(s: Seq<char>) -> Seq<char> {
    trimmed_end(trimmed_start(s))
}

proof fn lemma_white_prefix(s: Seq<char>, i: int)
    requires
        0 <= i <= s.len(),
        forall|j: int| 0 <= j < i ==> is_white(#[trigger] s[j]),
        i < s.len() ==> !is_white(s[i]),
    ensures
        white_prefix(s) == i,
    decreases s.len(),
{
    if i > 0 {
        assert(is_white(s[0]));
        let t = s.drop_first();
        assert forall|j: int| 0 <= j < i - 1 implies is_white(#[trigger] t[j]) by {
            assert(t[j] == s[j + 1]);
        }
        lemma_white_prefix(t, i - 1);
    }
}

/// How many white characters `cs` starts with.
pub fn count_white(cs: &Vec<char>) -> (r: usize)
    ensures
        r == white_prefix(cs@),
        r <= cs@.len(),
{
    let mut i: usize = 0;
    while i < cs.len() && is_whitespace(cs[i])
        invariant
            i <= cs@.len(),
            forall|j: int| 0 <= j < i ==> is_white(#[trigger] cs@[j]),
        decreases cs@.len() - i,
    {
        i += 1;
    }
    proof {
        lemma_white_prefix(cs@, i as int);
    }
    i
}

/// A text without the white space at its end.
pub fn trim_end(s: &str) -> (r: String)
    ensures
        r@ == trimmed_end(s@),
{
    let cs = to_chars(s);
    let n = trimmed_len(&cs);
    from_chars(&cs, 0, n)
}

/// How much of `cs` is left without the white space at its end.
fn trimmed_len(cs: &Vec<char>) -> (n: usize)
    ensures
        n <= cs@.len(),
        cs@.subrange(0, n as int) == trimmed_end(cs@),
{
    let mut n: usize = cs.len();
    proof {
        assert(cs@.subrange(0, n as int) =~= cs@);
    }
    while n > 0 && is_whitespace(cs[n - 1])
        invariant
            n <= cs@.len(),
            trimmed_end(cs@.subrange(0, n as int)) == trimmed_end(cs@),
        decreases n,
    {
        proof {
            assert(cs@.subrange(0, n as int).drop_last() =~= cs@.subrange(0, n - 1));
        }
        n -= 1;
    }
    n
}

/// A text without the white space at either end.
pub fn trim(s: &str) -> (r: String)
    ensures
        r@ == trimmed(s@),
{
    let cs = to_chars(s);
    let from = count_white(&cs);
    let head = from_chars(&cs, from, cs.len());
    proof {
        assert(head@ =~= trimmed_start(s@));
    }
    trim_end(head.as_str())
}

/// The first word of a text: what stands before the next white space, white
/// space at the start left out.
pub open spec fn first_word(s: Seq<char>) -> Seq<char> {
    let t = trimmed_start(s);
    t.take(word_len(t) as int)
}

/// How many characters a text starts with that are not white.
pub open spec fn word_len(s: Seq<char>) -> nat
    decreases s.len(),
{
    if s.len() > 0 && !is_white(s[0]) {
        1 + word_len(s.drop_first())
    } else {
        0
    }
}

proof fn lemma_word_len(s: Seq<char>, i: int)
    requires
        0 <= i <= s.len(),
        forall|j: int| 0 <= j < i ==> !is_white(#[trigger] s[j]),
        i < s.len() ==> is_white(s[i]),
    ensures
        word_len(s) == i,
    decreases s.len(),
{
    if i > 0 {
        assert(!is_white(s[0]));
        let t = s.drop_first();
        assert forall|j: int| 0 <= j < i - 1 implies !is_white(#[trigger] t[j]) by {
            assert(t[j] == s[j + 1]);
        }
        lemma_word_len(t, i - 1);
    }
}

/// The first word of a text, or the empty text.
pub fn word(s: &str) -> (r: String)
    ensures
        r@ == first_word(s@),
{
    let cs = to_chars(s);
    let from = count_white(&cs);
    let mut to: usize = from;
    let ghost t = trimmed_start(s@);
    while to < cs.len() && !is_whitespace(cs[to])
        invariant
            from <= to <= cs@.len(),
            cs@ == s@,
            from == white_prefix(s@),
            forall|j: int| from <= j < to ==> !is_white(#[trigger] cs@[j]),
        decreases cs@.len() - to,
    {
        to += 1;
    }
    proof {
        assert forall|j: int| 0 <= j < to - from implies !is_white(#[trigger] t[j]) by {
            assert(t[j] == cs@[from + j]);
        }
        lemma_word_len(t, to - from);
        assert(cs@.subrange(from as int, to as int) =~= t.take(to - from));
    }
    from_chars(&cs, from, to)
}

/// The position of the first `c`; the length if there is none.
pub open spec fn index_of_char(s: Seq<char>, c: char) -> int
    decreases s.len(),
{
    if s.len() == 0 || s[0] == c {
        0
    } else {
        1 + index_of_char(s.drop_first(), c)
    }
}

pub proof fn lemma_index_of_char(s: Seq<char>, c: char, i: int)
    requires
        0 <= i <= s.len(),
        forall|j: int| 0 <= j < i ==> s[j] != c,
        i < s.len() ==> s[i] == c,
    ensures
        index_of_char(s, c) == i,
    decreases s.len(),
{
    if i > 0 {
        lemma_index_of_char(s.drop_first(), c, i - 1);
    }
}

/// A line without the carriage return at its end.
pub open spec fn without_cr(line: Seq<char>) -> Seq<char> {
    if line.len() > 0 && line.last() == '\r' {
        line.drop_last()
    } else {
        line
    }
}

/// The lines of a text. A line ends with a newline, or a carriage return and a
/// newline; the last one need not.
pub open spec fn text_lines(s: Seq<char>) -> Seq<Seq<char>>
    decreases s.len(),
{
    let i = index_of_char(s, '\n');
    if s.len() == 0 {
        Seq::empty()
    } else if 0 <= i < s.len() {
        seq![without_cr(s.take(i))] + text_lines(s.skip(i + 1))
    } else {
        seq![s]
    }
}

/// The lines of a text.
pub fn lines(s: &str) -> (r: Vec<String>)
    ensures
        texts(r@) == text_lines(s@),
{
    let cs = to_chars(s);
    let n: usize = cs.len();
    let mut out: Vec<String> = Vec::new();
    let mut from: usize = 0;
    proof {
        assert(s@.skip(0) =~= s@);
        assert(texts(out@) + text_lines(s@) =~= text_lines(s@));
    }
    while from < n
        invariant
            from <= n,
            n == cs@.len(),
            cs@ == s@,
            texts(out@) + text_lines(s@.skip(from as int)) == text_lines(s@),
        decreases n - from,
    {
        let ghost rest = s@.skip(from as int);
        let ghost before = texts(out@);
        let mut to: usize = from;
        while to < n && cs[to] != '\n'
            invariant
                from <= to <= n,
                n == cs@.len(),
                forall|j: int| from <= j < to ==> cs@[j] != '\n',
            decreases n - to,
        {
            to += 1;
        }
        proof {
            assert forall|j: int| 0 <= j < to - from implies rest[j] != '\n' by {
                assert(rest[j] == cs@[from + j]);
            }
            lemma_index_of_char(rest, '\n', to - from);
            assert(rest.take(to - from) =~= cs@.subrange(from as int, to as int));
        }
        if to < n {
            let mut end: usize = to;
            if end > from && cs[end - 1] == '\r' {
                end = end - 1;
            }
            let line = from_chars(&cs, from, end);
            proof {
                assert(line@ =~= without_cr(rest.take(to - from)));
                assert(rest.skip(to - from + 1) =~= s@.skip(to + 1));
            }
            out.push(line);
            proof {
                assert(texts(out@) =~= before.push(line@));
                assert(texts(out@) + text_lines(s@.skip(to + 1)) =~= before + text_lines(rest));
            }
            from = to + 1;
        } else {
            let line = from_chars(&cs, from, to);
            proof {
                assert(line@ =~= rest);
            }
            out.push(line);
            proof {
                assert(texts(out@) =~= before.push(line@));
                assert(s@.skip(to as int) =~= Seq::<char>::empty());
                assert(texts(out@) + text_lines(s@.skip(to as int)) =~= before + text_lines(rest));
            }
            from = to;
        }
    }
    proof {
        assert(s@.skip(from as int) =~= Seq::<char>::empty());
        assert(texts(out@) =~= text_lines(s@));
    }
    out
}

/// The parts of a text between the `c` in it.
pub open spec fn split_parts(s: Seq<char>, c: char) -> Seq<Seq<char>>
    decreases s.len(),
{
    let i = index_of_char(s, c);
    if 0 <= i < s.len() {
        seq![s.take(i)] + split_parts(s.skip(i + 1), c)
    } else {
        seq![s]
    }
}

/// The parts of a text between the `c` in it.
pub fn split(s: &str, c: char) -> (r: Vec<String>)
    ensures
        texts(r@) == split_parts(s@, c),
{
    let cs = to_chars(s);
    let n: usize = cs.len();
    let mut out: Vec<String> = Vec::new();
    let mut from: usize = 0;
    proof {
        assert(s@.skip(0) =~= s@);
        assert(texts(out@) + split_parts(s@, c) =~= split_parts(s@, c));
    }
    loop
        invariant
            from <= n,
            n == cs@.len(),
            cs@ == s@,
            texts(out@) + split_parts(s@.skip(from as int), c) == split_parts(s@, c),
        decreases n - from,
    {
        let ghost rest = s@.skip(from as int);
        let ghost before = texts(out@);
        let mut to: usize = from;
        while to < n && cs[to] != c
            invariant
                from <= to <= n,
                n == cs@.len(),
                forall|j: int| from <= j < to ==> cs@[j] != c,
            decreases n - to,
        {
            to += 1;
        }
        proof {
            assert forall|j: int| 0 <= j < to - from implies rest[j] != c by {
                assert(rest[j] == cs@[from + j]);
            }
            lemma_index_of_char(rest, c, to - from);
            assert(rest.take(to - from) =~= cs@.subrange(from as int, to as int));
        }
        let part = from_chars(&cs, from, to);
        out.push(part);
        proof {
            assert(texts(out@) =~= before.push(part@));
        }
        if to < n {
            proof {
                assert(rest.skip(to - from + 1) =~= s@.skip(to + 1));
                assert(texts(out@) + split_parts(s@.skip(to + 1), c) =~= before + split_parts(rest, c));
            }
            from = to + 1;
        } else {
            proof {
                assert(part@ =~= rest);
                assert(texts(out@) =~= before + split_parts(rest, c));
            }
            return out;
        }
    }
}

/// The character of a decimal digit.
pub open spec fn digit(d: nat) -> char {
    (48 + d) as char
}

/// A number in decimal.
pub open spec fn decimal(n: nat) -> Seq<char>
    decreases n,
{
    if n < 10 {
        seq![digit(n)]
    } else {
        decimal(n / 10).push(digit(n % 10))
    }
}

/// A number in decimal.
pub fn decimal_text(n: u128) -> (r: String)
    ensures
        r@ == decimal(n as nat),
    decreases n,
{
    let mut r = if n < 10 {
        String::new()
    } else {
        decimal_text(n / 10)
    };
    let d: u8 = (n % 10) as u8;
    r.push((48u8 + d) as char);
    proof {
        assert(r@ =~= decimal(n as nat));
    }
    r
}

} // verus!

//! Text primitives over character sequences: the line, field and whitespace
//! rules that the command outputs of the system tools are read with, and the
//! decimal rendering used in labels and command arguments.
use vstd::prelude::*;

verus! {

broadcast use vstd::string::group_string_axioms;

/// `char::is_whitespace`: the characters with the Unicode `White_Space` property.
pub open spec fn is_white_space(c: char) -> bool {
    let u = c as u32;
    ||| 0x09 <= u <= 0x0D
    ||| u == 0x20
    ||| u == 0x85
    ||| u == 0xA0
    ||| u == 0x1680
    ||| 0x2000 <= u <= 0x200A
    ||| u == 0x2028
    ||| u == 0x2029
    ||| u == 0x202F
    ||| u == 0x205F
    ||| u == 0x3000
}

/// `s` without its leading white space.
pub open spec fn trim_start(s: Seq<char>) -> Seq<char>
    decreases s.len(),
{
    if s.len() > 0 && is_white_space(s[0]) {
        trim_start(s.drop_first())
    } else {
        s
    }
}

/// `s` without its trailing white space.
pub open spec fn trim_end(s: Seq<char>) -> Seq<char>
    decreases s.len(),
{
    if s.len() > 0 && is_white_space(s.last()) {
        trim_end(s.drop_last())
    } else {
        s
    }
}

/// `str::trim`: `s` without white space at either end.
pub open spec fn trimmed(s: Seq<char>) -> Seq<char> {
    trim_end(trim_start(s))
}

/// `str::split`: the pieces of `s` between occurrences of `sep`, read from the left.
/// There is always at least one piece; an empty `s` gives one empty piece.
pub open spec fn split_on(s: Seq<char>, sep: char) -> Seq<Seq<char>>
    decreases s.len(),
{
    if s.len() == 0 {
        seq![Seq::<char>::empty()]
    } else {
        let prev = split_on(s.drop_last(), sep);
        if s.last() == sep {
            prev.push(Seq::<char>::empty())
        } else {
            prev.update(prev.len() - 1, prev.last().push(s.last()))
        }
    }
}

/// A line that was ended by `\n` loses one `\r` in front of it.
pub open spec fn strip_cr(l: Seq<char>) -> Seq<char> {
    if l.len() > 0 && l.last() == '\r' {
        l.drop_last()
    } else {
        l
    }
}

/// `str::lines`: lines end at `\n` or `\r\n`; the last line needs no ending,
/// and an empty last piece is no line.
pub open spec fn text_lines(s: Seq<char>) -> Seq<Seq<char>> {
    let p = split_on(s, '\n');
    let ended = p.drop_last().map_values(|l: Seq<char>| strip_cr(l));
    if p.last().len() == 0 {
        ended
    } else {
        ended.push(p.last())
    }
}

/// `str::contains` for a pattern string.
pub open spec fn contains_text(hay: Seq<char>, needle: Seq<char>) -> bool {
    exists|i: int|
        0 <= i && i + needle.len() <= hay.len() && #[trigger] hay.subrange(i, i + needle.len())
            == needle
}

/// The second field of `line` when it is cut at tabs (`split('\t').nth(1)`).
pub open spec fn second_field(line: Seq<char>) -> Option<Seq<char>> {
    let p = split_on(line, '\t');
    if p.len() > 1 {
        Some(p[1])
    } else {
        None
    }
}

/// The ASCII digit for `d < 10`.
pub open spec fn digit_char(d: nat) -> char {
    (48 + d) as char
}

/// The decimal digits of `n`, most significant first, with no leading zero.
pub open spec fn decimal(n: nat) -> Seq<char>
    decreases n,
{
    if n < 10 {
        seq![digit_char(n)]
    } else {
        decimal(n / 10).push(digit_char(n % 10))
    }
}

/// `format!("{:0w$}", n)`: the decimal digits of `n`, with zeros in front up to width `w`.
pub open spec fn zero_padded(n: nat, w: nat) -> Seq<char> {
    let d = decimal(n);
    if d.len() < w {
        Seq::new((w - d.len()) as nat, |i: int| '0') + d
    } else {
        d
    }
}

/// Appends one character to a string.
#[verifier::external_body]
fn push_char(s: &mut String, c: char)
    ensures
        final(s)@ == old(s)@.push(c),
{
    s.push(c);
}

/// The characters of `s`, in order.
pub fn chars_of(s: &str) -> (r: Vec<char>)
    ensures
        r@ == s@,
{
    let mut v: Vec<char> = Vec::new();
    for c in it: s.chars()
        invariant
            it.seq() == s@,
            v@ == it.seq().take(it.index()),
    {
        v.push(c);
    }
    v
}

/// The string made of `chars[from..to]`.
pub fn string_from(chars: &Vec<char>, from: usize, to: usize) -> (r: String)
    requires
        from <= to <= chars.len(),
    ensures
        r@ == chars@.subrange(from as int, to as int),
{
    let mut s = String::new();
    let mut i = from;
    while i < to
        invariant
            from <= i <= to <= chars.len(),
            s@ == chars@.subrange(from as int, i as int),
        decreases to - i,
    {
        push_char(&mut s, chars[i]);
        assert(chars@.subrange(from as int, i + 1) == chars@.subrange(from as int, i as int).push(
            chars@[i as int],
        ));
        i = i + 1;
    }
    s
}

/// Whether `c` is white space in the sense of `char::is_whitespace`.
pub fn is_white_space_char(c: char) -> (r: bool)
    ensures
        r == is_white_space(c),
{
    let u = c as u32;
    (0x09 <= u && u <= 0x0D) || u == 0x20 || u == 0x85 || u == 0xA0 || u == 0x1680 || (0x2000
        <= u && u <= 0x200A) || u == 0x2028 || u == 0x2029 || u == 0x202F || u == 0x205F || u
        == 0x3000
}

proof fn lemma_trim_start_skip(s: Seq<char>, i: int)
    requires
        0 <= i < s.len(),
        is_white_space(s[i]),
    ensures
        trim_start(s.skip(i)) == trim_start(s.skip(i + 1)),
{
    assert(s.skip(i).drop_first() =~= s.skip(i + 1));
}

proof fn lemma_trim_end_take(s: Seq<char>, j: int)
    requires
        0 < j <= s.len(),
        is_white_space(s[j - 1]),
    ensures
        trim_end(s.take(j)) == trim_end(s.take(j - 1)),
{
    assert(s.take(j).drop_last() =~= s.take(j - 1));
}

/// The bounds `(a, b)` such that `chars[a..b]` is `chars` trimmed of white space.
pub fn trim_bounds(chars: &Vec<char>) -> (r: (usize, usize))
    ensures
        r.0 <= r.1 <= chars.len(),
        chars@.subrange(r.0 as int, r.1 as int) == trimmed(chars@),
{
    let n = chars.len();
    let mut a: usize = 0;
    assert(chars@.skip(0) =~= chars@);
    while a < n && is_white_space_char(chars[a])
        invariant
            a <= n == chars.len(),
            trim_start(chars@) == trim_start(chars@.skip(a as int)),
        decreases n - a,
    {
        proof {
            lemma_trim_start_skip(chars@, a as int);
        }
        a = a + 1;
    }
    let ghost t = chars@.skip(a as int);
    assert(trim_start(chars@) == t) by {
        if a == n {
            assert(t.len() == 0);
        } else {
            assert(t[0] == chars@[a as int]);
        }
    }
    let mut b: usize = n;
    assert(t.take(n - a) =~= t);
    while b > a && is_white_space_char(chars[b - 1])
        invariant
            a <= b <= n == chars.len(),
            t == chars@.skip(a as int),
            trim_end(t) == trim_end(t.take(b - a)),
        decreases b - a,
    {
        proof {
            lemma_trim_end_take(t, (b - a) as int);
        }
        b = b - 1;
    }
    assert(t.take(b - a) =~= chars@.subrange(a as int, b as int));
    proof {
        let u = t.take(b - a);
        if b > a {
            assert(u.last() == chars@[b - 1]);
        }
    }
    (a, b)
}

/// The views of a list of character vectors.
pub open spec fn pieces_view(v: Seq<Vec<char>>) -> Seq<Seq<char>> {
    v.map_values(|p: Vec<char>| p@)
}

/// `chars` cut at every `sep`, as `split_on` describes.
pub fn split_chars(chars: &Vec<char>, sep: char) -> (r: Vec<Vec<char>>)
    ensures
        pieces_view(r@) == split_on(chars@, sep),
{
    let mut done: Vec<Vec<char>> = Vec::new();
    let mut cur: Vec<char> = Vec::new();
    let mut i: usize = 0;
    assert(chars@.take(0) =~= Seq::<char>::empty());
    assert(pieces_view(done@).push(cur@) =~= split_on(chars@.take(0), sep));
    while i < chars.len()
        invariant
            i <= chars.len(),
            pieces_view(done@).push(cur@) == split_on(chars@.take(i as int), sep),
        decreases chars.len() - i,
    {
        let c = chars[i];
        let ghost prev = split_on(chars@.take(i as int), sep);
        let ghost before = done@;
        assert(chars@.take(i + 1).drop_last() =~= chars@.take(i as int));
        assert(chars@.take(i + 1).last() == c);
        if c == sep {
            let piece = cur;
            let ghost pv = piece@;
            done.push(piece);
            cur = Vec::new();
            assert(pieces_view(done@) =~= pieces_view(before).push(pv));
            assert(pieces_view(done@).push(cur@) =~= prev.push(Seq::<char>::empty()));
        } else {
            cur.push(c);
            assert(pieces_view(done@).push(cur@) =~= prev.update(prev.len() - 1, prev.last().push(c)));
        }
        i = i + 1;
    }
    assert(chars@.take(chars.len() as int) =~= chars@);
    let ghost before = done@;
    let ghost cv = cur@;
    done.push(cur);
    assert(pieces_view(done@) =~= pieces_view(before).push(cv));
    done
}

proof fn lemma_split_on_nonempty(s: Seq<char>, sep: char)
    ensures
        split_on(s, sep).len() >= 1,
    decreases s.len(),
{
    if s.len() > 0 {
        lemma_split_on_nonempty(s.drop_last(), sep);
    }
}

/// A copy of `chars[from..to]`.
pub fn sub_chars(chars: &Vec<char>, from: usize, to: usize) -> (r: Vec<char>)
    requires
        from <= to <= chars.len(),
    ensures
        r@ == chars@.subrange(from as int, to as int),
{
    let mut v: Vec<char> = Vec::new();
    let mut i = from;
    while i < to
        invariant
            from <= i <= to <= chars.len(),
            v@ == chars@.subrange(from as int, i as int),
        decreases to - i,
    {
        v.push(chars[i]);
        assert(chars@.subrange(from as int, i + 1) =~= chars@.subrange(from as int, i as int).push(
            chars@[i as int],
        ));
        i = i + 1;
    }
    v
}

/// `l` without the `\r` that may stand before its line ending.
fn strip_cr_chars(l: &Vec<char>) -> (r: Vec<char>)
    ensures
        r@ == strip_cr(l@),
{
    let n = l.len();
    if n > 0 && l[n - 1] == '\r' {
        let r = sub_chars(l, 0, n - 1);
        assert(r@ =~= l@.drop_last());
        r
    } else {
        let r = sub_chars(l, 0, n);
        assert(r@ =~= l@);
        r
    }
}

/// The lines of `chars`, as `str::lines` gives them.
pub fn lines_of(chars: &Vec<char>) -> (r: Vec<Vec<char>>)
    ensures
        pieces_view(r@) == text_lines(chars@),
{
    let p = split_chars(chars, '\n');
    let ghost pv = split_on(chars@, '\n');
    proof {
        lemma_split_on_nonempty(chars@, '\n');
    }
    assert(p@.len() == pv.len());
    let n = p.len();
    let mut out: Vec<Vec<char>> = Vec::new();
    let mut k: usize = 0;
    while k < n - 1
        invariant
            n == p@.len() == pv.len() >= 1,
            pieces_view(p@) == pv,
            k <= n - 1,
            pieces_view(out@) == pv.take(k as int).map_values(|l: Seq<char>| strip_cr(l)),
        decreases n - 1 - k,
    {
        assert(p@[k as int]@ == pv[k as int]);
        let l = strip_cr_chars(&p[k]);
        let ghost before = out@;
        let ghost lv = l@;
        out.push(l);
        assert(pieces_view(out@) =~= pieces_view(before).push(lv));
        assert(pv.take(k + 1) =~= pv.take(k as int).push(pv[k as int]));
        assert(pieces_view(out@) =~= pv.take(k + 1).map_values(|l: Seq<char>| strip_cr(l)));
        k = k + 1;
    }
    assert(pv.take(n - 1) =~= pv.drop_last());
    assert(p@[n - 1]@ == pv.last());
    if p[n - 1].len() > 0 {
        let last = sub_chars(&p[n - 1], 0, p[n - 1].len());
        assert(last@ =~= pv.last());
        let ghost before = out@;
        out.push(last);
        assert(pieces_view(out@) =~= pieces_view(before).push(pv.last()));
    }
    out
}

/// Whether `hay` holds `needle` as a contiguous run.
pub fn contains_chars(hay: &Vec<char>, needle: &Vec<char>) -> (r: bool)
    ensures
        r == contains_text(hay@, needle@),
{
    let n = needle.len();
    if n > hay.len() {
        return false;
    }
    if n == 0 {
        assert(hay@.subrange(0int, 0int + needle@.len()) =~= needle@);
        return true;
    }
    let last = hay.len() - n;
    let mut i: usize = 0;
    while i <= last
        invariant
            n == needle@.len(),
            n >= 1,
            last + n == hay.len(),
            i <= last + 1,
            forall|k: int| 0 <= k < i ==> #[trigger] hay@.subrange(k, k + n) != needle@,
        decreases last + 1 - i,
    {
        let mut j: usize = 0;
        while j < n && hay[i + j] == needle[j]
            invariant
                n == needle@.len(),
                last + n == hay.len(),
                i <= last,
                j <= n,
                forall|m: int| 0 <= m < j ==> hay@[i + m] == needle@[m],
            decreases n - j,
        {
            j = j + 1;
        }
        if j == n {
            assert(hay@.subrange(i as int, i + n) =~= needle@);
            return true;
        }
        assert(hay@.subrange(i as int, i + n)[j as int] != needle@[j as int]);
        i = i + 1;
    }
    assert forall|k: int| 0 <= k && k + n <= hay@.len() implies #[trigger] hay@.subrange(k, k + n)
        != needle@ by {
        assert(k < i);
    }
    false
}

/// The second tab-separated field of `line`, if it has one.
pub fn second_field_of(line: &Vec<char>) -> (r: Option<Vec<char>>)
    ensures
        match r {
            Some(f) => second_field(line@) == Some(f@),
            None => second_field(line@) is None,
        },
{
    let p = split_chars(line, '\t');
    if p.len() > 1 {
        let f = sub_chars(&p[1], 0, p[1].len());
        assert(f@ =~= p@[1]@);
        Some(f)
    } else {
        None
    }
}

/// The ASCII digit for `d`.
fn digit(d: u32) -> (c: char)
    requires
        d < 10,
    ensures
        c == digit_char(d as nat),
{
    match d {
        0 => '0',
        1 => '1',
        2 => '2',
        3 => '3',
        4 => '4',
        5 => '5',
        6 => '6',
        7 => '7',
        8 => '8',
        _ => '9',
    }
}

/// Appends the decimal digits of `n` to `s`.
pub fn push_decimal(s: &mut String, n: u32)
    ensures
        final(s)@ == old(s)@ + decimal(n as nat),
    decreases n,
{
    if n >= 10 {
        push_decimal(s, n / 10);
    }
    let ghost mid = s@;
    push_char(s, digit(n % 10));
    proof {
        if n >= 10 {
            assert(decimal(n as nat) == decimal((n / 10) as nat).push(digit_char((n % 10) as nat)));
        } else {
            assert(n % 10 == n);
        }
    }
    assert(s@ =~= old(s)@ + decimal(n as nat));
}

proof fn lemma_decimal_len(n: nat)
    ensures
        decimal(n).len() >= 1,
        n >= 10 ==> decimal(n).len() == decimal(n / 10).len() + 1,
        n < 10 ==> decimal(n).len() == 1,
    decreases n,
{
    if n >= 10 {
        lemma_decimal_len(n / 10);
    }
}

proof fn lemma_decimal_short(n: nat)
    ensures
        decimal(n).len() <= n / 2 + 1,
    decreases n,
{
    if n >= 10 {
        lemma_decimal_short(n / 10);
    }
}

/// Appends `n` in decimal, with zeros in front up to `width` digits.
pub fn push_zero_padded(s: &mut String, n: u32, width: usize)
    ensures
        final(s)@ == old(s)@ + zero_padded(n as nat, width as nat),
{
    let mut len: usize = 1;
    let mut m: u32 = n;
    proof {
        lemma_decimal_len(n as nat);
        lemma_decimal_short(n as nat);
    }
    while m >= 10
        invariant
            1 <= len,
            decimal(n as nat).len() == len - 1 + decimal(m as nat).len(),
            decimal(m as nat).len() >= 1,
            decimal(n as nat).len() <= n / 2 + 1,
        decreases m,
    {
        proof {
            lemma_decimal_len(m as nat);
            lemma_decimal_len((m / 10) as nat);
        }
        m = m / 10;
        len = len + 1;
    }
    let ghost start = s@;
    let mut k: usize = len;
    while k < width
        invariant
            len <= width ==> len <= k <= width,
            len > width ==> k == len,
            s@ == start + Seq::new((k - len) as nat, |i: int| '0'),
        decreases width - k,
    {
        push_char(s, '0');
        assert(s@ =~= start + Seq::new((k + 1 - len) as nat, |i: int| '0'));
        k = k + 1;
    }
    let ghost zeros = s@;
    push_decimal(s, n);
    proof {
        lemma_decimal_len(m as nat);
        assert(decimal(n as nat).len() == len);
        if len < width {
            assert(s@ =~= start + (Seq::new((width - len) as nat, |i: int| '0') + decimal(n as nat)));
        } else {
            assert(s@ =~= start + decimal(n as nat));
        }
    }
}

/// Whether `c` is an ASCII digit.
pub open spec fn is_digit(c: char) -> bool {
    48 <= (c as u32) <= 57
}

/// Whether every character of `s` is an ASCII digit.
pub open spec fn all_digits(s: Seq<char>) -> bool {
    forall|i: int| 0 <= i < s.len() ==> #[trigger] is_digit(s[i])
}

/// The number that the ASCII digits `s` stand for in base ten.
pub open spec fn digits_value(s: Seq<char>) -> nat
    decreases s.len(),
{
    if s.len() == 0 {
        0
    } else {
        digits_value(s.drop_last()) * 10 + ((s.last() as u32) - 48) as nat
    }
}

/// The decimal text of a number reads back as that number: it is a non-empty run
/// of ASCII digits, with no leading zero, whose value in base ten is the number.
pub proof fn lemma_decimal_reads_back(n: nat)
    ensures
        decimal(n).len() >= 1,
        all_digits(decimal(n)),
        digits_value(decimal(n)) == n,
        decimal(n).len() > 1 ==> decimal(n)[0] != '0',
    decreases n,
{
    let d = (n % 10) as nat;
    assert((digit_char(d) as u32) == 48 + d);
    if n >= 10 {
        lemma_decimal_reads_back(n / 10);
        let prev = decimal(n / 10);
        let cur = decimal(n);
        assert(cur == prev.push(digit_char(d)));
        assert(cur.drop_last() =~= prev);
        assert(cur.last() == digit_char(d));
        assert(((cur.last() as u32) - 48) as nat == d);
        assert(digits_value(cur) == digits_value(prev) * 10 + d);
        assert(digits_value(prev) == n / 10);
        assert((n / 10) * 10 + n % 10 == n);
        assert forall|i: int| 0 <= i < cur.len() implies #[trigger] is_digit(cur[i]) by {
            if i < prev.len() {
                assert(cur[i] == prev[i]);
                assert(is_digit(prev[i]));
            }
        }
        assert(cur[0] == prev[0]);
        if prev.len() == 1 {
            assert(n / 10 < 10) by {
                if n / 10 >= 10 {
                    lemma_decimal_len(n / 10);
                }
            }
            assert(prev[0] == digit_char(n / 10));
            assert((digit_char(n / 10) as u32) == 48 + n / 10);
        }
    } else {
        let cur = decimal(n);
        assert(cur == seq![digit_char(n)]);
        assert(cur.drop_last() =~= Seq::<char>::empty());
        assert(cur.last() == digit_char(n));
        assert(n % 10 == n);
        assert(digits_value(cur) == digits_value(cur.drop_last()) * 10 + ((cur.last() as u32) - 48) as nat);
        assert(is_digit(cur[0]));
    }
}

proof fn lemma_split_on_append_plain(s: Seq<char>, t: Seq<char>, sep: char)
    requires
        forall|i: int| 0 <= i < t.len() ==> t[i] != sep,
    ensures
        split_on(s + t, sep) == split_on(s, sep).update(
            split_on(s, sep).len() - 1,
            split_on(s, sep).last() + t,
        ),
        split_on(s + t, sep).len() == split_on(s, sep).len(),
    decreases t.len(),
{
    lemma_split_on_nonempty(s, sep);
    if t.len() == 0 {
        assert(s + t =~= s);
        assert(split_on(s, sep).last() + t =~= split_on(s, sep).last());
        assert(split_on(s, sep).update(split_on(s, sep).len() - 1, split_on(s, sep).last())
            =~= split_on(s, sep));
    } else {
        let t0 = t.drop_last();
        lemma_split_on_append_plain(s, t0, sep);
        assert((s + t).drop_last() =~= s + t0);
        assert((s + t).last() == t.last());
        let p = split_on(s, sep);
        let q = split_on(s + t0, sep);
        assert(q.last() == p.last() + t0);
        assert(q.last().push(t.last()) =~= p.last() + t);
        assert(split_on(s + t, sep) =~= p.update(p.len() - 1, p.last() + t));
    }
}

proof fn lemma_split_on_ends_empty(s: Seq<char>, sep: char)
    requires
        s.len() == 0 || s.last() == sep,
    ensures
        split_on(s, sep).len() >= 1,
        split_on(s, sep).last() == Seq::<char>::empty(),
{
    lemma_split_on_nonempty(s, sep);
    if s.len() > 0 {
        lemma_split_on_nonempty(s.drop_last(), sep);
    }
}

/// Appending one ended line to text that is empty or ends with a line ending
/// appends exactly that line to its lines.
pub proof fn lemma_lines_append(l: Seq<char>, line: Seq<char>)
    requires
        l.len() == 0 || l.last() == '\n',
        forall|i: int| 0 <= i < line.len() ==> line[i] != '\n',
        line.len() > 0,
        line.last() != '\r',
    ensures
        text_lines((l + line).push('\n')) == text_lines(l).push(line),
{
    lemma_split_on_ends_empty(l, '\n');
    lemma_split_on_append_plain(l, line, '\n');
    let p = split_on(l, '\n');
    let q = split_on(l + line, '\n');
    let r = split_on((l + line).push('\n'), '\n');
    assert(((l + line).push('\n')).drop_last() =~= l + line);
    assert(r == q.push(Seq::<char>::empty()));
    assert(q =~= p.drop_last().push(line));
    assert(r.drop_last() =~= p.drop_last().push(line));
    assert(strip_cr(line) == line);
    let f = |x: Seq<char>| strip_cr(x);
    assert(r.drop_last().map_values(f) =~= p.drop_last().map_values(f).push(line));
    assert(text_lines(l) == p.drop_last().map_values(f));
}

proof fn lemma_trim_start_shape(s: Seq<char>) -> (a: int)
    ensures
        0 <= a <= s.len(),
        trim_start(s) == s.skip(a),
        forall|i: int| 0 <= i < a ==> is_white_space(#[trigger] s[i]),
        a < s.len() ==> !is_white_space(s[a]),
    decreases s.len(),
{
    if s.len() > 0 && is_white_space(s[0]) {
        let a0 = lemma_trim_start_shape(s.drop_first());
        assert(s.drop_first().skip(a0) =~= s.skip(a0 + 1));
        assert forall|i: int| 0 <= i < a0 + 1 implies is_white_space(#[trigger] s[i]) by {
            if i > 0 {
                assert(s[i] == s.drop_first()[i - 1]);
            }
        }
        if a0 + 1 < s.len() {
            assert(s[a0 + 1] == s.drop_first()[a0]);
        }
        a0 + 1
    } else {
        assert(s.skip(0) =~= s);
        0
    }
}

proof fn lemma_trim_end_shape(s: Seq<char>) -> (b: int)
    ensures
        0 <= b <= s.len(),
        trim_end(s) == s.take(b),
        forall|i: int| b <= i < s.len() ==> is_white_space(#[trigger] s[i]),
        b > 0 ==> !is_white_space(s[b - 1]),
    decreases s.len(),
{
    if s.len() > 0 && is_white_space(s.last()) {
        let b0 = lemma_trim_end_shape(s.drop_last());
        assert(s.drop_last().take(b0) =~= s.take(b0));
        assert forall|i: int| b0 <= i < s.len() implies is_white_space(#[trigger] s[i]) by {
            if i < s.len() - 1 {
                assert(s[i] == s.drop_last()[i]);
            }
        }
        if b0 > 0 {
            assert(s[b0 - 1] == s.drop_last()[b0 - 1]);
        }
        b0
    } else {
        assert(s.take(s.len() as int) =~= s);
        s.len() as int
    }
}

/// Trimming removes exactly the white space at both ends: the result is a
/// contiguous part of the text with only white space before and after it, and it
/// neither starts nor ends with white space.
pub proof fn lemma_trimmed_shape(s: Seq<char>)
    ensures
        exists|a: int, b: int|
            0 <= a <= b <= s.len() && trimmed(s) == s.subrange(a, b) && (forall|i: int|
                0 <= i < a ==> is_white_space(#[trigger] s[i])) && (forall|i: int|
                b <= i < s.len() ==> is_white_space(#[trigger] s[i])),
        trimmed(s).len() > 0 ==> !is_white_space(trimmed(s)[0]) && !is_white_space(
            trimmed(s).last(),
        ),
{
    let a = lemma_trim_start_shape(s);
    let t = s.skip(a);
    let b = lemma_trim_end_shape(t);
    assert(t.take(b) =~= s.subrange(a, a + b));
    assert forall|i: int| a + b <= i < s.len() implies is_white_space(#[trigger] s[i]) by {
        assert(s[i] == t[i - a]);
    }
    if b > 0 {
        assert(trimmed(s)[0] == s[a]);
        assert(trimmed(s).last() == t[b - 1]);
    }
}

} // verus!

//! Character-level text handling: the exact string operations the parsers
//! rely on, each stated over `Seq<char>` and implemented over `Vec<char>`.
use vstd::prelude::*;

verus! {

/// `String::push`: the contract claims that pushing a character appends
/// it to the string's characters.
pub assume_specification[ String::push ](s: &mut String, ch: char)
    ensures
        final(s)@ == old(s)@.push(ch),
;

/// The views of a sequence of character vectors.
pub open spec fn views(v: Seq<Vec<char>>) -> Seq<Seq<char>> {
    v.map_values(|x: Vec<char>| x@)
}

/// `char::is_whitespace`: the Unicode `White_Space` property.
pub open spec fn is_ws(c: char) -> bool {
    ||| ('\u{9}' <= c && c <= '\u{d}')
    ||| c == ' '
    ||| c == '\u{85}'
    ||| c == '\u{a0}'
    ||| c == '\u{1680}'
    ||| ('\u{2000}' <= c && c <= '\u{200a}')
    ||| c == '\u{2028}'
    ||| c == '\u{2029}'
    ||| c == '\u{202f}'
    ||| c == '\u{205f}'
    ||| c == '\u{3000}'
}

pub fn is_ws_exec(c: char) -> (b: bool)
    ensures
        b == is_ws(c),
{
    ('\u{9}' <= c && c <= '\u{d}') || c == ' ' || c == '\u{85}' || c == '\u{a0}' || c
        == '\u{1680}' || ('\u{2000}' <= c && c <= '\u{200a}') || c == '\u{2028}' || c
        == '\u{2029}' || c == '\u{202f}' || c == '\u{205f}' || c == '\u{3000}'
}

/// `s` without its leading whitespace.
pub open spec fn trim_start(s: Seq<char>) -> Seq<char>
    decreases s.len(),
{
    if s.len() > 0 && is_ws(s[0]) {
        trim_start(s.drop_first())
    } else {
        s
    }
}

/// `s` without its trailing whitespace.
pub open spec fn trim_end(s: Seq<char>) -> Seq<char>
    decreases s.len(),
{
    if s.len() > 0 && is_ws(s.last()) {
        trim_end(s.drop_last())
    } else {
        s
    }
}

/// `str::trim`.
pub open spec fn trim(s: Seq<char>) -> Seq<char> {
    trim_end(trim_start(s))
}

/// The characters of `s`, in order.
pub fn chars_of(s: &str) -> (out: Vec<char>)
    ensures
        out@ == s@,
{
    let mut out: Vec<char> = Vec::new();
    for c in it: s.chars()
        invariant
            out@ == it.seq().take(it.index() as int),
    {
        out.push(c);
    }
    out
}

/// An owned copy of a string slice.
pub fn owned(s: &str) -> (r: String)
    ensures
        r@ == s@,
{
    String::from_str(s)
}

/// A `String` holding exactly the characters of `chars`.
pub fn string_of(chars: &Vec<char>) -> (out: String)
    ensures
        out@ == chars@,
{
    let mut out = String::new();
    let mut i: usize = 0;
    while i < chars.len()
        invariant
            i <= chars@.len(),
            out@ == chars@.take(i as int),
        decreases chars@.len() - i,
    {
        out.push(chars[i]);
        i = i + 1;
        assert(chars@.take(i as int) == chars@.take(i - 1).push(chars@[i - 1]));
    }
    assert(chars@.take(chars@.len() as int) == chars@);
    out
}

/// The characters `v[lo..hi]`.
pub fn copy_range(v: &Vec<char>, lo: usize, hi: usize) -> (out: Vec<char>)
    requires
        lo <= hi <= v@.len(),
    ensures
        out@ == v@.subrange(lo as int, hi as int),
{
    let mut out: Vec<char> = Vec::new();
    let mut i = lo;
    while i < hi
        invariant
            lo <= i <= hi <= v@.len(),
            out@ == v@.subrange(lo as int, i as int),
        decreases hi - i,
    {
        out.push(v[i]);
        i = i + 1;
        assert(v@.subrange(lo as int, i as int) == v@.subrange(lo as int, i - 1).push(v@[i - 1]));
    }
    out
}

/// Appends `b` to `a`.
pub fn append(a: &mut Vec<char>, b: &Vec<char>)
    ensures
        final(a)@ == old(a)@ + b@,
{
    let mut i: usize = 0;
    while i < b.len()
        invariant
            i <= b@.len(),
            a@ == old(a)@ + b@.take(i as int),
        decreases b@.len() - i,
    {
        a.push(b[i]);
        i = i + 1;
        assert(b@.take(i as int) == b@.take(i - 1).push(b@[i - 1]));
    }
    assert(b@.take(b@.len() as int) == b@);
}

/// Appends the characters of a string slice to `a`.
pub fn append_str(a: &mut Vec<char>, s: &str)
    ensures
        final(a)@ == old(a)@ + s@,
{
    let b = chars_of(s);
    append(a, &b);
}

/// `str::trim`.
pub fn trim_exec(v: &Vec<char>) -> (out: Vec<char>)
    ensures
        out@ == trim(v@),
{
    let n = v.len();
    let mut lo: usize = 0;
    assert(v@.subrange(0, n as int) == v@);
    while lo < n && is_ws_exec(v[lo])
        invariant
            lo <= n == v@.len(),
            trim_start(v@) == trim_start(v@.subrange(lo as int, n as int)),
        decreases n - lo,
    {
        assert(v@.subrange(lo as int, n as int).drop_first() == v@.subrange(lo + 1, n as int));
        lo = lo + 1;
    }
    let ghost t = v@.subrange(lo as int, n as int);
    assert(trim_start(t) == t);
    let mut hi: usize = n;
    assert(v@.subrange(lo as int, hi as int) == t);
    while hi > lo && is_ws_exec(v[hi - 1])
        invariant
            lo <= hi <= n == v@.len(),
            t == v@.subrange(lo as int, n as int),
            trim_end(t) == trim_end(v@.subrange(lo as int, hi as int)),
        decreases hi - lo,
    {
        assert(v@.subrange(lo as int, hi as int).drop_last() == v@.subrange(lo as int, hi - 1));
        hi = hi - 1;
    }
    copy_range(v, lo, hi)
}

/// Whether two character sequences are equal.
pub fn eq_chars(a: &Vec<char>, b: &Vec<char>) -> (r: bool)
    ensures
        r == (a@ == b@),
{
    if a.len() != b.len() {
        return false;
    }
    let mut i: usize = 0;
    while i < a.len()
        invariant
            a@.len() == b@.len(),
            i <= a@.len(),
            forall|j: int| 0 <= j < i ==> a@[j] == b@[j],
        decreases a@.len() - i,
    {
        if a[i] != b[i] {
            return false;
        }
        i = i + 1;
    }
    assert(a@ == b@);
    true
}

/// Whether `a` holds exactly the characters of the slice `s`.
pub fn eq_str(a: &Vec<char>, s: &str) -> (r: bool)
    ensures
        r == (a@ == s@),
{
    let b = chars_of(s);
    eq_chars(a, &b)
}


/// `str::split(c)`: the pieces of `s` between occurrences of `c`.
pub open spec fn split_on(s: Seq<char>, c: char) -> Seq<Seq<char>>
    decreases s.len(),
{
    if s.len() == 0 {
        seq![Seq::<char>::empty()]
    } else {
        let r = split_on(s.drop_last(), c);
        if s.last() == c {
            r.push(Seq::<char>::empty())
        } else {
            r.update(r.len() - 1, r.last().push(s.last()))
        }
    }
}

pub proof fn lemma_split_on_len(s: Seq<char>, c: char)
    ensures
        split_on(s, c).len() >= 1,
    decreases s.len(),
{
    if s.len() > 0 {
        lemma_split_on_len(s.drop_last(), c);
    }
}

/// `str::split(c)`.
pub fn split_exec(v: &Vec<char>, c: char) -> (out: Vec<Vec<char>>)
    ensures
        views(out@) == split_on(v@, c),
{
    let mut done: Vec<Vec<char>> = Vec::new();
    let mut cur: Vec<char> = Vec::new();
    let mut i: usize = 0;
    assert(v@.take(0) == Seq::<char>::empty());
    assert(views(done@).push(cur@) == split_on(v@.take(0), c));
    while i < v.len()
        invariant
            i <= v@.len(),
            views(done@).push(cur@) == split_on(v@.take(i as int), c),
        decreases v@.len() - i,
    {
        let ghost pre = v@.take(i as int);
        proof {
            lemma_split_on_len(pre, c);
            assert(v@.take(i + 1).drop_last() == pre);
        }
        if v[i] == c {
            let ghost before = done@;
            let piece = cur;
            done.push(piece);
            cur = Vec::new();
            assert(views(done@) =~= views(before).push(piece@));
        } else {
            cur.push(v[i]);
        }
        i = i + 1;
        assert(views(done@).push(cur@) =~= split_on(v@.take(i as int), c));
    }
    assert(v@.take(v@.len() as int) == v@);
    done.push(cur);
    assert(views(done@) =~= split_on(v@, c));
    done
}


/// `l` without one trailing carriage return.
pub open spec fn strip_cr(l: Seq<char>) -> Seq<char> {
    if l.len() > 0 && l.last() == '\r' {
        l.drop_last()
    } else {
        l
    }
}

/// `str::lines`: pieces between `\n`, a final empty piece dropped, and a
/// `\r` before each `\n` removed.
pub open spec fn lines(s: Seq<char>) -> Seq<Seq<char>> {
    let p = split_on(s, '\n');
    let n = if p.last().len() == 0 { p.len() - 1 } else { p.len() as int };
    Seq::new(n as nat, |i: int| if i < p.len() - 1 { strip_cr(p[i]) } else { p[i] })
}

/// `str::lines`.
pub fn lines_exec(v: &Vec<char>) -> (out: Vec<Vec<char>>)
    ensures
        views(out@) == lines(v@),
{
    let p = split_exec(v, '\n');
    proof {
        lemma_split_on_len(v@, '\n');
    }
    let np = p.len();
    let n = if p[np - 1].len() == 0 { np - 1 } else { np };
    let mut out: Vec<Vec<char>> = Vec::new();
    let mut i: usize = 0;
    while i < n
        invariant
            n <= np == p@.len(),
            views(p@) == split_on(v@, '\n'),
            i <= n,
            out@.len() == i,
            forall|j: int|
                0 <= j < i ==> #[trigger] out@[j]@ == (if j < np - 1 {
                    strip_cr(p@[j]@)
                } else {
                    p@[j]@
                }),
        decreases n - i,
    {
        let piece = &p[i];
        let len = piece.len();
        if i + 1 < np && len > 0 && piece[len - 1] == '\r' {
            out.push(copy_range(piece, 0, len - 1));
        } else {
            out.push(copy_range(piece, 0, len));
        }
        assert(piece@.subrange(0, len as int) == piece@);
        i = i + 1;
    }
    assert(views(out@) =~= lines(v@));
    out
}

/// The first position of `c` in `s`, if any.
pub open spec fn first_index(s: Seq<char>, c: char) -> Option<int> {
    if exists|i: int| 0 <= i < s.len() && s[i] == c {
        Some(
            choose|i: int|
                0 <= i < s.len() && s[i] == c && forall|j: int| 0 <= j < i ==> s[j] != c,
        )
    } else {
        None
    }
}

/// `str::split_once(c)`.
pub open spec fn split_once(s: Seq<char>, c: char) -> Option<(Seq<char>, Seq<char>)> {
    match first_index(s, c) {
        Some(i) => Some((s.take(i), s.skip(i + 1))),
        None => None,
    }
}

/// The first position of `c` in `v`.
pub fn find_char(v: &Vec<char>, c: char) -> (r: Option<usize>)
    ensures
        match r {
            Some(i) => first_index(v@, c) == Some(i as int) && i < v@.len() && v@[i as int] == c,
            None => first_index(v@, c) is None,
        },
{
    let mut i: usize = 0;
    while i < v.len()
        invariant
            i <= v@.len(),
            forall|j: int| 0 <= j < i ==> v@[j] != c,
        decreases v@.len() - i,
    {
        if v[i] == c {
            assert(0 <= i < v@.len() && v@[i as int] == c);
            let ghost k = choose|k: int|
                0 <= k < v@.len() && v@[k] == c && forall|j: int| 0 <= j < k ==> v@[j] != c;
            assert(k == i) by {
                if k < i {
                } else if k > i {
                    assert(v@[i as int] != c);
                }
            }
            return Some(i);
        }
        i = i + 1;
    }
    None
}

/// `str::split_once(c)`.
pub fn split_once_exec(v: &Vec<char>, c: char) -> (r: Option<(Vec<char>, Vec<char>)>)
    ensures
        match r {
            Some((a, b)) => split_once(v@, c) == Some((a@, b@)),
            None => split_once(v@, c) is None,
        },
{
    match find_char(v, c) {
        Some(i) => {
            let n = v.len();
            assert(i < n);
            let a = copy_range(v, 0, i);
            let b = copy_range(v, i + 1, n);
            assert(a@ == v@.take(i as int));
            assert(b@ == v@.skip(i + 1));
            Some((a, b))
        },
        None => None,
    }
}

/// `str::split_whitespace`: the maximal runs of non-whitespace characters.
pub open spec fn words(s: Seq<char>) -> Seq<Seq<char>>
    decreases s.len(),
{
    if s.len() == 0 {
        Seq::empty()
    } else {
        let r = words(s.drop_last());
        let c = s.last();
        if is_ws(c) {
            r
        } else if s.len() > 1 && !is_ws(s[s.len() - 2]) {
            r.update(r.len() - 1, r.last().push(c))
        } else {
            r.push(seq![c])
        }
    }
}

pub proof fn lemma_words_nonempty(s: Seq<char>)
    requires
        s.len() > 0,
        !is_ws(s.last()),
    ensures
        words(s).len() > 0,
    decreases s.len(),
{
    if s.len() > 1 && !is_ws(s[s.len() - 2]) {
        lemma_words_nonempty(s.drop_last());
    }
}

/// `str::split_whitespace`.
pub fn words_exec(v: &Vec<char>) -> (out: Vec<Vec<char>>)
    ensures
        views(out@) == words(v@),
{
    let mut done: Vec<Vec<char>> = Vec::new();
    let mut cur: Vec<char> = Vec::new();
    let mut i: usize = 0;
    assert(v@.take(0) == Seq::<char>::empty());
    while i < v.len()
        invariant
            i <= v@.len(),
            cur@.len() > 0 ==> i > 0 && !is_ws(v@[i - 1]),
            i > 0 && !is_ws(v@[i - 1]) ==> cur@.len() > 0,
            cur@.len() == 0 ==> views(done@) == words(v@.take(i as int)),
            cur@.len() > 0 ==> views(done@).push(cur@) == words(v@.take(i as int)),
        decreases v@.len() - i,
    {
        let ghost pre = v@.take(i as int);
        proof {
            assert(v@.take(i + 1).drop_last() == pre);
            if i > 0 {
                assert(pre.last() == v@[i - 1]);
            }
        }
        let c = v[i];
        let ghost old_cur = cur@;
        if is_ws_exec(c) {
            if cur.len() > 0 {
                let ghost before = done@;
                let piece = cur;
                done.push(piece);
                cur = Vec::new();
                assert(views(done@) =~= views(before).push(piece@));
            }
        } else {
            if cur.len() == 0 {
                proof {
                    if i > 0 {
                        assert(is_ws(v@[i - 1]));
                    }
                }
            }
            cur.push(c);
        }
        i = i + 1;
        proof {
            let now = v@.take(i as int);
            assert(now.last() == c);
            assert(now.drop_last() == pre);
            if now.len() > 1 {
                assert(now[now.len() - 2] == v@[i - 2]);
            }
            if !is_ws(c) {
                if old_cur.len() > 0 {
                    let r = words(pre);
                    assert(r == views(done@).push(old_cur));
                    assert(words(now) == r.update(r.len() - 1, r.last().push(c)));
                    assert(views(done@).push(cur@) =~= words(now));
                } else {
                    assert(cur@ =~= seq![c]);
                    assert(views(done@).push(cur@) =~= words(now));
                }
            }
        }
        assert(cur@.len() == 0 ==> views(done@) =~= words(v@.take(i as int)));
        assert(cur@.len() > 0 ==> views(done@).push(cur@) =~= words(v@.take(i as int)));
    }
    assert(v@.take(v@.len() as int) == v@);
    if cur.len() > 0 {
        let ghost before = done@;
        let piece = cur;
        done.push(piece);
        assert(views(done@) =~= views(before).push(piece@));
    }
    done
}


pub open spec fn is_digit(c: char) -> bool {
    '0' <= c && c <= '9'
}

pub open spec fn digit_of(c: char) -> nat {
    (c as int - '0' as int) as nat
}

/// The value of a run of decimal digits.
pub open spec fn digits_value(s: Seq<char>) -> nat
    decreases s.len(),
{
    if s.len() == 0 {
        0
    } else {
        digits_value(s.drop_last()) * 10 + digit_of(s.last())
    }
}

pub open spec fn all_digits(s: Seq<char>) -> bool {
    forall|i: int| 0 <= i < s.len() ==> is_digit(#[trigger] s[i])
}

/// The digits `from_str` reads for an unsigned type: an optional leading `+`
/// is skipped.
pub open spec fn unsigned_digits(s: Seq<char>) -> Seq<char> {
    if s.len() > 0 && s[0] == '+' {
        s.drop_first()
    } else {
        s
    }
}

/// `str::parse` for an unsigned integer type whose largest value is `max`.
pub open spec fn parse_unsigned(s: Seq<char>, max: nat) -> Option<nat> {
    let d = unsigned_digits(s);
    if d.len() > 0 && all_digits(d) && digits_value(d) <= max {
        Some(digits_value(d))
    } else {
        None
    }
}

pub proof fn lemma_digits_value_prefix(s: Seq<char>, k: int)
    requires
        0 <= k <= s.len(),
    ensures
        digits_value(s.take(k)) <= digits_value(s),
    decreases s.len(),
{
    if k < s.len() {
        assert(s.drop_last().take(k) == s.take(k));
        lemma_digits_value_prefix(s.drop_last(), k);
    } else {
        assert(s.take(k) == s);
    }
}

/// `str::parse::<u64>`.
pub fn parse_u64_exec(v: &Vec<char>) -> (r: Option<u64>)
    ensures
        match r {
            Some(n) => parse_unsigned(v@, u64::MAX as nat) == Some(n as nat),
            None => parse_unsigned(v@, u64::MAX as nat) is None,
        },
{
    let len = v.len();
    let start: usize = if len > 0 && v[0] == '+' { 1 } else { 0 };
    let ghost d = unsigned_digits(v@);
    assert(d == v@.subrange(start as int, len as int));
    if start >= len {
        return None;
    }
    let mut acc: u64 = 0;
    let mut i = start;
    assert(d.take(0) == Seq::<char>::empty());
    while i < len
        invariant
            start <= i <= len == v@.len(),
            d == unsigned_digits(v@),
            d == v@.subrange(start as int, len as int),
            acc as nat == digits_value(d.take(i - start)),
            forall|j: int| start <= j < i ==> is_digit(v@[j]),
        decreases len - i,
    {
        let c = v[i];
        if !('0' <= c && c <= '9') {
            proof {
                let k = (i - start) as int;
                assert(d[k] == c);
                assert(!is_digit(d[k]));
                assert(!all_digits(d));
            }
            return None;
        }
        let dv: u64 = (c as u32 - '0' as u32) as u64;
        let ghost pre = d.take(i - start);
        let ghost next = d.take(i - start + 1);
        assert(next.drop_last() == pre);
        assert(next.last() == c);
        if acc > (u64::MAX - dv) / 10 {
            proof {
                lemma_digits_value_prefix(d, i - start + 1);
                let m = u64::MAX as int;
                let a = acc as int;
                let e = dv as int;
                assert(a * 10 + e > m) by (nonlinear_arith)
                    requires
                        a > (m - e) / 10,
                        0 <= e < 10,
                        m > 10,
                ;
                assert(digits_value(next) == digits_value(pre) * 10 + digit_of(c));
            }
            return None;
        }
        acc = acc * 10 + dv;
        i = i + 1;
    }
    assert(d.take(len - start) == d);
    assert(all_digits(d));
    Some(acc)
}

/// `str::parse::<u32>`.
pub fn parse_u32_exec(v: &Vec<char>) -> (r: Option<u32>)
    ensures
        match r {
            Some(n) => parse_unsigned(v@, u32::MAX as nat) == Some(n as nat),
            None => parse_unsigned(v@, u32::MAX as nat) is None,
        },
{
    match parse_u64_exec(v) {
        Some(n) => {
            if n <= u32::MAX as u64 {
                Some(n as u32)
            } else {
                None
            }
        },
        None => None,
    }
}

/// The decimal digit for `d < 10`.
pub open spec fn digit_char(d: nat) -> char {
    if d == 0 {
        '0'
    } else if d == 1 {
        '1'
    } else if d == 2 {
        '2'
    } else if d == 3 {
        '3'
    } else if d == 4 {
        '4'
    } else if d == 5 {
        '5'
    } else if d == 6 {
        '6'
    } else if d == 7 {
        '7'
    } else if d == 8 {
        '8'
    } else {
        '9'
    }
}

/// The decimal rendering of `n`, as `Display` writes it.
pub open spec fn dec(n: nat) -> Seq<char>
    decreases n,
{
    if n < 10 {
        seq![digit_char(n)]
    } else {
        dec(n / 10).push(digit_char(n % 10))
    }
}

fn digit_char_exec(d: u64) -> (c: char)
    requires
        d < 10,
    ensures
        c == digit_char(d as nat),
{
    if d == 0 {
        '0'
    } else if d == 1 {
        '1'
    } else if d == 2 {
        '2'
    } else if d == 3 {
        '3'
    } else if d == 4 {
        '4'
    } else if d == 5 {
        '5'
    } else if d == 6 {
        '6'
    } else if d == 7 {
        '7'
    } else if d == 8 {
        '8'
    } else {
        '9'
    }
}

/// Appends the decimal rendering of `n`.
pub fn push_dec(out: &mut Vec<char>, n: u64)
    ensures
        final(out)@ == old(out)@ + dec(n as nat),
    decreases n,
{
    if n >= 10 {
        push_dec(out, n / 10);
    }
    out.push(digit_char_exec(n % 10));
    assert(out@ =~= old(out)@ + dec(n as nat));
}

/// Appends the decimal rendering of a 128-bit `n`.
pub fn push_dec_wide(out: &mut Vec<char>, n: u128)
    ensures
        final(out)@ == old(out)@ + dec(n as nat),
    decreases n,
{
    if n >= 10 {
        push_dec_wide(out, n / 10);
    }
    let d = n % 10;
    out.push(digit_char_exec(d as u64));
    assert(out@ =~= old(out)@ + dec(n as nat));
}

/// Whether `p` occurs in `s` starting at position `i`.
pub open spec fn occurs_at(s: Seq<char>, p: Seq<char>, i: int) -> bool {
    0 <= i && i + p.len() <= s.len() && s.subrange(i, i + p.len()) == p
}

/// `str::contains` with a string pattern.
pub open spec fn contains_sub(s: Seq<char>, p: Seq<char>) -> bool {
    exists|i: int| occurs_at(s, p, i)
}

fn occurs_at_exec(v: &Vec<char>, p: &Vec<char>, i: usize) -> (r: bool)
    requires
        i + p.len() <= v.len(),
    ensures
        r == occurs_at(v@, p@, i as int),
{
    let vn = v.len();
    let mut k: usize = 0;
    while k < p.len()
        invariant
            vn == v@.len(),
            i + p@.len() <= v@.len(),
            k <= p@.len(),
            forall|j: int| 0 <= j < k ==> v@[i + j] == p@[j],
        decreases p@.len() - k,
    {
        if v[i + k] != p[k] {
            assert(v@.subrange(i as int, i + p@.len())[k as int] != p@[k as int]);
            return false;
        }
        k = k + 1;
    }
    assert(v@.subrange(i as int, i + p@.len()) =~= p@);
    true
}

/// `str::contains` with a string pattern.
pub fn contains_exec(v: &Vec<char>, p: &Vec<char>) -> (r: bool)
    ensures
        r == contains_sub(v@, p@),
{
    if p.len() > v.len() {
        assert forall|i: int| !occurs_at(v@, p@, i) by {}
        return false;
    }
    let last = v.len() - p.len();
    let mut i: usize = 0;
    while i <= last
        invariant_except_break
            last == v@.len() - p@.len(),
            i <= last,
            forall|j: int| 0 <= j < i ==> !occurs_at(v@, p@, j),
        ensures
            forall|j: int| 0 <= j <= last ==> !occurs_at(v@, p@, j),
        decreases last - i,
    {
        if occurs_at_exec(v, p, i) {
            return true;
        }
        if i == last {
            break;
        }
        i = i + 1;
    }
    assert forall|j: int| !occurs_at(v@, p@, j) by {
        if 0 <= j && j + p@.len() <= v@.len() {
            assert(j <= last);
        }
    }
    false
}

/// `str::contains` with a pattern given as a string slice.
pub fn contains_str(v: &Vec<char>, p: &str) -> (r: bool)
    ensures
        r == contains_sub(v@, p@),
{
    let pv = chars_of(p);
    contains_exec(v, &pv)
}

/// `char::is_ascii_alphabetic`.
pub open spec fn is_ascii_alpha(c: char) -> bool {
    ('A' <= c && c <= 'Z') || ('a' <= c && c <= 'z')
}

/// `char::to_ascii_lowercase`.
pub open spec fn lower_char(c: char) -> char {
    if 'A' <= c && c <= 'Z' {
        ((c as u32) + 32) as char
    } else {
        c
    }
}

/// `char::to_ascii_uppercase`.
pub open spec fn upper_char(c: char) -> char {
    if 'a' <= c && c <= 'z' {
        ((c as u32) - 32) as char
    } else {
        c
    }
}

/// `str::to_ascii_lowercase`.
pub open spec fn ascii_lower(s: Seq<char>) -> Seq<char> {
    s.map_values(|c: char| lower_char(c))
}

/// `str::to_ascii_uppercase`.
pub open spec fn ascii_upper(s: Seq<char>) -> Seq<char> {
    s.map_values(|c: char| upper_char(c))
}

pub fn lower_char_exec(c: char) -> (r: char)
    ensures
        r == lower_char(c),
{
    if 'A' <= c && c <= 'Z' {
        ((c as u8) + 32) as char
    } else {
        c
    }
}

pub fn upper_char_exec(c: char) -> (r: char)
    ensures
        r == upper_char(c),
{
    if 'a' <= c && c <= 'z' {
        ((c as u8) - 32) as char
    } else {
        c
    }
}


/// `str::to_ascii_lowercase`.
pub fn ascii_lower_exec(v: &Vec<char>) -> (out: Vec<char>)
    ensures
        out@ == ascii_lower(v@),
{
    let mut out: Vec<char> = Vec::new();
    let mut i: usize = 0;
    while i < v.len()
        invariant
            i <= v@.len(),
            out@ == ascii_lower(v@.take(i as int)),
        decreases v@.len() - i,
    {
        out.push(lower_char_exec(v[i]));
        i = i + 1;
        assert(out@ =~= ascii_lower(v@.take(i as int)));
    }
    assert(v@.take(v@.len() as int) == v@);
    out
}

/// `str::to_ascii_uppercase`.
pub fn ascii_upper_exec(v: &Vec<char>) -> (out: Vec<char>)
    ensures
        out@ == ascii_upper(v@),
{
    let mut out: Vec<char> = Vec::new();
    let mut i: usize = 0;
    while i < v.len()
        invariant
            i <= v@.len(),
            out@ == ascii_upper(v@.take(i as int)),
        decreases v@.len() - i,
    {
        out.push(upper_char_exec(v[i]));
        i = i + 1;
        assert(out@ =~= ascii_upper(v@.take(i as int)));
    }
    assert(v@.take(v@.len() as int) == v@);
    out
}

/// `str::trim_end_matches(c)`.
pub open spec fn trim_end_char(s: Seq<char>, c: char) -> Seq<char>
    decreases s.len(),
{
    if s.len() > 0 && s.last() == c {
        trim_end_char(s.drop_last(), c)
    } else {
        s
    }
}

/// `str::trim_end_matches(c)`.
pub fn trim_end_char_exec(v: &Vec<char>, c: char) -> (out: Vec<char>)
    ensures
        out@ == trim_end_char(v@, c),
{
    let mut hi = v.len();
    assert(v@.subrange(0, hi as int) == v@);
    while hi > 0 && v[hi - 1] == c
        invariant
            hi <= v@.len(),
            trim_end_char(v@, c) == trim_end_char(v@.subrange(0, hi as int), c),
        decreases hi,
    {
        assert(v@.subrange(0, hi as int).drop_last() == v@.subrange(0, hi - 1));
        hi = hi - 1;
    }
    copy_range(v, 0, hi)
}

/// `s` without its trailing characters that are not ASCII letters.
pub open spec fn trim_end_non_alpha(s: Seq<char>) -> Seq<char>
    decreases s.len(),
{
    if s.len() > 0 && !is_ascii_alpha(s.last()) {
        trim_end_non_alpha(s.drop_last())
    } else {
        s
    }
}

pub fn trim_end_non_alpha_exec(v: &Vec<char>) -> (out: Vec<char>)
    ensures
        out@ == trim_end_non_alpha(v@),
{
    let mut hi = v.len();
    assert(v@.subrange(0, hi as int) == v@);
    while hi > 0 && !(('A' <= v[hi - 1] && v[hi - 1] <= 'Z') || ('a' <= v[hi - 1] && v[hi - 1]
        <= 'z'))
        invariant
            hi <= v@.len(),
            trim_end_non_alpha(v@) == trim_end_non_alpha(v@.subrange(0, hi as int)),
        decreases hi,
    {
        assert(v@.subrange(0, hi as int).drop_last() == v@.subrange(0, hi - 1));
        hi = hi - 1;
    }
    copy_range(v, 0, hi)
}

/// `str::split("\n\n")`: the pieces between blank-line separators, matched
/// from the left without overlap.
pub open spec fn blocks(s: Seq<char>) -> Seq<Seq<char>>
    decreases s.len(),
{
    if s.len() == 0 {
        seq![Seq::<char>::empty()]
    } else if s.len() >= 2 && s[0] == '\n' && s[1] == '\n' {
        seq![Seq::<char>::empty()] + blocks(s.skip(2))
    } else {
        let r = blocks(s.drop_first());
        r.update(0, seq![s[0]] + r[0])
    }
}

pub proof fn lemma_blocks_len(s: Seq<char>)
    ensures
        blocks(s).len() >= 1,
    decreases s.len(),
{
    if s.len() >= 2 && s[0] == '\n' && s[1] == '\n' {
        lemma_blocks_len(s.skip(2));
    } else if s.len() > 0 {
        lemma_blocks_len(s.drop_first());
    }
}

/// `str::split("\n\n")`.
pub fn blocks_exec(v: &Vec<char>) -> (out: Vec<Vec<char>>)
    ensures
        views(out@) == blocks(v@),
{
    let n = v.len();
    let mut done: Vec<Vec<char>> = Vec::new();
    let mut cur: Vec<char> = Vec::new();
    let mut i: usize = 0;
    proof {
        lemma_blocks_len(v@);
        assert(v@.skip(0) == v@);
        let b = blocks(v@);
        assert(b =~= views(done@) + seq![cur@ + b[0]] + b.drop_first());
    }
    while i < n
        invariant
            i <= n == v@.len(),
            blocks(v@.skip(i as int)).len() >= 1,
            blocks(v@) == views(done@) + seq![cur@ + blocks(v@.skip(i as int))[0]] + blocks(
                v@.skip(i as int),
            ).drop_first(),
        decreases n - i,
    {
        let ghost rest = v@.skip(i as int);
        let ghost b = blocks(rest);
        if i + 1 < n && v[i] == '\n' && v[i + 1] == '\n' {
            let ghost before = done@;
            let ghost old_cur = cur@;
            let piece = cur;
            done.push(piece);
            cur = Vec::new();
            i = i + 2;
            proof {
                assert(rest.skip(2) == v@.skip(i as int));
                lemma_blocks_len(v@.skip(i as int));
                let b2 = blocks(v@.skip(i as int));
                assert(b == seq![Seq::<char>::empty()] + b2);
                assert(b[0] == Seq::<char>::empty());
                assert(b.drop_first() =~= b2);
                assert(views(done@) =~= views(before).push(old_cur));
                assert(old_cur + b[0] =~= old_cur);
                assert(cur@ + b2[0] =~= b2[0]);
                assert(views(before) + seq![old_cur + b[0]] + b.drop_first() =~= views(done@)
                    + seq![cur@ + b2[0]] + b2.drop_first());
            }
        } else {
            let ghost old_cur = cur@;
            let c = v[i];
            cur.push(c);
            i = i + 1;
            proof {
                assert(rest.drop_first() == v@.skip(i as int));
                lemma_blocks_len(v@.skip(i as int));
                let r = blocks(v@.skip(i as int));
                assert(rest[0] == c);
                assert(b == r.update(0, seq![c] + r[0]));
                assert(old_cur + b[0] =~= cur@ + r[0]);
                assert(b.drop_first() =~= r.drop_first());
            }
        }
    }
    proof {
        assert(v@.skip(n as int) == Seq::<char>::empty());
        let b = blocks(v@.skip(n as int));
        assert(b == seq![Seq::<char>::empty()]);
        assert(cur@ + b[0] =~= cur@);
        assert(b.drop_first() =~= Seq::<Seq<char>>::empty());
    }
    let ghost before = done@;
    let last = cur;
    done.push(last);
    assert(views(done@) =~= views(before).push(last@));
    assert(views(before) + seq![last@] + Seq::<Seq<char>>::empty() =~= views(before).push(last@));
    done
}

/// `str::to_uppercase`: the Unicode uppercase mapping of each character.
pub uninterp spec fn unicode_uppercase(s: Seq<char>) -> Seq<char>;

/// Whether every character of `s` is ASCII.
pub open spec fn all_ascii(s: Seq<char>) -> bool {
    forall|i: int| 0 <= i < s.len() ==> '\u{7f}' >= #[trigger] s[i]
}

/// The uppercase of `s` as `str::to_uppercase` gives it: on ASCII text the
/// ASCII uppercase, otherwise the full Unicode mapping.
pub open spec fn uppercase_of(s: Seq<char>) -> Seq<char> {
    if all_ascii(s) {
        ascii_upper(s)
    } else {
        unicode_uppercase(s)
    }
}

/// Calls `str::to_uppercase`. The contract claims that the result depends
/// only on the characters of `s` (named `unicode_uppercase`), and that on
/// ASCII text it is the ASCII uppercase, as std documents: the Unicode
/// uppercase of an ASCII character is its ASCII uppercase.
#[verifier::external_body]
fn to_uppercase_str(s: &str) -> (r: String)
    ensures
        r@ == unicode_uppercase(s@),
        all_ascii(s@) ==> r@ == ascii_upper(s@),
{
    s.to_uppercase()
}

/// `str::to_uppercase` on a character vector.
pub fn unicode_uppercase_exec(v: &Vec<char>) -> (out: Vec<char>)
    ensures
        out@ == unicode_uppercase(v@),
        out@ == uppercase_of(v@),
{
    let s = string_of(v);
    let u = to_uppercase_str(s.as_str());
    chars_of(u.as_str())
}

} // verus!

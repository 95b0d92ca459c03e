//! Character and string helpers: ASCII case, decimal numerals, and
//! underscore-separated words.
use vstd::prelude::*;

verus! {

/// Appends `c` to `s`.
#[verifier::external_body]
pub fn push_char(s: &mut String, c: char)
    ensures
        final(s)@ == old(s)@.push(c),
{
    s.push(c);
}

/// The characters of `s`, in order.
pub fn chars_of(s: &str) -> (chars: Vec<char>)
    ensures
        chars@ == s@,
{
    let n = s.unicode_len();
    let mut out: Vec<char> = Vec::new();
    let mut i: usize = 0;
    while i < n
        invariant
            n == s@.len(),
            i <= n,
            out@ == s@.subrange(0, i as int),
        decreases n - i,
    {
        out.push(s.get_char(i));
        proof {
            assert(s@.subrange(0, i + 1) =~= s@.subrange(0, i as int).push(s@[i as int]));
        }
        i = i + 1;
    }
    proof {
        assert(s@.subrange(0, n as int) =~= s@);
    }
    out
}

/// A string holding `chars`.
pub fn string_of(chars: &Vec<char>) -> (s: String)
    ensures
        s@ == chars@,
{
    let mut s = String::new();
    let mut i: usize = 0;
    while i < chars.len()
        invariant
            i <= chars@.len(),
            s@ == chars@.subrange(0, i as int),
        decreases chars@.len() - i,
    {
        push_char(&mut s, chars[i]);
        proof {
            assert(chars@.subrange(0, i + 1) =~= chars@.subrange(0, i as int).push(chars@[i as int]));
        }
        i = i + 1;
    }
    proof {
        assert(chars@.subrange(0, chars@.len() as int) =~= chars@);
    }
    s
}

pub open spec fn is_ascii_upper(c: char) -> bool {
    'A' <= c <= 'Z'
}

pub open spec fn is_ascii_lower(c: char) -> bool {
    'a' <= c <= 'z'
}

pub open spec fn is_ascii_digit(c: char) -> bool {
    '0' <= c <= '9'
}

pub open spec fn is_ascii_alphanumeric(c: char) -> bool {
    is_ascii_upper(c) || is_ascii_lower(c) || is_ascii_digit(c)
}

/// `c` with an ASCII capital letter turned lowercase; anything else unchanged.
pub open spec fn ascii_lower(c: char) -> char {
    if is_ascii_upper(c) {
        ((c as u32) + 32) as char
    } else {
        c
    }
}

/// `c` with an ASCII small letter turned uppercase; anything else unchanged.
pub open spec fn ascii_upper(c: char) -> char {
    if is_ascii_lower(c) {
        ((c as u32) - 32) as char
    } else {
        c
    }
}

pub fn to_ascii_lowercase(c: char) -> (d: char)
    ensures
        d == ascii_lower(c),
{
    if 'A' <= c && c <= 'Z' {
        let b: u8 = ((c as u32) + 32) as u8;
        b as char
    } else {
        c
    }
}

pub fn to_ascii_uppercase(c: char) -> (d: char)
    ensures
        d == ascii_upper(c),
{
    if 'a' <= c && c <= 'z' {
        let b: u8 = ((c as u32) - 32) as u8;
        b as char
    } else {
        c
    }
}

pub fn is_alphanumeric_ascii(c: char) -> (b: bool)
    ensures
        b == is_ascii_alphanumeric(c),
{
    ('A' <= c && c <= 'Z') || ('a' <= c && c <= 'z') || ('0' <= c && c <= '9')
}

/// The decimal digit character for `d < 10`.
pub open spec fn digit_char(d: nat) -> char {
    ('0' as u32 + d) as char
}

/// Decimal numeral of `n`, most significant digit first, no leading zeros.
pub open spec fn decimal(n: nat) -> Seq<char>
    decreases n,
{
    if n < 10 {
        seq![digit_char(n)]
    } else {
        decimal(n / 10).push(digit_char(n % 10))
    }
}

/// Decimal numeral of a signed number: a minus sign before negative ones.
pub open spec fn signed_decimal(n: int) -> Seq<char> {
    if n < 0 {
        seq!['-'] + decimal((-n) as nat)
    } else {
        decimal(n as nat)
    }
}

fn push_digit(s: &mut String, d: u64)
    requires
        d < 10,
    ensures
        final(s)@ == old(s)@.push(digit_char(d as nat)),
{
    let b: u8 = (48 + d) as u8;
    push_char(s, b as char);
}

/// Appends the decimal numeral of `n`.
pub fn push_decimal(s: &mut String, n: u64)
    ensures
        final(s)@ == old(s)@ + decimal(n as nat),
    decreases n,
{
    if n >= 10 {
        push_decimal(s, n / 10);
        push_digit(s, n % 10);
        proof {
            assert(old(s)@ + decimal(n as nat) =~= (old(s)@ + decimal((n / 10) as nat)).push(digit_char((n % 10) as nat)));
        }
    } else {
        push_digit(s, n);
        proof {
            assert(old(s)@ + decimal(n as nat) =~= old(s)@.push(digit_char(n as nat)));
        }
    }
}

/// Appends the decimal numeral of a signed number.
pub fn push_signed_decimal(s: &mut String, n: i64)
    ensures
        final(s)@ == old(s)@ + signed_decimal(n as int),
{
    if n < 0 {
        push_char(s, '-');
        let magnitude: u64 = if n == i64::MIN {
            9_223_372_036_854_775_808u64
        } else {
            (-n) as u64
        };
        push_decimal(s, magnitude);
        proof {
            assert(old(s)@ + signed_decimal(n as int) =~= old(s)@.push('-') + decimal(magnitude as nat));
        }
    } else {
        push_decimal(s, n as u64);
    }
}

/// The maximal runs of characters other than '_' in `s`, in order.
pub open spec fn words(s: Seq<char>) -> Seq<Seq<char>>
    decreases s.len(),
{
    if s.len() == 0 {
        Seq::empty()
    } else {
        let w = words(s.drop_last());
        let c = s.last();
        if c == '_' {
            w
        } else if s.len() == 1 || s[s.len() - 2] == '_' {
            w.push(seq![c])
        } else {
            w.update(w.len() - 1, w.last().push(c))
        }
    }
}

/// Words joined by single underscores.
pub open spec fn join_words(ws: Seq<Seq<char>>) -> Seq<char>
    decreases ws.len(),
{
    if ws.len() == 0 {
        Seq::empty()
    } else if ws.len() == 1 {
        ws[0]
    } else {
        join_words(ws.drop_last()) + seq!['_'] + ws.last()
    }
}

/// The first `limit` words of `s` joined by single underscores; `fallback`
/// when that is empty.
pub open spec fn words_or(s: Seq<char>, limit: nat, fallback: Seq<char>) -> Seq<char> {
    let ws = words(s);
    let kept = if ws.len() < limit {
        ws
    } else {
        ws.take(limit as int)
    };
    if join_words(kept).len() == 0 {
        fallback
    } else {
        join_words(kept)
    }
}

/// Every word has at least one character and no underscore; a string whose
/// last character is not '_' ends inside its last word.
pub proof fn lemma_words_shape(s: Seq<char>)
    ensures
        forall|i: int| 0 <= i < words(s).len() ==> (#[trigger] words(s)[i]).len() > 0,
        forall|i: int, k: int| 0 <= i < words(s).len() && 0 <= k < words(s)[i].len() ==> #[trigger] words(s)[i][k] != '_',
        s.len() > 0 && s.last() != '_' ==> words(s).len() > 0,
    decreases s.len(),
{
    if s.len() > 0 {
        let p = s.drop_last();
        lemma_words_shape(p);
        if s.last() != '_' && !(s.len() == 1 || s[s.len() - 2] == '_') {
            assert(p.last() == s[s.len() - 2]);
        }
        let w = words(p);
        let ws = words(s);
        assert forall|i: int| 0 <= i < ws.len() implies (#[trigger] ws[i]).len() > 0 by {
            if i < w.len() {
                if ws[i] != w[i] {
                    assert(ws[i] == w.last().push(s.last()));
                }
            }
        }
        assert forall|i: int, k: int| 0 <= i < ws.len() && 0 <= k < ws[i].len() implies #[trigger] ws[i][k] != '_' by {
            if i < w.len() && ws[i] != w[i] {
                assert(ws[i] == w.last().push(s.last()));
                if k < w.last().len() {
                    assert(ws[i][k] == w[w.len() - 1][k]);
                }
            }
        }
    }
}

/// Joining words that are all non-empty is empty only when there are none.
pub proof fn lemma_join_empty(ws: Seq<Seq<char>>)
    requires
        forall|i: int| 0 <= i < ws.len() ==> (#[trigger] ws[i]).len() > 0,
    ensures
        (join_words(ws).len() == 0) == (ws.len() == 0),
    decreases ws.len(),
{
    if ws.len() > 1 {
        assert(ws.last() == ws[ws.len() - 1]);
    } else if ws.len() == 1 {
        assert(ws[0].len() > 0);
    }
}

proof fn lemma_join_push(ws: Seq<Seq<char>>, w: Seq<char>)
    ensures
        join_words(ws.push(w)) == if ws.len() == 0 {
            w
        } else {
            join_words(ws) + seq!['_'] + w
        },
{
    assert(ws.push(w).drop_last() =~= ws);
}

proof fn lemma_join_extend(ws: Seq<Seq<char>>, c: char)
    requires
        ws.len() > 0,
    ensures
        join_words(ws.update(ws.len() - 1, ws.last().push(c))) == join_words(ws).push(c),
{
    let t = ws.update(ws.len() - 1, ws.last().push(c));
    if ws.len() == 1 {
        assert(t[0] == ws[0].push(c));
    } else {
        assert(t.drop_last() =~= ws.drop_last());
        assert(join_words(t) =~= join_words(ws).push(c));
    }
}

/// Joins the first `limit` underscore-separated words of `chars` with single
/// underscores; `fallback` when that leaves nothing.
pub fn join_words_of(chars: &Vec<char>, limit: usize, fallback: &str) -> (s: String)
    ensures
        s@ == words_or(chars@, limit as nat, fallback@),
{
    let mut out = String::new();
    let mut seen: usize = 0;
    let mut emitted: usize = 0;
    let mut i: usize = 0;
    let ghost mut ws: Seq<Seq<char>> = Seq::empty();
    while i < chars.len()
        invariant
            i <= chars@.len(),
            ws == words(chars@.subrange(0, i as int)),
            seen == ws.len(),
            seen <= i,
            emitted == if seen < limit {
                seen
            } else {
                limit
            },
            out@ == join_words(ws.take(emitted as int)),
        decreases chars@.len() - i,
    {
        let c = chars[i];
        let ghost p = chars@.subrange(0, i as int);
        let ghost q = chars@.subrange(0, i + 1);
        proof {
            assert(q.drop_last() =~= p);
            assert(q.last() == c);
            lemma_words_shape(p);
            if i > 0 {
                assert(q[q.len() - 2] == p.last());
            }
        }
        if c != '_' {
            let starts_word = i == 0 || chars[i - 1] == '_';
            if starts_word {
                proof {
                    assert(words(q) == ws.push(seq![c]));
                }
                if seen < limit {
                    if emitted > 0 {
                        push_char(&mut out, '_');
                    }
                    push_char(&mut out, c);
                    proof {
                        assert(ws.take(emitted as int) =~= ws);
                        assert(ws.push(seq![c]).take(emitted + 1) =~= ws.push(seq![c]));
                        lemma_join_push(ws, seq![c]);
                        if emitted > 0 {
                            assert(join_words(ws) + seq!['_'] + seq![c] =~= join_words(ws).push('_').push(c));
                        } else {
                            assert(join_words(ws) =~= Seq::<char>::empty());
                        }
                    }
                    emitted = emitted + 1;
                } else {
                    proof {
                        assert(ws.push(seq![c]).take(emitted as int) =~= ws.take(emitted as int));
                    }
                }
                seen = seen + 1;
                proof {
                    ws = ws.push(seq![c]);
                }
            } else {
                proof {
                    assert(words(q) == ws.update(ws.len() - 1, ws.last().push(c)));
                }
                if seen <= limit {
                    push_char(&mut out, c);
                    proof {
                        assert(ws.take(emitted as int) =~= ws);
                        let t = ws.update(ws.len() - 1, ws.last().push(c));
                        assert(t.take(emitted as int) =~= t);
                        lemma_join_extend(ws, c);
                    }
                } else {
                    proof {
                        let t = ws.update(ws.len() - 1, ws.last().push(c));
                        assert(t.take(emitted as int) =~= ws.take(emitted as int));
                    }
                }
                proof {
                    ws = ws.update(ws.len() - 1, ws.last().push(c));
                }
            }
        }
        i = i + 1;
    }
    proof {
        assert(chars@.subrange(0, chars@.len() as int) =~= chars@);
        lemma_words_shape(chars@);
        let kept = if ws.len() < limit {
            ws
        } else {
            ws.take(limit as int)
        };
        assert(kept =~= ws.take(emitted as int));
        assert forall|j: int| 0 <= j < kept.len() implies (#[trigger] kept[j]).len() > 0 by {
            assert(kept[j] == ws[j]);
        }
        lemma_join_empty(kept);
    }
    if emitted == 0 {
        String::from_str(fallback)
    } else {
        out
    }
}

/// Unicode `White_Space` characters (what `char::is_whitespace` accepts).
pub open spec fn is_white_space(c: char) -> bool {
    let u = c as u32;
    (0x09 <= u <= 0x0D) || u == 0x20 || u == 0x85 || u == 0xA0 || u == 0x1680 || (0x2000 <= u <= 0x200A)
        || u == 0x2028 || u == 0x2029 || u == 0x202F || u == 0x205F || u == 0x3000
}

pub fn is_whitespace(c: char) -> (b: bool)
    ensures
        b == is_white_space(c),
{
    let u = c as u32;
    (0x09 <= u && u <= 0x0D) || u == 0x20 || u == 0x85 || u == 0xA0 || u == 0x1680 || (0x2000 <= u && u <= 0x200A)
        || u == 0x2028 || u == 0x2029 || u == 0x202F || u == 0x205F || u == 0x3000
}

/// `s` without leading white space.
pub open spec fn trim_start(s: Seq<char>) -> Seq<char>
    decreases s.len(),
{
    if s.len() > 0 && is_white_space(s[0]) {
        trim_start(s.drop_first())
    } else {
        s
    }
}

/// `s` without trailing white space.
pub open spec fn trim_end(s: Seq<char>) -> Seq<char>
    decreases s.len(),
{
    if s.len() > 0 && is_white_space(s.last()) {
        trim_end(s.drop_last())
    } else {
        s
    }
}

/// `s` without leading or trailing white space.
pub open spec fn trim(s: Seq<char>) -> Seq<char> {
    trim_end(trim_start(s))
}

/// `s` with every ASCII capital turned lowercase.
pub open spec fn lower_seq(s: Seq<char>) -> Seq<char> {
    s.map_values(|c: char| ascii_lower(c))
}

/// The characters of `s` without leading or trailing white space.
pub fn trimmed_chars(s: &str) -> (chars: Vec<char>)
    ensures
        chars@ == trim(s@),
{
    let all = chars_of(s);
    trim_chars(&all)
}

/// `all` without leading or trailing white space.
pub fn trim_chars(all: &Vec<char>) -> (chars: Vec<char>)
    ensures
        chars@ == trim(all@),
{
    let n = all.len();
    let mut lo: usize = 0;
    proof {
        assert(all@.subrange(0, n as int) =~= all@);
    }
    while lo < n && is_whitespace(all[lo])
        invariant
            n == all@.len(),
            lo <= n,
            trim_start(all@) == trim_start(all@.subrange(lo as int, n as int)),
        decreases n - lo,
    {
        proof {
            assert(all@.subrange(lo as int, n as int).drop_first() =~= all@.subrange(lo + 1, n as int));
        }
        lo = lo + 1;
    }
    let ghost start = all@.subrange(lo as int, n as int);
    proof {
        assert(trim_start(all@) == start);
    }
    let mut hi: usize = n;
    while hi > lo && is_whitespace(all[hi - 1])
        invariant
            n == all@.len(),
            lo <= hi <= n,
            start == all@.subrange(lo as int, n as int),
            trim_end(start) == trim_end(all@.subrange(lo as int, hi as int)),
        decreases hi,
    {
        proof {
            assert(all@.subrange(lo as int, hi as int).drop_last() =~= all@.subrange(lo as int, hi - 1));
        }
        hi = hi - 1;
    }
    let out = slice_chars(all, lo, hi);
    proof {
        let t = all@.subrange(lo as int, hi as int);
        assert(trim_end(t) == t);
    }
    out
}

/// The characters of `all` from `lo` up to, not including, `hi`.
pub fn slice_chars(all: &Vec<char>, lo: usize, hi: usize) -> (out: Vec<char>)
    requires
        lo <= hi <= all@.len(),
    ensures
        out@ == all@.subrange(lo as int, hi as int),
{
    let mut out: Vec<char> = Vec::new();
    let mut i = lo;
    while i < hi
        invariant
            lo <= i <= hi <= all@.len(),
            out@ == all@.subrange(lo as int, i as int),
        decreases hi - i,
    {
        out.push(all[i]);
        proof {
            assert(all@.subrange(lo as int, i + 1) =~= all@.subrange(lo as int, i as int).push(all@[i as int]));
        }
        i = i + 1;
    }
    out
}

/// `i` is the position of the first `c` in `s`.
pub open spec fn is_first(s: Seq<char>, c: char, i: int) -> bool {
    0 <= i < s.len() && s[i] == c && forall|j: int| 0 <= j < i ==> s[j] != c
}

/// `s` cut at its first `c` into the part before and the part after it;
/// `None` when `c` does not occur.
pub open spec fn split_once(s: Seq<char>, c: char) -> Option<(Seq<char>, Seq<char>)> {
    if exists|i: int| is_first(s, c, i) {
        let i = choose|i: int| is_first(s, c, i);
        Some((s.take(i), s.skip(i + 1)))
    } else {
        None
    }
}

/// Cuts `s` at its first `c` (see `split_once`).
pub fn split_once_chars(s: &Vec<char>, c: char) -> (parts: Option<(Vec<char>, Vec<char>)>)
    ensures
        match parts {
            Some((before, after)) => split_once(s@, c) == Some((before@, after@)),
            None => split_once(s@, c) is None,
        },
{
    let n = s.len();
    let mut i: usize = 0;
    while i < n
        invariant
            n == s@.len(),
            i <= n,
            forall|j: int| 0 <= j < i ==> s@[j] != c,
        decreases n - i,
    {
        if s[i] == c {
            proof {
                assert(is_first(s@, c, i as int));
                let k = choose|k: int| is_first(s@, c, k);
                assert(k == i) by {
                    if k < i {
                        assert(s@[k] != c);
                    } else if k > i {
                        assert(s@[i as int] != c);
                    }
                }
            }
            let before = slice_chars(s, 0, i);
            let after = slice_chars(s, i + 1, n);
            proof {
                assert(before@ =~= s@.take(i as int));
                assert(after@ =~= s@.skip(i + 1));
            }
            return Some((before, after));
        }
        i = i + 1;
    }
    None
}

/// The pieces of `s` between occurrences of `c`, in order; one more piece
/// than there are occurrences (so a single empty piece for empty `s`).
pub open spec fn split_on(s: Seq<char>, c: char) -> Seq<Seq<char>>
    decreases s.len(),
{
    if s.len() == 0 {
        seq![Seq::empty()]
    } else {
        let f = split_on(s.drop_last(), c);
        if s.last() == c {
            f.push(Seq::empty())
        } else {
            f.update(f.len() - 1, f.last().push(s.last()))
        }
    }
}

/// `split_on` always yields at least one piece.
pub proof fn lemma_split_on_nonempty(s: Seq<char>, c: char)
    ensures
        split_on(s, c).len() >= 1,
    decreases s.len(),
{
    if s.len() > 0 {
        lemma_split_on_nonempty(s.drop_last(), c);
    }
}

/// Splits `s` at every `c` (see `split_on`).
pub fn split_chars(s: &Vec<char>, c: char) -> (pieces: Vec<Vec<char>>)
    ensures
        pieces@.len() == split_on(s@, c).len(),
        forall|k: int| 0 <= k < pieces@.len() ==> #[trigger] pieces@[k]@ == split_on(s@, c)[k],
{
    let mut pieces: Vec<Vec<char>> = Vec::new();
    let mut current: Vec<char> = Vec::new();
    let n = s.len();
    let mut i: usize = 0;
    proof {
        assert(s@.subrange(0, 0) =~= Seq::<char>::empty());
    }
    while i < n
        invariant
            n == s@.len(),
            i <= n,
            pieces@.len() + 1 == split_on(s@.subrange(0, i as int), c).len(),
            forall|k: int| 0 <= k < pieces@.len() ==> #[trigger] pieces@[k]@ == split_on(s@.subrange(0, i as int), c)[k],
            current@ == split_on(s@.subrange(0, i as int), c).last(),
        decreases n - i,
    {
        proof {
            lemma_split_on_nonempty(s@.subrange(0, i as int), c);
            assert(s@.subrange(0, i + 1).drop_last() =~= s@.subrange(0, i as int));
        }
        if s[i] == c {
            let done = current;
            pieces.push(done);
            current = Vec::new();
        } else {
            current.push(s[i]);
        }
        i = i + 1;
    }
    pieces.push(current);
    proof {
        assert(s@.subrange(0, n as int) =~= s@);
        lemma_split_on_nonempty(s@, c);
        assert forall|k: int| 0 <= k < pieces@.len() implies #[trigger] pieces@[k]@ == split_on(s@, c)[k] by {
        }
    }
    pieces
}

/// `prefix` begins `s`.
pub open spec fn starts_with(s: Seq<char>, prefix: Seq<char>) -> bool {
    prefix.len() <= s.len() && s.take(prefix.len() as int) == prefix
}

/// Whether `chars` begins with `prefix`.
pub fn chars_start_with(chars: &Vec<char>, prefix: &str) -> (b: bool)
    ensures
        b == starts_with(chars@, prefix@),
{
    let n = prefix.unicode_len();
    if n > chars.len() {
        return false;
    }
    let mut i: usize = 0;
    while i < n
        invariant
            n == prefix@.len(),
            n <= chars@.len(),
            i <= n,
            forall|j: int| 0 <= j < i ==> chars@[j] == prefix@[j],
        decreases n - i,
    {
        if chars[i] != prefix.get_char(i) {
            proof {
                assert(chars@.take(n as int)[i as int] != prefix@[i as int]);
            }
            return false;
        }
        i = i + 1;
    }
    proof {
        assert(chars@.take(n as int) =~= prefix@);
    }
    true
}

/// `chars` with every ASCII capital turned lowercase.
pub fn lowercase_chars(chars: &Vec<char>) -> (out: Vec<char>)
    ensures
        out@ == lower_seq(chars@),
{
    let mut out: Vec<char> = Vec::new();
    let mut i: usize = 0;
    while i < chars.len()
        invariant
            i <= chars@.len(),
            out@ == lower_seq(chars@.subrange(0, i as int)),
        decreases chars@.len() - i,
    {
        out.push(to_ascii_lowercase(chars[i]));
        proof {
            assert(lower_seq(chars@.subrange(0, i + 1)) =~= lower_seq(chars@.subrange(0, i as int)).push(ascii_lower(chars@[i as int])));
        }
        i = i + 1;
    }
    proof {
        assert(chars@.subrange(0, chars@.len() as int) =~= chars@);
    }
    out
}

/// True when `chars` spells `s`.
pub fn chars_eq(chars: &Vec<char>, s: &str) -> (b: bool)
    ensures
        b == (chars@ == s@),
{
    let n = s.unicode_len();
    if chars.len() != n {
        return false;
    }
    let mut i: usize = 0;
    while i < n
        invariant
            n == s@.len(),
            n == chars@.len(),
            i <= n,
            forall|j: int| 0 <= j < i ==> chars@[j] == s@[j],
        decreases n - i,
    {
        if chars[i] != s.get_char(i) {
            return false;
        }
        i = i + 1;
    }
    proof {
        assert(chars@ =~= s@);
    }
    true
}

} // verus!

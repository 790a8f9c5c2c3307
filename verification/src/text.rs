//! Text helpers over character sequences.
//!
//! Every string in this crate is reasoned about through its view, the
//! sequence of its characters. The functions here give the searching,
//! splitting, formatting and ordering primitives that the engine needs,
//! each against a spec function on `Seq<char>`.
use vstd::prelude::*;

verus! {

/// Appends one character to a string (std `String::push`).
///
/// Trusted: std documents that `push` appends the given `char` to the end
/// of the `String`; the contract states exactly that.
#[verifier::external_body]
pub(crate) fn push_char(s: &mut String, c: char)
    ensures
        final(s)@ == old(s)@.push(c),
{
    s.push(c);
}

/// The characters of a string slice, in order.
pub fn chars_of(s: &str) -> (v: Vec<char>)
    ensures
        v@ == s@,
{
    let mut v: Vec<char> = Vec::new();
    let n = s.unicode_len();
    let mut i: usize = 0;
    while i < n
        invariant
            n == s@.len(),
            i <= n,
            v@ == s@.subrange(0, i as int),
        decreases n - i,
    {
        let c = s.get_char(i);
        v.push(c);
        i = i + 1;
    }
    v
}

/// A string holding exactly the given characters.
pub fn string_of(v: &[char]) -> (s: String)
    ensures
        s@ == v@,
{
    let mut s = String::new();
    let mut i: usize = 0;
    while i < v.len()
        invariant
            i <= v@.len(),
            s@ == v@.subrange(0, i as int),
        decreases v.len() - i,
    {
        push_char(&mut s, v[i]);
        i = i + 1;
    }
    s
}

/// A string holding the characters of `v` from `from` up to `to`.
pub fn string_of_range(v: &[char], from: usize, to: usize) -> (s: String)
    requires
        from <= to <= v@.len(),
    ensures
        s@ == v@.subrange(from as int, to as int),
{
    let mut s = String::new();
    let mut i: usize = from;
    while i < to
        invariant
            from <= i <= to <= v@.len(),
            s@ == v@.subrange(from as int, i as int),
        decreases to - i,
    {
        push_char(&mut s, v[i]);
        i = i + 1;
    }
    s
}

/// A fresh string equal to a string literal or slice.
pub fn owned(s: &str) -> (r: String)
    ensures
        r@ == s@,
{
    String::from_str(s)
}

/// Appends a slice to a string.
pub fn append(s: &mut String, t: &str)
    ensures
        final(s)@ == old(s)@ + t@,
{
    s.append(t);
}

/// The parts, with `sep` between each two neighbours.
pub open spec fn join(parts: Seq<Seq<char>>, sep: Seq<char>) -> Seq<char>
    decreases parts.len(),
{
    if parts.len() == 0 {
        Seq::empty()
    } else if parts.len() == 1 {
        parts[0]
    } else {
        join(parts.drop_last(), sep) + sep + parts.last()
    }
}

/// The strings, with `sep` between each two neighbours.
pub fn join_strings(parts: &[String], sep: &str) -> (r: String)
    ensures
        r@ == join(crate::strmap::views(parts@), sep@),
{
    let ghost ps = crate::strmap::views(parts@);
    let mut r = String::new();
    let mut i: usize = 0;
    while i < parts.len()
        invariant
            ps == crate::strmap::views(parts@),
            i <= parts@.len(),
            r@ == join(ps.take(i as int), sep@),
        decreases parts.len() - i,
    {
        if i > 0 {
            append(&mut r, sep);
        }
        append(&mut r, parts[i].as_str());
        proof {
            let t = ps.take(i + 1);
            assert(t.drop_last() =~= ps.take(i as int));
            if i == 0 {
                assert(t.len() == 1);
            }
        }
        i = i + 1;
    }
    proof {
        assert(ps.take(parts@.len() as int) =~= ps);
    }
    r
}

// ---------------------------------------------------------------------
// Searching
// ---------------------------------------------------------------------
/// `n` occurs in `h` starting at index `i`.
pub open spec fn match_at(h: Seq<char>, n: Seq<char>, i: int) -> bool {
    0 <= i && i + n.len() <= h.len() && h.subrange(i, i + n.len()) == n
}

/// The first index at or after `i` where `n` occurs in `h`.
pub open spec fn find_from(h: Seq<char>, n: Seq<char>, i: int) -> Option<int>
    decreases h.len() + 1 - i,
{
    if i < 0 || i + n.len() > h.len() {
        None
    } else if match_at(h, n, i) {
        Some(i)
    } else {
        find_from(h, n, i + 1)
    }
}

/// The first index where `n` occurs in `h` (`str::find`).
pub open spec fn find(h: Seq<char>, n: Seq<char>) -> Option<int> {
    find_from(h, n, 0)
}

/// `h` contains `n` (`str::contains`).
pub open spec fn contains(h: Seq<char>, n: Seq<char>) -> bool {
    find(h, n) is Some
}

/// `h` begins with `n` (`str::starts_with`).
pub open spec fn starts_with(h: Seq<char>, n: Seq<char>) -> bool {
    match_at(h, n, 0)
}

/// What `find_from` returns: the least matching index, or none at all.
pub proof fn lemma_find_from(h: Seq<char>, n: Seq<char>, i: int)
    requires
        0 <= i,
    ensures
        find_from(h, n, i) matches Some(j) ==> i <= j && match_at(h, n, j) && forall|k: int|
            i <= k < j ==> !match_at(h, n, k),
        find_from(h, n, i) is None ==> forall|k: int| i <= k ==> !match_at(h, n, k),
    decreases h.len() + 1 - i,
{
    if i + n.len() > h.len() {
    } else if match_at(h, n, i) {
    } else {
        lemma_find_from(h, n, i + 1);
        assert forall|k: int| i <= k && k < i + 1 implies !match_at(h, n, k) by {}
    }
}

/// Searching a suffix finds what searching the whole from the suffix's
/// start finds, shifted.
pub proof fn lemma_find_shift(s: Seq<char>, n: Seq<char>, start: int, k: int)
    requires
        0 <= start <= s.len(),
        0 <= k,
    ensures
        ({
            let rest = s.subrange(start, s.len() as int);
            match find_from(s, n, k + start) {
                Some(j) => find_from(rest, n, k) == Some(j - start),
                None => find_from(rest, n, k) is None,
            }
        }),
    decreases s.len() + 1 - (k + start),
{
    let rest = s.subrange(start, s.len() as int);
    if k + n.len() <= rest.len() {
        assert(rest.subrange(k, k + n.len()) =~= s.subrange(k + start, k + start + n.len()));
        if !match_at(rest, n, k) {
            lemma_find_shift(s, n, start, k + 1);
        }
    }
}

/// Whether `n` occurs in `h` at index `i`.
pub fn matches_at(h: &[char], n: &[char], i: usize) -> (r: bool)
    ensures
        r == match_at(h@, n@, i as int),
{
    if n.len() > h.len() || i > h.len() - n.len() {
        return false;
    }
    let hl = h.len();
    let mut k: usize = 0;
    while k < n.len()
        invariant
            hl == h@.len(),
            i + n@.len() <= h@.len(),
            k <= n@.len(),
            forall|j: int| 0 <= j < k ==> h@[i + j] == n@[j],
        decreases n.len() - k,
    {
        assert(i + k < h@.len());
        let idx: usize = i + k;
        if h[idx] != n[k] {
            assert(h@.subrange(i as int, i + n@.len())[k as int] != n@[k as int]);
            return false;
        }
        k = k + 1;
    }
    assert(h@.subrange(i as int, i + n@.len()) =~= n@);
    true
}

/// The first index at or after `from` where `n` occurs in `h`.
pub fn find_chars_from(h: &[char], n: &[char], from: usize) -> (r: Option<usize>)
    ensures
        r matches Some(j) ==> find_from(h@, n@, from as int) == Some(j as int),
        r is None ==> find_from(h@, n@, from as int) is None,
{
    if n.len() > h.len() {
        return None;
    }
    let last = h.len() - n.len();
    let mut i: usize = from;
    while i <= last
        invariant
            n@.len() <= h@.len(),
            last == h@.len() - n@.len(),
            from <= i,
            find_from(h@, n@, from as int) == find_from(h@, n@, i as int),
        decreases last + 1 - i,
    {
        if matches_at(h, n, i) {
            return Some(i);
        }
        if i == last {
            assert(find_from(h@, n@, i as int + 1) is None);
            return None;
        }
        i = i + 1;
    }
    None
}

/// The first index where `n` occurs in `h`.
pub fn find_chars(h: &[char], n: &[char]) -> (r: Option<usize>)
    ensures
        r matches Some(j) ==> find(h@, n@) == Some(j as int),
        r is None ==> find(h@, n@) is None,
{
    find_chars_from(h, n, 0)
}

/// Whether `h` contains `n`.
pub fn contains_chars(h: &[char], n: &[char]) -> (r: bool)
    ensures
        r == contains(h@, n@),
{
    find_chars(h, n).is_some()
}

/// Whether the string `h` contains the slice `n`.
pub fn str_contains(h: &str, n: &str) -> (r: bool)
    ensures
        r == contains(h@, n@),
{
    let hc = chars_of(h);
    let nc = chars_of(n);
    contains_chars(hc.as_slice(), nc.as_slice())
}

/// Whether the string `h` begins with the slice `n`.
pub fn str_starts_with(h: &str, n: &str) -> (r: bool)
    ensures
        r == starts_with(h@, n@),
{
    let hc = chars_of(h);
    let nc = chars_of(n);
    matches_at(hc.as_slice(), nc.as_slice(), 0)
}

/// Whether two strings hold the same characters.
pub fn str_eq(a: &str, b: &str) -> (r: bool)
    ensures
        r == (a@ == b@),
{
    let ac = chars_of(a);
    let bc = chars_of(b);
    if ac.len() != bc.len() {
        return false;
    }
    let r = matches_at(ac.as_slice(), bc.as_slice(), 0);
    proof {
        if r {
            assert(ac@.subrange(0, ac@.len() as int) =~= ac@);
        }
        if a@ == b@ {
            assert(ac@.subrange(0, bc@.len() as int) =~= bc@);
        }
    }
    r
}

// ---------------------------------------------------------------------
// Lines
// ---------------------------------------------------------------------
/// A line without its trailing carriage return, if it has one.
pub open spec fn strip_cr(l: Seq<char>) -> Seq<char> {
    if l.len() > 0 && l.last() == '\r' {
        l.drop_last()
    } else {
        l
    }
}

/// The lines of a text (`str::lines`): split at each `'\n'`, each line
/// losing a `'\r'` just before its `'\n'`; a final `'\n'` opens no line.
pub open spec fn lines(s: Seq<char>) -> Seq<Seq<char>>
    decreases s.len(),
{
    if s.len() == 0 {
        Seq::empty()
    } else {
        match find(s, seq!['\n']) {
            None => seq![s],
            Some(i) => if 0 <= i < s.len() {
                seq![strip_cr(s.subrange(0, i))] + lines(s.subrange(i + 1, s.len() as int))
            } else {
                Seq::empty()
            },
        }
    }
}

/// The lines of a text, each as characters.
pub fn lines_of(s: &[char]) -> (r: Vec<Vec<char>>)
    ensures
        r@.len() == lines(s@).len(),
        forall|k: int| 0 <= k < r@.len() ==> (#[trigger] r@[k])@ == lines(s@)[k],
{
    let mut r: Vec<Vec<char>> = Vec::new();
    let mut start: usize = 0;
    let mut nl: Vec<char> = Vec::new();
    nl.push('\n');
    assert(nl@ =~= seq!['\n']);
    proof {
        assert(s@.subrange(0, s@.len() as int) =~= s@);
        assert(Seq::new(r@.len(), |k: int| r@[k]@) =~= Seq::<Seq<char>>::empty());
    }
    while start < s.len()
        invariant
            start <= s@.len(),
            nl@ == seq!['\n'],
            lines(s@) == {
                let done = Seq::new(r@.len(), |k: int| r@[k]@);
                done + lines(s@.subrange(start as int, s@.len() as int))
            },
        decreases s.len() - start,
    {
        let ghost rest = s@.subrange(start as int, s@.len() as int);
        let ghost old_r = r@;
        let found = find_chars_from(s, nl.as_slice(), start);
        proof {
            lemma_find_shift(s@, seq!['\n'], start as int, 0);
        }
        match found {
            Some(j) => {
                proof {
                    lemma_find_from(s@, seq!['\n'], start as int);
                }
                let mut line: Vec<char> = Vec::new();
                let mut k: usize = start;
                while k < j
                    invariant
                        start <= k <= j < s@.len(),
                        line@ == s@.subrange(start as int, k as int),
                    decreases j - k,
                {
                    line.push(s[k]);
                    k = k + 1;
                }
                if line.len() > 0 && line[line.len() - 1] == '\r' {
                    line.pop();
                }
                proof {
                    assert(rest.subrange(0, j - start) =~= s@.subrange(start as int, j as int));
                    assert(rest.subrange(j - start + 1, rest.len() as int) =~= s@.subrange(
                        j + 1,
                        s@.len() as int,
                    ));
                    assert(line@ == strip_cr(s@.subrange(start as int, j as int))) by {
                        if s@.subrange(start as int, j as int).len() > 0 && s@.subrange(
                            start as int,
                            j as int,
                        ).last() == '\r' {
                            assert(line@ =~= s@.subrange(start as int, j as int).drop_last());
                        }
                    }
                }
                r.push(line);
                proof {
                    let done = Seq::new(r@.len(), |k: int| r@[k]@);
                    let old_done = Seq::new(old_r.len(), |k: int| old_r[k]@);
                    assert(done =~= old_done.push(strip_cr(s@.subrange(start as int, j as int))));
                    assert(lines(rest) == seq![strip_cr(s@.subrange(start as int, j as int))]
                        + lines(s@.subrange(j + 1, s@.len() as int)));
                    assert(lines(s@) =~= done + lines(s@.subrange(j + 1, s@.len() as int)));
                }
                start = j + 1;
            },
            None => {
                let mut line: Vec<char> = Vec::new();
                let mut k: usize = start;
                while k < s.len()
                    invariant
                        start <= k <= s@.len(),
                        line@ == s@.subrange(start as int, k as int),
                    decreases s.len() - k,
                {
                    line.push(s[k]);
                    k = k + 1;
                }
                r.push(line);
                proof {
                    let done = Seq::new(r@.len(), |k: int| r@[k]@);
                    let old_done = Seq::new(old_r.len(), |k: int| old_r[k]@);
                    assert(done =~= old_done.push(rest));
                    assert(lines(s@.subrange(s@.len() as int, s@.len() as int)) =~= Seq::empty())
                        by {
                        assert(s@.subrange(s@.len() as int, s@.len() as int).len() == 0);
                    }
                    assert(lines(s@) =~= done + lines(
                        s@.subrange(s@.len() as int, s@.len() as int),
                    ));
                }
                start = s.len();
            },
        }
    }
    proof {
        let done = Seq::new(r@.len(), |k: int| r@[k]@);
        assert(s@.subrange(start as int, s@.len() as int).len() == 0);
        assert(lines(s@) =~= done);
    }
    r
}

// ---------------------------------------------------------------------
// Decimal numbers
// ---------------------------------------------------------------------
/// The decimal digit for a number below ten.
pub open spec fn digit(d: nat) -> char {
    if d == 0 {
        '0'
    } else if d == 1 {
        '1'
    } else if d == 2 {
        '2'
    } else if d == 3 {
        '3'
    } else if d == 4 {
        '4'
    } else if d == 5 {
        '5'
    } else if d == 6 {
        '6'
    } else if d == 7 {
        '7'
    } else if d == 8 {
        '8'
    } else {
        '9'
    }
}

/// The decimal rendering of a natural number, as `{}` formats it.
pub open spec fn dec(n: nat) -> Seq<char>
    decreases n,
{
    if n < 10 {
        seq![digit(n)]
    } else {
        dec(n / 10).push(digit(n % 10))
    }
}

fn digit_char(d: u64) -> (c: char)
    requires
        d < 10,
    ensures
        c == digit(d as nat),
{
    if d == 0 {
        '0'
    } else if d == 1 {
        '1'
    } else if d == 2 {
        '2'
    } else if d == 3 {
        '3'
    } else if d == 4 {
        '4'
    } else if d == 5 {
        '5'
    } else if d == 6 {
        '6'
    } else if d == 7 {
        '7'
    } else if d == 8 {
        '8'
    } else {
        '9'
    }
}

/// Appends the decimal rendering of `n`.
pub fn push_dec(s: &mut String, n: u64)
    ensures
        final(s)@ == old(s)@ + dec(n as nat),
    decreases n,
{
    if n >= 10 {
        push_dec(s, n / 10);
    }
    let c = digit_char(n % 10);
    push_char(s, c);
    proof {
        if n >= 10 {
            assert(final(s)@ =~= old(s)@ + dec(n as nat));
        } else {
            assert(final(s)@ =~= old(s)@ + dec(n as nat));
        }
    }
}

/// The decimal rendering of `n` as a new string.
pub fn dec_string(n: u64) -> (s: String)
    ensures
        s@ == dec(n as nat),
{
    let mut s = String::new();
    push_dec(&mut s, n);
    assert(s@ =~= dec(n as nat));
    s
}

// ---------------------------------------------------------------------
// Ordering
// ---------------------------------------------------------------------
/// Lexicographic order on character sequences, by code point. This is the
/// order of Rust's `Ord` on `String`, whose byte-wise UTF-8 comparison
/// orders strings as their code-point sequences.
pub open spec fn seq_lt(a: Seq<char>, b: Seq<char>) -> bool
    decreases a.len(),
{
    if a.len() == 0 {
        b.len() > 0
    } else if b.len() == 0 {
        false
    } else if a[0] != b[0] {
        (a[0] as int) < (b[0] as int)
    } else {
        seq_lt(a.drop_first(), b.drop_first())
    }
}

/// The order is irreflexive.
pub proof fn lemma_lt_irreflexive(a: Seq<char>)
    ensures
        !seq_lt(a, a),
    decreases a.len(),
{
    if a.len() > 0 {
        lemma_lt_irreflexive(a.drop_first());
    }
}

/// The order is total on distinct sequences.
pub proof fn lemma_lt_total(a: Seq<char>, b: Seq<char>)
    ensures
        a != b ==> seq_lt(a, b) || seq_lt(b, a),
        !(seq_lt(a, b) && seq_lt(b, a)),
    decreases a.len(),
{
    if a.len() > 0 && b.len() > 0 {
        if a[0] == b[0] {
            lemma_lt_total(a.drop_first(), b.drop_first());
            if a != b {
                if a.drop_first() == b.drop_first() {
                    assert(a =~= seq![a[0]] + a.drop_first());
                    assert(b =~= seq![b[0]] + b.drop_first());
                }
            }
        }
    } else if a.len() == 0 && b.len() == 0 {
        assert(a =~= b);
    }
}

/// The order is transitive.
pub proof fn lemma_lt_transitive(a: Seq<char>, b: Seq<char>, c: Seq<char>)
    requires
        seq_lt(a, b),
        seq_lt(b, c),
    ensures
        seq_lt(a, c),
    decreases a.len(),
{
    if a.len() > 0 && b.len() > 0 && c.len() > 0 {
        if a[0] == b[0] && b[0] == c[0] {
            lemma_lt_transitive(a.drop_first(), b.drop_first(), c.drop_first());
        }
    }
}

fn char_before(x: char, y: char) -> (r: bool)
    ensures
        r == ((x as int) < (y as int)),
{
    (x as u32) < (y as u32)
}

/// Whether `a` orders before `b`.
pub fn chars_lt(a: &[char], b: &[char]) -> (r: bool)
    ensures
        r == seq_lt(a@, b@),
{
    let mut i: usize = 0;
    assert(a@.subrange(0, a@.len() as int) =~= a@);
    assert(b@.subrange(0, b@.len() as int) =~= b@);
    while i < a.len() && i < b.len()
        invariant
            i <= a@.len(),
            i <= b@.len(),
            seq_lt(a@, b@) == seq_lt(a@.subrange(i as int, a@.len() as int), b@.subrange(
                i as int,
                b@.len() as int,
            )),
        decreases a.len() - i,
    {
        let x = a[i];
        let y = b[i];
        let ghost sa = a@.subrange(i as int, a@.len() as int);
        let ghost sb = b@.subrange(i as int, b@.len() as int);
        if x != y {
            assert(sa[0] == x && sb[0] == y);
            return char_before(x, y);
        }
        assert(sa.drop_first() =~= a@.subrange(i + 1, a@.len() as int));
        assert(sb.drop_first() =~= b@.subrange(i + 1, b@.len() as int));
        i = i + 1;
    }
    let ghost sa = a@.subrange(i as int, a@.len() as int);
    let ghost sb = b@.subrange(i as int, b@.len() as int);
    assert(sa.len() == 0 || sb.len() == 0);
    i < b.len()
}

/// Whether the string `a` orders before the string `b`.
pub fn str_lt(a: &str, b: &str) -> (r: bool)
    ensures
        r == seq_lt(a@, b@),
{
    let ac = chars_of(a);
    let bc = chars_of(b);
    chars_lt(ac.as_slice(), bc.as_slice())
}

// ---------------------------------------------------------------------
// Replacing
// ---------------------------------------------------------------------
/// Every non-overlapping occurrence of `from`, left to right, replaced by
/// `to` (`str::replace`, for a non-empty pattern).
pub open spec fn replace_all(s: Seq<char>, from: Seq<char>, to: Seq<char>) -> Seq<char>
    decreases s.len(),
{
    if from.len() == 0 {
        s
    } else {
        match find(s, from) {
            None => s,
            Some(i) => if 0 <= i && i + from.len() <= s.len() {
                s.subrange(0, i) + to + replace_all(
                    s.subrange(i + from.len(), s.len() as int),
                    from,
                    to,
                )
            } else {
                s
            },
        }
    }
}

/// `s` with every occurrence of `from` replaced by `to`.
pub fn replace_str(s: &str, from: &str, to: &str) -> (r: String)
    requires
        from@.len() > 0,
    ensures
        r@ == replace_all(s@, from@, to@),
{
    let sc = chars_of(s);
    let fc = chars_of(from);
    let tc = chars_of(to);
    let mut out: Vec<char> = Vec::new();
    let mut start: usize = 0;
    let mut done = false;
    assert(s@.subrange(0, s@.len() as int) =~= s@);
    assert(out@ + s@ =~= s@);
    while !done
        invariant
            start <= sc@.len(),
            fc@ == from@,
            tc@ == to@,
            sc@ == s@,
            from@.len() > 0,
            !done ==> replace_all(s@, from@, to@) == out@ + replace_all(
                s@.subrange(start as int, s@.len() as int),
                from@,
                to@,
            ),
            done ==> replace_all(s@, from@, to@) == out@,
        decreases sc.len() + 1 - start, (if done { 0int } else { 1int }),
    {
        let ghost rest = s@.subrange(start as int, s@.len() as int);
        let ghost old_out = out@;
        let found = find_chars_from(sc.as_slice(), fc.as_slice(), start);
        proof {
            lemma_find_from(s@, from@, start as int);
            lemma_find_from(rest, from@, 0);
            assert forall|k: int| 0 <= k implies match_at(rest, from@, k) == match_at(
                s@,
                from@,
                k + start,
            ) by {
                if 0 <= k && k + from@.len() <= rest.len() {
                    assert(rest.subrange(k, k + from@.len()) =~= s@.subrange(
                        k + start,
                        k + start + from@.len(),
                    ));
                }
            }
        }
        match found {
            Some(j) => {
                assert(find(rest, from@) == Some(j - start)) by {
                    if find(rest, from@) != Some(j - start) {
                        match find(rest, from@) {
                            Some(m) => {
                                if m < j - start {
                                    assert(match_at(s@, from@, m + start));
                                } else {
                                    assert(!match_at(rest, from@, j - start));
                                }
                            },
                            None => {
                                assert(match_at(rest, from@, j - start));
                            },
                        }
                    }
                }
                let mut k: usize = start;
                while k < j
                    invariant
                        start <= k <= j,
                        j < sc@.len(),
                        out@ == old_out + s@.subrange(start as int, k as int),
                        sc@ == s@,
                    decreases j - k,
                {
                    out.push(sc[k]);
                    k = k + 1;
                }
                let mut t: usize = 0;
                while t < tc.len()
                    invariant
                        t <= tc@.len(),
                        out@ == old_out + s@.subrange(start as int, j as int) + tc@.subrange(
                            0,
                            t as int,
                        ),
                    decreases tc.len() - t,
                {
                    out.push(tc[t]);
                    t = t + 1;
                }
                proof {
                    assert(tc@.subrange(0, tc@.len() as int) =~= tc@);
                    assert(rest.subrange(0, j - start) =~= s@.subrange(start as int, j as int));
                    assert(rest.subrange(j - start + from@.len(), rest.len() as int)
                        =~= s@.subrange(j + from@.len(), s@.len() as int));
                    assert(out@ =~= old_out + (s@.subrange(start as int, j as int) + to@));
                }
                start = j + fc.len();
            },
            None => {
                assert(find(rest, from@) is None) by {
                    if find(rest, from@) is Some {
                        let m = find(rest, from@)->0;
                        assert(match_at(s@, from@, m + start));
                    }
                }
                let mut k: usize = start;
                while k < sc.len()
                    invariant
                        start <= k <= sc@.len(),
                        out@ == old_out + s@.subrange(start as int, k as int),
                        sc@ == s@,
                    decreases sc.len() - k,
                {
                    out.push(sc[k]);
                    k = k + 1;
                }
                assert(out@ =~= old_out + rest);
                done = true;
            },
        }
    }
    string_of(out.as_slice())
}

} // verus!

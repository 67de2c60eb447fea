//! Character-level text handling: the model of strings as `Seq<char>`,
//! trimming, splitting, joining, decimal numbers, and the executable
//! counterparts that the rest of the crate builds its messages with.
use vstd::prelude::*;
use vstd::string::*;

verus! {

/// Unicode `White_Space`, the set that `char::is_whitespace` accepts.
pub open spec fn is_space(c: char) -> bool {
    let u = c as u32;
    ||| 9 <= u <= 13
    ||| u == 32
    ||| u == 0x85
    ||| u == 0xA0
    ||| u == 0x1680
    ||| 0x2000 <= u <= 0x200A
    ||| u == 0x2028
    ||| u == 0x2029
    ||| u == 0x202F
    ||| u == 0x205F
    ||| u == 0x3000
}

/// `s` with its leading white space removed.
pub open spec fn trim_start(s: Seq<char>) -> Seq<char>
    decreases s.len(),
{
    if s.len() > 0 && is_space(s[0]) {
        trim_start(s.drop_first())
    } else {
        s
    }
}

/// `s` with its trailing white space removed.
pub open spec fn trim_end(s: Seq<char>) -> Seq<char>
    decreases s.len(),
{
    if s.len() > 0 && is_space(s.last()) {
        trim_end(s.drop_last())
    } else {
        s
    }
}

/// What `str::trim` gives back.
pub open spec fn trim(s: Seq<char>) -> Seq<char> {
    trim_end(trim_start(s))
}

/// The pieces that `str::split` with a one-character pattern yields:
/// the text between separators, an empty text yielding one empty piece.
pub open spec fn split_on(s: Seq<char>, sep: char) -> Seq<Seq<char>>
    decreases s.len(),
{
    if s.len() == 0 {
        seq![Seq::<char>::empty()]
    } else {
        let rest = split_on(s.drop_last(), sep);
        if s.last() == sep {
            rest.push(Seq::<char>::empty())
        } else {
            rest.update(rest.len() - 1, rest.last().push(s.last()))
        }
    }
}

/// The pieces joined with `sep` between consecutive ones.
pub open spec fn join(parts: Seq<Seq<char>>, sep: Seq<char>) -> Seq<char>
    decreases parts.len(),
{
    if parts.len() == 0 {
        Seq::<char>::empty()
    } else if parts.len() == 1 {
        parts[0]
    } else {
        join(parts.drop_last(), sep) + sep + parts.last()
    }
}

/// The ASCII digit for `d < 10`.
pub open spec fn digit_char(d: nat) -> char {
    (d + 48) as char
}

/// The decimal notation of `n`, without sign or leading zeros.
pub open spec fn decimal(n: nat) -> Seq<char>
    decreases n,
{
    if n < 10 {
        seq![digit_char(n)]
    } else {
        decimal(n / 10).push(digit_char(n % 10))
    }
}

pub open spec fn is_digit(c: char) -> bool {
    48 <= (c as u32) <= 57
}

pub open spec fn all_digits(s: Seq<char>) -> bool {
    forall|i: int| 0 <= i < s.len() ==> is_digit(#[trigger] s[i])
}

/// The number that a string of ASCII digits denotes.
pub open spec fn digits_value(s: Seq<char>) -> nat
    decreases s.len(),
{
    if s.len() == 0 {
        0
    } else {
        digits_value(s.drop_last()) * 10 + ((s.last() as u32) - 48) as nat
    }
}

/// What `str::parse` gives for an unsigned integer type whose largest
/// value is `max`: an optional `+`, then one or more ASCII digits whose
/// value is at most `max`; anything else is an error.
pub open spec fn parse_unsigned(s: Seq<char>, max: nat) -> Option<nat> {
    let d = if s.len() > 0 && s[0] == '+' {
        s.drop_first()
    } else {
        s
    };
    if d.len() > 0 && all_digits(d) && digits_value(d) <= max {
        Some(digits_value(d))
    } else {
        None
    }
}

/// What `str::strip_prefix` gives back.
pub open spec fn strip_prefix(s: Seq<char>, prefix: Seq<char>) -> Option<Seq<char>> {
    if prefix.len() <= s.len() && s.take(prefix.len() as int) == prefix {
        Some(s.skip(prefix.len() as int))
    } else {
        None
    }
}

/// The lines of `s` (split at `\n`), each trimmed, blank ones left out:
/// what `s.lines().filter(|l| !l.trim().is_empty()).map(|l| l.trim())` yields.
pub open spec fn filled_lines(s: Seq<char>) -> Seq<Seq<char>> {
    split_on(s, '\n').map_values(|l: Seq<char>| trim(l)).filter(|l: Seq<char>| l.len() > 0)
}

pub proof fn lemma_join_step(parts: Seq<Seq<char>>, sep: Seq<char>, i: int)
    requires
        0 <= i < parts.len(),
    ensures
        join(parts.take(i + 1), sep) == if i == 0 {
            parts[0]
        } else {
            join(parts.take(i), sep) + sep + parts[i]
        },
{
    assert(parts.take(i + 1).drop_last() =~= parts.take(i));
}

pub proof fn lemma_join_all(parts: Seq<Seq<char>>, sep: Seq<char>)
    ensures
        join(parts.take(parts.len() as int), sep) == join(parts, sep),
{
    assert(parts.take(parts.len() as int) =~= parts);
}

/// `String::push`: appends one character.
#[verifier::external_body]
pub(crate) fn push_char(s: &mut String, c: char)
    ensures
        final(s)@ == old(s)@.push(c),
{
    s.push(c);
}

/// The characters of `s`, in order.
pub fn chars_of(s: &str) -> (v: Vec<char>)
    ensures
        v@ == s@,
{
    let n = s.unicode_len();
    let mut v: Vec<char> = Vec::new();
    let mut i: usize = 0;
    while i < n
        invariant
            n == s@.len(),
            i <= n,
            v@ == s@.take(i as int),
        decreases n - i,
    {
        let c = s.get_char(i);
        v.push(c);
        i = i + 1;
        assert(v@ =~= s@.take(i as int));
    }
    assert(v@ =~= s@);
    v
}

/// Appends the characters `v` to `out`.
pub fn push_chars(out: &mut String, v: &Vec<char>)
    ensures
        final(out)@ == old(out)@ + v@,
{
    let ghost start = out@;
    let mut i: usize = 0;
    while i < v.len()
        invariant
            i <= v.len(),
            out@ == start + v@.take(i as int),
        decreases v.len() - i,
    {
        push_char(out, v[i]);
        i = i + 1;
        assert(out@ =~= start + v@.take(i as int));
    }
    assert(v@.take(v.len() as int) =~= v@);
}

/// A string holding the characters `v`.
pub fn string_of(v: &Vec<char>) -> (s: String)
    ensures
        s@ == v@,
{
    let mut s = String::new();
    push_chars(&mut s, v);
    assert(s@ =~= v@);
    s
}

/// Whether two character sequences are equal.
pub fn chars_equal(a: &Vec<char>, b: &Vec<char>) -> (r: bool)
    ensures
        r == (a@ == b@),
{
    if a.len() != b.len() {
        return false;
    }
    let mut i: usize = 0;
    while i < a.len()
        invariant
            a.len() == b.len(),
            i <= a.len(),
            forall|j: int| 0 <= j < i ==> a@[j] == b@[j],
        decreases a.len() - i,
    {
        if a[i] != b[i] {
            return false;
        }
        i = i + 1;
    }
    assert(a@ =~= b@);
    true
}

/// Whether `c` is white space, as `char::is_whitespace` decides.
pub fn is_space_char(c: char) -> (r: bool)
    ensures
        r == is_space(c),
{
    let u = c as u32;
    (9 <= u && u <= 13) || u == 32 || u == 0x85 || u == 0xA0 || u == 0x1680 || (0x2000 <= u
        && u <= 0x200A) || u == 0x2028 || u == 0x2029 || u == 0x202F || u == 0x205F || u == 0x3000
}

proof fn lemma_trim_start_skip(s: Seq<char>, i: int)
    requires
        0 <= i < s.len(),
        is_space(s[i]),
    ensures
        trim_start(s.skip(i)) == trim_start(s.skip(i + 1)),
{
    assert(s.skip(i).drop_first() =~= s.skip(i + 1));
}

proof fn lemma_trim_end_sub(s: Seq<char>, i: int, j: int)
    requires
        0 <= i < j <= s.len(),
        is_space(s[j - 1]),
    ensures
        trim_end(s.subrange(i, j)) == trim_end(s.subrange(i, j - 1)),
{
    assert(s.subrange(i, j).drop_last() =~= s.subrange(i, j - 1));
}

/// `v` without leading and trailing white space.
pub fn trim_chars(v: &Vec<char>) -> (r: Vec<char>)
    ensures
        r@ == trim(v@),
{
    let n = v.len();
    let mut i: usize = 0;
    assert(v@.skip(0) =~= v@);
    while i < n && is_space_char(v[i])
        invariant
            n == v.len(),
            i <= n,
            trim_start(v@) == trim_start(v@.skip(i as int)),
        decreases n - i,
    {
        proof {
            lemma_trim_start_skip(v@, i as int);
        }
        i = i + 1;
    }
    assert(trim_start(v@) == v@.skip(i as int));
    assert(v@.skip(i as int) =~= v@.subrange(i as int, n as int));
    let mut j: usize = n;
    while j > i && is_space_char(v[j - 1])
        invariant
            n == v.len(),
            i <= j <= n,
            trim_end(v@.subrange(i as int, n as int)) == trim_end(v@.subrange(i as int, j as int)),
        decreases j,
    {
        proof {
            lemma_trim_end_sub(v@, i as int, j as int);
        }
        j = j - 1;
    }
    let mut r: Vec<char> = Vec::new();
    let mut k: usize = i;
    while k < j
        invariant
            n == v.len(),
            i <= k <= j <= n,
            r@ == v@.subrange(i as int, k as int),
        decreases j - k,
    {
        r.push(v[k]);
        k = k + 1;
        assert(r@ =~= v@.subrange(i as int, k as int));
    }
    r
}

proof fn lemma_split_step(s: Seq<char>, sep: char, i: int)
    requires
        0 <= i < s.len(),
    ensures
        split_on(s.take(i + 1), sep) == ({
            let rest = split_on(s.take(i), sep);
            if s[i] == sep {
                rest.push(Seq::<char>::empty())
            } else {
                rest.update(rest.len() - 1, rest.last().push(s[i]))
            }
        }),
{
    assert(s.take(i + 1).drop_last() =~= s.take(i));
}

pub proof fn lemma_split_nonempty(s: Seq<char>, sep: char)
    ensures
        split_on(s, sep).len() >= 1,
    decreases s.len(),
{
    if s.len() > 0 {
        lemma_split_nonempty(s.drop_last(), sep);
    }
}

/// The view of a list of character vectors.
pub open spec fn texts_view(v: Seq<Vec<char>>) -> Seq<Seq<char>> {
    v.map_values(|x: Vec<char>| x@)
}

/// The pieces of `v` between occurrences of `sep`, as `str::split` yields them.
pub fn split_chars(v: &Vec<char>, sep: char) -> (r: Vec<Vec<char>>)
    ensures
        texts_view(r@) == split_on(v@, sep),
{
    let mut done: Vec<Vec<char>> = Vec::new();
    let mut cur: Vec<char> = Vec::new();
    let mut i: usize = 0;
    assert(v@.take(0) =~= Seq::<char>::empty());
    assert(texts_view(done@).push(cur@) =~= split_on(v@.take(0), sep));
    while i < v.len()
        invariant
            i <= v.len(),
            texts_view(done@).push(cur@) == split_on(v@.take(i as int), sep),
        decreases v.len() - i,
    {
        proof {
            lemma_split_step(v@, sep, i as int);
        }
        let ghost before = texts_view(done@).push(cur@);
        let c = v[i];
        if c == sep {
            let finished = cur;
            done.push(finished);
            cur = Vec::new();
            assert(texts_view(done@).push(cur@) =~= before.push(Seq::<char>::empty()));
        } else {
            cur.push(c);
            assert(texts_view(done@).push(cur@) =~= before.update(
                before.len() - 1,
                before.last().push(c),
            ));
        }
        i = i + 1;
    }
    assert(v@.take(v.len() as int) =~= v@);
    done.push(cur);
    assert(texts_view(done@) =~= split_on(v@, sep));
    done
}

/// Appends the decimal notation of `n` to `out`.
pub fn push_decimal(out: &mut String, n: u64)
    ensures
        final(out)@ == old(out)@ + decimal(n as nat),
    decreases n,
{
    let ghost start = out@;
    if n >= 10 {
        push_decimal(out, n / 10);
    }
    let d = (n % 10) as u8;
    let c = (48u8 + d) as char;
    assert(c == digit_char((n % 10) as nat));
    push_char(out, c);
    assert(out@ =~= start + decimal(n as nat));
}

/// The decimal notation of `n`.
pub fn decimal_string(n: u64) -> (s: String)
    ensures
        s@ == decimal(n as nat),
{
    let mut s = String::new();
    push_decimal(&mut s, n);
    assert(s@ =~= decimal(n as nat));
    s
}

proof fn lemma_digits_value_mono(s: Seq<char>, k: int)
    requires
        0 <= k <= s.len(),
    ensures
        digits_value(s) >= digits_value(s.take(k)),
    decreases s.len(),
{
    if k == s.len() {
        assert(s.take(k) =~= s);
    } else {
        lemma_digits_value_mono(s.drop_last(), k);
        assert(s.drop_last().take(k) =~= s.take(k));
    }
}

proof fn lemma_digit_step(d: Seq<char>, m: int)
    requires
        0 <= m < d.len(),
        is_digit(d[m]),
        all_digits(d.take(m)),
    ensures
        digits_value(d.take(m + 1)) == digits_value(d.take(m)) * 10 + ((d[m] as u32) - 48) as nat,
        all_digits(d.take(m + 1)),
{
    let t = d.take(m + 1);
    assert(t.drop_last() =~= d.take(m));
    assert(t.last() == d[m]);
}

/// Parses an unsigned decimal number no larger than `max`, as `str::parse`
/// does for an unsigned integer type whose largest value is `max`.
pub fn parse_unsigned_chars(v: &Vec<char>, max: u64) -> (r: Option<u64>)
    ensures
        match r {
            Some(x) => parse_unsigned(v@, max as nat) == Some(x as nat),
            None => parse_unsigned(v@, max as nat) is None,
        },
{
    let n = v.len();
    let start: usize = if n > 0 && v[0] == '+' {
        1
    } else {
        0
    };
    let ghost d = if v@.len() > 0 && v@[0] == '+' {
        v@.drop_first()
    } else {
        v@
    };
    assert(d =~= v@.skip(start as int));
    if start == n {
        assert(d.len() == 0);
        return None;
    }
    let mut acc: u64 = 0;
    let mut k: usize = start;
    assert(d.take(0) =~= Seq::<char>::empty());
    while k < n
        invariant
            n == v.len(),
            start <= k <= n,
            d == v@.skip(start as int),
            d == (if v@.len() > 0 && v@[0] == '+' {
                v@.drop_first()
            } else {
                v@
            }),
            acc <= max,
            acc as nat == digits_value(d.take(k - start)),
            all_digits(d.take(k - start)),
        decreases n - k,
    {
        let c = v[k];
        let u = c as u32;
        if !(48 <= u && u <= 57) {
            assert(!is_digit(d[k - start]));
            assert(!all_digits(d));
            return None;
        }
        let next: u128 = (acc as u128) * 10 + ((u - 48) as u128);
        proof {
            lemma_digit_step(d, (k - start) as int);
        }
        if next > max as u128 {
            proof {
                if all_digits(d) {
                    lemma_digits_value_mono(d, k - start + 1);
                }
            }
            return None;
        }
        acc = next as u64;
        k = k + 1;
    }
    assert(d.take(n - start) =~= d);
    Some(acc)
}

/// The view of an optional character vector.
pub open spec fn opt_text_view(o: Option<Vec<char>>) -> Option<Seq<char>> {
    match o {
        Some(x) => Some(x@),
        None => None,
    }
}

/// `v` without `prefix` in front, when it starts with it.
pub fn strip_prefix_chars(v: &Vec<char>, prefix: &Vec<char>) -> (r: Option<Vec<char>>)
    ensures
        opt_text_view(r) == strip_prefix(v@, prefix@),
{
    let p = prefix.len();
    if p > v.len() {
        return None;
    }
    let mut i: usize = 0;
    while i < p
        invariant
            p == prefix.len(),
            p <= v.len(),
            i <= p,
            forall|j: int| 0 <= j < i ==> v@[j] == prefix@[j],
        decreases p - i,
    {
        if v[i] != prefix[i] {
            assert(v@.take(p as int)[i as int] != prefix@[i as int]);
            return None;
        }
        i = i + 1;
    }
    assert(v@.take(p as int) =~= prefix@);
    let mut rest: Vec<char> = Vec::new();
    let mut k: usize = p;
    while k < v.len()
        invariant
            p <= k <= v.len(),
            rest@ == v@.subrange(p as int, k as int),
        decreases v.len() - k,
    {
        rest.push(v[k]);
        k = k + 1;
        assert(rest@ =~= v@.subrange(p as int, k as int));
    }
    assert(rest@ =~= v@.skip(p as int));
    Some(rest)
}

/// The trimmed, non-blank lines of `v`.
pub fn filled_lines_of(v: &Vec<char>) -> (r: Vec<Vec<char>>)
    ensures
        texts_view(r@) == filled_lines(v@),
        forall|i: int| 0 <= i < r@.len() ==> (#[trigger] r@[i])@.len() > 0,
{
    let pieces = split_chars(v, '\n');
    let ghost parts = split_on(v@, '\n');
    let ghost trimmed = parts.map_values(|l: Seq<char>| trim(l));
    let mut out: Vec<Vec<char>> = Vec::new();
    let mut i: usize = 0;
    assert(trimmed.take(0).filter(|l: Seq<char>| l.len() > 0) =~= Seq::<Seq<char>>::empty()) by {
        reveal_with_fuel(Seq::<_>::filter, 1);
    }
    while i < pieces.len()
        invariant
            i <= pieces.len(),
            texts_view(pieces@) == parts,
            trimmed == parts.map_values(|l: Seq<char>| trim(l)),
            texts_view(out@) == trimmed.take(i as int).filter(|l: Seq<char>| l.len() > 0),
            forall|j: int| 0 <= j < out@.len() ==> (#[trigger] out@[j])@.len() > 0,
        decreases pieces.len() - i,
    {
        let t = trim_chars(&pieces[i]);
        assert(pieces@[i as int]@ == texts_view(pieces@)[i as int]);
        assert(trimmed[i as int] == trim(parts[i as int]));
        assert(trimmed.take(i + 1).drop_last() =~= trimmed.take(i as int));
        assert(trimmed.take(i + 1).last() == t@);
        assert(trimmed.take(i + 1).filter(|l: Seq<char>| l.len() > 0) == if (t@.len() > 0) {
            trimmed.take(i as int).filter(|l: Seq<char>| l.len() > 0).push(t@)
        } else {
            trimmed.take(i as int).filter(|l: Seq<char>| l.len() > 0)
        }) by {
            reveal_with_fuel(Seq::<_>::filter, 1);
        }
        if t.len() > 0 {
            let ghost before = out@;
            out.push(t);
            assert(texts_view(out@) =~= texts_view(before).push(t@));
            assert((t@.len() > 0));
        } else {
            assert(!(t@.len() > 0));
        }
        i = i + 1;
    }
    assert(trimmed.take(pieces.len() as int) =~= trimmed);
    out
}

} // verus!

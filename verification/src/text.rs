use vstd::prelude::*;

verus! {

/// Calls `String::push` (std): the string afterwards is the old one with `c` appended.
#[verifier::external_body]
pub(crate) fn push_char(s: &mut String, c: char)
    ensures
        final(s)@ == old(s)@.push(c),
{
    s.push(c);
}

/// The characters of a string slice, in order.
pub fn chars_of(s: &str) -> (v: Vec<char>)
    ensures
        v@ == s@,
{
    let mut v: Vec<char> = Vec::new();
    for c in it: s.chars()
        invariant
            v@ == it.seq().take(it.index() as int),
    {
        v.push(c);
    }
    v
}

/// The decimal digit for `d < 10`.
pub open spec fn digit_char(d: nat) -> char {
    if d == 0 { '0' } else if d == 1 { '1' } else if d == 2 { '2' } else if d == 3 { '3' }
    else if d == 4 { '4' } else if d == 5 { '5' } else if d == 6 { '6' } else if d == 7 { '7' }
    else if d == 8 { '8' } else { '9' }
}

/// Decimal rendering of a natural number, without leading zeros.
pub open spec fn decimal(n: nat) -> Seq<char>
    decreases n,
{
    if n < 10 {
        seq![digit_char(n)]
    } else {
        decimal(n / 10).push(digit_char(n % 10))
    }
}

fn digit(d: u64) -> (c: char)
    requires
        d < 10,
    ensures
        c == digit_char(d as nat),
{
    if d == 0 { '0' } else if d == 1 { '1' } else if d == 2 { '2' } else if d == 3 { '3' }
    else if d == 4 { '4' } else if d == 5 { '5' } else if d == 6 { '6' } else if d == 7 { '7' }
    else if d == 8 { '8' } else { '9' }
}

/// Appends the decimal rendering of `n`.
pub fn push_decimal(out: &mut String, n: u64)
    ensures
        final(out)@ == old(out)@ + decimal(n as nat),
    decreases n,
{
    if n >= 10 {
        push_decimal(out, n / 10);
    }
    push_char(out, digit(n % 10));
    proof {
        if n >= 10 {
            assert(old(out)@ + decimal(n as nat) =~= old(out)@ + decimal((n / 10) as nat) + seq![digit_char((n % 10) as nat)]);
        } else {
            assert(old(out)@ + decimal(n as nat) =~= old(out)@ + seq![digit_char(n as nat)]);
        }
    }
}

/// Appends a string slice.
pub fn push_str(out: &mut String, s: &str)
    ensures
        final(out)@ == old(out)@ + s@,
{
    out.append(s);
}

/// A new string holding a copy of `s`.
pub fn string_of(s: &str) -> (r: String)
    ensures
        r@ == s@,
{
    let mut r = String::new();
    push_str(&mut r, s);
    r
}

/// Whether two string slices hold the same characters.
pub fn str_eq(a: &str, b: &str) -> (r: bool)
    ensures
        r == (a@ == b@),
{
    let x = chars_of(a);
    let y = chars_of(b);
    if x.len() != y.len() {
        return false;
    }
    let mut i: usize = 0;
    while i < x.len()
        invariant
            i <= x@.len() == y@.len(),
            x@ == a@,
            y@ == b@,
            forall|j: int| 0 <= j < i ==> x@[j] == y@[j],
        decreases x@.len() - i,
    {
        if x[i] != y[i] {
            return false;
        }
        i = i + 1;
    }
    proof { assert(x@ =~= y@); }
    true
}

/// The parts joined, with `sep` between consecutive ones.
pub open spec fn join_sep(parts: Seq<Seq<char>>, sep: Seq<char>) -> Seq<char>
    decreases parts.len(),
{
    if parts.len() == 0 {
        Seq::empty()
    } else if parts.len() == 1 {
        parts[0]
    } else {
        join_sep(parts.drop_last(), sep) + sep + parts.last()
    }
}

/// Joins strings with `sep` between consecutive ones (`[String]::join`).
pub fn join_strings(parts: &Vec<String>, sep: &str) -> (r: String)
    ensures
        r@ == join_sep(parts@.map_values(|s: String| s@), sep@),
{
    let ghost ps = parts@.map_values(|s: String| s@);
    let mut out = String::new();
    let mut i: usize = 0;
    while i < parts.len()
        invariant
            i <= parts@.len(),
            ps == parts@.map_values(|s: String| s@),
            out@ == join_sep(ps.take(i as int), sep@),
        decreases parts@.len() - i,
    {
        proof { assert(ps.take(i + 1).drop_last() =~= ps.take(i as int)); }
        if i > 0 {
            push_str(&mut out, sep);
        }
        push_str(&mut out, parts[i].as_str());
        i = i + 1;
        proof {
            if i == 1 {
                assert(out@ =~= ps.take(1)[0]);
            } else {
                assert(out@ =~= join_sep(ps.take(i as int), sep@));
            }
        }
    }
    proof { assert(ps.take(i as int) =~= ps); }
    out
}

/// Lexicographic order on character sequences (the order of `str`: comparing the UTF-8
/// bytes orders as comparing the characters).
pub open spec fn seq_lt(a: Seq<char>, b: Seq<char>) -> bool
    decreases a.len(),
{
    if a.len() == 0 {
        b.len() > 0
    } else if b.len() == 0 {
        false
    } else if a[0] != b[0] {
        a[0] < b[0]
    } else {
        seq_lt(a.drop_first(), b.drop_first())
    }
}

/// Whether `a` sorts strictly before `b`.
pub fn str_lt(a: &str, b: &str) -> (r: bool)
    ensures
        r == seq_lt(a@, b@),
{
    let x = chars_of(a);
    let y = chars_of(b);
    let mut i: usize = 0;
    proof {
        assert(x@.skip(0) =~= a@);
        assert(y@.skip(0) =~= b@);
    }
    while i < x.len() && i < y.len()
        invariant
            i <= x@.len(),
            i <= y@.len(),
            x@ == a@,
            y@ == b@,
            seq_lt(a@, b@) == seq_lt(x@.skip(i as int), y@.skip(i as int)),
        decreases x@.len() - i,
    {
        proof {
            assert(x@.skip(i as int).drop_first() =~= x@.skip(i + 1));
            assert(y@.skip(i as int).drop_first() =~= y@.skip(i + 1));
            assert(x@.skip(i as int)[0] == x@[i as int]);
            assert(y@.skip(i as int)[0] == y@[i as int]);
        }
        if x[i] != y[i] {
            return x[i] < y[i];
        }
        i = i + 1;
    }
    i < y.len()
}

/// Characters with the Unicode `White_Space` property (what `char::is_whitespace` accepts).
pub open spec fn is_ws(c: char) -> bool {
    let u = c as u32;
    ||| 0x9 <= u <= 0xD
    ||| u == 0x20
    ||| u == 0x85
    ||| u == 0xA0
    ||| u == 0x1680
    ||| 0x2000 <= u <= 0x200A
    ||| u == 0x2028
    ||| u == 0x2029
    ||| u == 0x202F
    ||| u == 0x205F
    ||| u == 0x3000
}

/// Whether `c` is white space.
pub fn is_whitespace(c: char) -> (r: bool)
    ensures
        r == is_ws(c),
{
    let u = c as u32;
    (0x9 <= u && u <= 0xD) || u == 0x20 || u == 0x85 || u == 0xA0 || u == 0x1680 || (0x2000 <= u
        && u <= 0x200A) || u == 0x2028 || u == 0x2029 || u == 0x202F || u == 0x205F || u == 0x3000
}

/// `s` without its leading white space.
pub open spec fn trim_start(s: Seq<char>) -> Seq<char>
    decreases s.len(),
{
    if s.len() > 0 && is_ws(s[0]) {
        trim_start(s.subrange(1, s.len() as int))
    } else {
        s
    }
}

/// `s` without its trailing white space.
pub open spec fn trim_end(s: Seq<char>) -> Seq<char>
    decreases s.len(),
{
    if s.len() > 0 && is_ws(s.last()) {
        trim_end(s.drop_last())
    } else {
        s
    }
}

/// `s` without leading and trailing white space (`str::trim`).
pub open spec fn trim(s: Seq<char>) -> Seq<char> {
    trim_end(trim_start(s))
}

/// The pieces of `s` between occurrences of `sep` (`str::split` with a character).
pub open spec fn split_on(s: Seq<char>, sep: char) -> Seq<Seq<char>>
    decreases s.len(),
{
    if s.len() == 0 {
        seq![Seq::empty()]
    } else {
        let p = split_on(s.drop_last(), sep);
        if s.last() == sep {
            p.push(Seq::empty())
        } else {
            p.update(p.len() - 1, p.last().push(s.last()))
        }
    }
}

/// The models of a list of character vectors.
pub open spec fn char_vecs_view(v: Seq<Vec<char>>) -> Seq<Seq<char>> {
    Seq::new(v.len(), |i: int| v[i]@)
}

pub proof fn lemma_split_on_nonempty(s: Seq<char>, sep: char)
    ensures
        split_on(s, sep).len() >= 1,
    decreases s.len(),
{
    if s.len() > 0 {
        lemma_split_on_nonempty(s.drop_last(), sep);
    }
}

/// A copy of `s[lo..hi]`.
pub fn copy_range(s: &Vec<char>, lo: usize, hi: usize) -> (r: Vec<char>)
    requires
        lo <= hi <= s@.len(),
    ensures
        r@ == s@.subrange(lo as int, hi as int),
{
    let mut r: Vec<char> = Vec::new();
    let mut i = lo;
    while i < hi
        invariant
            lo <= i <= hi <= s@.len(),
            r@ == s@.subrange(lo as int, i as int),
        decreases hi - i,
    {
        r.push(s[i]);
        i = i + 1;
        proof { assert(r@ =~= s@.subrange(lo as int, i as int)); }
    }
    r
}

proof fn lemma_trim_start_step(s: Seq<char>, i: int)
    requires
        0 <= i < s.len(),
        is_ws(s[i]),
    ensures
        trim_start(s.subrange(i, s.len() as int)) == trim_start(s.subrange(i + 1, s.len() as int)),
{
    let t = s.subrange(i, s.len() as int);
    assert(t.subrange(1, t.len() as int) =~= s.subrange(i + 1, s.len() as int));
}

/// `s` with leading and trailing white space removed.
pub fn trim_chars(s: &Vec<char>) -> (r: Vec<char>)
    ensures
        r@ == trim(s@),
{
    let n = s.len();
    let mut i: usize = 0;
    proof { assert(s@.subrange(0, n as int) =~= s@); }
    while i < n && is_whitespace(s[i])
        invariant
            i <= n == s@.len(),
            trim_start(s@) == trim_start(s@.subrange(i as int, n as int)),
        decreases n - i,
    {
        proof { lemma_trim_start_step(s@, i as int); }
        i = i + 1;
    }
    let ghost mid = s@.subrange(i as int, n as int);
    proof {
        assert(trim_start(mid) == mid);
        assert(mid.subrange(0, (n - i) as int) =~= mid);
    }
    let mut j: usize = n;
    while j > i && is_whitespace(s[j - 1])
        invariant
            i <= j <= n == s@.len(),
            mid == s@.subrange(i as int, n as int),
            trim_end(mid) == trim_end(s@.subrange(i as int, j as int)),
        decreases j - i,
    {
        proof { assert(s@.subrange(i as int, j as int).drop_last() =~= s@.subrange(i as int, j - 1)); }
        j = j - 1;
    }
    copy_range(s, i, j)
}

/// The pieces of `s` separated by `sep`.
pub fn split_chars(s: &Vec<char>, sep: char) -> (r: Vec<Vec<char>>)
    ensures
        char_vecs_view(r@) == split_on(s@, sep),
{
    let mut parts: Vec<Vec<char>> = Vec::new();
    let mut cur: Vec<char> = Vec::new();
    let mut i: usize = 0;
    proof { assert(s@.take(0) =~= Seq::<char>::empty()); }
    while i < s.len()
        invariant
            i <= s@.len(),
            char_vecs_view(parts@).push(cur@) == split_on(s@.take(i as int), sep),
        decreases s@.len() - i,
    {
        let ghost p0 = char_vecs_view(parts@);
        let ghost c0 = cur@;
        proof { assert(s@.take(i + 1).drop_last() =~= s@.take(i as int)); }
        if s[i] == sep {
            let mut done: Vec<char> = Vec::new();
            std::mem::swap(&mut done, &mut cur);
            parts.push(done);
            proof {
                assert(char_vecs_view(parts@) =~= p0.push(c0));
                assert(char_vecs_view(parts@).push(cur@) =~= p0.push(c0).push(Seq::empty()));
            }
        } else {
            cur.push(s[i]);
            proof {
                assert(char_vecs_view(parts@).push(cur@) =~= p0.push(c0).update(p0.len() as int, c0.push(s@[i as int])));
            }
        }
        i = i + 1;
    }
    proof { assert(s@.take(s@.len() as int) =~= s@); }
    let ghost p0 = char_vecs_view(parts@);
    parts.push(cur);
    proof { assert(char_vecs_view(parts@) =~= p0.push(cur@)); }
    parts
}

/// `c` is an ASCII decimal digit.
pub open spec fn is_digit(c: char) -> bool {
    '0' <= c && c <= '9'
}

pub open spec fn all_digits(s: Seq<char>) -> bool {
    forall|i: int| 0 <= i < s.len() ==> is_digit(#[trigger] s[i])
}

/// The number written by the decimal digits `s`.
pub open spec fn digits_value(s: Seq<char>) -> nat
    decreases s.len(),
{
    if s.len() == 0 {
        0
    } else {
        digits_value(s.drop_last()) * 10 + ((s.last() as u32) - ('0' as u32)) as nat
    }
}

/// What `str::parse::<u64>` accepts: an optional `+`, then one or more ASCII digits
/// whose value fits in a `u64`.
pub open spec fn parse_u64_spec(s: Seq<char>) -> Option<u64> {
    let d = if s.len() > 0 && s[0] == '+' { s.subrange(1, s.len() as int) } else { s };
    if d.len() > 0 && all_digits(d) && digits_value(d) <= u64::MAX {
        Some(digits_value(d) as u64)
    } else {
        None
    }
}

proof fn lemma_digits_value_mono(s: Seq<char>, i: int, j: int)
    requires
        0 <= i <= j <= s.len(),
    ensures
        digits_value(s.take(i)) <= digits_value(s.take(j)),
    decreases j - i,
{
    if i < j {
        lemma_digits_value_mono(s, i, j - 1);
        assert(s.take(j).drop_last() =~= s.take(j - 1));
    }
}

/// Parses an unsigned decimal number as `str::parse::<u64>` does.
pub fn parse_u64(s: &Vec<char>) -> (r: Option<u64>)
    ensures
        r == parse_u64_spec(s@),
{
    let n = s.len();
    let start: usize = if n > 0 && s[0] == '+' { 1 } else { 0 };
    let ghost d = if s@.len() > 0 && s@[0] == '+' { s@.subrange(1, s@.len() as int) } else { s@ };
    proof { assert(d =~= s@.subrange(start as int, n as int)); }
    if start == n {
        return None;
    }
    let mut acc: u64 = 0;
    let mut i: usize = start;
    proof { assert(d.take(0) =~= Seq::<char>::empty()); }
    while i < n
        invariant
            start <= i <= n == s@.len(),
            d == s@.subrange(start as int, n as int),
            d == (if s@.len() > 0 && s@[0] == '+' { s@.subrange(1, s@.len() as int) } else { s@ }),
            all_digits(d.take(i - start)),
            acc == digits_value(d.take(i - start)),
        decreases n - i,
    {
        let c = s[i];
        let k = i - start;
        proof { assert(d.take(k + 1).drop_last() =~= d.take(k as int)); assert(d[k as int] == c); }
        if !('0' <= c && c <= '9') {
            proof { assert(!is_digit(d[k as int])); }
            return None;
        }
        let digit = (c as u32 - '0' as u32) as u64;
        if acc > 1844674407370955161 || (acc == 1844674407370955161 && digit > 5) {
            proof {
                assert(digits_value(d.take(k + 1)) > u64::MAX);
                lemma_digits_value_mono(d, k + 1, d.len() as int);
                assert(d.take(d.len() as int) =~= d);
            }
            return None;
        }
        acc = acc * 10 + digit;
        i = i + 1;
        proof {
            assert forall|m: int| 0 <= m < d.take(i - start).len() implies is_digit(#[trigger] d.take(i - start)[m]) by {
                if m < k { assert(d.take(i - start)[m] == d.take(k as int)[m]); }
            }
        }
    }
    proof { assert(d.take(n - start) =~= d); }
    Some(acc)
}

/// Appends a sequence of characters.
pub fn push_chars(out: &mut String, cs: &Vec<char>)
    ensures
        final(out)@ == old(out)@ + cs@,
{
    let mut i: usize = 0;
    while i < cs.len()
        invariant
            i <= cs@.len(),
            out@ == old(out)@ + cs@.take(i as int),
        decreases cs@.len() - i,
    {
        push_char(out, cs[i]);
        i = i + 1;
        proof { assert(out@ =~= old(out)@ + cs@.take(i as int)); }
    }
    proof { assert(cs@.take(cs@.len() as int) =~= cs@); }
}

pub proof fn lemma_digit_char(d: nat)
    requires
        d < 10,
    ensures
        is_digit(digit_char(d)),
        (digit_char(d) as u32) - ('0' as u32) == d,
{
}

/// The decimal rendering of `n` is a non-empty run of digits worth `n`.
pub proof fn lemma_decimal_digits(n: nat)
    ensures
        decimal(n).len() > 0,
        all_digits(decimal(n)),
        digits_value(decimal(n)) == n,
    decreases n,
{
    if n < 10 {
        lemma_digit_char(n);
        assert(decimal(n) =~= seq![digit_char(n)]);
        assert(decimal(n).drop_last() =~= Seq::<char>::empty());
        assert(decimal(n).last() == digit_char(n));
        assert(digits_value(Seq::<char>::empty()) == 0);
    } else {
        lemma_decimal_digits(n / 10);
        lemma_digit_char(n % 10);
        let d = decimal(n);
        assert(d.drop_last() =~= decimal(n / 10));
        assert(d.last() == digit_char(n % 10));
        assert(digits_value(d) == digits_value(decimal(n / 10)) * 10 + ((d.last() as u32) - ('0' as u32)) as nat);
        assert(n == (n / 10) * 10 + n % 10);
        assert forall|i: int| 0 <= i < d.len() implies is_digit(#[trigger] d[i]) by {
            if i < d.len() - 1 {
                assert(d[i] == decimal(n / 10)[i]);
            }
        }
    }
}

/// `str::parse::<u64>` reads back the decimal rendering of `n`.
pub proof fn lemma_parse_u64_decimal(n: u64)
    ensures
        parse_u64_spec(decimal(n as nat)) == Some(n),
{
    lemma_decimal_digits(n as nat);
    let d = decimal(n as nat);
    assert(is_digit(d[0]));
}

/// Splitting at a separator splits each side separately.
pub proof fn lemma_split_concat(x: Seq<char>, y: Seq<char>, sep: char)
    ensures
        split_on(x + seq![sep] + y, sep) == split_on(x, sep) + split_on(y, sep),
    decreases y.len(),
{
    if y.len() == 0 {
        assert(x + seq![sep] + y =~= x.push(sep));
        assert((x + seq![sep] + y).drop_last() =~= x);
        assert(split_on(y, sep) =~= seq![Seq::<char>::empty()]);
        assert(split_on(x, sep).push(Seq::empty()) =~= split_on(x, sep) + seq![Seq::<char>::empty()]);
    } else {
        let y0 = y.drop_last();
        lemma_split_concat(x, y0, sep);
        lemma_split_on_nonempty(y0, sep);
        let w = x + seq![sep] + y;
        assert(w.drop_last() =~= x + seq![sep] + y0);
        let p = split_on(x, sep);
        let q = split_on(y0, sep);
        if y.last() == sep {
            assert((p + q).push(Seq::empty()) =~= p + q.push(Seq::empty()));
        } else {
            assert((p + q).update((p + q).len() - 1, (p + q).last().push(y.last())) =~= p + q.update(
                q.len() - 1,
                q.last().push(y.last()),
            ));
        }
    }
}

/// A string without the separator is a single piece.
pub proof fn lemma_split_none(x: Seq<char>, sep: char)
    requires
        !x.contains(sep),
    ensures
        split_on(x, sep) == seq![x],
    decreases x.len(),
{
    if x.len() > 0 {
        let x0 = x.drop_last();
        assert(!x0.contains(sep)) by {
            if x0.contains(sep) {
                let i = choose|i: int| 0 <= i < x0.len() && x0[i] == sep;
                assert(x[i] == sep);
            }
        }
        lemma_split_none(x0, sep);
        assert(x.last() != sep) by { assert(x[x.len() - 1] == x.last()); }
        assert(x0.push(x.last()) =~= x);
        let p = split_on(x0, sep);
        assert(p.len() == 1 && p.last() == x0);
        assert(p.update(0, x) =~= seq![x]);
    } else {
        assert(x =~= Seq::<char>::empty());
    }
}

/// A run of digits holds no separator other than a digit.
pub proof fn lemma_digits_exclude(s: Seq<char>, c: char)
    requires
        all_digits(s),
        !is_digit(c),
    ensures
        !s.contains(c),
{
    if s.contains(c) {
        let i = choose|i: int| 0 <= i < s.len() && s[i] == c;
        assert(is_digit(s[i]));
    }
}

/// No white space and no comma anywhere in `s`.
pub open spec fn plain(s: Seq<char>) -> bool {
    forall|i: int| 0 <= i < s.len() ==> !is_ws(#[trigger] s[i]) && s[i] != ','
}

/// Trimming leaves alone a string that starts and ends with non-space characters.
pub proof fn lemma_trim_ends(s: Seq<char>)
    requires
        s.len() > 0,
        !is_ws(s[0]),
        !is_ws(s.last()),
    ensures
        trim(s) == s,
{
}

/// Trimming leaves a plain string alone.
pub proof fn lemma_trim_plain(s: Seq<char>)
    requires
        plain(s),
    ensures
        trim(s) == s,
        !s.contains(','),
{
    if s.len() > 0 {
        assert(!is_ws(s[s.len() - 1]));
    }
    if s.contains(',') {
        let i = choose|i: int| 0 <= i < s.len() && s[i] == ',';
        assert(s[i] != ',');
    }
}

/// Trimming removes one leading space before a plain string.
pub proof fn lemma_trim_space_plain(s: Seq<char>)
    requires
        plain(s),
    ensures
        trim(seq![' '] + s) == s,
{
    let t = seq![' '] + s;
    assert(is_ws(' '));
    assert(t[0] == ' ');
    assert(t.subrange(1, t.len() as int) =~= s);
    lemma_trim_plain(s);
    if s.len() > 0 {
        assert(!is_ws(s[0]));
    }
}

/// Decimal digits are plain.
pub proof fn lemma_digits_plain(s: Seq<char>)
    requires
        all_digits(s),
    ensures
        plain(s),
{
    assert forall|i: int| 0 <= i < s.len() implies !is_ws(#[trigger] s[i]) && s[i] != ',' by {
        assert(is_digit(s[i]));
    }
}

/// Concatenating plain strings gives a plain string.
pub proof fn lemma_plain_concat(a: Seq<char>, b: Seq<char>)
    requires
        plain(a),
        plain(b),
    ensures
        plain(a + b),
{
    assert forall|i: int| 0 <= i < (a + b).len() implies !is_ws(#[trigger] (a + b)[i]) && (a + b)[i] != ',' by {
        if i < a.len() {
            assert((a + b)[i] == a[i]);
        } else {
            assert((a + b)[i] == b[i - a.len()]);
        }
    }
}

} // verus!

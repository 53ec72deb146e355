//! Text primitives used across the planner: decimal rendering, splitting,
//! trimming, integer parsing and substring replacement.

use vstd::prelude::*;

verus! {

/// The ASCII character of a decimal digit.
pub open spec fn digit_char(d: int) -> char {
    if d == 0 { '0' }
    else if d == 1 { '1' }
    else if d == 2 { '2' }
    else if d == 3 { '3' }
    else if d == 4 { '4' }
    else if d == 5 { '5' }
    else if d == 6 { '6' }
    else if d == 7 { '7' }
    else if d == 8 { '8' }
    else { '9' }
}

/// Decimal digits of a natural number, most significant first, no leading zeros.
pub open spec fn nat_digits(n: nat) -> Seq<char>
    decreases n,
{
    if n < 10 {
        seq![digit_char(n as int)]
    } else {
        nat_digits(n / 10).push(digit_char((n % 10) as int))
    }
}

/// Decimal rendering of an integer, as `Display` writes it.
pub open spec fn decimal(i: int) -> Seq<char> {
    if i < 0 {
        seq!['-'] + nat_digits((-i) as nat)
    } else {
        nat_digits(i as nat)
    }
}

fn digit_str(d: u64) -> (s: &'static str)
    requires
        d < 10,
    ensures
        s@ == seq![digit_char(d as int)],
{
    if d == 0 {
        proof { reveal_strlit("0"); }
        "0"
    } else if d == 1 {
        proof { reveal_strlit("1"); }
        "1"
    } else if d == 2 {
        proof { reveal_strlit("2"); }
        "2"
    } else if d == 3 {
        proof { reveal_strlit("3"); }
        "3"
    } else if d == 4 {
        proof { reveal_strlit("4"); }
        "4"
    } else if d == 5 {
        proof { reveal_strlit("5"); }
        "5"
    } else if d == 6 {
        proof { reveal_strlit("6"); }
        "6"
    } else if d == 7 {
        proof { reveal_strlit("7"); }
        "7"
    } else if d == 8 {
        proof { reveal_strlit("8"); }
        "8"
    } else {
        proof { reveal_strlit("9"); }
        "9"
    }
}

/// Appends the decimal digits of `n`.
pub fn push_u64(out: &mut String, n: u64)
    ensures
        final(out)@ == old(out)@ + nat_digits(n as nat),
    decreases n,
{
    if n >= 10 {
        push_u64(out, n / 10);
        out.append(digit_str(n % 10));
        assert(out@ =~= old(out)@ + nat_digits(n as nat));
    } else {
        out.append(digit_str(n));
    }
}


/// Appends the decimal rendering of `i`, as `Display` writes it.
pub fn push_i32(out: &mut String, i: i32)
    ensures
        final(out)@ == old(out)@ + decimal(i as int),
{
    if i < 0 {
        proof { reveal_strlit("-"); }
        out.append("-");
        let m: i64 = i as i64;
        let abs: u64 = (-m) as u64;
        push_u64(out, abs);
        assert(out@ =~= old(out)@ + decimal(i as int));
    } else {
        push_u64(out, i as u64);
    }
}

/// Rendering of an integer with `{:02}`: zero-padded to two characters.
pub open spec fn pad2(i: int) -> Seq<char> {
    if 0 <= i < 10 {
        seq!['0', digit_char(i)]
    } else {
        decimal(i)
    }
}

/// Appends `i` formatted with `{:02}`.
pub fn push_pad2(out: &mut String, i: i32)
    ensures
        final(out)@ == old(out)@ + pad2(i as int),
{
    if 0 <= i && i < 10 {
        out.append(digit_str(0));
        out.append(digit_str(i as u64));
        assert(out@ =~= old(out)@ + pad2(i as int));
    } else {
        push_i32(out, i);
    }
}


/// The pieces of `s` between occurrences of `c`, as `str::split` with a
/// character pattern yields them: always at least one piece, empty pieces kept.
pub open spec fn split_on(s: Seq<char>, c: char) -> Seq<Seq<char>>
    decreases s.len(),
{
    if s.len() == 0 {
        seq![Seq::<char>::empty()]
    } else {
        let init = split_on(s.drop_last(), c);
        if s.last() == c {
            init.push(Seq::<char>::empty())
        } else {
            init.update(init.len() - 1, init.last().push(s.last()))
        }
    }
}

/// The character views of a sequence of string slices.
pub open spec fn str_views(v: Seq<&str>) -> Seq<Seq<char>> {
    v.map_values(|p: &str| p@)
}

/// A split always yields at least one piece.
pub proof fn lemma_split_on_nonempty(s: Seq<char>, c: char)
    ensures
        split_on(s, c).len() >= 1,
    decreases s.len(),
{
    if s.len() > 0 {
        lemma_split_on_nonempty(s.drop_last(), c);
    }
}

/// Splits `s` at every occurrence of `c`.
pub fn split_str(s: &str, c: char) -> (parts: Vec<&str>)
    ensures
        str_views(parts@) == split_on(s@, c),
{
    let n = s.unicode_len();
    let mut parts: Vec<&str> = Vec::new();
    let mut start: usize = 0;
    let mut i: usize = 0;
    assert(s@.take(0) =~= Seq::<char>::empty());
    assert(str_views(parts@).push(s@.subrange(0, 0)) =~= split_on(s@.take(0), c));
    while i < n
        invariant
            n == s@.len(),
            start <= i <= n,
            str_views(parts@).push(s@.subrange(start as int, i as int)) == split_on(s@.take(i as int), c),
        decreases n - i,
    {
        let ch = s.get_char(i);
        let ghost old_parts = parts@;
        proof {
            assert(s@.take(i + 1).drop_last() =~= s@.take(i as int));
            lemma_split_on_nonempty(s@.take(i as int), c);
        }
        if ch == c {
            let piece = s.substring_char(start, i);
            parts.push(piece);
            start = i + 1;
            assert(str_views(parts@) =~= str_views(old_parts).push(piece@));
            let ghost t = s@.take(i + 1);
            assert(t.last() == ch);
            assert(split_on(t, c) == split_on(t.drop_last(), c).push(Seq::<char>::empty()));
            assert(s@.subrange(start as int, i + 1) =~= Seq::<char>::empty());
            assert(str_views(parts@).push(s@.subrange(start as int, i + 1)) =~= split_on(s@.take(i + 1), c));
        } else {
            assert(s@.subrange(start as int, i as int).push(ch) =~= s@.subrange(start as int, i + 1));
            let ghost t = s@.take(i + 1);
            let ghost init = split_on(t.drop_last(), c);
            assert(t.last() == ch);
            assert(split_on(t, c) == init.update(init.len() - 1, init.last().push(ch)));
            assert(init.last() == s@.subrange(start as int, i as int));
            assert(str_views(parts@).push(s@.subrange(start as int, i + 1)) =~= split_on(s@.take(i + 1), c));
        }
        i = i + 1;
    }
    let last = s.substring_char(start, n);
    let ghost before = parts@;
    parts.push(last);
    assert(s@.take(n as int) =~= s@);
    assert(str_views(parts@) =~= str_views(before).push(last@));
    parts
}


/// Unicode `White_Space`, the set `char::is_whitespace` tests.
pub open spec fn is_white_space(c: char) -> bool {
    let x = c as u32;
    ||| 9 <= x <= 13
    ||| x == 32
    ||| x == 0x85
    ||| x == 0xA0
    ||| x == 0x1680
    ||| 0x2000 <= x <= 0x200A
    ||| x == 0x2028
    ||| x == 0x2029
    ||| x == 0x202F
    ||| x == 0x205F
    ||| x == 0x3000
}

/// Whether `c` is Unicode white space.
pub fn white_space(c: char) -> (b: bool)
    ensures
        b == is_white_space(c),
{
    let x = c as u32;
    (9 <= x && x <= 13) || x == 32 || x == 0x85 || x == 0xA0 || x == 0x1680 || (0x2000 <= x && x
        <= 0x200A) || x == 0x2028 || x == 0x2029 || x == 0x202F || x == 0x205F || x == 0x3000
}

/// `s` without its leading white space.
pub open spec fn trim_start(s: Seq<char>) -> Seq<char>
    decreases s.len(),
{
    if s.len() > 0 && is_white_space(s[0]) {
        trim_start(s.drop_first())
    } else {
        s
    }
}

/// `s` without its trailing white space.
pub open spec fn trim_end(s: Seq<char>) -> Seq<char>
    decreases s.len(),
{
    if s.len() > 0 && is_white_space(s.last()) {
        trim_end(s.drop_last())
    } else {
        s
    }
}

/// `s` without leading and trailing white space, as `str::trim` gives it.
pub open spec fn trim(s: Seq<char>) -> Seq<char> {
    trim_end(trim_start(s))
}

/// Removes leading and trailing white space.
pub fn trim_str(s: &str) -> (t: &str)
    ensures
        t@ == trim(s@),
{
    let n = s.unicode_len();
    let mut i: usize = 0;
    assert(s@.skip(0) =~= s@);
    while i < n && white_space(s.get_char(i))
        invariant
            n == s@.len(),
            i <= n,
            trim_start(s@) == trim_start(s@.skip(i as int)),
        decreases n - i,
    {
        assert(s@.skip(i as int).drop_first() =~= s@.skip(i + 1));
        i = i + 1;
    }
    if i < n {
        assert(trim_start(s@.skip(i as int)) == s@.skip(i as int));
    } else {
        assert(s@.skip(i as int) =~= Seq::<char>::empty());
    }
    assert(s@.skip(i as int) =~= s@.subrange(i as int, n as int));
    let mut j: usize = n;
    while j > i && white_space(s.get_char(j - 1))
        invariant
            n == s@.len(),
            i <= j <= n,
            trim(s@) == trim_end(s@.subrange(i as int, j as int)),
        decreases j,
    {
        assert(s@.subrange(i as int, j as int).drop_last() =~= s@.subrange(i as int, j - 1));
        j = j - 1;
    }
    s.substring_char(i, j)
}

/// Whether two strings hold the same characters.
pub fn str_eq(a: &str, b: &str) -> (r: bool)
    ensures
        r == (a@ == b@),
{
    let n = a.unicode_len();
    if n != b.unicode_len() {
        return false;
    }
    let mut i: usize = 0;
    while i < n
        invariant
            n == a@.len(),
            n == b@.len(),
            i <= n,
            forall|k: int| 0 <= k < i ==> a@[k] == b@[k],
        decreases n - i,
    {
        if a.get_char(i) != b.get_char(i) {
            return false;
        }
        i = i + 1;
    }
    assert(a@ =~= b@);
    true
}

/// Whether `s` begins with `p`.
pub fn starts_with(s: &str, p: &str) -> (r: bool)
    ensures
        r == (p@.len() <= s@.len() && s@.take(p@.len() as int) == p@),
{
    let n = p.unicode_len();
    if n > s.unicode_len() {
        return false;
    }
    let mut i: usize = 0;
    while i < n
        invariant
            n == p@.len(),
            n <= s@.len(),
            i <= n,
            forall|k: int| 0 <= k < i ==> s@[k] == p@[k],
        decreases n - i,
    {
        if s.get_char(i) != p.get_char(i) {
            assert(s@.take(n as int)[i as int] != p@[i as int]);
            return false;
        }
        i = i + 1;
    }
    assert(s@.take(n as int) =~= p@);
    true
}


/// An ASCII decimal digit.
pub open spec fn is_digit(c: char) -> bool {
    48 <= (c as u32) <= 57
}

/// The value of the digits in `s`, most significant first.
pub open spec fn digits_value(s: Seq<char>) -> nat
    decreases s.len(),
{
    if s.len() == 0 {
        0
    } else {
        digits_value(s.drop_last()) * 10 + ((s.last() as u32) - 48) as nat
    }
}

pub open spec fn all_digits(s: Seq<char>) -> bool {
    forall|k: int| 0 <= k < s.len() ==> is_digit(#[trigger] s[k])
}

/// What `str::parse::<i32>` gives: an optional `+` or `-`, then one or more
/// ASCII digits whose value fits in an `i32`; anything else fails.
pub open spec fn parse_i32_spec(s: Seq<char>) -> Option<i32> {
    let signed = s.len() > 0 && (s[0] == '-' || s[0] == '+');
    let body = if signed { s.drop_first() } else { s };
    let v: int = if s.len() > 0 && s[0] == '-' { -digits_value(body) } else { digits_value(body) as int };
    if body.len() == 0 || !all_digits(body) {
        None
    } else if i32::MIN <= v <= i32::MAX {
        Some(v as i32)
    } else {
        None
    }
}

spec fn capped(x: nat) -> nat {
    if x < 2147483649 { x } else { 2147483649 }
}

/// Parses a decimal `i32` as `str::parse::<i32>` does.
pub fn parse_i32(s: &str) -> (r: Option<i32>)
    ensures
        r == parse_i32_spec(s@),
{
    let n = s.unicode_len();
    if n == 0 {
        return None;
    }
    let first = s.get_char(0);
    let neg = first == '-';
    let signed = neg || first == '+';
    let start: usize = if signed { 1 } else { 0 };
    let ghost body = if signed { s@.drop_first() } else { s@ };
    assert(first == s@[0]);
    assert(signed == (s@.len() > 0 && (s@[0] == '-' || s@[0] == '+')));
    assert(body =~= s@.subrange(start as int, n as int));
    if start == n {
        return None;
    }
    let mut acc: u64 = 0;
    let mut i: usize = start;
    assert(s@.subrange(start as int, start as int) =~= Seq::<char>::empty());
    while i < n
        invariant
            n == s@.len(),
            start <= i <= n,
            body == s@.subrange(start as int, n as int),
            body == (if s@.len() > 0 && (s@[0] == '-' || s@[0] == '+') { s@.drop_first() } else { s@ }),
            acc == capped(digits_value(s@.subrange(start as int, i as int))),
            all_digits(s@.subrange(start as int, i as int)),
        decreases n - i,
    {
        let c = s.get_char(i);
        let x = c as u32;
        if x < 48 || x > 57 {
            assert(body[i - start] == c);
            assert(!is_digit(body[i - start]));
            assert(!all_digits(body));
            return None;
        }
        let d = (x - 48) as u64;
        let ghost prev = s@.subrange(start as int, i as int);
        let ghost next = s@.subrange(start as int, i + 1);
        assert(next.drop_last() =~= prev);
        assert(next.last() == c);
        assert(digits_value(next) == digits_value(prev) * 10 + d);
        if acc >= 2147483649 {
            acc = 2147483649;
        } else {
            let v = acc * 10 + d;
            acc = if v >= 2147483649 { 2147483649 } else { v };
        }
        assert(all_digits(next)) by {
            assert forall|k: int| 0 <= k < next.len() implies is_digit(#[trigger] next[k]) by {
                if k < prev.len() {
                    assert(next[k] == prev[k]);
                }
            }
        }
        i = i + 1;
    }
    assert(s@.subrange(start as int, n as int) == body);
    if neg {
        if acc <= 2147483648 {
            let v: i64 = -(acc as i64);
            Some(v as i32)
        } else {
            None
        }
    } else if acc <= 2147483647 {
        Some(acc as i32)
    } else {
        None
    }
}


/// `s` with every occurrence of `pat` replaced by `rep`, scanning left to right
/// without overlaps, as `str::replace` does for a non-empty pattern.
pub open spec fn replace_all(s: Seq<char>, pat: Seq<char>, rep: Seq<char>) -> Seq<char>
    decreases s.len(),
{
    if pat.len() == 0 || s.len() < pat.len() {
        s
    } else if s.take(pat.len() as int) == pat {
        rep + replace_all(s.skip(pat.len() as int), pat, rep)
    } else {
        seq![s[0]] + replace_all(s.drop_first(), pat, rep)
    }
}

fn matches_at(s: &str, i: usize, pat: &str) -> (r: bool)
    requires
        i + pat@.len() <= s@.len(),
        s@.len() <= usize::MAX,
    ensures
        r == (s@.subrange(i as int, i + pat@.len()) == pat@),
{
    let m = pat.unicode_len();
    let mut k: usize = 0;
    while k < m
        invariant
            m == pat@.len(),
            i + m <= s@.len(),
            s@.len() <= usize::MAX,
            k <= m,
            forall|j: int| 0 <= j < k ==> s@[i + j] == pat@[j],
        decreases m - k,
    {
        if s.get_char(i + k) != pat.get_char(k) {
            assert(s@.subrange(i as int, i + m)[k as int] != pat@[k as int]);
            return false;
        }
        k = k + 1;
    }
    assert(s@.subrange(i as int, i + m) =~= pat@);
    true
}

/// Replaces every occurrence of the non-empty `pat` in `s` by `rep`.
pub fn replace_str(s: &str, pat: &str, rep: &str) -> (out: String)
    requires
        pat@.len() > 0,
    ensures
        out@ == replace_all(s@, pat@, rep@),
{
    let n = s.unicode_len();
    let m = pat.unicode_len();
    let mut out = String::new();
    let mut i: usize = 0;
    assert(s@.skip(0) =~= s@);
    while i < n
        invariant
            n == s@.len(),
            m == pat@.len(),
            m > 0,
            i <= n,
            out@ + replace_all(s@.skip(i as int), pat@, rep@) == replace_all(s@, pat@, rep@),
        decreases n - i,
    {
        let ghost rest = s@.skip(i as int);
        if n - i < m {
            assert(replace_all(rest, pat@, rep@) == rest);
            assert(rest =~= s@.subrange(i as int, n as int));
            out.append(s.substring_char(i, n));
            assert(s@.skip(n as int) =~= Seq::<char>::empty());
            assert(replace_all(s@.skip(n as int), pat@, rep@) == Seq::<char>::empty());
            assert(out@ + replace_all(s@.skip(n as int), pat@, rep@) =~= out@);
            i = n;
        } else if matches_at(s, i, pat) {
            assert(rest.take(m as int) =~= s@.subrange(i as int, i + m));
            assert(rest.skip(m as int) =~= s@.skip(i + m));
            let ghost before = out@;
            out.append(rep);
            assert(out@ + replace_all(s@.skip(i + m), pat@, rep@) =~= before + replace_all(rest, pat@, rep@));
            i = i + m;
        } else {
            assert(rest.take(m as int) =~= s@.subrange(i as int, i + m));
            assert(rest.drop_first() =~= s@.skip(i + 1));
            let ghost before = out@;
            let one = s.substring_char(i, i + 1);
            assert(one@ =~= seq![rest[0]]);
            out.append(one);
            assert(out@ + replace_all(s@.skip(i + 1), pat@, rep@) =~= before + replace_all(rest, pat@, rep@));
            i = i + 1;
        }
    }
    assert(s@.skip(n as int) =~= Seq::<char>::empty());
    assert(out@ + replace_all(s@.skip(n as int), pat@, rep@) =~= out@);
    out
}


/// Splitting at a separator splits each side of it independently.
pub proof fn lemma_split_on_concat(a: Seq<char>, c: char, b: Seq<char>)
    ensures
        split_on(a + seq![c] + b, c) == split_on(a, c) + split_on(b, c),
    decreases b.len(),
{
    let ab = a + seq![c] + b;
    if b.len() == 0 {
        assert(ab.drop_last() =~= a);
        assert(split_on(b, c) =~= seq![Seq::<char>::empty()]);
        assert(split_on(ab, c) =~= split_on(a, c) + split_on(b, c));
    } else {
        lemma_split_on_concat(a, c, b.drop_last());
        lemma_split_on_nonempty(b.drop_last(), c);
        assert(ab.drop_last() =~= a + seq![c] + b.drop_last());
        assert(ab.last() == b.last());
        let left = split_on(a, c);
        let right = split_on(b.drop_last(), c);
        if b.last() == c {
            assert(split_on(ab, c) =~= split_on(a, c) + split_on(b, c));
        } else {
            assert((left + right).update((left + right).len() - 1, (left + right).last().push(b.last()))
                =~= left + right.update(right.len() - 1, right.last().push(b.last())));
            assert(split_on(ab, c) =~= split_on(a, c) + split_on(b, c));
        }
    }
}

/// Without the separator, a sequence is a single piece.
pub proof fn lemma_split_on_single(a: Seq<char>, c: char)
    requires
        !a.contains(c),
    ensures
        split_on(a, c) == seq![a],
    decreases a.len(),
{
    if a.len() > 0 {
        assert(!a.drop_last().contains(c)) by {
            if a.drop_last().contains(c) {
                let k = choose|k: int| 0 <= k < a.drop_last().len() && a.drop_last()[k] == c;
                assert(a[k] == c);
            }
        }
        lemma_split_on_single(a.drop_last(), c);
        assert(a[a.len() - 1] != c);
        let init = split_on(a.drop_last(), c);
        assert(init == seq![a.drop_last()]);
        assert(split_on(a, c) == init.update(0, a.drop_last().push(a.last())));
        assert(a.drop_last().push(a.last()) =~= a);
        assert(split_on(a, c) =~= seq![a]);
    } else {
        assert(a =~= Seq::<char>::empty());
        assert(split_on(a, c) =~= seq![a]);
    }
}

/// The code point of a digit character.
pub proof fn lemma_digit_char_code(d: int)
    requires
        0 <= d < 10,
    ensures
        digit_char(d) as u32 == 48 + d,
        is_digit(digit_char(d)),
{
}

/// The decimal digits of a number are digits and read back as the number.
pub proof fn lemma_nat_digits_value(n: nat)
    ensures
        all_digits(nat_digits(n)),
        digits_value(nat_digits(n)) == n,
        nat_digits(n).len() > 0,
    decreases n,
{
    lemma_digit_char_code((n % 10) as int);
    if n < 10 {
        let d = nat_digits(n);
        assert(d.drop_last() =~= Seq::<char>::empty());
        assert(d.last() == digit_char(n as int));
        assert(digits_value(d) == digits_value(d.drop_last()) * 10 + ((d.last() as u32) - 48) as nat);
    } else {
        lemma_nat_digits_value(n / 10);
        let d = nat_digits(n);
        assert(d.drop_last() =~= nat_digits(n / 10));
        assert(d.last() == digit_char((n % 10) as int));
        assert(digits_value(d) == digits_value(d.drop_last()) * 10 + ((d.last() as u32) - 48) as nat);
        assert forall|k: int| 0 <= k < d.len() implies is_digit(#[trigger] d[k]) by {
            if k < d.len() - 1 {
                assert(d[k] == nat_digits(n / 10)[k]);
            }
        }
    }
}


/// `pat` occurs in `s` starting at position `k`.
pub open spec fn occurs_at(s: Seq<char>, pat: Seq<char>, k: int) -> bool {
    0 <= k && k + pat.len() <= s.len() && s.subrange(k, k + pat.len()) == pat
}

/// A prefix of a replaced text that avoids the first character of the
/// replacement was already there before the replacement.
proof fn lemma_replace_all_prefix(t: Seq<char>, y: Seq<char>, pat: Seq<char>, rep: Seq<char>)
    requires
        pat.len() > 0,
        rep.len() > 0,
        t.len() <= replace_all(y, pat, rep).len(),
        replace_all(y, pat, rep).take(t.len() as int) == t,
        forall|i: int| 0 <= i < t.len() ==> t[i] != rep[0],
    ensures
        t.len() <= y.len(),
        y.take(t.len() as int) == t,
    decreases y.len(),
{
    let r = replace_all(y, pat, rep);
    if t.len() == 0 {
        assert(y.take(0) =~= t);
    } else if y.len() < pat.len() {
        assert(r == y);
    } else if y.take(pat.len() as int) == pat {
        assert(r == rep + replace_all(y.skip(pat.len() as int), pat, rep));
        assert(r[0] == rep[0]);
        assert(t[0] == r.take(t.len() as int)[0]);
    } else {
        let y1 = y.drop_first();
        let r1 = replace_all(y1, pat, rep);
        assert(r == seq![y[0]] + r1);
        let t1 = t.drop_first();
        assert(r1.take(t1.len() as int) =~= r.take(t.len() as int).drop_first());
        assert forall|i: int| 0 <= i < t1.len() implies t1[i] != rep[0] by {
            assert(t1[i] == t[i + 1]);
        }
        lemma_replace_all_prefix(t1, y1, pat, rep);
        assert(t[0] == r.take(t.len() as int)[0]);
        assert(r[0] == y[0]);
        assert(y.take(t.len() as int) =~= seq![y[0]] + y1.take(t1.len() as int));
        assert(t =~= seq![t[0]] + t1);
    }
}

/// After replacing every `pat` by `rep`, no `pat` is left, provided `rep`
/// holds no first character of `pat` and the rest of `pat` holds no first
/// character of `rep`.
pub proof fn lemma_replace_all_leaves_none(s: Seq<char>, pat: Seq<char>, rep: Seq<char>, k: int)
    requires
        pat.len() > 0,
        rep.len() > 0,
        forall|i: int| 0 <= i < rep.len() ==> rep[i] != pat[0],
        forall|i: int| 1 <= i < pat.len() ==> pat[i] != rep[0],
    ensures
        !occurs_at(replace_all(s, pat, rep), pat, k),
    decreases s.len(),
{
    let m = pat.len() as int;
    let r = replace_all(s, pat, rep);
    if s.len() < pat.len() {
        assert(r == s);
    } else if s.take(m) == pat {
        let s1 = s.skip(m);
        let r1 = replace_all(s1, pat, rep);
        assert(r == rep + r1);
        if occurs_at(r, pat, k) {
            if k < rep.len() {
                assert(r.subrange(k, k + m)[0] == r[k]);
                assert(r[k] == rep[k]);
            } else {
                assert(r.subrange(k, k + m) =~= r1.subrange(k - rep.len(), k - rep.len() + m));
                lemma_replace_all_leaves_none(s1, pat, rep, k - rep.len());
            }
        }
    } else {
        let s1 = s.drop_first();
        let r1 = replace_all(s1, pat, rep);
        assert(r == seq![s[0]] + r1);
        if occurs_at(r, pat, k) {
            if k >= 1 {
                assert(r.subrange(k, k + m) =~= r1.subrange(k - 1, k - 1 + m));
                lemma_replace_all_leaves_none(s1, pat, rep, k - 1);
            } else {
                let t = pat.drop_first();
                assert(r1.take(t.len() as int) =~= r.subrange(0, m).drop_first());
                assert forall|i: int| 0 <= i < t.len() implies t[i] != rep[0] by {
                    assert(t[i] == pat[i + 1]);
                }
                lemma_replace_all_prefix(t, s1, pat, rep);
                assert(s[0] == r.subrange(0, m)[0]);
                assert(s.take(m) =~= seq![s[0]] + s1.take(t.len() as int));
                assert(s.take(m) =~= pat);
            }
        }
    }
}


/// No piece of a split holds the separator.
pub proof fn lemma_split_on_pieces_lack(s: Seq<char>, c: char)
    ensures
        forall|k: int| 0 <= k < split_on(s, c).len() ==> !(#[trigger] split_on(s, c)[k]).contains(c),
    decreases s.len(),
{
    if s.len() > 0 {
        lemma_split_on_pieces_lack(s.drop_last(), c);
        lemma_split_on_nonempty(s.drop_last(), c);
        let init = split_on(s.drop_last(), c);
        let r = split_on(s, c);
        assert forall|k: int| 0 <= k < r.len() implies !(#[trigger] r[k]).contains(c) by {
            if s.last() == c {
                if k < init.len() {
                    assert(r[k] == init[k]);
                } else {
                    assert(r[k] =~= Seq::<char>::empty());
                }
            } else if k < init.len() - 1 {
                assert(r[k] == init[k]);
            } else {
                let p = init.last().push(s.last());
                assert(r[k] == p);
                assert(!init[init.len() - 1].contains(c));
                if p.contains(c) {
                    let j = choose|j: int| 0 <= j < p.len() && p[j] == c;
                    if j < p.len() - 1 {
                        assert(init.last()[j] == c);
                    }
                }
            }
        }
    } else {
        assert forall|k: int| 0 <= k < split_on(s, c).len() implies !(#[trigger] split_on(s, c)[k]).contains(c) by {
            assert(split_on(s, c)[k] =~= Seq::<char>::empty());
        }
    }
}

proof fn lemma_trim_start_keeps_absence(s: Seq<char>, c: char)
    requires
        !s.contains(c),
    ensures
        !trim_start(s).contains(c),
    decreases s.len(),
{
    if s.len() > 0 && is_white_space(s[0]) {
        assert(!s.drop_first().contains(c)) by {
            if s.drop_first().contains(c) {
                let j = choose|j: int| 0 <= j < s.drop_first().len() && s.drop_first()[j] == c;
                assert(s[j + 1] == c);
            }
        }
        lemma_trim_start_keeps_absence(s.drop_first(), c);
    }
}

proof fn lemma_trim_end_keeps_absence(s: Seq<char>, c: char)
    requires
        !s.contains(c),
    ensures
        !trim_end(s).contains(c),
    decreases s.len(),
{
    if s.len() > 0 && is_white_space(s.last()) {
        assert(!s.drop_last().contains(c)) by {
            if s.drop_last().contains(c) {
                let j = choose|j: int| 0 <= j < s.drop_last().len() && s.drop_last()[j] == c;
                assert(s[j] == c);
            }
        }
        lemma_trim_end_keeps_absence(s.drop_last(), c);
    }
}

/// Trimming adds no character.
pub proof fn lemma_trim_keeps_absence(s: Seq<char>, c: char)
    requires
        !s.contains(c),
    ensures
        !trim(s).contains(c),
{
    lemma_trim_start_keeps_absence(s, c);
    lemma_trim_end_keeps_absence(trim_start(s), c);
}


/// `s` ends with `t`.
pub open spec fn ends_with(s: Seq<char>, t: Seq<char>) -> bool {
    t.len() <= s.len() && s.skip(s.len() - t.len()) == t
}

/// The decimal rendering of an `i32` parses back to it.
pub proof fn lemma_decimal_parses(i: i32)
    ensures
        parse_i32_spec(decimal(i as int)) == Some(i),
{
    let s = decimal(i as int);
    if i >= 0 {
        lemma_nat_digits_value(i as nat);
        assert(is_digit(s[0]));
    } else {
        let m: nat = (-(i as int)) as nat;
        lemma_nat_digits_value(m);
        assert(s.drop_first() =~= nat_digits(m));
        assert(s[0] == '-');
    }
}

/// Different `i32`s have different decimal renderings.
pub proof fn lemma_decimal_injective(x: i32, y: i32)
    ensures
        decimal(x as int) == decimal(y as int) <==> x == y,
{
    lemma_decimal_parses(x);
    lemma_decimal_parses(y);
}

/// Equal texts with a common end are equal before it.
pub proof fn lemma_cancel_right(a: Seq<char>, b: Seq<char>, c: Seq<char>)
    requires
        a + c == b + c,
    ensures
        a == b,
{
    assert((a + c).len() == a.len() + c.len());
    assert((b + c).len() == b.len() + c.len());
    assert(a =~= (a + c).take(a.len() as int));
    assert(b =~= (b + c).take(b.len() as int));
}

/// Equal texts with a common start are equal after it.
pub proof fn lemma_cancel_left(p: Seq<char>, a: Seq<char>, b: Seq<char>)
    requires
        p + a == p + b,
    ensures
        a == b,
{
    assert((p + a).len() == p.len() + a.len());
    assert((p + b).len() == p.len() + b.len());
    assert(a =~= (p + a).skip(p.len() as int));
    assert(b =~= (p + b).skip(p.len() as int));
}

} // verus!

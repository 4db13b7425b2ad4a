use vstd::prelude::*;

verus! {

/// The ASCII character of the decimal digit `d` (`0 <= d < 10`).
pub open spec fn digit_char(d: nat) -> char {
    (48 + d) as char
}

/// The decimal rendering of `n`, without sign or leading zeros, as `u64`'s
/// `Display` writes it.
pub open spec fn decimal(n: nat) -> Seq<char>
    decreases n,
{
    if n < 10 {
        seq![digit_char(n)]
    } else {
        decimal(n / 10).push(digit_char(n % 10))
    }
}

/// Appends one character to a `String` with `String::push`; the contract
/// claims that the string's characters become the old ones followed by `c`.
#[verifier::external_body]
fn push_char(s: &mut String, c: char)
    ensures
        final(s)@ == old(s)@.push(c),
{
    s.push(c);
}

/// Appends the decimal rendering of `n` to `out`.
pub fn push_decimal(out: &mut String, n: u64)
    ensures
        final(out)@ == old(out)@ + decimal(n as nat),
    decreases n,
{
    if n >= 10 {
        push_decimal(out, n / 10);
    }
    let d = n % 10;
    let c = ((48 + d) as u8) as char;
    push_char(out, c);
    assert(c == digit_char((n % 10) as nat));
}


/// The decimal rendering of `n`, as `n.to_string()` gives it.
pub fn decimal_string(n: u64) -> (r: String)
    ensures
        r@ == decimal(n as nat),
{
    let mut r = String::new();
    push_decimal(&mut r, n);
    r
}

/// The texts of a sequence of strings.
pub open spec fn string_views(v: Seq<String>) -> Seq<Seq<char>> {
    v.map_values(|s: String| s@)
}

/// `char::is_whitespace`: the characters with the Unicode `White_Space`
/// property.
pub open spec fn is_whitespace(c: char) -> bool {
    let u = c as u32;
    ||| 9 <= u <= 13
    ||| u == 32
    ||| u == 0x85
    ||| u == 0xa0
    ||| u == 0x1680
    ||| 0x2000 <= u <= 0x200a
    ||| u == 0x2028
    ||| u == 0x2029
    ||| u == 0x202f
    ||| u == 0x205f
    ||| u == 0x3000
}

/// Tells whether `c` is a whitespace character.
pub fn char_is_whitespace(c: char) -> (b: bool)
    ensures
        b == is_whitespace(c),
{
    let u = c as u32;
    (9 <= u && u <= 13) || u == 32 || u == 0x85 || u == 0xa0 || u == 0x1680 || (0x2000 <= u && u
        <= 0x200a) || u == 0x2028 || u == 0x2029 || u == 0x202f || u == 0x205f || u == 0x3000
}

/// `s` without its leading whitespace.
pub open spec fn trim_start(s: Seq<char>) -> Seq<char>
    decreases s.len(),
{
    if s.len() > 0 && is_whitespace(s[0]) {
        trim_start(s.drop_first())
    } else {
        s
    }
}

/// `s` without its trailing whitespace.
pub open spec fn trim_end(s: Seq<char>) -> Seq<char>
    decreases s.len(),
{
    if s.len() > 0 && is_whitespace(s.last()) {
        trim_end(s.drop_last())
    } else {
        s
    }
}

/// `s` without leading and trailing whitespace, as `str::trim` gives it.
pub open spec fn trim(s: Seq<char>) -> Seq<char> {
    trim_end(trim_start(s))
}

/// The run of non-whitespace characters at the end of `s`.
pub open spec fn trailing_word(s: Seq<char>) -> Seq<char>
    decreases s.len(),
{
    if s.len() == 0 || is_whitespace(s.last()) {
        Seq::empty()
    } else {
        trailing_word(s.drop_last()).push(s.last())
    }
}

/// The last item of `str::split_whitespace`: the last maximal run of
/// non-whitespace characters, if there is one.
pub open spec fn last_word(s: Seq<char>) -> Option<Seq<char>> {
    let t = trim_end(s);
    if t.len() == 0 {
        None
    } else {
        Some(trailing_word(t))
    }
}

/// Each byte taken as the character with that code point (Latin-1).
pub open spec fn latin1(bytes: Seq<u8>) -> Seq<char> {
    bytes.map_values(|b: u8| b as char)
}

proof fn lemma_trim_start_skip(s: Seq<char>, i: int)
    requires
        0 <= i <= s.len(),
        forall|k: int| 0 <= k < i ==> is_whitespace(#[trigger] s[k]),
    ensures
        trim_start(s) == trim_start(s.subrange(i, s.len() as int)),
    decreases i,
{
    if i > 0 {
        assert(s.drop_first() == s.subrange(1, s.len() as int));
        lemma_trim_start_skip(s.drop_first(), i - 1);
        assert(s.drop_first().subrange(i - 1, s.drop_first().len() as int) == s.subrange(
            i,
            s.len() as int,
        ));
    } else {
        assert(s.subrange(0, s.len() as int) == s);
    }
}

proof fn lemma_trim_end_cut(s: Seq<char>, j: int)
    requires
        0 <= j <= s.len(),
        forall|k: int| j <= k < s.len() ==> is_whitespace(#[trigger] s[k]),
    ensures
        trim_end(s) == trim_end(s.subrange(0, j)),
    decreases s.len() - j,
{
    if j < s.len() {
        lemma_trim_end_cut(s.drop_last(), j);
        assert(s.drop_last().subrange(0, j) == s.subrange(0, j));
    } else {
        assert(s.subrange(0, j) == s);
    }
}

proof fn lemma_trailing_word_cut(s: Seq<char>, i: int)
    requires
        0 <= i <= s.len(),
        forall|k: int| i <= k < s.len() ==> !is_whitespace(#[trigger] s[k]),
        i == 0 || is_whitespace(s[i - 1]),
    ensures
        trailing_word(s) == s.subrange(i, s.len() as int),
    decreases s.len() - i,
{
    if i < s.len() {
        lemma_trailing_word_cut(s.drop_last(), i);
        assert(s.drop_last().subrange(i, s.len() - 1) == s.subrange(i, s.len() - 1));
        assert(s.subrange(i, s.len() - 1).push(s.last()) == s.subrange(i, s.len() as int));
    } else {
        if s.len() > 0 {
            assert(is_whitespace(s.last()));
        }
    }
}

/// Decodes each byte as the character with that code point, as
/// `bytes.iter().map(|c| *c as char).collect::<String>()` does.
pub fn latin1_chars(bytes: &[u8]) -> (r: Vec<char>)
    ensures
        r@ == latin1(bytes@),
{
    let mut r: Vec<char> = Vec::new();
    let n = bytes.len();
    for i in 0..n
        invariant
            n == bytes@.len(),
            r@ == latin1(bytes@.subrange(0, i as int)),
    {
        let b = bytes[i];
        r.push(b as char);
        assert(bytes@.subrange(0, i + 1) == bytes@.subrange(0, i as int).push(b));
    }
    assert(bytes@.subrange(0, n as int) == bytes@);
    r
}

/// The bounds `(a, b)` of the trimmed part of `s`.
pub fn trim_bounds(s: &Vec<char>) -> (r: (usize, usize))
    ensures
        r.0 <= r.1 <= s@.len(),
        s@.subrange(r.0 as int, r.1 as int) == trim(s@),
{
    let n = s.len();
    let mut i: usize = 0;
    while i < n && char_is_whitespace(s[i])
        invariant
            i <= n == s@.len(),
            forall|k: int| 0 <= k < i ==> is_whitespace(#[trigger] s@[k]),
        decreases n - i,
    {
        i = i + 1;
    }
    proof {
        lemma_trim_start_skip(s@, i as int);
    }
    let ghost t = s@.subrange(i as int, n as int);
    assert(trim_start(s@) == t);
    let mut j: usize = n;
    while j > i && char_is_whitespace(s[j - 1])
        invariant
            i <= j <= n == s@.len(),
            t == s@.subrange(i as int, n as int),
            forall|k: int| j <= k < n ==> is_whitespace(#[trigger] s@[k]),
        decreases j,
    {
        j = j - 1;
    }
    proof {
        assert forall|k: int| (j - i) <= k < t.len() implies is_whitespace(#[trigger] t[k]) by {
            assert(t[k] == s@[k + i]);
        }
        lemma_trim_end_cut(t, j - i);
        assert(t.subrange(0, j - i) == s@.subrange(i as int, j as int));
        if j > i {
            assert(!is_whitespace(t.subrange(0, j - i).last()));
        }
    }
    (i, j)
}

/// The bounds of the last whitespace-separated word of `s`, if there is one.
pub fn last_word_bounds(s: &Vec<char>) -> (r: Option<(usize, usize)>)
    ensures
        match r {
            None => last_word(s@) is None,
            Some((a, b)) => a <= b <= s@.len() && last_word(s@) == Some(
                s@.subrange(a as int, b as int),
            ),
        },
{
    let n = s.len();
    let mut j: usize = n;
    while j > 0 && char_is_whitespace(s[j - 1])
        invariant
            j <= n == s@.len(),
            forall|k: int| j <= k < n ==> is_whitespace(#[trigger] s@[k]),
        decreases j,
    {
        j = j - 1;
    }
    proof {
        lemma_trim_end_cut(s@, j as int);
        if j > 0 {
            assert(!is_whitespace(s@.subrange(0, j as int).last()));
        }
    }
    if j == 0 {
        return None;
    }
    let ghost t = s@.subrange(0, j as int);
    assert(trim_end(s@) == t);
    let mut i: usize = j;
    while i > 0 && !char_is_whitespace(s[i - 1])
        invariant
            i <= j <= n == s@.len(),
            t == s@.subrange(0, j as int),
            forall|k: int| i <= k < j ==> !is_whitespace(#[trigger] s@[k]),
        decreases i,
    {
        i = i - 1;
    }
    proof {
        assert forall|k: int| i <= k < t.len() implies !is_whitespace(#[trigger] t[k]) by {
            assert(t[k] == s@[k]);
        }
        if i > 0 {
            assert(t[i - 1] == s@[i - 1]);
        }
        lemma_trailing_word_cut(t, i as int);
        assert(t.subrange(i as int, j as int) == s@.subrange(i as int, j as int));
    }
    Some((i, j))
}

/// The `String` holding the characters `s[a..b]`.
pub fn string_of_range(s: &Vec<char>, a: usize, b: usize) -> (r: String)
    requires
        a <= b <= s@.len(),
    ensures
        r@ == s@.subrange(a as int, b as int),
{
    let mut r = String::new();
    let mut k = a;
    while k < b
        invariant
            a <= k <= b <= s@.len(),
            r@ == s@.subrange(a as int, k as int),
        decreases b - k,
    {
        push_char(&mut r, s[k]);
        assert(s@.subrange(a as int, k + 1) == s@.subrange(a as int, k as int).push(s@[k as int]));
        k = k + 1;
    }
    r
}

/// The `String` holding all characters of `s`.
pub fn string_of_chars(s: &Vec<char>) -> (r: String)
    ensures
        r@ == s@,
{
    let r = string_of_range(s, 0, s.len());
    assert(s@.subrange(0, s@.len() as int) == s@);
    r
}

/// The characters of a string slice.
pub fn chars_of(s: &str) -> (r: Vec<char>)
    ensures
        r@ == s@,
{
    let n = s.unicode_len();
    let mut r: Vec<char> = Vec::new();
    for i in 0..n
        invariant
            n == s@.len(),
            r@ == s@.subrange(0, i as int),
    {
        r.push(s.get_char(i));
        assert(s@.subrange(0, i + 1) == s@.subrange(0, i as int).push(s@[i as int]));
    }
    assert(s@.subrange(0, n as int) == s@);
    r
}


/// Whether `c` is an ASCII decimal digit.
pub open spec fn is_digit(c: char) -> bool {
    48 <= (c as u32) <= 57
}

/// The number that a sequence of ASCII decimal digits denotes.
pub open spec fn digits_value(ds: Seq<char>) -> nat
    decreases ds.len(),
{
    if ds.len() == 0 {
        0
    } else {
        digits_value(ds.drop_last()) * 10 + ((ds.last() as u32) - 48) as nat
    }
}

/// The digits of an unsigned number: `s` without one leading `+`.
pub open spec fn unsigned_digits(s: Seq<char>) -> Seq<char> {
    if s.len() > 0 && s[0] == '+' {
        s.drop_first()
    } else {
        s
    }
}

/// The value of a nonempty run of ASCII digits, if it fits in 16 bits.
pub open spec fn digits_u16(ds: Seq<char>) -> Option<u16> {
    if ds.len() > 0 && (forall|i: int| 0 <= i < ds.len() ==> is_digit(#[trigger] ds[i]))
        && digits_value(ds) <= u16::MAX {
        Some(digits_value(ds) as u16)
    } else {
        None
    }
}

/// The value of `s` as `str::parse::<u16>` reads it: an optional `+`
/// followed by one or more ASCII digits whose value fits in 16 bits.
pub open spec fn parse_u16(s: Seq<char>) -> Option<u16> {
    digits_u16(unsigned_digits(s))
}

proof fn lemma_digits_value_prefix_le(ds: Seq<char>, i: int)
    requires
        0 <= i <= ds.len(),
        forall|k: int| 0 <= k < ds.len() ==> is_digit(#[trigger] ds[k]),
    ensures
        digits_value(ds.subrange(0, i)) <= digits_value(ds),
    decreases ds.len() - i,
{
    if i < ds.len() {
        let p = ds.drop_last();
        assert forall|k: int| 0 <= k < p.len() implies is_digit(#[trigger] p[k]) by {
            assert(p[k] == ds[k]);
        }
        lemma_digits_value_prefix_le(p, i);
        assert(p.subrange(0, i) == ds.subrange(0, i));
    } else {
        assert(ds.subrange(0, i) == ds);
    }
}

/// Reads a decimal number of at most 16 bits, as `str::parse::<u16>`.
pub fn parse_u16_chars(s: &Vec<char>, a: usize, b: usize) -> (r: Option<u16>)
    requires
        a <= b <= s@.len(),
    ensures
        r == parse_u16(s@.subrange(a as int, b as int)),
{
    let ghost t = s@.subrange(a as int, b as int);
    let mut start = a;
    if a < b && s[a] == '+' {
        start = a + 1;
    }
    let ghost ds = s@.subrange(start as int, b as int);
    assert(ds == unsigned_digits(t));
    if start == b {
        return None;
    }
    let mut acc: u32 = 0;
    let mut k = start;
    while k < b
        invariant
            start <= k <= b <= s@.len(),
            ds == s@.subrange(start as int, b as int),
            t == s@.subrange(a as int, b as int),
            ds == unsigned_digits(t),
            acc <= u16::MAX,
            forall|m: int| start <= m < k ==> is_digit(#[trigger] s@[m]),
            acc == digits_value(s@.subrange(start as int, k as int)),
        decreases b - k,
    {
        let c = s[k];
        let u = c as u32;
        if u < 48 || u > 57 {
            assert(ds[k - start] == s@[k as int]);
            return None;
        }
        let next = acc * 10 + (u - 48);
        proof {
            let p = s@.subrange(start as int, k + 1);
            assert(p.drop_last() == s@.subrange(start as int, k as int));
            assert(p.last() == c);
            assert(digits_value(p) == next);
        }
        if next > 65535 {
            proof {
                if forall|m: int| 0 <= m < ds.len() ==> is_digit(#[trigger] ds[m]) {
                    lemma_digits_value_prefix_le(ds, k + 1 - start);
                    assert(ds.subrange(0, k + 1 - start) == s@.subrange(start as int, k + 1));
                }
            }
            return None;
        }
        acc = next;
        k = k + 1;
    }
    assert(s@.subrange(start as int, b as int) == ds);
    Some(acc as u16)
}

/// Trimming twice trims no more than trimming once.
pub proof fn lemma_trim_idempotent(s: Seq<char>)
    ensures
        trim(trim(s)) == trim(s),
{
    let u = trim_start(s);
    lemma_trim_start_of_trimmed(s);
    lemma_trim_end_idempotent(u);
}

proof fn lemma_trim_end_idempotent(s: Seq<char>)
    ensures
        trim_end(trim_end(s)) == trim_end(s),
    decreases s.len(),
{
    if s.len() > 0 && is_whitespace(s.last()) {
        lemma_trim_end_idempotent(s.drop_last());
    }
}

/// `trim_start(s)` does not start with whitespace.
proof fn lemma_trim_start_head(s: Seq<char>)
    ensures
        trim_start(s).len() > 0 ==> !is_whitespace(trim_start(s)[0]),
    decreases s.len(),
{
    if s.len() > 0 && is_whitespace(s[0]) {
        lemma_trim_start_head(s.drop_first());
    }
}

/// `trim_end(s)` is a prefix of `s`.
proof fn lemma_trim_end_prefix(s: Seq<char>)
    ensures
        trim_end(s).len() <= s.len(),
        trim_end(s) == s.subrange(0, trim_end(s).len() as int),
    decreases s.len(),
{
    if s.len() > 0 && is_whitespace(s.last()) {
        lemma_trim_end_prefix(s.drop_last());
        assert(s.drop_last().subrange(0, trim_end(s).len() as int) == s.subrange(
            0,
            trim_end(s).len() as int,
        ));
    } else {
        assert(s.subrange(0, s.len() as int) == s);
    }
}

/// Trimming the end of a text that does not start with whitespace leaves a
/// text that does not start with whitespace.
proof fn lemma_trim_end_keeps_start(s: Seq<char>)
    ensures
        (s.len() == 0 || !is_whitespace(s[0])) ==> (trim_end(s).len() == 0 || !is_whitespace(
            trim_end(s)[0],
        )),
{
    lemma_trim_end_prefix(s);
}

proof fn lemma_trim_start_of_trimmed(s: Seq<char>)
    ensures
        trim_start(trim_end(trim_start(s))) == trim_end(trim_start(s)),
{
    lemma_trim_start_head(s);
    lemma_trim_end_keeps_start(trim_start(s));
}

/// The last word of `p + w + q` is `w` where `w` is a nonempty run of
/// non-whitespace characters, `q` holds only whitespace, and `p` is empty
/// or ends with whitespace.
pub proof fn lemma_last_word_of(p: Seq<char>, w: Seq<char>, q: Seq<char>)
    requires
        w.len() > 0,
        forall|k: int| 0 <= k < w.len() ==> !is_whitespace(#[trigger] w[k]),
        forall|k: int| 0 <= k < q.len() ==> is_whitespace(#[trigger] q[k]),
        p.len() == 0 || is_whitespace(p.last()),
    ensures
        last_word(p + w + q) == Some(w),
{
    let s = p + w + q;
    let j: int = (p.len() + w.len()) as int;
    assert forall|k: int| j <= k < s.len() implies is_whitespace(#[trigger] s[k]) by {
        assert(s[k] == q[k - j]);
    }
    lemma_trim_end_cut(s, j);
    let t = s.subrange(0, j);
    assert(t =~= p + w);
    assert(!is_whitespace(t.last()));
    assert(trim_end(t) == t);
    assert forall|k: int| p.len() <= k < t.len() implies !is_whitespace(#[trigger] t[k]) by {
        assert(t[k] == w[k - p.len()]);
    }
    if p.len() > 0 {
        assert(t[p.len() - 1] == p.last());
    }
    lemma_trailing_word_cut(t, p.len() as int);
    assert(t.subrange(p.len() as int, t.len() as int) =~= w);
}

/// The decimal rendering of `n` is a nonempty run of ASCII digits whose
/// value is `n`.
pub proof fn lemma_decimal_digits(n: nat)
    ensures
        decimal(n).len() > 0,
        forall|i: int| 0 <= i < decimal(n).len() ==> is_digit(#[trigger] decimal(n)[i]),
        digits_value(decimal(n)) == n,
    decreases n,
{
    assert((digit_char(n % 10) as u32) == 48 + n % 10);
    if n >= 10 {
        lemma_decimal_digits(n / 10);
        let d = decimal(n);
        assert(d.drop_last() == decimal(n / 10));
        assert(n == (n / 10) * 10 + n % 10) by (nonlinear_arith);
        assert forall|i: int| 0 <= i < d.len() implies is_digit(#[trigger] d[i]) by {
            if i < d.len() - 1 {
                assert(d[i] == decimal(n / 10)[i]);
            }
        }
    } else {
        let d = decimal(n);
        assert(d.drop_last() =~= Seq::<char>::empty());
        assert(digits_value(d.drop_last()) == 0);
    }
}

/// A port written in decimal reads back as the same port: reading the
/// `webserver-port` output undoes writing the number.
pub proof fn lemma_port_round_trip(p: u16)
    ensures
        parse_u16(decimal(p as nat)) == Some(p),
        parse_u16(seq!['+'] + decimal(p as nat)) == Some(p),
{
    lemma_decimal_digits(p as nat);
    let d = decimal(p as nat);
    assert(d[0] != '+');
    assert(unsigned_digits(d) == d);
    assert((seq!['+'] + d).drop_first() =~= d);
}

} // verus!

//! Small text utilities with exact specifications: Unicode white space and
//! trimming, prefixes, decimal and hexadecimal rendering, padding and joining.
use vstd::prelude::*;

verus! {

/// The Unicode `White_Space` property, the set that `char::is_whitespace` tests.
pub open spec fn is_white_space(c: char) -> bool {
    let u = c as u32;
    ||| 0x09 <= u <= 0x0d
    ||| u == 0x20
    ||| u == 0x85
    ||| u == 0xa0
    ||| u == 0x1680
    ||| 0x2000 <= u <= 0x200a
    ||| u == 0x2028
    ||| u == 0x2029
    ||| u == 0x202f
    ||| u == 0x205f
    ||| u == 0x3000
}

/// `s` without its leading white space.
pub open spec fn trim_start_seq(s: Seq<char>) -> Seq<char>
    decreases s.len(),
{
    if s.len() > 0 && is_white_space(s[0]) {
        trim_start_seq(s.drop_first())
    } else {
        s
    }
}

/// `s` without its trailing white space.
pub open spec fn trim_end_seq(s: Seq<char>) -> Seq<char>
    decreases s.len(),
{
    if s.len() > 0 && is_white_space(s.last()) {
        trim_end_seq(s.drop_last())
    } else {
        s
    }
}

/// `s` without leading and trailing white space (what `str::trim` gives).
pub open spec fn trim_seq(s: Seq<char>) -> Seq<char> {
    trim_end_seq(trim_start_seq(s))
}

/// Whether `p` is a prefix of `s`.
pub open spec fn has_prefix(s: Seq<char>, p: Seq<char>) -> bool {
    p.len() <= s.len() && s.subrange(0, p.len() as int) == p
}

/// The character of a decimal digit.
pub open spec fn digit_char(d: nat) -> char {
    if d == 0 {
        '0'
    } else if d == 1 {
        '1'
    } else if d == 2 {
        '2'
    } else if d == 3 {
        '3'
    } else if d == 4 {
        '4'
    } else if d == 5 {
        '5'
    } else if d == 6 {
        '6'
    } else if d == 7 {
        '7'
    } else if d == 8 {
        '8'
    } else {
        '9'
    }
}

/// The lower-case character of a hexadecimal digit.
pub open spec fn hex_char(d: nat) -> char {
    if d < 10 {
        digit_char(d)
    } else if d == 10 {
        'a'
    } else if d == 11 {
        'b'
    } else if d == 12 {
        'c'
    } else if d == 13 {
        'd'
    } else if d == 14 {
        'e'
    } else {
        'f'
    }
}

/// The decimal notation of `n`, without leading zeros.
pub open spec fn decimal_seq(n: nat) -> Seq<char>
    decreases n,
{
    if n < 10 {
        seq![digit_char(n)]
    } else {
        decimal_seq(n / 10).push(digit_char(n % 10))
    }
}

/// Two lower-case hexadecimal digits of a byte (what `{:02x}` prints).
pub open spec fn hex_byte_seq(b: u8) -> Seq<char> {
    seq![hex_char((b / 16) as nat), hex_char((b % 16) as nat)]
}

/// The lower-case hexadecimal notation of a byte string, two digits per byte.
pub open spec fn hex_seq(bytes: Seq<u8>) -> Seq<char>
    decreases bytes.len(),
{
    if bytes.len() == 0 {
        Seq::empty()
    } else {
        hex_seq(bytes.drop_last()) + hex_byte_seq(bytes.last())
    }
}

/// `n` spaces.
pub open spec fn spaces(n: nat) -> Seq<char>
    decreases n,
{
    if n == 0 {
        Seq::empty()
    } else {
        spaces((n - 1) as nat).push(' ')
    }
}

/// `s` padded on the right with spaces to `width` characters (`{:<width$}`).
pub open spec fn pad_right_seq(s: Seq<char>, width: nat) -> Seq<char> {
    if s.len() < width {
        s + spaces((width - s.len()) as nat)
    } else {
        s
    }
}

/// The parts joined with `sep` between neighbours (what `[String]::join` gives).
pub open spec fn join_seq(parts: Seq<Seq<char>>, sep: Seq<char>) -> Seq<char>
    decreases parts.len(),
{
    if parts.len() == 0 {
        Seq::empty()
    } else if parts.len() == 1 {
        parts[0]
    } else {
        join_seq(parts.drop_last(), sep) + sep + parts.last()
    }
}

/// The views of a sequence of strings.
pub open spec fn string_views(v: Seq<String>) -> Seq<Seq<char>> {
    v.map_values(|s: String| s@)
}

/// Appends one character: `String::push`.
#[verifier::external_body]
pub(crate) fn push_char(s: &mut String, c: char)
    ensures
        final(s)@ == old(s)@.push(c),
{
    s.push(c)
}

/// Whether `c` has the Unicode `White_Space` property.
pub fn is_white_space_char(c: char) -> (b: bool)
    ensures
        b == is_white_space(c),
{
    let u = c as u32;
    (0x09 <= u && u <= 0x0d) || u == 0x20 || u == 0x85 || u == 0xa0 || u == 0x1680 || (0x2000
        <= u && u <= 0x200a) || u == 0x2028 || u == 0x2029 || u == 0x202f || u == 0x205f || u
        == 0x3000
}

proof fn lemma_trim_start_skip(s: Seq<char>, k: int)
    requires
        0 <= k <= s.len(),
        forall|j: int| 0 <= j < k ==> is_white_space(#[trigger] s[j]),
        k == s.len() || !is_white_space(s[k]),
    ensures
        trim_start_seq(s) == s.subrange(k, s.len() as int),
    decreases k,
{
    if k == 0 {
        assert(s.subrange(0, s.len() as int) =~= s);
    } else {
        assert(is_white_space(s[0]));
        let t = s.drop_first();
        assert forall|j: int| 0 <= j < k - 1 implies is_white_space(#[trigger] t[j]) by {
            assert(t[j] == s[j + 1]);
        }
        if k - 1 < t.len() {
            assert(t[k - 1] == s[k]);
        }
        lemma_trim_start_skip(t, k - 1);
        assert(t.subrange(k - 1, t.len() as int) =~= s.subrange(k, s.len() as int));
    }
}

proof fn lemma_trim_end_cut(s: Seq<char>, e: int)
    requires
        0 <= e <= s.len(),
        forall|j: int| e <= j < s.len() ==> is_white_space(#[trigger] s[j]),
        e == 0 || !is_white_space(s[e - 1]),
    ensures
        trim_end_seq(s) == s.subrange(0, e),
    decreases s.len() - e,
{
    if e == s.len() {
        assert(s.subrange(0, e) =~= s);
    } else {
        assert(is_white_space(s[s.len() - 1]));
        let t = s.drop_last();
        assert forall|j: int| e <= j < t.len() implies is_white_space(#[trigger] t[j]) by {
            assert(t[j] == s[j]);
        }
        if e > 0 {
            assert(t[e - 1] == s[e - 1]);
        }
        lemma_trim_end_cut(t, e);
        assert(t.subrange(0, e) =~= s.subrange(0, e));
    }
}

/// The position of the first character of `s` that is not white space (or its length).
fn first_non_white(s: &str) -> (k: usize)
    ensures
        k <= s@.len(),
        forall|j: int| 0 <= j < k ==> is_white_space(#[trigger] s@[j]),
        k == s@.len() || !is_white_space(s@[k as int]),
{
    let n = s.unicode_len();
    let mut k: usize = 0;
    while k < n
        invariant
            n == s@.len(),
            k <= n,
            forall|j: int| 0 <= j < k ==> is_white_space(#[trigger] s@[j]),
        decreases n - k,
    {
        let c = s.get_char(k);
        if !is_white_space_char(c) {
            return k;
        }
        k = k + 1;
    }
    k
}

/// The position just after the last character of `s[..]` from `lo` that is not white space.
fn end_non_white(s: &str, lo: usize) -> (e: usize)
    requires
        lo <= s@.len(),
    ensures
        lo <= e <= s@.len(),
        forall|j: int| e <= j < s@.len() ==> is_white_space(#[trigger] s@[j]),
        e == lo || !is_white_space(s@[e - 1]),
{
    let n = s.unicode_len();
    let mut e: usize = n;
    while e > lo
        invariant
            n == s@.len(),
            lo <= e <= n,
            forall|j: int| e <= j < n ==> is_white_space(#[trigger] s@[j]),
        decreases e,
    {
        let c = s.get_char(e - 1);
        if !is_white_space_char(c) {
            return e;
        }
        e = e - 1;
    }
    e
}

/// `s` without leading and trailing white space: `str::trim`.
pub fn trim(s: &str) -> (r: String)
    ensures
        r@ == trim_seq(s@),
{
    let k = first_non_white(s);
    let e = end_non_white(s, k);
    proof {
        lemma_trim_start_skip(s@, k as int);
        let t = s@.subrange(k as int, s@.len() as int);
        assert forall|j: int| e - k <= j < t.len() implies is_white_space(#[trigger] t[j]) by {
            assert(t[j] == s@[j + k]);
        }
        if e > k {
            assert(t[e - k - 1] == s@[e - 1]);
        }
        lemma_trim_end_cut(t, e - k);
        assert(t.subrange(0, e - k) =~= s@.subrange(k as int, e as int));
    }
    s.substring_char(k, e).to_owned()
}

/// `s` without trailing white space: `str::trim_end`.
pub fn trim_end(s: &str) -> (r: String)
    ensures
        r@ == trim_end_seq(s@),
{
    let e = end_non_white(s, 0);
    proof {
        lemma_trim_end_cut(s@, e as int);
    }
    s.substring_char(0, e).to_owned()
}

/// `a` followed by `b`.
pub fn concat_str(a: &str, b: &str) -> (r: String)
    ensures
        r@ == a@ + b@,
{
    let mut s = a.to_owned();
    s.append(b);
    s
}

/// Whether two strings hold the same characters.
pub fn str_eq(a: &str, b: &str) -> (r: bool)
    ensures
        r == (a@ == b@),
{
    let x = a.to_owned();
    let y = b.to_owned();
    x == y
}

/// Whether `p` is a prefix of `s`: `str::starts_with`.
pub fn starts_with(s: &str, p: &str) -> (r: bool)
    ensures
        r == has_prefix(s@, p@),
{
    let n = s.unicode_len();
    let m = p.unicode_len();
    if m > n {
        return false;
    }
    let mut i: usize = 0;
    while i < m
        invariant
            n == s@.len(),
            m == p@.len(),
            m <= n,
            i <= m,
            forall|j: int| 0 <= j < i ==> s@[j] == p@[j],
        decreases m - i,
    {
        if s.get_char(i) != p.get_char(i) {
            assert(s@.subrange(0, m as int)[i as int] != p@[i as int]);
            return false;
        }
        i = i + 1;
    }
    assert(s@.subrange(0, m as int) =~= p@);
    true
}

/// The character of the decimal digit `d`.
pub fn digit(d: u64) -> (c: char)
    requires
        d < 10,
    ensures
        c == digit_char(d as nat),
{
    if d == 0 {
        '0'
    } else if d == 1 {
        '1'
    } else if d == 2 {
        '2'
    } else if d == 3 {
        '3'
    } else if d == 4 {
        '4'
    } else if d == 5 {
        '5'
    } else if d == 6 {
        '6'
    } else if d == 7 {
        '7'
    } else if d == 8 {
        '8'
    } else {
        '9'
    }
}

/// The character of the lower-case hexadecimal digit `d`.
pub fn hex_digit(d: u8) -> (c: char)
    requires
        d < 16,
    ensures
        c == hex_char(d as nat),
{
    if d < 10 {
        digit(d as u64)
    } else if d == 10 {
        'a'
    } else if d == 11 {
        'b'
    } else if d == 12 {
        'c'
    } else if d == 13 {
        'd'
    } else if d == 14 {
        'e'
    } else {
        'f'
    }
}

/// Appends the decimal notation of `n`.
pub fn push_decimal(s: &mut String, n: u64)
    ensures
        final(s)@ == old(s)@ + decimal_seq(n as nat),
    decreases n,
{
    if n < 10 {
        push_char(s, digit(n));
        assert(old(s)@.push(digit_char(n as nat)) =~= old(s)@ + decimal_seq(n as nat));
    } else {
        push_decimal(s, n / 10);
        push_char(s, digit(n % 10));
        assert((old(s)@ + decimal_seq((n / 10) as nat)).push(digit_char((n % 10) as nat))
            =~= old(s)@ + decimal_seq(n as nat));
    }
}

/// The decimal notation of `n`: `u64::to_string`.
pub fn decimal_string(n: u64) -> (r: String)
    ensures
        r@ == decimal_seq(n as nat),
{
    let mut s = String::new();
    push_decimal(&mut s, n);
    assert(Seq::<char>::empty() + decimal_seq(n as nat) =~= decimal_seq(n as nat));
    s
}

/// The lower-case hexadecimal notation of `bytes`, two digits per byte.
pub fn hex_string(bytes: &[u8]) -> (r: String)
    ensures
        r@ == hex_seq(bytes@),
{
    let mut s = String::new();
    let mut i: usize = 0;
    while i < bytes.len()
        invariant
            i <= bytes@.len(),
            s@ == hex_seq(bytes@.subrange(0, i as int)),
        decreases bytes@.len() - i,
    {
        let b = bytes[i];
        push_char(&mut s, hex_digit(b / 16));
        push_char(&mut s, hex_digit(b % 16));
        proof {
            let pre = bytes@.subrange(0, i as int);
            let next = bytes@.subrange(0, i + 1);
            assert(next.drop_last() =~= pre);
            assert(next.last() == b);
        }
        i = i + 1;
    }
    assert(bytes@.subrange(0, bytes@.len() as int) =~= bytes@);
    s
}

/// Appends `s` padded on the right with spaces to `width` characters.
pub fn push_padded(out: &mut String, s: &str, width: usize)
    ensures
        final(out)@ == old(out)@ + pad_right_seq(s@, width as nat),
{
    out.append(s);
    let n = s.unicode_len();
    let mut k: usize = n;
    while k < width
        invariant
            n == s@.len(),
            n <= k <= width || (k == n && n >= width),
            out@ == old(out)@ + s@ + spaces((k - n) as nat),
        decreases width - k,
    {
        push_char(out, ' ');
        k = k + 1;
    }
    proof {
        if n < width {
            assert(k == width);
        } else {
            assert(spaces(0) =~= Seq::<char>::empty());
        }
        assert(old(out)@ + s@ + spaces((k - n) as nat) =~= old(out)@ + pad_right_seq(
            s@,
            width as nat,
        ));
    }
}

/// Appends the strings joined with `sep` between neighbours.
pub fn push_joined(out: &mut String, parts: &Vec<String>, sep: &str)
    ensures
        final(out)@ == old(out)@ + join_seq(string_views(parts@), sep@),
{
    let ghost views = string_views(parts@);
    let mut i: usize = 0;
    while i < parts.len()
        invariant
            i <= parts@.len(),
            views == string_views(parts@),
            views.len() == parts@.len(),
            out@ == old(out)@ + join_seq(views.subrange(0, i as int), sep@),
        decreases parts@.len() - i,
    {
        proof {
            assert(views[i as int] == parts@[i as int]@);
        }
        if i > 0 {
            out.append(sep);
        }
        out.append(parts[i].as_str());
        proof {
            let next = views.subrange(0, i + 1);
            assert(next.drop_last() =~= views.subrange(0, i as int));
            if i == 0 {
                assert(next.len() == 1);
            }
        }
        i = i + 1;
    }
    assert(views.subrange(0, parts@.len() as int) =~= views);
}

} // verus!

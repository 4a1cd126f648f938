//! Character classes, trimming, splitting, joining and number formatting
//! over strings viewed as `Seq<char>`.
use vstd::prelude::*;

verus! {

// ---------------------------------------------------------------------------
// Character classes
// ---------------------------------------------------------------------------

/// `char::is_whitespace`: the Unicode `White_Space` property.
pub open spec fn is_white_space(c: char) -> bool {
    let u = c as u32;
    ||| 9 <= u <= 13
    ||| u == 32
    ||| u == 0x85
    ||| u == 0xA0
    ||| u == 0x1680
    ||| 0x2000 <= u <= 0x200A
    ||| u == 0x2028
    ||| u == 0x2029
    ||| u == 0x202F
    ||| u == 0x205F
    ||| u == 0x3000
}

pub open spec fn is_ascii_digit(c: char) -> bool {
    '0' <= c <= '9'
}

pub open spec fn is_ascii_lower(c: char) -> bool {
    'a' <= c <= 'z'
}

pub open spec fn is_ascii_upper(c: char) -> bool {
    'A' <= c <= 'Z'
}

pub open spec fn is_ascii_alphanumeric(c: char) -> bool {
    is_ascii_digit(c) || is_ascii_lower(c) || is_ascii_upper(c)
}

/// `char::to_ascii_lowercase`.
pub open spec fn ascii_lowercase(c: char) -> char {
    if is_ascii_upper(c) {
        ((c as u32) + 32) as char
    } else {
        c
    }
}

pub fn white_space(c: char) -> (r: bool)
    ensures
        r == is_white_space(c),
{
    let u = c as u32;
    (9 <= u && u <= 13) || u == 32 || u == 0x85 || u == 0xA0 || u == 0x1680 || (0x2000 <= u && u
        <= 0x200A) || u == 0x2028 || u == 0x2029 || u == 0x202F || u == 0x205F || u == 0x3000
}

pub fn ascii_alphanumeric(c: char) -> (r: bool)
    ensures
        r == is_ascii_alphanumeric(c),
{
    ('0' <= c && c <= '9') || ('a' <= c && c <= 'z') || ('A' <= c && c <= 'Z')
}

pub fn to_ascii_lowercase(c: char) -> (r: char)
    ensures
        r == ascii_lowercase(c),
{
    if 'A' <= c && c <= 'Z' {
        let u: u32 = (c as u32) + 32;
        let b: u8 = u as u8;
        b as char
    } else {
        c
    }
}

/// The UTF-8 encoding of `s` (`str::as_bytes`).
pub open spec fn utf8_of(s: Seq<char>) -> Seq<u8> {
    vstd::utf8::encode_utf8(s)
}

// ---------------------------------------------------------------------------
// Building strings
// ---------------------------------------------------------------------------

/// Appends one character (`String::push`).
#[verifier::external_body]
pub fn push_char(s: &mut String, c: char)
    ensures
        final(s)@ == old(s)@.push(c),
{
    s.push(c);
}

/// The characters of `s`, in order.
pub fn chars_of(s: &str) -> (v: Vec<char>)
    ensures
        v@ == s@,
{
    let mut v: Vec<char> = Vec::new();
    for c in it: s.chars()
        invariant
            it.seq() == s@,
            v.len() == it.index(),
            forall|k: int| 0 <= k < v.len() ==> v@[k] == s@[k],
    {
        v.push(c);
    }
    assert(v@ =~= s@);
    v
}

/// The string made of `v[from..to]`.
pub fn string_of_range(v: &Vec<char>, from: usize, to: usize) -> (s: String)
    requires
        from <= to <= v.len(),
    ensures
        s@ == v@.subrange(from as int, to as int),
{
    let mut s = String::new();
    let mut i = from;
    while i < to
        invariant
            from <= i <= to <= v.len(),
            s@ == v@.subrange(from as int, i as int),
        decreases to - i,
    {
        push_char(&mut s, v[i]);
        i = i + 1;
        assert(s@ =~= v@.subrange(from as int, i as int));
    }
    s
}

pub fn string_of_chars(v: &Vec<char>) -> (s: String)
    ensures
        s@ == v@,
{
    let s = string_of_range(v, 0, v.len());
    assert(v@.subrange(0, v@.len() as int) =~= v@);
    s
}

// ---------------------------------------------------------------------------
// Trimming
// ---------------------------------------------------------------------------

/// A set of characters that trimming removes.
#[derive(Clone, Copy, Debug)]
pub enum CharClass {
    WhiteSpace,
    Exactly(char),
}

impl CharClass {
    pub open spec fn contains(self, c: char) -> bool {
        match self {
            CharClass::WhiteSpace => is_white_space(c),
            CharClass::Exactly(x) => c == x,
        }
    }

    pub fn matches(&self, c: char) -> (r: bool)
        ensures
            r == self.contains(c),
    {
        match self {
            CharClass::WhiteSpace => white_space(c),
            CharClass::Exactly(x) => c == *x,
        }
    }
}

/// Number of leading characters of `s` in `cls`.
pub open spec fn lead_len(s: Seq<char>, cls: CharClass) -> nat
    decreases s.len(),
{
    if s.len() > 0 && cls.contains(s[0]) {
        1 + lead_len(s.drop_first(), cls)
    } else {
        0
    }
}

/// Number of trailing characters of `s` in `cls`.
pub open spec fn trail_len(s: Seq<char>, cls: CharClass) -> nat
    decreases s.len(),
{
    if s.len() > 0 && cls.contains(s.last()) {
        1 + trail_len(s.drop_last(), cls)
    } else {
        0
    }
}

/// `s` without its leading and trailing characters in `cls` (`str::trim_matches`).
pub open spec fn trim_class(s: Seq<char>, cls: CharClass) -> Seq<char> {
    if lead_len(s, cls) == s.len() {
        Seq::empty()
    } else {
        s.subrange(lead_len(s, cls) as int, s.len() - trail_len(s, cls))
    }
}

/// `s` without its trailing characters in `cls` (`str::trim_end_matches`).
pub open spec fn trim_end_class(s: Seq<char>, cls: CharClass) -> Seq<char> {
    s.subrange(0, s.len() - trail_len(s, cls))
}

/// `str::trim`.
pub open spec fn trim(s: Seq<char>) -> Seq<char> {
    trim_class(s, CharClass::WhiteSpace)
}

proof fn lemma_lead_len(s: Seq<char>, cls: CharClass, i: int)
    requires
        0 <= i <= s.len(),
        forall|k: int| 0 <= k < i ==> cls.contains(#[trigger] s[k]),
        i == s.len() || !cls.contains(s[i]),
    ensures
        lead_len(s, cls) == i,
    decreases i,
{
    if i > 0 {
        lemma_lead_len(s.drop_first(), cls, i - 1);
    }
}

proof fn lemma_trail_len(s: Seq<char>, cls: CharClass, j: int)
    requires
        0 <= j <= s.len(),
        forall|k: int| j <= k < s.len() ==> cls.contains(#[trigger] s[k]),
        j == 0 || !cls.contains(s[j - 1]),
    ensures
        trail_len(s, cls) == s.len() - j,
    decreases s.len() - j,
{
    if j < s.len() {
        lemma_trail_len(s.drop_last(), cls, j);
    }
}

pub proof fn lemma_lead_len_bound(s: Seq<char>, cls: CharClass)
    ensures
        lead_len(s, cls) <= s.len(),
        forall|k: int| 0 <= k < lead_len(s, cls) ==> cls.contains(#[trigger] s[k]),
        lead_len(s, cls) < s.len() ==> !cls.contains(s[lead_len(s, cls) as int]),
    decreases s.len(),
{
    if s.len() > 0 && cls.contains(s[0]) {
        lemma_lead_len_bound(s.drop_first(), cls);
        assert forall|k: int| 0 <= k < lead_len(s, cls) implies cls.contains(#[trigger] s[k]) by {
            if k > 0 {
                assert(s[k] == s.drop_first()[k - 1]);
            }
        }
    }
}

pub proof fn lemma_trail_len_bound(s: Seq<char>, cls: CharClass)
    ensures
        trail_len(s, cls) <= s.len(),
        forall|k: int| s.len() - trail_len(s, cls) <= k < s.len() ==> cls.contains(#[trigger] s[k]),
        trail_len(s, cls) < s.len() ==> !cls.contains(s[s.len() - trail_len(s, cls) - 1]),
    decreases s.len(),
{
    if s.len() > 0 && cls.contains(s.last()) {
        lemma_trail_len_bound(s.drop_last(), cls);
        assert forall|k: int| s.len() - trail_len(s, cls) <= k < s.len() implies cls.contains(
            #[trigger] s[k],
        ) by {
            if k < s.len() - 1 {
                assert(s[k] == s.drop_last()[k]);
            }
        }
        if trail_len(s, cls) < s.len() {
            assert(s[s.len() - trail_len(s, cls) - 1] == s.drop_last()[s.drop_last().len()
                - trail_len(s.drop_last(), cls) - 1]);
        }
    }
}

/// When the first and last characters of `s` are not in `cls`, trimming
/// leaves `s` as it is.
pub proof fn lemma_trim_class_noop(s: Seq<char>, cls: CharClass)
    requires
        s.len() > 0,
        !cls.contains(s[0]),
        !cls.contains(s.last()),
    ensures
        trim_class(s, cls) == s,
{
    assert(lead_len(s, cls) == 0);
    assert(trail_len(s, cls) == 0);
    assert(s.subrange(0, s.len() as int) =~= s);
}

/// Index of the first character not in `cls`, and one past the last one.
pub fn trim_bounds(v: &Vec<char>, cls: CharClass) -> (r: (usize, usize))
    ensures
        r.0 <= r.1 <= v@.len(),
        r.0 == lead_len(v@, cls),
        lead_len(v@, cls) == v@.len() ==> r.1 == r.0,
        lead_len(v@, cls) < v@.len() ==> r.1 == v@.len() - trail_len(v@, cls) && r.0 < r.1,
{
    let n = v.len();
    let mut i: usize = 0;
    while i < n && cls.matches(v[i])
        invariant
            n == v.len(),
            i <= n,
            forall|k: int| 0 <= k < i ==> cls.contains(#[trigger] v@[k]),
        decreases n - i,
    {
        i = i + 1;
    }
    proof {
        lemma_lead_len(v@, cls, i as int);
    }
    let mut j: usize = n;
    while j > i && cls.matches(v[j - 1])
        invariant
            n == v.len(),
            i <= j <= n,
            forall|k: int| j <= k < n ==> cls.contains(#[trigger] v@[k]),
        decreases j,
    {
        j = j - 1;
    }
    proof {
        if i < n {
            assert(!cls.contains(v@[i as int]));
            assert(j > i);
            lemma_trail_len(v@, cls, j as int);
        }
    }
    (i, j)
}

/// `str::trim_matches` for a character class.
pub fn trim_matching(s: &str, cls: CharClass) -> (r: String)
    ensures
        r@ == trim_class(s@, cls),
{
    let v = chars_of(s);
    let (i, j) = trim_bounds(&v, cls);
    let r = string_of_range(&v, i, j);
    proof {
        if lead_len(s@, cls) == s@.len() {
            assert(r@ =~= Seq::<char>::empty());
        }
    }
    r
}

/// `str::trim`.
pub fn trim_str(s: &str) -> (r: String)
    ensures
        r@ == trim(s@),
{
    trim_matching(s, CharClass::WhiteSpace)
}

/// `str::trim_end_matches` for a character class.
pub fn trim_end_matching(s: &str, cls: CharClass) -> (r: String)
    ensures
        r@ == trim_end_class(s@, cls),
{
    let v = chars_of(s);
    let n = v.len();
    let mut j: usize = n;
    while j > 0 && cls.matches(v[j - 1])
        invariant
            n == v.len(),
            j <= n,
            forall|k: int| j <= k < n ==> cls.contains(#[trigger] v@[k]),
        decreases j,
    {
        j = j - 1;
    }
    proof {
        lemma_trail_len(v@, cls, j as int);
    }
    string_of_range(&v, 0, j)
}

// ---------------------------------------------------------------------------
// Number formatting
// ---------------------------------------------------------------------------

/// The digit character for `d` (`0-9`, then lower-case `a-z`).
pub open spec fn digit_char(d: nat) -> char {
    if d < 10 {
        (48 + d) as char
    } else {
        (87 + d) as char
    }
}

/// Decimal representation of `n`, without leading zeros.
pub open spec fn decimal(n: nat) -> Seq<char>
    decreases n,
{
    if n < 10 {
        seq![digit_char(n)]
    } else {
        decimal(n / 10).push(digit_char(n % 10))
    }
}

/// Lower-case hexadecimal representation of `n` (`{:x}`), without leading zeros.
pub open spec fn hex(n: nat) -> Seq<char>
    decreases n,
{
    if n < 16 {
        seq![digit_char(n)]
    } else {
        hex(n / 16).push(digit_char(n % 16))
    }
}

/// A decimal representation is one or more ASCII digits.
pub proof fn lemma_decimal_digits(n: nat)
    ensures
        decimal(n).len() >= 1,
        forall|i: int| 0 <= i < decimal(n).len() ==> is_ascii_digit(#[trigger] decimal(n)[i]),
    decreases n,
{
    if n >= 10 {
        lemma_decimal_digits(n / 10);
        assert forall|i: int| 0 <= i < decimal(n).len() implies is_ascii_digit(
            #[trigger] decimal(n)[i],
        ) by {
            if i < decimal(n / 10).len() {
                assert(decimal(n)[i] == decimal(n / 10)[i]);
            }
        }
    }
}

fn digit(d: u64) -> (c: char)
    requires
        d < 16,
    ensures
        c == digit_char(d as nat),
{
    let b: u8 = if d < 10 {
        48 + d as u8
    } else {
        87 + d as u8
    };
    b as char
}

/// Appends the decimal representation of `n`.
pub fn push_decimal(s: &mut String, n: u64)
    ensures
        final(s)@ == old(s)@ + decimal(n as nat),
    decreases n,
{
    if n >= 10 {
        push_decimal(s, n / 10);
    }
    push_char(s, digit(n % 10));
    assert(final(s)@ =~= old(s)@ + decimal(n as nat));
}

/// Appends the lower-case hexadecimal representation of `n`.
pub fn push_hex(s: &mut String, n: u64)
    ensures
        final(s)@ == old(s)@ + hex(n as nat),
    decreases n,
{
    if n >= 16 {
        push_hex(s, n / 16);
    }
    push_char(s, digit(n % 16));
    assert(final(s)@ =~= old(s)@ + hex(n as nat));
}

/// `u64::to_string`.
pub fn decimal_string(n: u64) -> (s: String)
    ensures
        s@ == decimal(n as nat),
{
    let mut s = String::new();
    push_decimal(&mut s, n);
    assert(s@ =~= decimal(n as nat));
    s
}

// ---------------------------------------------------------------------------
// Parsing
// ---------------------------------------------------------------------------

/// Value of a string of decimal digits.
pub open spec fn digits_value(s: Seq<char>) -> nat
    decreases s.len(),
{
    if s.len() == 0 {
        0
    } else {
        digits_value(s.drop_last()) * 10 + ((s.last() as nat) - 48) as nat
    }
}

pub open spec fn all_digits(s: Seq<char>) -> bool {
    forall|i: int| 0 <= i < s.len() ==> is_ascii_digit(#[trigger] s[i])
}

/// `str::parse::<u16>`: an optional `+`, then one or more decimal digits whose
/// value fits in a `u16`.
pub open spec fn parse_u16(s: Seq<char>) -> Option<u16> {
    let t = if s.len() > 0 && s[0] == '+' {
        s.drop_first()
    } else {
        s
    };
    if t.len() > 0 && all_digits(t) && digits_value(t) <= u16::MAX {
        Some(digits_value(t) as u16)
    } else {
        None
    }
}

proof fn lemma_digits_value_prefix(t: Seq<char>, i: int)
    requires
        0 <= i <= t.len(),
        all_digits(t),
    ensures
        digits_value(t.take(i)) <= digits_value(t),
    decreases t.len() - i,
{
    if i < t.len() {
        lemma_digits_value_prefix(t, i + 1);
        assert(t.take(i + 1).drop_last() =~= t.take(i));
        assert(t.take(i + 1).last() == t[i]);
        assert(is_ascii_digit(t[i]));
    } else {
        assert(t.take(i) =~= t);
    }
}

/// Parses a `u16` as `str::parse::<u16>` does.
pub fn parse_u16_str(s: &str) -> (r: Option<u16>)
    ensures
        r == parse_u16(s@),
{
    let v = chars_of(s);
    let n = v.len();
    let start: usize = if n > 0 && v[0] == '+' {
        1
    } else {
        0
    };
    let ghost t = if s@.len() > 0 && s@[0] == '+' {
        s@.drop_first()
    } else {
        s@
    };
    assert(t =~= v@.subrange(start as int, n as int));
    if start == n {
        return None;
    }
    let mut value: u32 = 0;
    let mut i: usize = start;
    while i < n
        invariant
            start <= i <= n,
            n == v.len(),
            t == v@.subrange(start as int, n as int),
            v@ == s@,
            t == (if s@.len() > 0 && s@[0] == '+' {
                s@.drop_first()
            } else {
                s@
            }),
            all_digits(t.take(i - start)),
            value == digits_value(t.take(i - start)),
            value <= u16::MAX,
        decreases n - i,
    {
        let c = v[i];
        if !('0' <= c && c <= '9') {
            assert(t[i - start] == c);
            assert(!is_ascii_digit(t[i - start]));
            assert(!all_digits(t));
            return None;
        }
        let d = (c as u32) - 48;
        assert(t.take(i - start + 1).drop_last() =~= t.take(i - start));
        assert(t.take(i - start + 1).last() == c);
        let next = value * 10 + d;
        assert(next == digits_value(t.take(i - start + 1)));
        if next > 65535 {
            proof {
                assert(all_digits(t.take(i - start + 1)));
                if all_digits(t) {
                    lemma_digits_value_prefix(t, i - start + 1);
                    assert(digits_value(t) > 65535);
                }
            }
            return None;
        }
        value = next;
        i = i + 1;
    }
    assert(t.take(n - start) =~= t);
    Some(value as u16)
}

// ---------------------------------------------------------------------------
// Splitting and joining
// ---------------------------------------------------------------------------

/// State after reading `s` while splitting on `sep` and dropping empty
/// pieces: the finished pieces, and the piece being read.
pub open spec fn split_state(s: Seq<char>, sep: char) -> (Seq<Seq<char>>, Seq<char>)
    decreases s.len(),
{
    if s.len() == 0 {
        (Seq::empty(), Seq::empty())
    } else {
        let (done, cur) = split_state(s.drop_last(), sep);
        if s.last() == sep {
            (if cur.len() > 0 {
                done.push(cur)
            } else {
                done
            }, Seq::empty())
        } else {
            (done, cur.push(s.last()))
        }
    }
}

/// The non-empty pieces of `s` between occurrences of `sep`
/// (`s.split(sep).filter(|p| !p.is_empty())`).
pub open spec fn nonempty_fields(s: Seq<char>, sep: char) -> Seq<Seq<char>> {
    let (done, cur) = split_state(s, sep);
    if cur.len() > 0 {
        done.push(cur)
    } else {
        done
    }
}

/// Splits `s` on `sep`, keeping the non-empty pieces.
pub fn split_nonempty(s: &str, sep: char) -> (r: Vec<String>)
    ensures
        r@.map_values(|p: String| p@) == nonempty_fields(s@, sep),
{
    let v = chars_of(s);
    let n = v.len();
    let mut done: Vec<String> = Vec::new();
    let mut cur: Vec<char> = Vec::new();
    let mut i: usize = 0;
    while i < n
        invariant
            n == v.len(),
            v@ == s@,
            i <= n,
            done@.map_values(|p: String| p@) == split_state(v@.take(i as int), sep).0,
            cur@ == split_state(v@.take(i as int), sep).1,
        decreases n - i,
    {
        let c = v[i];
        assert(v@.take(i + 1).drop_last() =~= v@.take(i as int));
        if c == sep {
            if cur.len() > 0 {
                let piece = string_of_chars(&cur);
                let ghost before = done@;
                done.push(piece);
                assert(done@.map_values(|p: String| p@) =~= before.map_values(|p: String| p@).push(
                    cur@,
                ));
            }
            cur = Vec::new();
        } else {
            cur.push(c);
        }
        i = i + 1;
    }
    assert(v@.take(n as int) =~= s@);
    if cur.len() > 0 {
        let piece = string_of_chars(&cur);
        let ghost before = done@;
        done.push(piece);
        assert(done@.map_values(|p: String| p@) =~= before.map_values(|p: String| p@).push(cur@));
    }
    done
}

/// `parts` joined with `sep` between consecutive parts (`[String]::join`).
pub open spec fn join(parts: Seq<Seq<char>>, sep: Seq<char>) -> Seq<char>
    decreases parts.len(),
{
    if parts.len() == 0 {
        Seq::empty()
    } else if parts.len() == 1 {
        parts[0]
    } else {
        join(parts.drop_last(), sep) + sep + parts.last()
    }
}

pub open spec fn views(v: Seq<String>) -> Seq<Seq<char>> {
    v.map_values(|p: String| p@)
}

/// Joins `parts` with `sep` between consecutive parts.
pub fn join_strings(parts: &Vec<String>, sep: &str) -> (r: String)
    ensures
        r@ == join(views(parts@), sep@),
{
    let mut r = String::new();
    let n = parts.len();
    let mut i: usize = 0;
    while i < n
        invariant
            n == parts.len(),
            i <= n,
            r@ == join(views(parts@).take(i as int), sep@),
        decreases n - i,
    {
        let ghost pv = views(parts@);
        assert(pv.take(i + 1).drop_last() =~= pv.take(i as int));
        if i > 0 {
            r.append(sep);
        } else {
            assert(r@ =~= Seq::<char>::empty());
        }
        r.append(parts[i].as_str());
        i = i + 1;
        assert(r@ =~= join(pv.take(i as int), sep@));
    }
    assert(views(parts@).take(n as int) =~= views(parts@));
    r
}

} // verus!

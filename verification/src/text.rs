use vstd::prelude::*;

verus! {

/// `String::push`: appends one character, as its documentation says.
#[verifier::external_body]
pub(crate) fn push_char(s: &mut String, c: char)
    ensures
        final(s)@ == old(s)@.push(c),
{
    s.push(c);
}

/// The characters of a string slice, in order.
pub fn chars_of(s: &str) -> (r: Vec<char>)
    ensures
        r@ == s@,
{
    let mut r: Vec<char> = Vec::new();
    for c in it: s.chars()
        invariant
            r@ == it.seq().take(it.index() as int),
            it.seq() == s@,
    {
        r.push(c);
    }
    r
}

/// The string made of the characters `chars[from..to]`.
pub fn string_from_chars(chars: &Vec<char>, from: usize, to: usize) -> (r: String)
    requires
        from <= to <= chars@.len(),
    ensures
        r@ == chars@.subrange(from as int, to as int),
{
    let mut r = String::new();
    let mut i = from;
    while i < to
        invariant
            from <= i <= to <= chars@.len(),
            r@ == chars@.subrange(from as int, i as int),
        decreases to - i,
    {
        push_char(&mut r, chars[i]);
        i = i + 1;
        assert(r@ =~= chars@.subrange(from as int, i as int));
    }
    r
}

/// How `format!("{:.4}", d.as_secs_f64())` writes a duration `d` of `secs` seconds and `nanos`
/// nanoseconds: the seconds with four decimals.
pub uninterp spec fn seconds_text(secs: u64, nanos: u32) -> Seq<char>;

/// Writes a duration in seconds with four decimals (`format!("{:.4}", d.as_secs_f64())` for
/// `d = Duration::new(secs, nanos)`). The text is named, not spelled out: it is what Rust's
/// float formatting gives.
#[verifier::external_body]
pub fn format_seconds(secs: u64, nanos: u32) -> (r: String)
    requires
        nanos < 1_000_000_000,
    ensures
        r@ == seconds_text(secs, nanos),
{
    format!("{:.4}", std::time::Duration::new(secs, nanos).as_secs_f64())
}

/// Unicode's White_Space property, which `char::is_whitespace` tests.
pub open spec fn is_white_space(c: char) -> bool {
    let u = c as u32;
    ||| 0x09 <= u <= 0x0d
    ||| u == 0x20
    ||| u == 0x85
    ||| u == 0xa0
    ||| u == 0x1680
    ||| 0x2000 <= u <= 0x200a
    ||| u == 0x2028
    ||| u == 0x2029
    ||| u == 0x202f
    ||| u == 0x205f
    ||| u == 0x3000
}

/// `char::is_whitespace`.
pub fn is_whitespace(c: char) -> (r: bool)
    ensures
        r == is_white_space(c),
{
    let u = c as u32;
    (0x09 <= u && u <= 0x0d) || u == 0x20 || u == 0x85 || u == 0xa0 || u == 0x1680 || (0x2000 <= u
        && u <= 0x200a) || u == 0x2028 || u == 0x2029 || u == 0x202f || u == 0x205f || u == 0x3000
}

/// The position of the first character of `s` that satisfies `p`, if any.
pub open spec fn first_satisfying(s: Seq<char>, p: spec_fn(char) -> bool) -> Option<int>
    decreases s.len(),
{
    if s.len() == 0 {
        None
    } else if p(s[0]) {
        Some(0)
    } else {
        match first_satisfying(s.drop_first(), p) {
            Some(k) => Some(k + 1),
            None => None,
        }
    }
}

/// The position of the first character of `s` that satisfies `p`, or the length of `s`.
pub open spec fn first_satisfying_or_len(s: Seq<char>, p: spec_fn(char) -> bool) -> int {
    match first_satisfying(s, p) {
        Some(k) => k,
        None => s.len() as int,
    }
}

/// `first_satisfying` finds the first position whose character satisfies `p`.
pub proof fn lemma_first_satisfying(s: Seq<char>, p: spec_fn(char) -> bool, k: int)
    requires
        0 <= k <= s.len(),
        forall|i: int| 0 <= i < k ==> !p(#[trigger] s[i]),
        k < s.len() ==> p(s[k]),
    ensures
        first_satisfying_or_len(s, p) == k,
        first_satisfying(s, p) == (if k < s.len() {
            Some(k)
        } else {
            None::<int>
        }),
    decreases s.len(),
{
    if s.len() > 0 && k > 0 {
        assert forall|i: int| 0 <= i < k - 1 implies !p(#[trigger] s.drop_first()[i]) by {
            assert(s.drop_first()[i] == s[i + 1]);
        }
        lemma_first_satisfying(s.drop_first(), p, k - 1);
    }
}

/// The test for one character.
pub open spec fn is_char(c: char) -> spec_fn(char) -> bool {
    |x: char| x == c
}

/// What `first_satisfying` finds satisfies `p`, and nothing before it does.
pub proof fn lemma_first_satisfying_bounds(s: Seq<char>, p: spec_fn(char) -> bool)
    ensures
        first_satisfying(s, p) matches Some(k) ==> 0 <= k < s.len() && p(s[k]) && forall|i: int|
            0 <= i < k ==> !p(#[trigger] s[i]),
        first_satisfying(s, p) is None ==> forall|i: int| 0 <= i < s.len() ==> !p(#[trigger] s[i]),
        0 <= first_satisfying_or_len(s, p) <= s.len(),
    decreases s.len(),
{
    if s.len() > 0 && !p(s[0]) {
        let t = s.drop_first();
        lemma_first_satisfying_bounds(t, p);
        match first_satisfying(t, p) {
            Some(k) => {
                assert(s[k + 1] == t[k]);
                assert forall|i: int| 0 <= i < k + 1 implies !p(#[trigger] s[i]) by {
                    if i > 0 {
                        assert(s[i] == t[i - 1]);
                    }
                }
            },
            None => {
                assert forall|i: int| 0 <= i < s.len() implies !p(#[trigger] s[i]) by {
                    if i > 0 {
                        assert(s[i] == t[i - 1]);
                    }
                }
            },
        }
    }
}

/// `s` with its trailing white space removed.
pub open spec fn trim_end_spec(s: Seq<char>) -> Seq<char>
    decreases s.len(),
{
    if s.len() > 0 && is_white_space(s.last()) {
        trim_end_spec(s.drop_last())
    } else {
        s
    }
}

/// `str::trim`: `s` without leading and trailing white space.
pub open spec fn trim_spec(s: Seq<char>) -> Seq<char> {
    trim_end_spec(trim_start_spec(s))
}

/// The ASCII upper case of one character; other characters stay.
pub open spec fn ascii_upper_char(c: char) -> char {
    if 'a' <= c <= 'z' {
        ((c as u32) - 32) as char
    } else {
        c
    }
}

/// `str::to_ascii_uppercase`.
pub open spec fn ascii_upper_spec(s: Seq<char>) -> Seq<char> {
    s.map_values(|c: char| ascii_upper_char(c))
}

/// The decimal digit for `d < 10`.
pub open spec fn digit_char(d: int) -> char {
    (d + 48) as char
}

/// The decimal notation of `n`, as `to_string` writes it.
pub open spec fn decimal_spec(n: nat) -> Seq<char>
    decreases n,
{
    if n < 10 {
        seq![digit_char(n as int)]
    } else {
        decimal_spec(n / 10).push(digit_char((n % 10) as int))
    }
}

/// The decimal notation of `n`.
pub fn decimal(n: u64) -> (r: String)
    ensures
        r@ == decimal_spec(n as nat),
    decreases n,
{
    let d = (n % 10) as u8;
    let c = (d + 48) as char;
    if n < 10 {
        let mut r = String::new();
        push_char(&mut r, c);
        assert(r@ =~= seq![digit_char(n as int)]);
        r
    } else {
        let mut r = decimal(n / 10);
        push_char(&mut r, c);
        r
    }
}

/// `str::to_ascii_uppercase`.
pub fn to_ascii_uppercase(s: &str) -> (r: String)
    ensures
        r@ == ascii_upper_spec(s@),
{
    let chars = chars_of(s);
    let mut r = String::new();
    let mut i: usize = 0;
    while i < chars.len()
        invariant
            i <= chars@.len(),
            chars@ == s@,
            r@ == ascii_upper_spec(chars@.take(i as int)),
        decreases chars@.len() - i,
    {
        let c = chars[i];
        let u = if 'a' <= c && c <= 'z' {
            ((c as u8) - 32) as char
        } else {
            c
        };
        push_char(&mut r, u);
        i = i + 1;
        assert(r@ =~= ascii_upper_spec(chars@.take(i as int)));
    }
    assert(chars@.take(chars@.len() as int) =~= chars@);
    r
}

proof fn lemma_trim_end_scan(s: Seq<char>, k: int)
    requires
        0 <= k <= s.len(),
        forall|i: int| k <= i < s.len() ==> is_white_space(#[trigger] s[i]),
        k > 0 ==> !is_white_space(s[k - 1]),
    ensures
        trim_end_spec(s) == s.take(k),
    decreases s.len(),
{
    if s.len() > k {
        lemma_trim_end_scan(s.drop_last(), k);
        assert(s.drop_last().take(k) =~= s.take(k));
    } else {
        assert(s.take(k) =~= s);
    }
}

/// `str::trim`: the string without leading and trailing white space.
pub fn trim(s: &str) -> (r: String)
    ensures
        r@ == trim_spec(s@),
{
    let chars = chars_of(s);
    let len = chars.len();
    let start = find_space(&chars, 0, len, false);
    let mut end = len;
    while end > start && is_whitespace(chars[end - 1])
        invariant
            start <= end <= len == chars@.len(),
            forall|i: int| end <= i < len ==> is_white_space(#[trigger] chars@[i]),
        decreases end,
    {
        end = end - 1;
    }
    proof {
        assert(chars@.subrange(0, len as int) =~= chars@);
        let t = chars@.skip(start as int);
        assert(trim_start_spec(s@) =~= t);
        if end == start && start < len {
            lemma_first_satisfying_bounds(chars@, |x: char| !is_white_space(x));
        }
        lemma_trim_end_scan(t, end - start);
        assert(t.take(end - start) =~= chars@.subrange(start as int, end as int));
    }
    string_from_chars(&chars, start, end)
}

/// The characters of `s` without the occurrences of `c`.
pub open spec fn without_char(s: Seq<char>, c: char) -> Seq<char>
    decreases s.len(),
{
    if s.len() == 0 {
        s
    } else if s.last() == c {
        without_char(s.drop_last(), c)
    } else {
        without_char(s.drop_last(), c).push(s.last())
    }
}

/// `s` with its leading white space removed.
pub open spec fn trim_start_spec(s: Seq<char>) -> Seq<char> {
    s.skip(first_satisfying_or_len(s, |c: char| !is_white_space(c)))
}

/// The first white-space-separated word of `s`, or the empty sequence when there is none
/// (`s.split_whitespace().next().unwrap_or("")`).
pub open spec fn first_word(s: Seq<char>) -> Seq<char> {
    let t = trim_start_spec(s);
    t.take(first_satisfying_or_len(t, |c: char| is_white_space(c)))
}

/// The position of the first `c` in `chars[from..to]`, or `to`.
pub fn find_char(chars: &Vec<char>, from: usize, to: usize, c: char) -> (r: usize)
    requires
        from <= to <= chars@.len(),
    ensures
        from <= r <= to,
        r - from == first_satisfying_or_len(chars@.subrange(from as int, to as int), is_char(c)),
{
    let mut i = from;
    while i < to && chars[i] != c
        invariant
            from <= i <= to <= chars@.len(),
            forall|k: int| from <= k < i ==> chars@[k] != c,
        decreases to - i,
    {
        i = i + 1;
    }
    proof {
        let s = chars@.subrange(from as int, to as int);
        lemma_first_satisfying(s, is_char(c), i - from);
    }
    i
}

/// The position of the first white-space character of `chars[from..to]` (or, with
/// `want_space == false`, of the first other character), or `to`.
pub fn find_space(chars: &Vec<char>, from: usize, to: usize, want_space: bool) -> (r: usize)
    requires
        from <= to <= chars@.len(),
    ensures
        from <= r <= to,
        want_space ==> r - from == first_satisfying_or_len(
            chars@.subrange(from as int, to as int),
            |x: char| is_white_space(x),
        ),
        !want_space ==> r - from == first_satisfying_or_len(
            chars@.subrange(from as int, to as int),
            |x: char| !is_white_space(x),
        ),
{
    let mut i = from;
    while i < to && is_whitespace(chars[i]) != want_space
        invariant
            from <= i <= to <= chars@.len(),
            forall|k: int| from <= k < i ==> is_white_space(chars@[k]) != want_space,
        decreases to - i,
    {
        i = i + 1;
    }
    proof {
        let s = chars@.subrange(from as int, to as int);
        if want_space {
            lemma_first_satisfying(s, |x: char| is_white_space(x), i - from);
        } else {
            lemma_first_satisfying(s, |x: char| !is_white_space(x), i - from);
        }
    }
    i
}

/// An ASCII decimal digit.
pub open spec fn is_digit(c: char) -> bool {
    '0' <= c <= '9'
}

/// Every character is an ASCII decimal digit.
pub open spec fn all_digits(s: Seq<char>) -> bool {
    forall|i: int| 0 <= i < s.len() ==> is_digit(#[trigger] s[i])
}

/// The value of a digit.
pub open spec fn digit_value(c: char) -> nat {
    (c as int - '0' as int) as nat
}

/// The value of a string of decimal digits, most significant first.
pub open spec fn digits_value(s: Seq<char>) -> nat
    decreases s.len(),
{
    if s.len() == 0 {
        0
    } else {
        digits_value(s.drop_last()) * 10 + digit_value(s.last())
    }
}

/// The characters that `str::parse` reads as digits for an unsigned type: all of `s`, or what
/// follows a leading `+`.
pub open spec fn unsigned_digits(s: Seq<char>) -> Seq<char> {
    if s.len() > 0 && s[0] == '+' {
        s.skip(1)
    } else {
        s
    }
}

/// What `str::parse` gives for an unsigned type whose largest value is `max`: the value of the
/// digits, when there is at least one, all of them are decimal digits and the value is at most
/// `max`; nothing otherwise.
pub open spec fn parse_unsigned_spec(s: Seq<char>, max: nat) -> Option<nat> {
    let d = unsigned_digits(s);
    if d.len() > 0 && all_digits(d) && digits_value(d) <= max {
        Some(digits_value(d))
    } else {
        None
    }
}

/// The value of the first digits grows by a digit each step.
proof fn lemma_digits_value_take(s: Seq<char>, k: int)
    requires
        0 <= k < s.len(),
    ensures
        digits_value(s.take(k + 1)) == digits_value(s.take(k)) * 10 + digit_value(s[k]),
{
    assert(s.take(k + 1).drop_last() =~= s.take(k));
}

/// A longer string of digits has at least the value of its first digits.
proof fn lemma_digits_value_monotonic(s: Seq<char>, k: int)
    requires
        0 <= k <= s.len(),
        all_digits(s),
    ensures
        digits_value(s.take(k)) <= digits_value(s),
    decreases s.len() - k,
{
    if k < s.len() {
        lemma_digits_value_take(s, k);
        lemma_digits_value_monotonic(s, k + 1);
    } else {
        assert(s.take(k) =~= s);
    }
}

/// Reads `s` as `str::parse` reads an unsigned number of at most `max`.
pub fn parse_unsigned(s: &str, max: u64) -> (r: Option<u64>)
    ensures
        r is Some <==> parse_unsigned_spec(s@, max as nat) is Some,
        r matches Some(v) ==> parse_unsigned_spec(s@, max as nat) == Some(v as nat),
{
    let chars = chars_of(s);
    let len = chars.len();
    let start: usize = if len > 0 && chars[0] == '+' {
        1
    } else {
        0
    };
    let ghost d = unsigned_digits(s@);
    assert(d =~= chars@.skip(start as int));
    if start == len {
        return None;
    }
    let mut value: u64 = 0;
    let mut i: usize = start;
    while i < len
        invariant
            start <= i <= len == chars@.len(),
            start < len,
            d == chars@.skip(start as int),
            d == unsigned_digits(s@),
            chars@ == s@,
            all_digits(d.take(i - start)),
            value == digits_value(d.take(i - start)),
            value <= max,
        decreases len - i,
    {
        let c = chars[i];
        proof {
            lemma_digits_value_take(d, i - start);
        }
        if !('0' <= c && c <= '9') {
            assert(d[i - start] == c);
            assert(!all_digits(d));
            return None;
        }
        let digit = (c as u32 - '0' as u32) as u64;
        assert(digit == digit_value(d[i - start]));
        if digit > max || value > (max - digit) / 10 {
            proof {
                assert(value * 10 + digit > max) by (nonlinear_arith)
                    requires
                        digit > max || value > (max - digit) / 10,
                ;
                if all_digits(d) {
                    lemma_digits_value_monotonic(d, i + 1 - start);
                }
            }
            return None;
        }
        proof {
            assert(value * 10 + digit <= max) by (nonlinear_arith)
                requires
                    value <= (max - digit) / 10,
                    digit <= max,
            ;
            assert(all_digits(d.take(i + 1 - start))) by {
                assert forall|j: int| 0 <= j < i + 1 - start implies is_digit(
                    #[trigger] d.take(i + 1 - start)[j],
                ) by {
                    if j < i - start {
                        assert(d.take(i + 1 - start)[j] == d.take(i - start)[j]);
                    }
                }
            }
        }
        value = value * 10 + digit;
        i = i + 1;
    }
    assert(d.take(len - start) =~= d);
    Some(value)
}

/// What a number's decimal notation holds, digits alone.
pub proof fn lemma_decimal_digits(n: nat)
    ensures
        decimal_spec(n).len() > 0,
        decimal_spec(n)[0] != '+',
        all_digits(decimal_spec(n)),
        digits_value(decimal_spec(n)) == n,
    decreases n,
{
    let c = digit_char((n % 10) as int);
    assert(c as int == (n % 10) + 48);
    assert(digit_value(c) == n % 10);
    if n < 10 {
        assert(decimal_spec(n).drop_last() =~= Seq::<char>::empty());
        assert(digits_value(Seq::<char>::empty()) == 0);
    } else {
        lemma_decimal_digits(n / 10);
        let s = decimal_spec(n);
        assert(s.drop_last() =~= decimal_spec(n / 10));
        assert(s.last() == c);
        assert forall|i: int| 0 <= i < s.len() implies is_digit(#[trigger] s[i]) by {
            if i < s.len() - 1 {
                assert(s[i] == decimal_spec(n / 10)[i]);
            }
        }
    }
}

/// Reading back the decimal notation of a number gives the number, when it is at most `max`.
pub proof fn lemma_parse_decimal(n: nat, max: nat)
    requires
        n <= max,
    ensures
        parse_unsigned_spec(decimal_spec(n), max) == Some(n),
{
    lemma_decimal_digits(n);
}

} // verus!

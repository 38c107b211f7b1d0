//! Text helpers over the characters of names: splitting at separators, matching
//! substrings, and decimal and hexadecimal rendering of integers.
use vstd::prelude::*;
use vstd::string::StringExecFns;

verus! {

/// Appends the character `c` to `s`.
#[verifier::external_body]
pub(crate) fn push_char(s: &mut String, c: char)
    ensures
        final(s)@ == old(s)@.push(c),
{
    s.push(c);
}

/// The characters of `s`, in order.
pub fn chars_of(s: &str) -> (r: Vec<char>)
    ensures
        r@ == s@,
{
    let mut out: Vec<char> = Vec::new();
    for c in it: s.chars()
        invariant
            out@ == it.seq().take(it.index()),
    {
        out.push(c);
    }
    out
}

/// Appends the characters of `chars` to `s`.
pub fn push_chars(s: &mut String, chars: &Vec<char>)
    ensures
        final(s)@ == old(s)@ + chars@,
{
    let mut i: usize = 0;
    while i < chars.len()
        invariant
            i <= chars@.len(),
            s@ == old(s)@ + chars@.take(i as int),
        decreases chars@.len() - i,
    {
        push_char(s, chars[i]);
        assert(chars@.take(i + 1) =~= chars@.take(i as int).push(chars@[i as int]));
        i += 1;
    }
    assert(chars@.take(chars@.len() as int) =~= chars@);
}

/// A `String` holding the characters of `chars`.
pub fn string_from_chars(chars: &Vec<char>) -> (r: String)
    ensures
        r@ == chars@,
{
    let mut s = String::new();
    push_chars(&mut s, chars);
    assert(Seq::<char>::empty() + chars@ =~= chars@);
    s
}

/// Index of the last occurrence of `c` in `s`.
pub open spec fn last_index_of(s: Seq<char>, c: char) -> Option<int>
    decreases s.len(),
{
    if s.len() == 0 {
        None
    } else if s.last() == c {
        Some(s.len() - 1)
    } else {
        last_index_of(s.drop_last(), c)
    }
}

/// `last_index_of` finds an occurrence with none after it, or reports that there is none.
pub proof fn lemma_last_index_of(s: Seq<char>, c: char)
    ensures
        last_index_of(s, c) is Some ==> {
            let i = last_index_of(s, c)->0;
            0 <= i < s.len() && s[i] == c && forall|j: int| i < j < s.len() ==> s[j] != c
        },
        last_index_of(s, c) is None ==> forall|j: int| 0 <= j < s.len() ==> s[j] != c,
    decreases s.len(),
{
    if s.len() > 0 && s.last() != c {
        let shorter = s.drop_last();
        lemma_last_index_of(shorter, c);
        assert forall|j: int| 0 <= j < shorter.len() implies shorter[j] == s[j] by {}
    }
}

/// Index of the last `c` in `chars`.
pub fn last_index(chars: &Vec<char>, c: char) -> (r: Option<usize>)
    ensures
        r is Some ==> last_index_of(chars@, c) == Some(r->0 as int),
        r is None ==> last_index_of(chars@, c) is None,
{
    let mut i: usize = chars.len();
    assert(chars@.take(i as int) =~= chars@);
    while i > 0
        invariant
            i <= chars@.len(),
            last_index_of(chars@, c) == last_index_of(chars@.take(i as int), c),
        decreases i,
    {
        let ghost prefix = chars@.take(i as int);
        if chars[i - 1] == c {
            return Some(i - 1);
        }
        assert(prefix.drop_last() =~= chars@.take(i - 1));
        i -= 1;
    }
    None
}

/// The characters `start..end` of `chars`.
pub fn sub_chars(chars: &Vec<char>, start: usize, end: usize) -> (r: Vec<char>)
    requires
        start <= end <= chars@.len(),
    ensures
        r@ == chars@.subrange(start as int, end as int),
{
    let mut out: Vec<char> = Vec::new();
    let mut i = start;
    while i < end
        invariant
            start <= i <= end <= chars@.len(),
            out@ == chars@.subrange(start as int, i as int),
        decreases end - i,
    {
        out.push(chars[i]);
        assert(chars@.subrange(start as int, i + 1) =~= chars@.subrange(start as int, i as int).push(
            chars@[i as int],
        ));
        i += 1;
    }
    out
}

/// `c` is one of the ASCII digits `0`..`9`.
pub open spec fn is_ascii_digit(c: char) -> bool {
    '0' <= c && c <= '9'
}

/// Every character of `s` is an ASCII digit (vacuously so for the empty sequence).
pub open spec fn all_ascii_digits(s: Seq<char>) -> bool {
    forall|i: int| 0 <= i < s.len() ==> is_ascii_digit(#[trigger] s[i])
}

fn all_digits(chars: &Vec<char>) -> (r: bool)
    ensures
        r == all_ascii_digits(chars@),
{
    let mut i: usize = 0;
    while i < chars.len()
        invariant
            i <= chars@.len(),
            forall|j: int| 0 <= j < i ==> is_ascii_digit(#[trigger] chars@[j]),
        decreases chars@.len() - i,
    {
        if !(chars[i] >= '0' && chars[i] <= '9') {
            return false;
        }
        i += 1;
    }
    true
}

/// One dot-separated segment with a trailing generic arity (a backtick followed only by
/// digits, possibly none) removed.
pub open spec fn strip_segment_arity(segment: Seq<char>) -> Seq<char> {
    match last_index_of(segment, '`') {
        Some(i) => if all_ascii_digits(segment.skip(i + 1)) {
            segment.take(i)
        } else {
            segment
        },
        None => segment,
    }
}

/// `name` with the generic arity of every dot-separated segment removed:
/// ``System.Collections.Generic.List`1`` becomes `System.Collections.Generic.List`.
pub open spec fn spec_strip_generic_arity(name: Seq<char>) -> Seq<char>
    decreases name.len(),
{
    match last_index_of(name, '.') {
        Some(i) => if 0 <= i < name.len() {
            spec_strip_generic_arity(name.take(i)) + seq!['.'] + strip_segment_arity(name.skip(i + 1))
        } else {
            name
        },
        None => strip_segment_arity(name),
    }
}

fn strip_segment(segment: &Vec<char>) -> (r: Vec<char>)
    ensures
        r@ == strip_segment_arity(segment@),
{
    proof {
        lemma_last_index_of(segment@, '`');
    }
    match last_index(segment, '`') {
        Some(i) => {
            let len = segment.len();
            assert(i < len);
            let arity = sub_chars(segment, i + 1, len);
            assert(arity@ =~= segment@.skip(i + 1));
            if all_digits(&arity) {
                let prefix = sub_chars(segment, 0, i);
                assert(prefix@ =~= segment@.take(i as int));
                prefix
            } else {
                sub_chars(segment, 0, segment.len())
            }
        },
        None => sub_chars(segment, 0, segment.len()),
    }
}

fn strip_chars(name: &Vec<char>) -> (r: Vec<char>)
    ensures
        r@ == spec_strip_generic_arity(name@),
    decreases name@.len(),
{
    proof {
        lemma_last_index_of(name@, '.');
    }
    match last_index(name, '.') {
        Some(i) => {
            let len = name.len();
            assert(i < len);
            let prefix = sub_chars(name, 0, i);
            let segment = sub_chars(name, i + 1, len);
            assert(prefix@ =~= name@.take(i as int));
            assert(segment@ =~= name@.skip(i + 1));
            let mut out = strip_chars(&prefix);
            out.push('.');
            let stripped = strip_segment(&segment);
            let mut k: usize = 0;
            let ghost base = out@;
            while k < stripped.len()
                invariant
                    k <= stripped@.len(),
                    out@ == base + stripped@.take(k as int),
                decreases stripped@.len() - k,
            {
                out.push(stripped[k]);
                assert(stripped@.take(k + 1) =~= stripped@.take(k as int).push(stripped@[k as int]));
                k += 1;
            }
            assert(stripped@.take(stripped@.len() as int) =~= stripped@);
            out
        },
        None => strip_segment(name),
    }
}

/// Removes the generic arity suffix from every dot-separated segment of `name`.
pub fn strip_generic_arity(name: &str) -> (r: String)
    ensures
        r@ == spec_strip_generic_arity(name@),
{
    let chars = chars_of(name);
    let stripped = strip_chars(&chars);
    string_from_chars(&stripped)
}

/// An optional `usize` seen as an optional natural number.
pub open spec fn widen_option(r: Option<usize>) -> Option<nat> {
    match r {
        Some(v) => Some(v as nat),
        None => None,
    }
}

/// Numeric value of a sequence of ASCII digits.
pub open spec fn digits_value(digits: Seq<char>) -> nat
    decreases digits.len(),
{
    if digits.len() == 0 {
        0
    } else {
        digits_value(digits.drop_last()) * 10 + (digits.last() as nat - '0' as nat) as nat
    }
}

/// What parsing `s` as a `usize` gives: an optional `+`, then one or more digits whose
/// value fits in `usize`.
pub open spec fn spec_parse_usize(s: Seq<char>) -> Option<nat> {
    let digits = if s.len() > 0 && s[0] == '+' {
        s.skip(1)
    } else {
        s
    };
    if digits.len() == 0 || !all_ascii_digits(digits) || digits_value(digits) > usize::MAX {
        None
    } else {
        Some(digits_value(digits))
    }
}

/// The value of a prefix never exceeds the value of the whole digit sequence.
proof fn lemma_digits_value_prefix(digits: Seq<char>, k: int)
    requires
        0 <= k <= digits.len(),
        all_ascii_digits(digits),
    ensures
        digits_value(digits.take(k)) <= digits_value(digits),
    decreases digits.len(),
{
    if k < digits.len() {
        let shorter = digits.drop_last();
        assert(all_ascii_digits(shorter)) by {
            assert forall|i: int| 0 <= i < shorter.len() implies is_ascii_digit(#[trigger] shorter[i]) by {
                assert(shorter[i] == digits[i]);
            }
        }
        lemma_digits_value_prefix(shorter, k);
        assert(shorter.take(k) =~= digits.take(k));
    } else {
        assert(digits.take(k) =~= digits);
    }
}

/// Parses `chars` as a `usize`, accepting one leading `+`.
fn parse_usize(chars: &Vec<char>) -> (r: Option<usize>)
    ensures
        widen_option(r) == spec_parse_usize(chars@),
{
    let start: usize = if chars.len() > 0 && chars[0] == '+' {
        1
    } else {
        0
    };
    let ghost digits = if chars@.len() > 0 && chars@[0] == '+' {
        chars@.skip(1)
    } else {
        chars@
    };
    assert(digits =~= chars@.skip(start as int));
    if start == chars.len() {
        return None;
    }
    let mut value: usize = 0;
    let mut i = start;
    while i < chars.len()
        invariant
            start <= i <= chars@.len(),
            digits == (if chars@.len() > 0 && chars@[0] == '+' {
                chars@.skip(1)
            } else {
                chars@
            }),
            digits =~= chars@.skip(start as int),
            all_ascii_digits(digits.take(i - start)),
            value as nat == digits_value(digits.take(i - start)),
        decreases chars@.len() - i,
    {
        let c = chars[i];
        let ghost next = digits.take(i + 1 - start);
        assert(next.drop_last() =~= digits.take(i - start));
        assert(next.last() == c);
        if !(c >= '0' && c <= '9') {
            assert(!is_ascii_digit(digits[i - start]));
            return None;
        }
        assert(all_ascii_digits(next)) by {
            assert forall|j: int| 0 <= j < next.len() implies is_ascii_digit(#[trigger] next[j]) by {
                if j < next.len() - 1 {
                    assert(next[j] == digits.take(i - start)[j]);
                }
            }
        }
        let digit = (c as u32 - '0' as u32) as usize;
        match value.checked_mul(10) {
            None => {
                proof {
                    if all_ascii_digits(digits) {
                        lemma_digits_value_prefix(digits, i + 1 - start);
                    }
                }
                return None;
            },
            Some(scaled) => match scaled.checked_add(digit) {
                None => {
                    proof {
                        if all_ascii_digits(digits) {
                            lemma_digits_value_prefix(digits, i + 1 - start);
                        }
                    }
                    return None;
                },
                Some(v) => {
                    value = v;
                },
            },
        }
        i += 1;
    }
    assert(digits.take(i - start) =~= digits);
    Some(value)
}

/// The generic arity of a type name: the number after its last backtick, if it parses.
pub open spec fn spec_generic_arity(name: Seq<char>) -> Option<nat> {
    match last_index_of(name, '`') {
        Some(i) => spec_parse_usize(name.skip(i + 1)),
        None => None,
    }
}

/// The number that follows the last backtick of `name`, when it parses as a `usize`.
pub fn generic_arity(name: &str) -> (r: Option<usize>)
    ensures
        widen_option(r) == spec_generic_arity(name@),
{
    let chars = chars_of(name);
    proof {
        lemma_last_index_of(chars@, '`');
    }
    match last_index(&chars, '`') {
        None => None,
        Some(i) => {
            let len = chars.len();
            assert(i < len);
            let arity = sub_chars(&chars, i + 1, len);
            assert(arity@ =~= chars@.skip(i + 1));
            parse_usize(&arity)
        },
    }
}

/// The last dot-separated segment of `name`.
pub open spec fn spec_shorten_declaration_reference(name: Seq<char>) -> Seq<char> {
    match last_index_of(name, '.') {
        Some(i) => name.skip(i + 1),
        None => name,
    }
}

/// The last dot-separated segment of `name` (the whole name when it has no dot).
pub fn shorten_declaration_reference(name: &str) -> (r: String)
    ensures
        r@ == spec_shorten_declaration_reference(name@),
{
    let chars = chars_of(name);
    proof {
        lemma_last_index_of(chars@, '.');
    }
    match last_index(&chars, '.') {
        None => string_from_chars(&chars),
        Some(i) => {
            let len = chars.len();
            assert(i < len);
            let tail = sub_chars(&chars, i + 1, len);
            assert(tail@ =~= chars@.skip(i + 1));
            string_from_chars(&tail)
        },
    }
}

/// `needle` occurs in `haystack`.
pub open spec fn contains_seq(haystack: Seq<char>, needle: Seq<char>) -> bool {
    exists|i: int| 0 <= i && i + needle.len() <= haystack.len() && #[trigger] haystack.subrange(i, i + needle.len()) == needle
}

/// Whether `needle` occurs in `haystack`.
pub fn contains_str(haystack: &str, needle: &str) -> (r: bool)
    ensures
        r == contains_seq(haystack@, needle@),
{
    let h = chars_of(haystack);
    let n = chars_of(needle);
    if n.len() > h.len() {
        return false;
    }
    let mut i: usize = 0;
    assert(h@.len() == h.len());
    while i <= h.len() - n.len()
        invariant
            h@ == haystack@,
            n@ == needle@,
            h@.len() <= usize::MAX,
            n@.len() <= h@.len(),
            i <= h@.len() - n@.len() + 1,
            forall|j: int| 0 <= j < i ==> #[trigger] h@.subrange(j, j + n@.len()) != n@,
        decreases h@.len() - i,
    {
        let mut k: usize = 0;
        let mut same = true;
        while k < n.len()
            invariant
                k <= n@.len(),
                i + n@.len() <= h@.len(),
                h@.len() <= usize::MAX,
                same == forall|m: int| 0 <= m < k ==> h@[i + m] == n@[m],
            decreases n@.len() - k,
        {
            if h[i + k] != n[k] {
                same = false;
            }
            k += 1;
        }
        if same {
            assert(h@.subrange(i as int, i + n@.len()) =~= n@);
            assert(contains_seq(haystack@, needle@));
            return true;
        }
        assert(h@.subrange(i as int, i + n@.len()) != n@) by {
            let m = choose|m: int| 0 <= m < n@.len() && h@[i + m] != n@[m];
            assert(h@.subrange(i as int, i + n@.len())[m] != n@[m]);
        }
        i += 1;
    }
    false
}

/// The digit character for `d` (below 16), lower- or upper-case.
pub open spec fn digit_char(d: nat, upper: bool) -> char {
    if d < 10 {
        (48 + d) as char
    } else if upper {
        (55 + d) as char
    } else {
        (87 + d) as char
    }
}

/// Decimal digits of `n`, most significant first, without leading zeros.
pub open spec fn decimal(n: nat) -> Seq<char>
    decreases n,
{
    if n < 10 {
        seq![digit_char(n, false)]
    } else {
        decimal(n / 10).push(digit_char(n % 10, false))
    }
}

/// Hexadecimal digits of `n`, most significant first, without leading zeros.
pub open spec fn hexadecimal(n: nat, upper: bool) -> Seq<char>
    decreases n,
{
    if n < 16 {
        seq![digit_char(n, upper)]
    } else {
        hexadecimal(n / 16, upper).push(digit_char(n % 16, upper))
    }
}

/// Decimal rendering of a signed integer, with a leading `-` when negative.
pub open spec fn signed_decimal(v: int) -> Seq<char> {
    if v < 0 {
        seq!['-'] + decimal((-v) as nat)
    } else {
        decimal(v as nat)
    }
}

/// `s` left-padded with `0` to at least `width` characters.
pub open spec fn zero_padded(s: Seq<char>, width: nat) -> Seq<char> {
    if s.len() >= width {
        s
    } else {
        Seq::new((width - s.len()) as nat, |i: int| '0') + s
    }
}

fn digit(d: u64, upper: bool) -> (c: char)
    requires
        d < 16,
    ensures
        c == digit_char(d as nat, upper),
{
    if d < 10 {
        ((48 + d) as u8) as char
    } else if upper {
        ((55 + d) as u8) as char
    } else {
        ((87 + d) as u8) as char
    }
}

/// Appends the decimal digits of `n` to `s`.
pub fn push_decimal(s: &mut String, n: u64)
    ensures
        final(s)@ == old(s)@ + decimal(n as nat),
    decreases n,
{
    if n >= 10 {
        push_decimal(s, n / 10);
    }
    push_char(s, digit(n % 10, false));
    proof {
        if n >= 10 {
            assert(old(s)@ + decimal(n as nat) =~= old(s)@ + decimal((n / 10) as nat) + seq![
                digit_char((n % 10) as nat, false),
            ]);
        } else {
            assert(old(s)@ + decimal(n as nat) =~= old(s)@.push(digit_char((n % 10) as nat, false)));
        }
    }
}

/// Appends the hexadecimal digits of `n` to `s`.
pub fn push_hex(s: &mut String, n: u64, upper: bool)
    ensures
        final(s)@ == old(s)@ + hexadecimal(n as nat, upper),
    decreases n,
{
    if n >= 16 {
        push_hex(s, n / 16, upper);
    }
    push_char(s, digit(n % 16, upper));
    proof {
        if n >= 16 {
            assert(old(s)@ + hexadecimal(n as nat, upper) =~= old(s)@ + hexadecimal((n / 16) as nat, upper)
                + seq![digit_char((n % 16) as nat, upper)]);
        } else {
            assert(old(s)@ + hexadecimal(n as nat, upper) =~= old(s)@.push(
                digit_char((n % 16) as nat, upper),
            ));
        }
    }
}

/// Appends the decimal rendering of the signed `v` to `s`.
pub fn push_signed_decimal(s: &mut String, v: i64)
    ensures
        final(s)@ == old(s)@ + signed_decimal(v as int),
{
    if v < 0 {
        push_char(s, '-');
        let magnitude: u64 = if v == i64::MIN {
            0x8000_0000_0000_0000
        } else {
            (-v) as u64
        };
        push_decimal(s, magnitude);
        assert(old(s)@ + signed_decimal(v as int) =~= old(s)@.push('-') + decimal((-v) as nat));
    } else {
        push_decimal(s, v as u64);
    }
}

/// Appends the upper-case hexadecimal digits of `n`, left-padded with zeros to `width`.
pub fn push_hex_padded(s: &mut String, n: u64, width: usize)
    ensures
        final(s)@ == old(s)@ + zero_padded(hexadecimal(n as nat, true), width as nat),
{
    let mut digits = String::new();
    push_hex(&mut digits, n, true);
    let text = chars_of(digits.as_str());
    assert(text@ =~= hexadecimal(n as nat, true));
    let mut pad: usize = 0;
    let missing: usize = if text.len() < width {
        width - text.len()
    } else {
        0
    };
    while pad < missing
        invariant
            pad <= missing,
            s@ == old(s)@ + Seq::new(pad as nat, |i: int| '0'),
        decreases missing - pad,
    {
        push_char(s, '0');
        assert(Seq::new((pad + 1) as nat, |i: int| '0') =~= Seq::new(pad as nat, |i: int| '0').push('0'));
        pad += 1;
    }
    push_chars(s, &text);
    assert(old(s)@ + zero_padded(hexadecimal(n as nat, true), width as nat) =~= old(s)@ + Seq::new(
        missing as nat,
        |i: int| '0',
    ) + text@);
}

/// Whether the characters of `a` and `b` are the same.
pub fn str_eq(a: &str, b: &str) -> (r: bool)
    ensures
        r == (a@ == b@),
{
    let x = chars_of(a);
    let y = chars_of(b);
    if x.len() != y.len() {
        return false;
    }
    let mut i: usize = 0;
    while i < x.len()
        invariant
            x@ == a@,
            y@ == b@,
            x@.len() == y@.len(),
            i <= x@.len(),
            forall|j: int| 0 <= j < i ==> x@[j] == y@[j],
        decreases x@.len() - i,
    {
        if x[i] != y[i] {
            assert(x@[i as int] != y@[i as int]);
            return false;
        }
        i += 1;
    }
    assert(x@ =~= y@);
    true
}

/// The short C# keyword that methods.json uses for a built-in type, or the name itself.
pub open spec fn spec_method_json_alias(name: Seq<char>) -> Seq<char> {
    if name == "System.Int32"@ {
        "int"@
    } else if name == "System.UInt32"@ {
        "uint"@
    } else if name == "System.Int16"@ {
        "short"@
    } else if name == "System.UInt16"@ {
        "ushort"@
    } else if name == "System.Int64"@ {
        "long"@
    } else if name == "System.UInt64"@ {
        "ulong"@
    } else if name == "System.Byte"@ {
        "byte"@
    } else if name == "System.SByte"@ {
        "sbyte"@
    } else if name == "System.Boolean"@ {
        "bool"@
    } else if name == "System.Single"@ {
        "float"@
    } else if name == "System.Double"@ {
        "double"@
    } else if name == "System.String"@ {
        "string"@
    } else if name == "System.Char"@ {
        "char"@
    } else if name == "System.Object"@ {
        "object"@
    } else if name == "System.Void"@ {
        "void"@
    } else if name == "System.Decimal"@ {
        "decimal"@
    } else if name == "System.DateTime"@ {
        "DateTime"@
    } else {
        name
    }
}

/// The methods.json spelling of a type name: C# keywords for the built-in types.
pub fn method_json_alias(name: &str) -> (r: &str)
    ensures
        r@ == spec_method_json_alias(name@),
{
    if str_eq(name, "System.Int32") {
        "int"
    } else if str_eq(name, "System.UInt32") {
        "uint"
    } else if str_eq(name, "System.Int16") {
        "short"
    } else if str_eq(name, "System.UInt16") {
        "ushort"
    } else if str_eq(name, "System.Int64") {
        "long"
    } else if str_eq(name, "System.UInt64") {
        "ulong"
    } else if str_eq(name, "System.Byte") {
        "byte"
    } else if str_eq(name, "System.SByte") {
        "sbyte"
    } else if str_eq(name, "System.Boolean") {
        "bool"
    } else if str_eq(name, "System.Single") {
        "float"
    } else if str_eq(name, "System.Double") {
        "double"
    } else if str_eq(name, "System.String") {
        "string"
    } else if str_eq(name, "System.Char") {
        "char"
    } else if str_eq(name, "System.Object") {
        "object"
    } else if str_eq(name, "System.Void") {
        "void"
    } else if str_eq(name, "System.Decimal") {
        "decimal"
    } else if str_eq(name, "System.DateTime") {
        "DateTime"
    } else {
        name
    }
}

/// `parts` joined with `sep` between neighbours.
pub open spec fn join_with(parts: Seq<Seq<char>>, sep: Seq<char>) -> Seq<char>
    decreases parts.len(),
{
    if parts.len() == 0 {
        Seq::empty()
    } else if parts.len() == 1 {
        parts[0]
    } else {
        join_with(parts.drop_last(), sep) + sep + parts.last()
    }
}

/// The strings of `parts` joined with `sep` between neighbours.
pub fn join(parts: &Vec<String>, sep: &str) -> (r: String)
    ensures
        r@ == join_with(parts.deep_view(), sep@),
{
    let mut out = String::new();
    let ghost views = parts.deep_view();
    let mut i: usize = 0;
    while i < parts.len()
        invariant
            i <= parts@.len(),
            views == parts.deep_view(),
            views.len() == parts@.len(),
            out@ == join_with(views.take(i as int), sep@),
        decreases parts@.len() - i,
    {
        assert(views[i as int] == parts@[i as int]@);
        assert(views.take(i + 1).drop_last() =~= views.take(i as int));
        if i != 0 {
            out.append(sep);
        }
        out.append(parts[i].as_str());
        proof {
            if i == 0 {
                assert(Seq::<char>::empty() + views[0] =~= views[0]);
            }
        }
        i += 1;
    }
    assert(views.take(parts@.len() as int) =~= views);
    out
}

/// Placeholder names for the type parameters of a generic type of arity `arity`.
pub open spec fn spec_fallback_generic_parameter_names(owner_name: Seq<char>, arity: nat) -> Seq<Seq<char>> {
    if arity == 1 {
        seq!["T"@]
    } else if arity == 2 && (contains_seq(owner_name, "Dictionary"@) || contains_seq(owner_name, "KeyValuePair"@)) {
        seq!["TKey"@, "TValue"@]
    } else {
        Seq::new(arity, |i: int| seq!['T'] + decimal((i + 1) as nat))
    }
}

/// `T` for one parameter, `TKey`/`TValue` for dictionaries and key/value pairs, else `T1`..`Tn`.
pub fn fallback_generic_parameter_names(owner_name: &str, arity: usize) -> (r: Vec<String>)
    ensures
        r.deep_view() == spec_fallback_generic_parameter_names(owner_name@, arity as nat),
{
    if arity == 1 {
        let names = vec!["T".to_owned()];
        assert(names.deep_view() =~= seq!["T"@]);
        return names;
    }
    if arity == 2 && (contains_str(owner_name, "Dictionary") || contains_str(owner_name, "KeyValuePair")) {
        let names = vec!["TKey".to_owned(), "TValue".to_owned()];
        assert(names.deep_view() =~= seq!["TKey"@, "TValue"@]);
        return names;
    }
    let mut names: Vec<String> = Vec::new();
    let mut index: usize = 0;
    while index < arity
        invariant
            index <= arity,
            names.deep_view() =~= Seq::new(index as nat, |i: int| seq!['T'] + decimal((i + 1) as nat)),
        decreases arity - index,
    {
        let mut name = String::new();
        push_char(&mut name, 'T');
        push_decimal(&mut name, (index as u64) + 1);
        assert(name@ =~= seq!['T'] + decimal((index + 1) as nat));
        let ghost before = names.deep_view();
        names.push(name);
        assert(names.deep_view() =~= before.push(seq!['T'] + decimal((index + 1) as nat)));
        index += 1;
    }
    names
}



proof fn lemma_alias_of_int32()
    ensures
        spec_method_json_alias("System.Int32"@) == "int"@,
{
    reveal_strlit("System.Int32");
}

proof fn lemma_alias_of_uint32()
    ensures
        spec_method_json_alias("System.UInt32"@) == "uint"@,
{
    reveal_strlit("System.UInt32");
    reveal_strlit("System.Int32");
    assert("System.UInt32"@.len() != "System.Int32"@.len());
}

proof fn lemma_alias_of_int16()
    ensures
        spec_method_json_alias("System.Int16"@) == "short"@,
{
    reveal_strlit("System.Int16");
    reveal_strlit("System.Int32");
    assert("System.Int16"@[10] != "System.Int32"@[10]);
    reveal_strlit("System.UInt32");
    assert("System.Int16"@.len() != "System.UInt32"@.len());
}

proof fn lemma_alias_of_uint16()
    ensures
        spec_method_json_alias("System.UInt16"@) == "ushort"@,
{
    reveal_strlit("System.UInt16");
    reveal_strlit("System.Int32");
    assert("System.UInt16"@.len() != "System.Int32"@.len());
    reveal_strlit("System.UInt32");
    assert("System.UInt16"@[11] != "System.UInt32"@[11]);
    reveal_strlit("System.Int16");
    assert("System.UInt16"@.len() != "System.Int16"@.len());
}

proof fn lemma_alias_of_int64()
    ensures
        spec_method_json_alias("System.Int64"@) == "long"@,
{
    reveal_strlit("System.Int64");
    reveal_strlit("System.Int32");
    assert("System.Int64"@[10] != "System.Int32"@[10]);
    reveal_strlit("System.UInt32");
    assert("System.Int64"@.len() != "System.UInt32"@.len());
    reveal_strlit("System.Int16");
    assert("System.Int64"@[10] != "System.Int16"@[10]);
    reveal_strlit("System.UInt16");
    assert("System.Int64"@.len() != "System.UInt16"@.len());
}

proof fn lemma_alias_of_uint64()
    ensures
        spec_method_json_alias("System.UInt64"@) == "ulong"@,
{
    reveal_strlit("System.UInt64");
    reveal_strlit("System.Int32");
    assert("System.UInt64"@.len() != "System.Int32"@.len());
    reveal_strlit("System.UInt32");
    assert("System.UInt64"@[11] != "System.UInt32"@[11]);
    reveal_strlit("System.Int16");
    assert("System.UInt64"@.len() != "System.Int16"@.len());
    reveal_strlit("System.UInt16");
    assert("System.UInt64"@[11] != "System.UInt16"@[11]);
    reveal_strlit("System.Int64");
    assert("System.UInt64"@.len() != "System.Int64"@.len());
}

proof fn lemma_alias_of_byte()
    ensures
        spec_method_json_alias("System.Byte"@) == "byte"@,
{
    reveal_strlit("System.Byte");
    reveal_strlit("System.Int32");
    assert("System.Byte"@.len() != "System.Int32"@.len());
    reveal_strlit("System.UInt32");
    assert("System.Byte"@.len() != "System.UInt32"@.len());
    reveal_strlit("System.Int16");
    assert("System.Byte"@.len() != "System.Int16"@.len());
    reveal_strlit("System.UInt16");
    assert("System.Byte"@.len() != "System.UInt16"@.len());
    reveal_strlit("System.Int64");
    assert("System.Byte"@.len() != "System.Int64"@.len());
    reveal_strlit("System.UInt64");
    assert("System.Byte"@.len() != "System.UInt64"@.len());
}

proof fn lemma_alias_of_sbyte()
    ensures
        spec_method_json_alias("System.SByte"@) == "sbyte"@,
{
    reveal_strlit("System.SByte");
    reveal_strlit("System.Int32");
    assert("System.SByte"@[7] != "System.Int32"@[7]);
    reveal_strlit("System.UInt32");
    assert("System.SByte"@.len() != "System.UInt32"@.len());
    reveal_strlit("System.Int16");
    assert("System.SByte"@[7] != "System.Int16"@[7]);
    reveal_strlit("System.UInt16");
    assert("System.SByte"@.len() != "System.UInt16"@.len());
    reveal_strlit("System.Int64");
    assert("System.SByte"@[7] != "System.Int64"@[7]);
    reveal_strlit("System.UInt64");
    assert("System.SByte"@.len() != "System.UInt64"@.len());
    reveal_strlit("System.Byte");
    assert("System.SByte"@.len() != "System.Byte"@.len());
}

proof fn lemma_alias_of_boolean()
    ensures
        spec_method_json_alias("System.Boolean"@) == "bool"@,
{
    reveal_strlit("System.Boolean");
    reveal_strlit("System.Int32");
    assert("System.Boolean"@.len() != "System.Int32"@.len());
    reveal_strlit("System.UInt32");
    assert("System.Boolean"@.len() != "System.UInt32"@.len());
    reveal_strlit("System.Int16");
    assert("System.Boolean"@.len() != "System.Int16"@.len());
    reveal_strlit("System.UInt16");
    assert("System.Boolean"@.len() != "System.UInt16"@.len());
    reveal_strlit("System.Int64");
    assert("System.Boolean"@.len() != "System.Int64"@.len());
    reveal_strlit("System.UInt64");
    assert("System.Boolean"@.len() != "System.UInt64"@.len());
    reveal_strlit("System.Byte");
    assert("System.Boolean"@.len() != "System.Byte"@.len());
    reveal_strlit("System.SByte");
    assert("System.Boolean"@.len() != "System.SByte"@.len());
}

proof fn lemma_alias_of_single()
    ensures
        spec_method_json_alias("System.Single"@) == "float"@,
{
    reveal_strlit("System.Single");
    reveal_strlit("System.Int32");
    assert("System.Single"@.len() != "System.Int32"@.len());
    reveal_strlit("System.UInt32");
    assert("System.Single"@[7] != "System.UInt32"@[7]);
    reveal_strlit("System.Int16");
    assert("System.Single"@.len() != "System.Int16"@.len());
    reveal_strlit("System.UInt16");
    assert("System.Single"@[7] != "System.UInt16"@[7]);
    reveal_strlit("System.Int64");
    assert("System.Single"@.len() != "System.Int64"@.len());
    reveal_strlit("System.UInt64");
    assert("System.Single"@[7] != "System.UInt64"@[7]);
    reveal_strlit("System.Byte");
    assert("System.Single"@.len() != "System.Byte"@.len());
    reveal_strlit("System.SByte");
    assert("System.Single"@.len() != "System.SByte"@.len());
    reveal_strlit("System.Boolean");
    assert("System.Single"@.len() != "System.Boolean"@.len());
}

proof fn lemma_alias_of_double()
    ensures
        spec_method_json_alias("System.Double"@) == "double"@,
{
    reveal_strlit("System.Double");
    reveal_strlit("System.Int32");
    assert("System.Double"@.len() != "System.Int32"@.len());
    reveal_strlit("System.UInt32");
    assert("System.Double"@[7] != "System.UInt32"@[7]);
    reveal_strlit("System.Int16");
    assert("System.Double"@.len() != "System.Int16"@.len());
    reveal_strlit("System.UInt16");
    assert("System.Double"@[7] != "System.UInt16"@[7]);
    reveal_strlit("System.Int64");
    assert("System.Double"@.len() != "System.Int64"@.len());
    reveal_strlit("System.UInt64");
    assert("System.Double"@[7] != "System.UInt64"@[7]);
    reveal_strlit("System.Byte");
    assert("System.Double"@.len() != "System.Byte"@.len());
    reveal_strlit("System.SByte");
    assert("System.Double"@.len() != "System.SByte"@.len());
    reveal_strlit("System.Boolean");
    assert("System.Double"@.len() != "System.Boolean"@.len());
    reveal_strlit("System.Single");
    assert("System.Double"@[7] != "System.Single"@[7]);
}

proof fn lemma_alias_of_string()
    ensures
        spec_method_json_alias("System.String"@) == "string"@,
{
    reveal_strlit("System.String");
    reveal_strlit("System.Int32");
    assert("System.String"@.len() != "System.Int32"@.len());
    reveal_strlit("System.UInt32");
    assert("System.String"@[7] != "System.UInt32"@[7]);
    reveal_strlit("System.Int16");
    assert("System.String"@.len() != "System.Int16"@.len());
    reveal_strlit("System.UInt16");
    assert("System.String"@[7] != "System.UInt16"@[7]);
    reveal_strlit("System.Int64");
    assert("System.String"@.len() != "System.Int64"@.len());
    reveal_strlit("System.UInt64");
    assert("System.String"@[7] != "System.UInt64"@[7]);
    reveal_strlit("System.Byte");
    assert("System.String"@.len() != "System.Byte"@.len());
    reveal_strlit("System.SByte");
    assert("System.String"@.len() != "System.SByte"@.len());
    reveal_strlit("System.Boolean");
    assert("System.String"@.len() != "System.Boolean"@.len());
    reveal_strlit("System.Single");
    assert("System.String"@[8] != "System.Single"@[8]);
    reveal_strlit("System.Double");
    assert("System.String"@[7] != "System.Double"@[7]);
}

proof fn lemma_alias_of_char()
    ensures
        spec_method_json_alias("System.Char"@) == "char"@,
{
    reveal_strlit("System.Char");
    reveal_strlit("System.Int32");
    assert("System.Char"@.len() != "System.Int32"@.len());
    reveal_strlit("System.UInt32");
    assert("System.Char"@.len() != "System.UInt32"@.len());
    reveal_strlit("System.Int16");
    assert("System.Char"@.len() != "System.Int16"@.len());
    reveal_strlit("System.UInt16");
    assert("System.Char"@.len() != "System.UInt16"@.len());
    reveal_strlit("System.Int64");
    assert("System.Char"@.len() != "System.Int64"@.len());
    reveal_strlit("System.UInt64");
    assert("System.Char"@.len() != "System.UInt64"@.len());
    reveal_strlit("System.Byte");
    assert("System.Char"@[7] != "System.Byte"@[7]);
    reveal_strlit("System.SByte");
    assert("System.Char"@.len() != "System.SByte"@.len());
    reveal_strlit("System.Boolean");
    assert("System.Char"@.len() != "System.Boolean"@.len());
    reveal_strlit("System.Single");
    assert("System.Char"@.len() != "System.Single"@.len());
    reveal_strlit("System.Double");
    assert("System.Char"@.len() != "System.Double"@.len());
    reveal_strlit("System.String");
    assert("System.Char"@.len() != "System.String"@.len());
}

proof fn lemma_alias_of_object()
    ensures
        spec_method_json_alias("System.Object"@) == "object"@,
{
    reveal_strlit("System.Object");
    reveal_strlit("System.Int32");
    assert("System.Object"@.len() != "System.Int32"@.len());
    reveal_strlit("System.UInt32");
    assert("System.Object"@[7] != "System.UInt32"@[7]);
    reveal_strlit("System.Int16");
    assert("System.Object"@.len() != "System.Int16"@.len());
    reveal_strlit("System.UInt16");
    assert("System.Object"@[7] != "System.UInt16"@[7]);
    reveal_strlit("System.Int64");
    assert("System.Object"@.len() != "System.Int64"@.len());
    reveal_strlit("System.UInt64");
    assert("System.Object"@[7] != "System.UInt64"@[7]);
    reveal_strlit("System.Byte");
    assert("System.Object"@.len() != "System.Byte"@.len());
    reveal_strlit("System.SByte");
    assert("System.Object"@.len() != "System.SByte"@.len());
    reveal_strlit("System.Boolean");
    assert("System.Object"@.len() != "System.Boolean"@.len());
    reveal_strlit("System.Single");
    assert("System.Object"@[7] != "System.Single"@[7]);
    reveal_strlit("System.Double");
    assert("System.Object"@[7] != "System.Double"@[7]);
    reveal_strlit("System.String");
    assert("System.Object"@[7] != "System.String"@[7]);
    reveal_strlit("System.Char");
    assert("System.Object"@.len() != "System.Char"@.len());
}

proof fn lemma_alias_of_void()
    ensures
        spec_method_json_alias("System.Void"@) == "void"@,
{
    reveal_strlit("System.Void");
    reveal_strlit("System.Int32");
    assert("System.Void"@.len() != "System.Int32"@.len());
    reveal_strlit("System.UInt32");
    assert("System.Void"@.len() != "System.UInt32"@.len());
    reveal_strlit("System.Int16");
    assert("System.Void"@.len() != "System.Int16"@.len());
    reveal_strlit("System.UInt16");
    assert("System.Void"@.len() != "System.UInt16"@.len());
    reveal_strlit("System.Int64");
    assert("System.Void"@.len() != "System.Int64"@.len());
    reveal_strlit("System.UInt64");
    assert("System.Void"@.len() != "System.UInt64"@.len());
    reveal_strlit("System.Byte");
    assert("System.Void"@[7] != "System.Byte"@[7]);
    reveal_strlit("System.SByte");
    assert("System.Void"@.len() != "System.SByte"@.len());
    reveal_strlit("System.Boolean");
    assert("System.Void"@.len() != "System.Boolean"@.len());
    reveal_strlit("System.Single");
    assert("System.Void"@.len() != "System.Single"@.len());
    reveal_strlit("System.Double");
    assert("System.Void"@.len() != "System.Double"@.len());
    reveal_strlit("System.String");
    assert("System.Void"@.len() != "System.String"@.len());
    reveal_strlit("System.Char");
    assert("System.Void"@[7] != "System.Char"@[7]);
    reveal_strlit("System.Object");
    assert("System.Void"@.len() != "System.Object"@.len());
}

proof fn lemma_alias_of_typedreference()
    ensures
        spec_method_json_alias("System.TypedReference"@) == "System.TypedReference"@,
{
    reveal_strlit("System.TypedReference");
    reveal_strlit("System.Int32");
    assert("System.TypedReference"@.len() != "System.Int32"@.len());
    reveal_strlit("System.UInt32");
    assert("System.TypedReference"@.len() != "System.UInt32"@.len());
    reveal_strlit("System.Int16");
    assert("System.TypedReference"@.len() != "System.Int16"@.len());
    reveal_strlit("System.UInt16");
    assert("System.TypedReference"@.len() != "System.UInt16"@.len());
    reveal_strlit("System.Int64");
    assert("System.TypedReference"@.len() != "System.Int64"@.len());
    reveal_strlit("System.UInt64");
    assert("System.TypedReference"@.len() != "System.UInt64"@.len());
    reveal_strlit("System.Byte");
    assert("System.TypedReference"@.len() != "System.Byte"@.len());
    reveal_strlit("System.SByte");
    assert("System.TypedReference"@.len() != "System.SByte"@.len());
    reveal_strlit("System.Boolean");
    assert("System.TypedReference"@.len() != "System.Boolean"@.len());
    reveal_strlit("System.Single");
    assert("System.TypedReference"@.len() != "System.Single"@.len());
    reveal_strlit("System.Double");
    assert("System.TypedReference"@.len() != "System.Double"@.len());
    reveal_strlit("System.String");
    assert("System.TypedReference"@.len() != "System.String"@.len());
    reveal_strlit("System.Char");
    assert("System.TypedReference"@.len() != "System.Char"@.len());
    reveal_strlit("System.Object");
    assert("System.TypedReference"@.len() != "System.Object"@.len());
    reveal_strlit("System.Void");
    assert("System.TypedReference"@.len() != "System.Void"@.len());
    reveal_strlit("System.Decimal");
    assert("System.TypedReference"@.len() != "System.Decimal"@.len());
    reveal_strlit("System.DateTime");
    assert("System.TypedReference"@.len() != "System.DateTime"@.len());
}

proof fn lemma_alias_of_intptr()
    ensures
        spec_method_json_alias("System.IntPtr"@) == "System.IntPtr"@,
{
    reveal_strlit("System.IntPtr");
    reveal_strlit("System.Int32");
    assert("System.IntPtr"@.len() != "System.Int32"@.len());
    reveal_strlit("System.UInt32");
    assert("System.IntPtr"@[7] != "System.UInt32"@[7]);
    reveal_strlit("System.Int16");
    assert("System.IntPtr"@.len() != "System.Int16"@.len());
    reveal_strlit("System.UInt16");
    assert("System.IntPtr"@[7] != "System.UInt16"@[7]);
    reveal_strlit("System.Int64");
    assert("System.IntPtr"@.len() != "System.Int64"@.len());
    reveal_strlit("System.UInt64");
    assert("System.IntPtr"@[7] != "System.UInt64"@[7]);
    reveal_strlit("System.Byte");
    assert("System.IntPtr"@.len() != "System.Byte"@.len());
    reveal_strlit("System.SByte");
    assert("System.IntPtr"@.len() != "System.SByte"@.len());
    reveal_strlit("System.Boolean");
    assert("System.IntPtr"@.len() != "System.Boolean"@.len());
    reveal_strlit("System.Single");
    assert("System.IntPtr"@[7] != "System.Single"@[7]);
    reveal_strlit("System.Double");
    assert("System.IntPtr"@[7] != "System.Double"@[7]);
    reveal_strlit("System.String");
    assert("System.IntPtr"@[7] != "System.String"@[7]);
    reveal_strlit("System.Char");
    assert("System.IntPtr"@.len() != "System.Char"@.len());
    reveal_strlit("System.Object");
    assert("System.IntPtr"@[7] != "System.Object"@[7]);
    reveal_strlit("System.Void");
    assert("System.IntPtr"@.len() != "System.Void"@.len());
    reveal_strlit("System.Decimal");
    assert("System.IntPtr"@.len() != "System.Decimal"@.len());
    reveal_strlit("System.DateTime");
    assert("System.IntPtr"@.len() != "System.DateTime"@.len());
}

proof fn lemma_alias_of_uintptr()
    ensures
        spec_method_json_alias("System.UIntPtr"@) == "System.UIntPtr"@,
{
    reveal_strlit("System.UIntPtr");
    reveal_strlit("System.Int32");
    assert("System.UIntPtr"@.len() != "System.Int32"@.len());
    reveal_strlit("System.UInt32");
    assert("System.UIntPtr"@.len() != "System.UInt32"@.len());
    reveal_strlit("System.Int16");
    assert("System.UIntPtr"@.len() != "System.Int16"@.len());
    reveal_strlit("System.UInt16");
    assert("System.UIntPtr"@.len() != "System.UInt16"@.len());
    reveal_strlit("System.Int64");
    assert("System.UIntPtr"@.len() != "System.Int64"@.len());
    reveal_strlit("System.UInt64");
    assert("System.UIntPtr"@.len() != "System.UInt64"@.len());
    reveal_strlit("System.Byte");
    assert("System.UIntPtr"@.len() != "System.Byte"@.len());
    reveal_strlit("System.SByte");
    assert("System.UIntPtr"@.len() != "System.SByte"@.len());
    reveal_strlit("System.Boolean");
    assert("System.UIntPtr"@[7] != "System.Boolean"@[7]);
    reveal_strlit("System.Single");
    assert("System.UIntPtr"@.len() != "System.Single"@.len());
    reveal_strlit("System.Double");
    assert("System.UIntPtr"@.len() != "System.Double"@.len());
    reveal_strlit("System.String");
    assert("System.UIntPtr"@.len() != "System.String"@.len());
    reveal_strlit("System.Char");
    assert("System.UIntPtr"@.len() != "System.Char"@.len());
    reveal_strlit("System.Object");
    assert("System.UIntPtr"@.len() != "System.Object"@.len());
    reveal_strlit("System.Void");
    assert("System.UIntPtr"@.len() != "System.Void"@.len());
    reveal_strlit("System.Decimal");
    assert("System.UIntPtr"@[7] != "System.Decimal"@[7]);
    reveal_strlit("System.DateTime");
    assert("System.UIntPtr"@.len() != "System.DateTime"@.len());
}

/// The methods.json spelling of each built-in type: its C# keyword; the built-in types
/// without a keyword keep their names.
pub proof fn lemma_builtin_json_aliases()
    ensures
        spec_method_json_alias("System.Int32"@) == "int"@,
        spec_method_json_alias("System.UInt32"@) == "uint"@,
        spec_method_json_alias("System.Int16"@) == "short"@,
        spec_method_json_alias("System.UInt16"@) == "ushort"@,
        spec_method_json_alias("System.Int64"@) == "long"@,
        spec_method_json_alias("System.UInt64"@) == "ulong"@,
        spec_method_json_alias("System.Byte"@) == "byte"@,
        spec_method_json_alias("System.SByte"@) == "sbyte"@,
        spec_method_json_alias("System.Boolean"@) == "bool"@,
        spec_method_json_alias("System.Single"@) == "float"@,
        spec_method_json_alias("System.Double"@) == "double"@,
        spec_method_json_alias("System.String"@) == "string"@,
        spec_method_json_alias("System.Char"@) == "char"@,
        spec_method_json_alias("System.Object"@) == "object"@,
        spec_method_json_alias("System.Void"@) == "void"@,
        spec_method_json_alias("System.TypedReference"@) == "System.TypedReference"@,
        spec_method_json_alias("System.IntPtr"@) == "System.IntPtr"@,
        spec_method_json_alias("System.UIntPtr"@) == "System.UIntPtr"@,
{
    lemma_alias_of_int32();
    lemma_alias_of_uint32();
    lemma_alias_of_int16();
    lemma_alias_of_uint16();
    lemma_alias_of_int64();
    lemma_alias_of_uint64();
    lemma_alias_of_byte();
    lemma_alias_of_sbyte();
    lemma_alias_of_boolean();
    lemma_alias_of_single();
    lemma_alias_of_double();
    lemma_alias_of_string();
    lemma_alias_of_char();
    lemma_alias_of_object();
    lemma_alias_of_void();
    lemma_alias_of_typedreference();
    lemma_alias_of_intptr();
    lemma_alias_of_uintptr();
}
} // verus!

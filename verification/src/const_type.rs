//! Constant values of tokens and the types of the language.

use vstd::prelude::*;
use crate::text::{int_text, escape_quotes, push_i64, push_escaped_quotes, str_chars, str_eq, dec_digits, digit_char};

verus! {

/// The types of the language.
#[derive(Clone, Copy, Debug, PartialEq, Eq, Structural)]
pub enum VarType {
    Int,
    Float,
    String,
}

/// How a type is written: `int`, `float` or `string`.
pub open spec fn var_type_name(v: VarType) -> Seq<char> {
    match v {
        VarType::Int => "int"@,
        VarType::Float => "float"@,
        VarType::String => "string"@,
    }
}

impl VarType {
    /// How this type is written: `int`, `float` or `string`.
    pub fn name(&self) -> (r: &'static str)
        ensures
            r@ == var_type_name(*self),
    {
        match self {
            VarType::Int => "int",
            VarType::Float => "float",
            VarType::String => "string",
        }
    }

    /// How `{:?}` writes this type: the name of its variant.
    pub fn name_debug(&self) -> (r: &'static str)
        ensures
            r@ == var_type_debug(*self),
    {
        match self {
            VarType::Int => "Int",
            VarType::Float => "Float",
            VarType::String => "String",
        }
    }
}

/// The value of a token: an integer, a floating-point constant (held as the
/// text with which it was written), a string, or a type keyword.
#[derive(Clone, Debug, PartialEq)]
pub enum ConstType {
    Int(i64),
    Float(String),
    String(String),
    VarType(VarType),
}

/// The mathematical view of a token value.
pub enum ConstValue {
    Int(i64),
    Float(Seq<char>),
    Str(Seq<char>),
    VarType(VarType),
}

impl View for ConstType {
    type V = ConstValue;

    open spec fn view(&self) -> ConstValue {
        match self {
            ConstType::Int(i) => ConstValue::Int(*i),
            ConstType::Float(f) => ConstValue::Float(f@),
            ConstType::String(s) => ConstValue::Str(s@),
            ConstType::VarType(v) => ConstValue::VarType(*v),
        }
    }
}

/// An ASCII decimal digit.
pub open spec fn is_digit(c: char) -> bool {
    '0' <= c <= '9'
}

/// Every character of `s[a..b]` is a decimal digit.
pub open spec fn digits_in(s: Seq<char>, a: int, b: int) -> bool {
    forall|i: int| a <= i < b ==> is_digit(#[trigger] s[i])
}

/// The number that a sequence of decimal digits denotes.
pub open spec fn digits_value(s: Seq<char>) -> nat
    decreases s.len(),
{
    if s.len() == 0 {
        0
    } else {
        digits_value(s.drop_last()) * 10 + ((s.last() as int - '0' as int) as nat)
    }
}

/// The result of reading `s` as an `i64` the way `str::parse::<i64>` does:
/// an optional `+` or `-`, then one or more decimal digits, whose value must
/// lie in the range of `i64`.
pub open spec fn spec_parse_i64(s: Seq<char>) -> Option<i64> {
    let neg = s.len() > 0 && s[0] == '-';
    let start: int = if s.len() > 0 && (s[0] == '-' || s[0] == '+') { 1 } else { 0 };
    let body = s.subrange(start, s.len() as int);
    if body.len() == 0 || !digits_in(body, 0, body.len() as int) {
        None
    } else {
        let v: int = if neg { -(digits_value(body) as int) } else { digits_value(body) as int };
        if i64::MIN <= v <= i64::MAX {
            Some(v as i64)
        } else {
            None
        }
    }
}

/// ASCII lowercase of a character; other characters are kept.
pub open spec fn ascii_lower(c: char) -> char {
    if 'A' <= c <= 'Z' {
        ((c as u32) + 32) as char
    } else {
        c
    }
}

/// `s` equals the lowercase word `w` when ASCII letters are lowercased.
pub open spec fn ascii_ieq(s: Seq<char>, w: Seq<char>) -> bool {
    s.len() == w.len() && forall|i: int| 0 <= i < s.len() ==> ascii_lower(#[trigger] s[i]) == w[i]
}

/// A mantissa: decimal digits with at most one point and at least one digit.
pub open spec fn is_mantissa(m: Seq<char>) -> bool {
    &&& forall|i: int| 0 <= i < m.len() ==> is_digit(#[trigger] m[i]) || m[i] == '.'
    &&& forall|i: int, j: int| 0 <= i < m.len() && 0 <= j < m.len() && m[i] == '.' && m[j] == '.' ==> i == j
    &&& exists|i: int| 0 <= i < m.len() && is_digit(#[trigger] m[i])
}

/// An exponent after the `e`: an optional sign and one or more digits.
pub open spec fn is_exponent(e: Seq<char>) -> bool {
    let start: int = if e.len() > 0 && (e[0] == '-' || e[0] == '+') { 1 } else { 0 };
    e.len() > start && digits_in(e, start, e.len() as int)
}

/// Is an exponent mark.
pub open spec fn is_e(c: char) -> bool {
    c == 'e' || c == 'E'
}

/// A decimal number: a mantissa, then optionally `e` or `E` and an exponent.
pub open spec fn is_number(b: Seq<char>) -> bool {
    ||| (forall|i: int| 0 <= i < b.len() ==> !is_e(#[trigger] b[i])) && is_mantissa(b)
    ||| exists|k: int| 0 <= k < b.len() && is_e(#[trigger] b[k])
            && (forall|i: int| 0 <= i < k ==> !is_e(#[trigger] b[i]))
            && is_mantissa(b.subrange(0, k)) && is_exponent(b.subrange(k + 1, b.len() as int))
}

/// The texts that `str::parse::<f64>` accepts, as its documentation gives
/// them: an optional sign, then `inf`, `infinity`, `nan` (in any case) or a
/// decimal number.
pub open spec fn is_f64_text(s: Seq<char>) -> bool {
    let start: int = if s.len() > 0 && (s[0] == '-' || s[0] == '+') { 1 } else { 0 };
    let b = s.subrange(start, s.len() as int);
    ascii_ieq(b, "inf"@) || ascii_ieq(b, "infinity"@) || ascii_ieq(b, "nan"@) || is_number(b)
}

/// The value that a token's text is given: an integer when it reads as an
/// `i64`, else a floating-point constant when it reads as an `f64`, else the
/// type named by a type keyword, else the text itself as a string.
pub open spec fn spec_const_from_str(s: Seq<char>) -> ConstValue {
    match spec_parse_i64(s) {
        Some(i) => ConstValue::Int(i),
        None => if is_f64_text(s) {
            ConstValue::Float(s)
        } else if s == "int"@ {
            ConstValue::VarType(VarType::Int)
        } else if s == "float"@ {
            ConstValue::VarType(VarType::Float)
        } else if s == "string"@ {
            ConstValue::VarType(VarType::String)
        } else {
            ConstValue::Str(s)
        },
    }
}

/// The type of a value.
pub open spec fn spec_value_type(v: ConstValue) -> VarType {
    match v {
        ConstValue::Int(_) => VarType::Int,
        ConstValue::Float(_) => VarType::Float,
        ConstValue::Str(_) => VarType::String,
        ConstValue::VarType(t) => t,
    }
}

/// The text of a value in generated output: integers in decimal,
/// floating-point constants as written, strings with their double quotes
/// escaped, type keywords by name.
pub open spec fn spec_value_text(v: ConstValue) -> Seq<char> {
    match v {
        ConstValue::Int(i) => int_text(i as int),
        ConstValue::Float(f) => f,
        ConstValue::Str(s) => escape_quotes(s),
        ConstValue::VarType(t) => var_type_name(t),
    }
}

/// The displayed text of a value: as [`spec_value_text`], but strings as they are.
pub open spec fn spec_value_display(v: ConstValue) -> Seq<char> {
    match v {
        ConstValue::Str(s) => s,
        _ => spec_value_text(v),
    }
}

proof fn lemma_digits_value_prefix(s: Seq<char>, k: int)
    requires
        0 <= k <= s.len(),
        digits_in(s, 0, s.len() as int),
    ensures
        digits_value(s.subrange(0, k)) <= digits_value(s),
    decreases s.len() - k,
{
    if k < s.len() {
        lemma_digits_value_prefix(s, k + 1);
        assert(s.subrange(0, k + 1).drop_last() =~= s.subrange(0, k));
        assert(is_digit(s[k]));
    } else {
        assert(s.subrange(0, k) =~= s);
    }
}

/// The decimal digits of `n` denote `n`.
pub proof fn lemma_digits_of_value(n: nat)
    ensures
        digits_value(dec_digits(n)) == n,
    decreases n,
{
    if n < 10 {
        let s = dec_digits(n);
        assert(s =~= seq![digit_char(n)]);
        assert(s.drop_last() =~= Seq::<char>::empty());
        assert(digits_value(s.drop_last()) == 0);
        assert(s.last() == digit_char(n));
        assert(digit_char(n) as int - '0' as int == n);
        assert(digits_value(s) == digits_value(s.drop_last()) * 10 + ((s.last() as int - '0' as int) as nat));
    } else {
        lemma_digits_of_value(n / 10);
        let s = dec_digits(n);
        assert(s == dec_digits(n / 10).push(digit_char(n % 10)));
        assert(s.drop_last() =~= dec_digits(n / 10));
        assert(s.last() == digit_char(n % 10));
        assert(digit_char(n % 10) as int - '0' as int == n % 10);
        assert(digits_value(s) == digits_value(s.drop_last()) * 10 + ((s.last() as int - '0' as int) as nat));
        assert((n / 10) * 10 + n % 10 == n) by (nonlinear_arith);
    }
}

/// The decimal digits of `n` are digits, and there is at least one.
pub proof fn lemma_dec_digits_are_digits(n: nat)
    ensures
        dec_digits(n).len() >= 1,
        digits_in(dec_digits(n), 0, dec_digits(n).len() as int),
    decreases n,
{
    if n >= 10 {
        lemma_dec_digits_are_digits(n / 10);
        let s = dec_digits(n);
        assert(s == dec_digits(n / 10).push(digit_char(n % 10)));
        assert forall|i: int| 0 <= i < s.len() implies is_digit(#[trigger] s[i]) by {
            if i < s.len() - 1 {
                assert(s[i] == dec_digits(n / 10)[i]);
            }
        }
    }
}

/// The text of an integer constant, and the text of a type keyword, read
/// back as that constant.
pub proof fn law_const_text_round_trip(v: ConstValue)
    requires
        v is Int || v is VarType,
    ensures
        spec_const_from_str(spec_value_text(v)) == v,
{
    match v {
        ConstValue::Int(i) => {
            let s = int_text(i as int);
            if i < 0 {
                let m = (-i) as nat;
                lemma_dec_digits_are_digits(m);
                lemma_digits_of_value(m);
                assert(s.subrange(1, s.len() as int) =~= dec_digits(m));
                assert(s[0] == '-');
            } else {
                let m = i as nat;
                lemma_dec_digits_are_digits(m);
                lemma_digits_of_value(m);
                assert(s.subrange(0, s.len() as int) =~= s);
                assert(is_digit(s[0]));
            }
            assert(spec_parse_i64(s) == Some(i));
        },
        ConstValue::VarType(t) => {
            reveal_strlit("int");
            reveal_strlit("float");
            reveal_strlit("string");
            reveal_strlit("inf");
            reveal_strlit("infinity");
            reveal_strlit("nan");
            let s = var_type_name(t);
            assert(!is_digit(s[0]) && s[0] != '-' && s[0] != '+' && s[0] != '.' && !is_e(s[0]));
            assert(s.subrange(0, s.len() as int) =~= s);
            assert(!digits_in(s, 0, s.len() as int));
            assert(spec_parse_i64(s) is None);
            assert(!ascii_ieq(s, "inf"@)) by {
                if s.len() == 3 {
                    assert(ascii_lower(s[0]) != "inf"@[0] || ascii_lower(s[2]) != "inf"@[2]);
                }
            }
            assert(!ascii_ieq(s, "nan"@)) by {
                if s.len() == 3 {
                    assert(ascii_lower(s[0]) != "nan"@[0]);
                }
            }
            assert(!ascii_ieq(s, "infinity"@)) by {
                if s.len() == 8 {
                    assert(ascii_lower(s[0]) != "infinity"@[0]);
                }
            }
            assert(!is_mantissa(s));
            assert(!is_number(s)) by {
                if exists|k: int| 0 <= k < s.len() && is_e(#[trigger] s[k]) {
                    let k = choose|k: int| 0 <= k < s.len() && is_e(#[trigger] s[k]);
                    assert(s[k] != 'e' && s[k] != 'E');
                }
            }
            assert(!is_f64_text(s));
        },
        _ => {},
    }
}

fn is_digit_char(c: char) -> (r: bool)
    ensures
        r == is_digit(c),
{
    '0' <= c && c <= '9'
}

/// Reads `s` as an `i64` the way `str::parse::<i64>` does.
pub fn parse_i64(s: &str) -> (r: Option<i64>)
    ensures
        r == spec_parse_i64(s@),
{
    let cs = str_chars(s);
    let n = cs.len();
    let neg = n > 0 && cs[0] == '-';
    let start: usize = if n > 0 && (cs[0] == '-' || cs[0] == '+') { 1 } else { 0 };
    let ghost body = cs@.subrange(start as int, n as int);
    if start == n {
        return None;
    }
    let mut v: u128 = 0;
    let mut i: usize = start;
    while i < n
        invariant
            cs@ == s@,
            n == cs@.len(),
            start <= i <= n,
            start < n,
            start == (if cs@.len() > 0 && (cs@[0] == '-' || cs@[0] == '+') { 1int } else { 0int }),
            neg == (cs@.len() > 0 && cs@[0] == '-'),
            body == cs@.subrange(start as int, n as int),
            digits_in(body, 0, i - start),
            v == digits_value(body.subrange(0, i - start)),
            v <= 9223372036854775808u128,
        decreases n - i,
    {
        let c = cs[i];
        if !is_digit_char(c) {
            assert(!is_digit(body[i - start]));
            assert(!digits_in(body, 0, body.len() as int));
            return None;
        }
        let d = (c as u32 - '0' as u32) as u128;
        assert(body.subrange(0, i + 1 - start).drop_last() =~= body.subrange(0, i - start));
        assert(body.subrange(0, i + 1 - start).last() == c);
        assert(d == c as int - '0' as int);
        let nv = v * 10 + d;
        assert(nv == digits_value(body.subrange(0, i + 1 - start)));
        i = i + 1;
        if nv > 9223372036854775808u128 {
            proof {
                let k = i - start;
                if digits_in(body, 0, body.len() as int) {
                    lemma_digits_value_prefix(body, k);
                    assert(digits_value(body) > 9223372036854775808int);
                }
            }
            return None;
        }
        v = nv;
    }
    assert(body.subrange(0, n - start) =~= body);
    if neg {
        if v == 9223372036854775808u128 {
            Some(i64::MIN)
        } else {
            Some(-(v as i64))
        }
    } else {
        if v == 9223372036854775808u128 {
            None
        } else {
            Some(v as i64)
        }
    }
}

/// The ASCII lowercase of a character (`char::to_ascii_lowercase`).
pub fn lower_char(c: char) -> (r: char)
    ensures
        r == ascii_lower(c),
{
    if 'A' <= c && c <= 'Z' {
        let u = c as u32 + 32;
        assert(0x61 <= u <= 0x7a);
        // every code point in this range is a `char`
        char_from_ascii(u)
    } else {
        c
    }
}

fn char_from_ascii(u: u32) -> (c: char)
    requires
        0x61 <= u <= 0x7a,
    ensures
        c == u as char,
{
    if u == 0x61 { 'a' } else if u == 0x62 { 'b' } else if u == 0x63 { 'c' } else if u == 0x64 { 'd' }
    else if u == 0x65 { 'e' } else if u == 0x66 { 'f' } else if u == 0x67 { 'g' } else if u == 0x68 { 'h' }
    else if u == 0x69 { 'i' } else if u == 0x6a { 'j' } else if u == 0x6b { 'k' } else if u == 0x6c { 'l' }
    else if u == 0x6d { 'm' } else if u == 0x6e { 'n' } else if u == 0x6f { 'o' } else if u == 0x70 { 'p' }
    else if u == 0x71 { 'q' } else if u == 0x72 { 'r' } else if u == 0x73 { 's' } else if u == 0x74 { 't' }
    else if u == 0x75 { 'u' } else if u == 0x76 { 'v' } else if u == 0x77 { 'w' } else if u == 0x78 { 'x' }
    else if u == 0x79 { 'y' } else { 'z' }
}

/// Whether `cs[a..b]`, with ASCII letters lowercased, equals `w`.
fn ieq_range(cs: &Vec<char>, a: usize, b: usize, w: &str) -> (r: bool)
    requires
        a <= b <= cs@.len(),
    ensures
        r == ascii_ieq(cs@.subrange(a as int, b as int), w@),
{
    let ws = str_chars(w);
    if b - a != ws.len() {
        return false;
    }
    let mut i: usize = 0;
    while i < ws.len()
        invariant
            ws@ == w@,
            a <= b <= cs@.len(),
            b - a == ws@.len(),
            i <= ws@.len(),
            forall|j: int| 0 <= j < i ==> ascii_lower(#[trigger] cs@.subrange(a as int, b as int)[j]) == ws@[j],
        decreases ws.len() - i,
    {
        if lower_char(cs[a + i]) != ws[i] {
            assert(ascii_lower(cs@.subrange(a as int, b as int)[i as int]) != ws@[i as int]);
            return false;
        }
        i = i + 1;
    }
    true
}

/// Whether `cs[a..b]` is a mantissa.
fn mantissa_range(cs: &Vec<char>, a: usize, b: usize) -> (r: bool)
    requires
        a <= b <= cs@.len(),
    ensures
        r == is_mantissa(cs@.subrange(a as int, b as int)),
{
    let ghost m = cs@.subrange(a as int, b as int);
    let mut dot: Option<usize> = None;
    let mut digit: Option<usize> = None;
    let mut i: usize = a;
    while i < b
        invariant
            a <= i <= b <= cs@.len(),
            m == cs@.subrange(a as int, b as int),
            forall|j: int| 0 <= j < i - a ==> is_digit(#[trigger] m[j]) || m[j] == '.',
            match dot {
                None => forall|j: int| 0 <= j < i - a ==> m[j] != '.',
                Some(d) => a <= d < i && m[d - a] == '.' && forall|j: int| 0 <= j < i - a && j != d - a ==> m[j] != '.',
            },
            match digit {
                None => forall|j: int| 0 <= j < i - a ==> !is_digit(#[trigger] m[j]),
                Some(d) => a <= d < i && is_digit(m[d - a]),
            },
        decreases b - i,
    {
        let c = cs[i];
        if c == '.' {
            if dot.is_some() {
                let d = dot.unwrap();
                assert(m[d - a] == '.' && m[i - a] == '.');
                return false;
            }
            dot = Some(i);
        } else if is_digit_char(c) {
            digit = Some(i);
        } else {
            assert(!(is_digit(m[i - a]) || m[i - a] == '.'));
            return false;
        }
        i = i + 1;
    }
    match digit {
        Some(d) => {
            assert(is_digit(m[d - a]));
            true
        },
        None => false,
    }
}

/// Whether `cs[a..b]` is an exponent.
fn exponent_range(cs: &Vec<char>, a: usize, b: usize) -> (r: bool)
    requires
        a <= b <= cs@.len(),
    ensures
        r == is_exponent(cs@.subrange(a as int, b as int)),
{
    let ghost e = cs@.subrange(a as int, b as int);
    if b > a {
        assert(e[0] == cs@[a as int]);
    }
    let start: usize = if b > a && (cs[a] == '-' || cs[a] == '+') { a + 1 } else { a };
    if start >= b {
        return false;
    }
    let mut i: usize = start;
    while i < b
        invariant
            a <= start <= i <= b <= cs@.len(),
            e == cs@.subrange(a as int, b as int),
            start - a == (if e.len() > 0 && (e[0] == '-' || e[0] == '+') { 1int } else { 0int }),
            digits_in(e, start - a, i - a),
        decreases b - i,
    {
        if !is_digit_char(cs[i]) {
            assert(!is_digit(e[i - a]));
            return false;
        }
        i = i + 1;
    }
    true
}

/// Whether `cs[a..b]` is a decimal number.
fn number_range(cs: &Vec<char>, a: usize, b: usize) -> (r: bool)
    requires
        a <= b <= cs@.len(),
    ensures
        r == is_number(cs@.subrange(a as int, b as int)),
{
    let ghost s = cs@.subrange(a as int, b as int);
    let mut k: usize = a;
    while k < b && !(cs[k] == 'e' || cs[k] == 'E')
        invariant
            a <= k <= b <= cs@.len(),
            s == cs@.subrange(a as int, b as int),
            forall|i: int| 0 <= i < k - a ==> !is_e(#[trigger] s[i]),
        decreases b - k,
    {
        k = k + 1;
    }
    if k == b {
        assert(s.subrange(0, (b - a) as int) =~= s);
        let r = mantissa_range(cs, a, b);
        assert(!(exists|k: int| 0 <= k < s.len() && is_e(#[trigger] s[k])
            && (forall|i: int| 0 <= i < k ==> !is_e(#[trigger] s[i]))
            && is_mantissa(s.subrange(0, k)) && is_exponent(s.subrange(k + 1, s.len() as int))));
        r
    } else {
        let ghost kk = k - a;
        assert(is_e(s[kk]));
        assert(s.subrange(0, kk) =~= cs@.subrange(a as int, k as int));
        assert(s.subrange(kk + 1, s.len() as int) =~= cs@.subrange(k + 1, b as int));
        let r = mantissa_range(cs, a, k) && exponent_range(cs, k + 1, b);
        proof {
            if is_number(s) {
                if !((forall|i: int| 0 <= i < s.len() ==> !is_e(#[trigger] s[i])) && is_mantissa(s)) {
                    let k2 = choose|k2: int| 0 <= k2 < s.len() && is_e(#[trigger] s[k2])
                        && (forall|i: int| 0 <= i < k2 ==> !is_e(#[trigger] s[i]))
                        && is_mantissa(s.subrange(0, k2)) && is_exponent(s.subrange(k2 + 1, s.len() as int));
                    if k2 < kk {
                    } else if k2 > kk {
                        assert(!is_e(s[kk]));
                    }
                }
            }
        }
        r
    }
}

/// Whether `s` is a text that `str::parse::<f64>` accepts.
pub fn is_f64_str(s: &str) -> (r: bool)
    ensures
        r == is_f64_text(s@),
{
    let cs = str_chars(s);
    let n = cs.len();
    let start: usize = if n > 0 && (cs[0] == '-' || cs[0] == '+') { 1 } else { 0 };
    ieq_range(&cs, start, n, "inf") || ieq_range(&cs, start, n, "infinity")
        || ieq_range(&cs, start, n, "nan") || number_range(&cs, start, n)
}

/// How `{:?}` writes a string: in double quotes, with the characters that
/// need it escaped. Named, not stated: the escaping rules of `str::escape_debug`
/// depend on Unicode tables.
pub uninterp spec fn str_debug(s: Seq<char>) -> Seq<char>;

/// The `{:?}` text of a string.
///
/// Trusted: calls `format!("{:?}", s)`, the `Debug` formatting of `str`, which
/// depends on the string alone.
#[verifier::external_body]
pub fn str_debug_text(s: &str) -> (r: String)
    ensures
        r@ == str_debug(s@),
{
    format!("{:?}", s)
}

/// How `{:?}` writes a type: the name of its variant.
pub open spec fn var_type_debug(v: VarType) -> Seq<char> {
    match v {
        VarType::Int => "Int"@,
        VarType::Float => "Float"@,
        VarType::String => "String"@,
    }
}

/// How `{:?}` writes a value: its variant and, in parentheses, its content
/// (a floating-point constant as written).
pub open spec fn const_debug(v: ConstValue) -> Seq<char> {
    match v {
        ConstValue::Int(i) => "Int("@ + int_text(i as int) + ")"@,
        ConstValue::Float(f) => "Float("@ + f + ")"@,
        ConstValue::Str(s) => "String("@ + str_debug(s) + ")"@,
        ConstValue::VarType(t) => "VarType("@ + var_type_debug(t) + ")"@,
    }
}

impl ConstType {
    /// How `{:?}` writes this value (see [`const_debug`]).
    pub fn debug_string(&self) -> (s: String)
        ensures
            s@ == const_debug(self@),
    {
        let mut s = String::new();
        match self {
            ConstType::Int(i) => {
                s.append("Int(");
                push_i64(&mut s, *i);
            },
            ConstType::Float(f) => {
                s.append("Float(");
                s.append(f.as_str());
            },
            ConstType::String(t) => {
                s.append("String(");
                let d = str_debug_text(t.as_str());
                s.append(d.as_str());
            },
            ConstType::VarType(v) => {
                s.append("VarType(");
                s.append(match v {
                    VarType::Int => "Int",
                    VarType::Float => "Float",
                    VarType::String => "String",
                });
            },
        }
        s.append(")");
        assert(s@ =~= const_debug(self@));
        s
    }
}

impl ConstType {
    /// The value that a token's text is given (see [`spec_const_from_str`]).
    pub fn from_str(s: &str) -> (r: ConstType)
        ensures
            r@ == spec_const_from_str(s@),
    {
        if let Some(i) = parse_i64(s) {
            return ConstType::Int(i);
        }
        if is_f64_str(s) {
            return ConstType::Float(String::from_str(s));
        }
        if str_eq(s, "int") {
            return ConstType::VarType(VarType::Int);
        }
        if str_eq(s, "float") {
            return ConstType::VarType(VarType::Float);
        }
        if str_eq(s, "string") {
            return ConstType::VarType(VarType::String);
        }
        ConstType::String(String::from_str(s))
    }

    /// The type of this value.
    pub fn get_type(&self) -> (r: VarType)
        ensures
            r == spec_value_type(self@),
    {
        match self {
            ConstType::Int(_) => VarType::Int,
            ConstType::Float(_) => VarType::Float,
            ConstType::String(_) => VarType::String,
            ConstType::VarType(v) => *v,
        }
    }

    /// The type that a type keyword names.
    pub fn get_keyword_type(&self) -> (r: VarType)
        requires
            self is VarType,
        ensures
            r == self->VarType_0,
    {
        match self {
            ConstType::VarType(v) => *v,
            _ => VarType::Int,
        }
    }

    /// The text of this value in generated output (see [`spec_value_text`]).
    pub fn to_string(&self) -> (s: String)
        ensures
            s@ == spec_value_text(self@),
    {
        let mut s = String::new();
        match self {
            ConstType::Int(i) => push_i64(&mut s, *i),
            ConstType::Float(f) => s.append(f.as_str()),
            ConstType::String(t) => push_escaped_quotes(&mut s, t.as_str()),
            ConstType::VarType(v) => s.append(v.name()),
        }
        assert(s@ =~= spec_value_text(self@));
        s
    }

    /// The displayed text of this value (see [`spec_value_display`]).
    pub fn to_display_string(&self) -> (s: String)
        ensures
            s@ == spec_value_display(self@),
    {
        match self {
            ConstType::String(t) => t.clone(),
            _ => self.to_string(),
        }
    }
}

} // verus!

//! Splitting text into lines, fields and words, and reading unsigned
//! numbers, with the behaviour of `str::lines`, `str::split`,
//! `str::split_whitespace` and `str::parse::<u32>`.

use vstd::prelude::*;
use crate::text::{str_chars, string_push, is_white_space, char_is_whitespace};
use crate::const_type::{is_digit, digits_in, digits_value};

verus! {

/// The texts of a sequence of strings.
pub open spec fn strings_view(v: Seq<String>) -> Seq<Seq<char>> {
    v.map_values(|x: String| x@)
}

/// Cutting `s[..i]` at each `sep`: the pieces completed so far and the one
/// being read.
pub open spec fn split_upto(s: Seq<char>, sep: char, i: int) -> (Seq<Seq<char>>, Seq<char>)
    decreases i,
{
    if i <= 0 {
        (Seq::empty(), Seq::empty())
    } else {
        let p = split_upto(s, sep, i - 1);
        if s[i - 1] == sep {
            (p.0.push(p.1), Seq::empty())
        } else {
            (p.0, p.1.push(s[i - 1]))
        }
    }
}

/// The pieces of `s` between the occurrences of `sep` (`str::split`): one
/// more than the occurrences, empty pieces included.
pub open spec fn spec_split(s: Seq<char>, sep: char) -> Seq<Seq<char>> {
    let p = split_upto(s, sep, s.len() as int);
    p.0.push(p.1)
}

/// A line without the carriage return that ends it, if any.
pub open spec fn strip_cr(l: Seq<char>) -> Seq<char> {
    if l.len() > 0 && l.last() == '\r' {
        l.drop_last()
    } else {
        l
    }
}

/// The lines of `s` (`str::lines`): cut at each `'\n'`, a line ended by
/// `"\r\n"` loses its `'\r'`, and a last empty piece after a final newline
/// is not a line.
pub open spec fn spec_lines(s: Seq<char>) -> Seq<Seq<char>> {
    let p = split_upto(s, '\n', s.len() as int);
    let ended = p.0.map_values(|l: Seq<char>| strip_cr(l));
    if p.1.len() > 0 {
        ended.push(p.1)
    } else {
        ended
    }
}

/// Reading `s[..i]` as words: the words completed so far and the one being
/// read.
pub open spec fn words_upto(s: Seq<char>, i: int) -> (Seq<Seq<char>>, Seq<char>)
    decreases i,
{
    if i <= 0 {
        (Seq::empty(), Seq::empty())
    } else {
        let p = words_upto(s, i - 1);
        if is_white_space(s[i - 1]) {
            if p.1.len() > 0 {
                (p.0.push(p.1), Seq::empty())
            } else {
                (p.0, Seq::empty())
            }
        } else {
            (p.0, p.1.push(s[i - 1]))
        }
    }
}

/// The non-empty runs of non-whitespace characters of `s`
/// (`str::split_whitespace`).
pub open spec fn spec_words(s: Seq<char>) -> Seq<Seq<char>> {
    let p = words_upto(s, s.len() as int);
    if p.1.len() > 0 {
        p.0.push(p.1)
    } else {
        p.0
    }
}

/// The result of reading `s` as a `u32` the way `str::parse::<u32>` does:
/// an optional `+`, then one or more decimal digits, whose value must fit.
pub open spec fn spec_parse_u32(s: Seq<char>) -> Option<u32> {
    let start: int = if s.len() > 0 && s[0] == '+' { 1 } else { 0 };
    let body = s.subrange(start, s.len() as int);
    if body.len() == 0 || !digits_in(body, 0, body.len() as int) {
        None
    } else if digits_value(body) <= u32::MAX {
        Some(digits_value(body) as u32)
    } else {
        None
    }
}

proof fn lemma_strings_push(v: Seq<String>, x: String)
    ensures
        strings_view(v.push(x)) == strings_view(v).push(x@),
{
    assert(strings_view(v.push(x)) =~= strings_view(v).push(x@));
}

/// Cuts `s` at each `sep` (see [`spec_split`]).
pub fn split_on(s: &str, sep: char) -> (r: Vec<String>)
    ensures
        strings_view(r@) == spec_split(s@, sep),
{
    let cs = str_chars(s);
    let mut done: Vec<String> = Vec::new();
    let mut cur = String::new();
    let mut i: usize = 0;
    assert(strings_view(done@) =~= Seq::<Seq<char>>::empty());
    while i < cs.len()
        invariant
            cs@ == s@,
            i <= cs@.len(),
            strings_view(done@) == split_upto(s@, sep, i as int).0,
            cur@ == split_upto(s@, sep, i as int).1,
        decreases cs.len() - i,
    {
        let c = cs[i];
        if c == sep {
            proof { lemma_strings_push(done@, cur); }
            done.push(cur);
            cur = String::new();
        } else {
            string_push(&mut cur, c);
        }
        i = i + 1;
    }
    proof { lemma_strings_push(done@, cur); }
    done.push(cur);
    done
}

/// The lines of `s` (see [`spec_lines`]).
pub fn lines_of(s: &str) -> (r: Vec<String>)
    ensures
        strings_view(r@) == spec_lines(s@),
{
    let cs = str_chars(s);
    let mut done: Vec<String> = Vec::new();
    let mut cur = String::new();
    let mut i: usize = 0;
    let ghost n = cs@.len();
    assert(strings_view(done@) =~= split_upto(s@, '\n', 0).0.map_values(|l: Seq<char>| strip_cr(l)));
    while i < cs.len()
        invariant
            cs@ == s@,
            i <= cs@.len(),
            strings_view(done@) == split_upto(s@, '\n', i as int).0.map_values(|l: Seq<char>| strip_cr(l)),
            cur@ == split_upto(s@, '\n', i as int).1,
        decreases cs.len() - i,
    {
        let c = cs[i];
        if c == '\n' {
            let ghost old_done = split_upto(s@, '\n', i as int).0;
            let ghost line = cur@;
            let k = cur.as_str().unicode_len();
            let mut kept = String::new();
            if k > 0 && cur.as_str().get_char(k - 1) == '\r' {
                let cs2 = str_chars(cur.as_str());
                let mut j: usize = 0;
                while j + 1 < cs2.len()
                    invariant
                        cs2@ == line,
                        cs2@.len() == k,
                        k > 0,
                        j + 1 <= k,
                        kept@ == line.subrange(0, j as int),
                    decreases cs2.len() - j,
                {
                    string_push(&mut kept, cs2[j]);
                    assert(line.subrange(0, j + 1) =~= line.subrange(0, j as int).push(line[j as int]));
                    j = j + 1;
                }
                assert(kept@ =~= strip_cr(line));
            } else {
                kept = cur;
                assert(kept@ == strip_cr(line));
            }
            proof {
                lemma_strings_push(done@, kept);
                assert(old_done.push(line).map_values(|l: Seq<char>| strip_cr(l))
                    =~= old_done.map_values(|l: Seq<char>| strip_cr(l)).push(strip_cr(line)));
            }
            done.push(kept);
            cur = String::new();
        } else {
            string_push(&mut cur, c);
        }
        i = i + 1;
    }
    if cur.as_str().unicode_len() > 0 {
        proof { lemma_strings_push(done@, cur); }
        done.push(cur);
    }
    done
}

/// The words of `s` (see [`spec_words`]).
pub fn words_of(s: &str) -> (r: Vec<String>)
    ensures
        strings_view(r@) == spec_words(s@),
{
    let cs = str_chars(s);
    let mut done: Vec<String> = Vec::new();
    let mut cur = String::new();
    let mut i: usize = 0;
    assert(strings_view(done@) =~= Seq::<Seq<char>>::empty());
    while i < cs.len()
        invariant
            cs@ == s@,
            i <= cs@.len(),
            strings_view(done@) == words_upto(s@, i as int).0,
            cur@ == words_upto(s@, i as int).1,
        decreases cs.len() - i,
    {
        let c = cs[i];
        if char_is_whitespace(c) {
            if cur.as_str().unicode_len() > 0 {
                proof { lemma_strings_push(done@, cur); }
                done.push(cur);
            }
            cur = String::new();
        } else {
            string_push(&mut cur, c);
        }
        i = i + 1;
    }
    if cur.as_str().unicode_len() > 0 {
        proof { lemma_strings_push(done@, cur); }
        done.push(cur);
    }
    done
}

proof fn lemma_digits_value_prefix(s: Seq<char>, k: int)
    requires
        0 <= k <= s.len(),
        digits_in(s, 0, s.len() as int),
    ensures
        digits_value(s.subrange(0, k)) <= digits_value(s),
    decreases s.len() - k,
{
    if k < s.len() {
        lemma_digits_value_prefix(s, k + 1);
        assert(s.subrange(0, k + 1).drop_last() =~= s.subrange(0, k));
        assert(is_digit(s[k]));
    } else {
        assert(s.subrange(0, k) =~= s);
    }
}

/// Reads `s` as a `u32` the way `str::parse::<u32>` does (see
/// [`spec_parse_u32`]).
pub fn parse_u32(s: &str) -> (r: Option<u32>)
    ensures
        r == spec_parse_u32(s@),
{
    let cs = str_chars(s);
    let n = cs.len();
    let start: usize = if n > 0 && cs[0] == '+' { 1 } else { 0 };
    let ghost body = cs@.subrange(start as int, n as int);
    if start == n {
        return None;
    }
    let mut v: u64 = 0;
    let mut i: usize = start;
    while i < n
        invariant
            cs@ == s@,
            n == cs@.len(),
            start <= i <= n,
            start < n,
            start == (if cs@.len() > 0 && cs@[0] == '+' { 1int } else { 0int }),
            body == cs@.subrange(start as int, n as int),
            digits_in(body, 0, i - start),
            v == digits_value(body.subrange(0, i - start)),
            v <= u32::MAX,
        decreases n - i,
    {
        let c = cs[i];
        if !('0' <= c && c <= '9') {
            assert(!is_digit(body[i - start]));
            assert(!digits_in(body, 0, body.len() as int));
            return None;
        }
        let d = (c as u32 - '0' as u32) as u64;
        assert(body.subrange(0, i + 1 - start).drop_last() =~= body.subrange(0, i - start));
        assert(body.subrange(0, i + 1 - start).last() == c);
        let nv = v * 10 + d;
        assert(nv == digits_value(body.subrange(0, i + 1 - start)));
        i = i + 1;
        if nv > 0xffff_ffffu64 {
            proof {
                let k = i - start;
                if digits_in(body, 0, body.len() as int) {
                    lemma_digits_value_prefix(body, k);
                }
            }
            return None;
        }
        v = nv;
    }
    assert(body.subrange(0, n - start) =~= body);
    Some(v as u32)
}

} // verus!

//! Verified string utilities: decimal formatting, joining, and the few
//! trusted bridges to `std`'s string machinery.

use vstd::prelude::*;

verus! {

/// The character for one decimal digit.
pub open spec fn digit_char(d: int) -> char {
    ((48 + d) as u8) as char
}

/// Decimal text of a nonnegative integer, most significant digit first.
pub open spec fn u64_decimal(n: int) -> Seq<char>
    decreases n,
{
    if n < 10 {
        seq![digit_char(n)]
    } else {
        u64_decimal(n / 10).push(digit_char(n % 10))
    }
}

/// Decimal text of a signed integer: a minus sign before the magnitude.
pub open spec fn i64_decimal(n: int) -> Seq<char> {
    if n < 0 {
        seq!['-'] + u64_decimal(-n)
    } else {
        u64_decimal(n)
    }
}

/// Relies on `String::from_utf8`: decodes the bytes as UTF-8, rejecting
/// exactly the byte sequences that are not a valid encoding.
#[verifier::external_body]
pub fn string_from_utf8(bytes: Vec<u8>) -> (r: Option<String>)
    ensures
        r is Some <==> vstd::utf8::valid_utf8(bytes@),
        r matches Some(s) ==> s@ == vstd::utf8::decode_utf8(bytes@),
{
    match String::from_utf8(bytes) {
        Ok(s) => Some(s),
        Err(_) => None,
    }
}

/// Relies on `String::push`: appends one character at the end.
#[verifier::external_body]
pub fn push_char(s: &mut String, c: char)
    ensures
        final(s)@ == old(s)@.push(c),
{
    s.push(c);
}

/// Renders a `u64` as its decimal digits.
pub fn u64_to_string(n: u64) -> (r: String)
    ensures
        r@ == u64_decimal(n as int),
    decreases n,
{
    if n < 10 {
        let mut s = String::new();
        push_char(&mut s, (48 + n as u8) as char);
        s
    } else {
        let mut s = u64_to_string(n / 10);
        push_char(&mut s, (48 + (n % 10) as u8) as char);
        s
    }
}

/// Renders an `i64` as decimal digits with an optional leading minus sign.
pub fn i64_to_string(n: i64) -> (r: String)
    ensures
        r@ == i64_decimal(n as int),
{
    if n >= 0 {
        u64_to_string(n as u64)
    } else {
        let mag: u64 = (-(n as i128)) as u64;
        let mut s = String::new();
        push_char(&mut s, '-');
        let digits = u64_to_string(mag);
        s.append(digits.as_str());
        proof {
            assert(s@ =~= i64_decimal(n as int));
        }
        s
    }
}

/// The index of the first occurrence of `c` in `s`, or -1 when absent.
pub open spec fn find_char(s: Seq<char>, c: char) -> int
    decreases s.len(),
{
    if s.len() == 0 {
        -1
    } else if s[0] == c {
        0
    } else {
        let r = find_char(s.skip(1), c);
        if r == -1 {
            -1
        } else {
            r + 1
        }
    }
}

/// What `find_char` returns: either the character is absent, or the result
/// is its first position.
pub proof fn lemma_find_char(s: Seq<char>, c: char)
    ensures
        find_char(s, c) == -1 ==> forall|i: int| 0 <= i < s.len() ==> s[i] != c,
        find_char(s, c) != -1 ==> 0 <= find_char(s, c) < s.len() && s[find_char(s, c)] == c
            && forall|i: int| 0 <= i < find_char(s, c) ==> s[i] != c,
    decreases s.len(),
{
    if s.len() > 0 && s[0] != c {
        lemma_find_char(s.skip(1), c);
        let r = find_char(s.skip(1), c);
        if r == -1 {
            assert forall|i: int| 0 <= i < s.len() implies s[i] != c by {
                if i > 0 {
                    assert(s.skip(1)[i - 1] == s[i]);
                }
            }
        } else {
            assert(s.skip(1)[r] == s[r + 1]);
            assert forall|i: int| 0 <= i < r + 1 implies s[i] != c by {
                if i > 0 {
                    assert(s.skip(1)[i - 1] == s[i]);
                }
            }
        }
    }
}

/// Finds the first occurrence of `c` in `s`.
pub fn find_char_str(s: &str, c: char) -> (r: Option<usize>)
    ensures
        r is None <==> find_char(s@, c) == -1,
        r matches Some(i) ==> i == find_char(s@, c),
{
    proof {
        lemma_find_char(s@, c);
    }
    let n = s.unicode_len();
    let mut i: usize = 0;
    while i < n
        invariant
            i <= n == s@.len(),
            forall|j: int| 0 <= j < i ==> s@[j] != c,
            find_char(s@, c) == -1 ==> forall|j: int| 0 <= j < s@.len() ==> s@[j] != c,
            find_char(s@, c) != -1 ==> 0 <= find_char(s@, c) < s@.len() && s@[find_char(s@, c)]
                == c && forall|j: int| 0 <= j < find_char(s@, c) ==> s@[j] != c,
        decreases n - i,
    {
        if s.get_char(i) == c {
            return Some(i);
        }
        i = i + 1;
    }
    None
}

/// Whether `s` begins with `p`.
pub open spec fn spec_starts_with(s: Seq<char>, p: Seq<char>) -> bool {
    s.len() >= p.len() && s.take(p.len() as int) == p
}

/// Tests whether the string begins with the prefix.
pub fn str_starts_with(s: &str, prefix: &str) -> (r: bool)
    ensures
        r == spec_starts_with(s@, prefix@),
{
    let n = s.unicode_len();
    let m = prefix.unicode_len();
    if n < m {
        assert(!spec_starts_with(s@, prefix@));
        return false;
    }
    let mut i: usize = 0;
    while i < m
        invariant
            i <= m == prefix@.len(),
            m <= n == s@.len(),
            forall|j: int| 0 <= j < i ==> s@[j] == prefix@[j],
        decreases m - i,
    {
        if s.get_char(i) != prefix.get_char(i) {
            proof {
                assert(s@.take(m as int)[i as int] != prefix@[i as int]);
            }
            return false;
        }
        i = i + 1;
    }
    proof {
        assert(s@.take(m as int) =~= prefix@);
    }
    true
}

/// Whether `p` occurs anywhere in `s` as a contiguous run.
pub open spec fn spec_contains_seq(s: Seq<char>, p: Seq<char>) -> bool {
    exists|i: int| 0 <= i <= s.len() - p.len() && #[trigger] s.subrange(i, i + p.len()) == p
}

/// Tests whether the string contains the pattern as a substring.
pub fn str_contains(s: &str, pattern: &str) -> (r: bool)
    ensures
        r == spec_contains_seq(s@, pattern@),
{
    let n = s.unicode_len();
    let m = pattern.unicode_len();
    if m > n {
        assert(!spec_contains_seq(s@, pattern@));
        return false;
    }
    let mut i: usize = 0;
    while i <= n - m
        invariant
            m <= n == s@.len(),
            m == pattern@.len(),
            i <= n - m + 1,
            forall|j: int| 0 <= j < i ==> #[trigger] s@.subrange(j, j + pattern@.len())
                != pattern@,
        decreases n + 1 - m - i,
    {
        let mut k: usize = 0;
        let mut matched = true;
        while k < m
            invariant
                m <= n == s@.len(),
                m == pattern@.len(),
                i + m <= n,
                k <= m,
                matched <==> forall|j: int| 0 <= j < k ==> s@[i + j] == pattern@[j],
            decreases m - k,
        {
            if s.get_char(i + k) != pattern.get_char(k) {
                matched = false;
                k = m;
            } else {
                k = k + 1;
            }
        }
        if matched {
            proof {
                assert(s@.subrange(i as int, i + pattern@.len()) =~= pattern@);
            }
            return true;
        }
        proof {
            assert(s@.subrange(i as int, i + pattern@.len()) != pattern@) by {
                if s@.subrange(i as int, i + pattern@.len()) == pattern@ {
                    assert(forall|j: int| #![trigger pattern@[j]]
                        0 <= j < m ==> s@.subrange(i as int, i + pattern@.len())[j] == s@[i + j]);
                }
            }
        }
        i = i + 1;
    }
    false
}

/// Tests whether two strings hold the same characters.
pub fn str_eq_str(s: &str, t: &str) -> (r: bool)
    ensures
        r == (s@ == t@),
{
    let n = s.unicode_len();
    let m = t.unicode_len();
    if n != m {
        return false;
    }
    let mut i: usize = 0;
    while i < n
        invariant
            i <= n == s@.len(),
            n == t@.len(),
            forall|j: int| 0 <= j < i ==> s@[j] == t@[j],
        decreases n - i,
    {
        if s.get_char(i) != t.get_char(i) {
            return false;
        }
        i = i + 1;
    }
    proof {
        assert(s@ =~= t@);
    }
    true
}

/// The index of the first string in `list` equal to `name`, or -1.
pub open spec fn spec_str_index(list: Seq<String>, name: Seq<char>) -> int
    decreases list.len(),
{
    if list.len() == 0 {
        -1
    } else if list[0]@ == name {
        0
    } else {
        let r = spec_str_index(list.skip(1), name);
        if r == -1 {
            -1
        } else {
            r + 1
        }
    }
}

/// What `spec_str_index` returns: either no entry matches, or the result is
/// the first matching position.
pub proof fn lemma_spec_str_index(list: Seq<String>, name: Seq<char>)
    ensures
        spec_str_index(list, name) == -1 ==> forall|i: int| 0 <= i < list.len() ==> list[i]@
            != name,
        spec_str_index(list, name) != -1 ==> 0 <= spec_str_index(list, name) < list.len() && list[
            spec_str_index(list, name)
        ]@ == name,
    decreases list.len(),
{
    if list.len() > 0 && list[0]@ != name {
        lemma_spec_str_index(list.skip(1), name);
        let r = spec_str_index(list.skip(1), name);
        if r == -1 {
            assert forall|i: int| 0 <= i < list.len() implies list[i]@ != name by {
                if i > 0 {
                    assert(list.skip(1)[i - 1] == list[i]);
                }
            }
        } else {
            assert(list.skip(1)[r] == list[r + 1]);
        }
    }
}

/// Whether some string in `list` equals `name`.
pub open spec fn spec_contains_string(list: Seq<String>, name: Seq<char>) -> bool {
    spec_str_index(list, name) != -1
}

/// Tests whether the list holds a string equal to `name`.
pub fn contains_string(list: &Vec<String>, name: &str) -> (r: bool)
    ensures
        r == spec_contains_string(list@, name@),
{
    proof {
        lemma_spec_str_index(list@, name@);
    }
    let mut i: usize = 0;
    while i < list.len()
        invariant
            i <= list@.len(),
            forall|j: int| 0 <= j < i ==> list@[j]@ != name@,
            spec_str_index(list@, name@) == -1 ==> forall|j: int|
                0 <= j < list@.len() ==> list@[j]@ != name@,
            spec_str_index(list@, name@) != -1 ==> 0 <= spec_str_index(list@, name@)
                < list@.len() && list@[spec_str_index(list@, name@)]@ == name@,
        decreases list@.len() - i,
    {
        if str_eq_str(list[i].as_str(), name) {
            return true;
        }
        i = i + 1;
    }
    false
}

/// The text split on every occurrence of `sep`.
pub open spec fn split_char(s: Seq<char>, sep: char) -> Seq<Seq<char>>
    decreases s.len(),
{
    if s.len() == 0 {
        seq![s]
    } else if s[0] == sep {
        seq![Seq::empty()] + split_char(s.skip(1), sep)
    } else {
        split_char_prepend(s[0], split_char(s.skip(1), sep))
    }
}

/// The head character prepended to the first part of a split.
pub open spec fn split_char_prepend(c: char, parts: Seq<Seq<char>>) -> Seq<Seq<char>> {
    seq![seq![c] + parts[0]] + parts.skip(1)
}

/// Splitting always yields at least one part.
pub proof fn lemma_split_char_nonempty(s: Seq<char>, sep: char)
    ensures
        split_char(s, sep).len() >= 1,
    decreases s.len(),
{
    if s.len() > 0 {
        lemma_split_char_nonempty(s.skip(1), sep);
    }
}

/// The running state of a split: finished parts, the part being built, and
/// the split of the rest, whose first part continues the current one.
pub open spec fn split_char_state(
    parts: Seq<Seq<char>>,
    cur: Seq<char>,
    rest: Seq<Seq<char>>,
) -> Seq<Seq<char>> {
    parts + seq![cur + rest[0]] + rest.skip(1)
}

/// Splits the string on every occurrence of `sep`.
pub fn split_str_char(s: &str, sep: char) -> (r: Vec<String>)
    ensures
        r.deep_view() == split_char(s@, sep),
{
    let n = s.unicode_len();
    let mut parts: Vec<String> = Vec::new();
    let mut cur = String::new();
    let mut i: usize = 0;
    proof {
        assert(s@.skip(0) =~= s@);
    }
    while i < n
        invariant
            i <= n == s@.len(),
            split_char(s@, sep) == split_char_state(
                parts.deep_view(),
                cur@,
                split_char(s@.skip(i as int), sep),
            ),
        decreases n - i,
    {
        let ghost rest = split_char(s@.skip(i as int), sep);
        let ghost parts_pre = parts.deep_view();
        let ghost cur_pre = cur@;
        let c = s.get_char(i);
        if c == sep {
            parts.push(cur);
            cur = String::new();
            proof {
                let tail = s@.skip(i as int);
                assert(tail[0] == s@[i as int]);
                assert(tail.skip(1) =~= s@.skip(i + 1int));
                let inner = split_char(s@.skip(i + 1int), sep);
                lemma_split_char_nonempty(s@.skip(i + 1int), sep);
                assert(rest == seq![Seq::<char>::empty()] + inner);
                assert(parts.deep_view() =~= parts_pre.push(cur_pre));
                assert(split_char_state(parts_pre, cur_pre, rest) =~= split_char_state(
                    parts.deep_view(),
                    cur@,
                    inner,
                ));
            }
        } else {
            push_char(&mut cur, c);
            proof {
                let tail = s@.skip(i as int);
                assert(tail[0] == s@[i as int]);
                assert(tail.skip(1) =~= s@.skip(i + 1int));
                let inner = split_char(s@.skip(i + 1int), sep);
                lemma_split_char_nonempty(s@.skip(i + 1int), sep);
                assert(rest == split_char_prepend(tail[0], inner));
                assert(cur_pre + (seq![tail[0]] + inner[0]) =~= cur@ + inner[0]);
                assert(split_char_state(parts_pre, cur_pre, rest) =~= split_char_state(
                    parts.deep_view(),
                    cur@,
                    inner,
                ));
            }
        }
        i = i + 1;
    }
    proof {
        assert(s@.skip(n as int) =~= Seq::<char>::empty());
        let last = split_char(Seq::<char>::empty(), sep);
        assert(last == seq![Seq::<char>::empty()]);
        assert(split_char_state(parts.deep_view(), cur@, last) =~= parts.deep_view().push(cur@));
    }
    parts.push(cur);
    proof {
        assert(parts.deep_view() =~= split_char(s@, sep));
    }
    parts
}

/// One character with a single quote doubled.
pub open spec fn quote_esc_char(c: char) -> Seq<char> {
    if c == '\'' {
        seq!['\'', '\'']
    } else {
        seq![c]
    }
}

/// The text with every single quote doubled.
pub open spec fn spec_escape_quotes(s: Seq<char>) -> Seq<char>
    decreases s.len(),
{
    if s.len() == 0 {
        Seq::empty()
    } else {
        spec_escape_quotes(s.drop_last()) + quote_esc_char(s.last())
    }
}

/// Doubles every single quote in the text.
pub fn escape_quotes(input: &str) -> (r: String)
    ensures
        r@ == spec_escape_quotes(input@),
{
    let n = input.unicode_len();
    let mut r = String::new();
    let mut i: usize = 0;
    while i < n
        invariant
            i <= n == input@.len(),
            r@ == spec_escape_quotes(input@.take(i as int)),
        decreases n - i,
    {
        let c = input.get_char(i);
        if c == '\'' {
            push_char(&mut r, '\'');
            push_char(&mut r, '\'');
        } else {
            push_char(&mut r, c);
        }
        proof {
            let pre = input@.take(i as int);
            let cur = input@.take(i + 1int);
            assert(cur.drop_last() =~= pre);
            assert(cur.last() == input@[i as int]);
            assert(r@ =~= spec_escape_quotes(pre) + quote_esc_char(input@[i as int]));
        }
        i = i + 1;
    }
    proof {
        assert(input@.take(n as int) =~= input@);
    }
    r
}

/// Pushing a string extends the sequence of views by the string's view.
pub proof fn lemma_deep_view_push(pre: Vec<String>, post: Vec<String>, x: String)
    requires
        post@ == pre@.push(x),
    ensures
        post.deep_view() == pre.deep_view().push(x@),
{
    assert forall|j: int| 0 <= j < post@.len() implies post.deep_view()[j]
        == pre.deep_view().push(x@)[j] by {
        if j < pre@.len() {
            assert(post@[j] == pre@[j]);
            assert(pre.deep_view()[j] == pre@[j].deep_view());
        } else {
            assert(post@[j] == x);
        }
    }
    assert(post.deep_view() =~= pre.deep_view().push(x@));
}

/// The pieces joined with the separator between consecutive pieces.
pub open spec fn join_seqs(parts: Seq<Seq<char>>, sep: Seq<char>) -> Seq<char>
    decreases parts.len(),
{
    if parts.len() == 0 {
        Seq::empty()
    } else if parts.len() == 1 {
        parts[0]
    } else {
        join_seqs(parts.drop_last(), sep) + sep + parts.last()
    }
}

/// Joins the strings with the separator between consecutive entries.
pub fn join_strings(parts: &Vec<String>, sep: &str) -> (r: String)
    ensures
        r@ == join_seqs(parts.deep_view(), sep@),
{
    let mut r = String::new();
    let mut i: usize = 0;
    while i < parts.len()
        invariant
            i <= parts@.len(),
            r@ == join_seqs(parts.deep_view().take(i as int), sep@),
        decreases parts@.len() - i,
    {
        if i > 0 {
            r.append(sep);
        }
        r.append(parts[i].as_str());
        proof {
            let pre = parts.deep_view().take(i as int);
            let cur = parts.deep_view().take(i + 1int);
            assert(cur.drop_last() =~= pre);
            assert(cur.last() == parts.deep_view()[i as int]);
            if i == 0 {
                assert(r@ =~= join_seqs(cur, sep@));
            } else {
                assert(r@ =~= join_seqs(cur, sep@));
            }
        }
        i = i + 1;
    }
    proof {
        assert(parts.deep_view().take(parts@.len() as int) =~= parts.deep_view());
    }
    r
}

} // verus!

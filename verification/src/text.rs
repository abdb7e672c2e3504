//! Verified text utilities: substring search, prefix tests, trimming,
//! splitting on a separator character, and decimal formatting.
//!
//! The wire protocol is plain ASCII text, so these small routines carry the
//! whole parsing and formatting load of the crate.  Every function's result
//! is pinned down by a specification over the string's view (`Seq<char>`).

use vstd::prelude::*;

verus! {

// ---------------------------------------------------------------------------
// Spec-level predicates and functions
// ---------------------------------------------------------------------------

/// `needle` occurs in `hay` starting at position `i`.
pub open spec fn occurs_at(hay: Seq<char>, needle: Seq<char>, i: int) -> bool {
    0 <= i && i + needle.len() <= hay.len() && hay.subrange(i, i + needle.len()) == needle
}

/// `needle` occurs somewhere in `hay`.
pub open spec fn text_contains(hay: Seq<char>, needle: Seq<char>) -> bool {
    exists|i: int| occurs_at(hay, needle, i)
}

/// `prefix` is a prefix of `s`.
pub open spec fn text_starts_with(s: Seq<char>, prefix: Seq<char>) -> bool {
    prefix.len() <= s.len() && s.subrange(0, prefix.len() as int) == prefix
}

/// The whitespace characters that matter for this ASCII protocol.
pub open spec fn is_blank_char(c: char) -> bool {
    c == ' ' || c == '\t' || c == '\r' || c == '\n'
}

/// `s` with leading blanks removed.
pub open spec fn trim_front(s: Seq<char>) -> Seq<char>
    decreases s.len(),
{
    if s.len() > 0 && is_blank_char(s[0]) {
        trim_front(s.drop_first())
    } else {
        s
    }
}

/// `s` with trailing blanks removed.
pub open spec fn trim_back(s: Seq<char>) -> Seq<char>
    decreases s.len(),
{
    if s.len() > 0 && is_blank_char(s.last()) {
        trim_back(s.drop_last())
    } else {
        s
    }
}

/// `s` with blanks removed from both ends.
pub open spec fn text_trim(s: Seq<char>) -> Seq<char> {
    trim_back(trim_front(s))
}

/// The fields of `s` separated by `sep`; always at least one field, and one
/// more field than there are separator occurrences.
pub open spec fn split_text(s: Seq<char>, sep: char) -> Seq<Seq<char>>
    decreases s.len(),
{
    if s.len() == 0 {
        seq![Seq::<char>::empty()]
    } else if s[0] == sep {
        seq![Seq::<char>::empty()] + split_text(s.drop_first(), sep)
    } else {
        let rest = split_text(s.drop_first(), sep);
        seq![seq![s[0]] + rest[0]] + rest.subrange(1, rest.len() as int)
    }
}

/// The digit character for a value in `[0, 10)`.
pub open spec fn digit_char(d: int) -> char {
    if d == 0 {
        '0'
    } else if d == 1 {
        '1'
    } else if d == 2 {
        '2'
    } else if d == 3 {
        '3'
    } else if d == 4 {
        '4'
    } else if d == 5 {
        '5'
    } else if d == 6 {
        '6'
    } else if d == 7 {
        '7'
    } else if d == 8 {
        '8'
    } else {
        '9'
    }
}

/// The decimal digit string of `n`, most significant digit first.
pub open spec fn dec_digits(n: nat) -> Seq<char>
    decreases n,
{
    if n < 10 {
        seq![digit_char(n as int)]
    } else {
        dec_digits(n / 10) + seq![digit_char((n % 10) as int)]
    }
}

/// The decimal string of `n`, with a leading minus sign when negative.
pub open spec fn int_digits(n: int) -> Seq<char> {
    if n < 0 {
        seq!['-'] + dec_digits((-n) as nat)
    } else {
        dec_digits(n as nat)
    }
}

// ---------------------------------------------------------------------------
// Lemmas
// ---------------------------------------------------------------------------

/// Trimming never lengthens a string.
pub proof fn lemma_trim_front_len(s: Seq<char>)
    ensures
        trim_front(s).len() <= s.len(),
    decreases s.len(),
{
    if s.len() > 0 && is_blank_char(s[0]) {
        lemma_trim_front_len(s.drop_first());
    }
}

/// Trimming never lengthens a string.
pub proof fn lemma_trim_back_len(s: Seq<char>)
    ensures
        trim_back(s).len() <= s.len(),
    decreases s.len(),
{
    if s.len() > 0 && is_blank_char(s.last()) {
        lemma_trim_back_len(s.drop_last());
    }
}

/// Trimming never lengthens a string.
pub proof fn lemma_text_trim_len(s: Seq<char>)
    ensures
        text_trim(s).len() <= s.len(),
{
    lemma_trim_front_len(s);
    lemma_trim_back_len(trim_front(s));
}

/// Splitting always yields at least one field.
pub proof fn lemma_split_text_nonempty(s: Seq<char>, sep: char)
    ensures
        split_text(s, sep).len() >= 1,
    decreases s.len(),
{
    if s.len() != 0 {
        lemma_split_text_nonempty(s.drop_first(), sep);
    }
}

/// Every field of a split is no longer than the string that was split.
pub proof fn lemma_split_text_field_len(s: Seq<char>, sep: char, i: int)
    requires
        0 <= i < split_text(s, sep).len(),
    ensures
        split_text(s, sep)[i].len() <= s.len(),
    decreases s.len(),
{
    if s.len() == 0 {
    } else if s[0] == sep {
        if i > 0 {
            lemma_split_text_field_len(s.drop_first(), sep, i - 1);
        }
    } else {
        let rest = split_text(s.drop_first(), sep);
        lemma_split_text_nonempty(s.drop_first(), sep);
        if i == 0 {
            lemma_split_text_field_len(s.drop_first(), sep, 0);
        } else {
            lemma_split_text_field_len(s.drop_first(), sep, i);
        }
    }
}

/// How a split grows when one character is appended: a separator opens a new
/// empty field, any other character extends the last field.
pub proof fn lemma_split_text_push(s: Seq<char>, sep: char, c: char)
    ensures
        c == sep ==> split_text(s.push(c), sep) == split_text(s, sep).push(Seq::<char>::empty()),
        c != sep ==> split_text(s.push(c), sep) == split_text(s, sep).update(
            split_text(s, sep).len() - 1,
            split_text(s, sep).last().push(c),
        ),
    decreases s.len(),
{
    lemma_split_text_nonempty(s, sep);
    if s.len() == 0 {
        let t = s.push(c);
        assert(t.len() == 1 && t[0] == c);
        assert(t.drop_first() =~= Seq::<char>::empty());
        if c == sep {
            assert(split_text(t, sep) == seq![Seq::<char>::empty()] + split_text(
                t.drop_first(),
                sep,
            ));
            assert(split_text(t.drop_first(), sep) =~~= seq![Seq::<char>::empty()]);
            assert(split_text(t, sep) =~~= split_text(s, sep).push(Seq::<char>::empty()));
        } else {
            let rest = split_text(t.drop_first(), sep);
            assert(rest =~~= seq![Seq::<char>::empty()]);
            assert(seq![t[0]] + rest[0] =~= seq![c]);
            assert(split_text(s, sep).last() =~= Seq::<char>::empty());
            assert(split_text(t, sep) =~~= split_text(s, sep).update(
                0,
                split_text(s, sep).last().push(c),
            ));
        }
    } else {
        let t = s.push(c);
        assert(t[0] == s[0]);
        assert(t.drop_first() =~= s.drop_first().push(c));
        lemma_split_text_push(s.drop_first(), sep, c);
        lemma_split_text_nonempty(s.drop_first(), sep);
        let srest = split_text(s.drop_first(), sep);
        let trest = split_text(t.drop_first(), sep);
        if c == sep {
            assert(trest =~~= srest.push(Seq::<char>::empty()));
            if s[0] == sep {
                assert(split_text(t, sep) =~~= split_text(s, sep).push(Seq::<char>::empty()));
            } else {
                assert(trest.subrange(1, trest.len() as int) =~~= srest.subrange(
                    1,
                    srest.len() as int,
                ).push(Seq::<char>::empty()));
                assert(split_text(t, sep) =~~= split_text(s, sep).push(Seq::<char>::empty()));
            }
        } else {
            assert(trest =~~= srest.update(srest.len() - 1, srest.last().push(c)));
            if s[0] == sep {
                assert(split_text(s, sep).last() == srest.last());
                assert(split_text(t, sep) =~~= split_text(s, sep).update(
                    split_text(s, sep).len() - 1,
                    split_text(s, sep).last().push(c),
                ));
            } else {
                if srest.len() == 1 {
                    assert(trest[0] == srest[0].push(c));
                    assert(split_text(t, sep) =~~= split_text(s, sep).update(
                        split_text(s, sep).len() - 1,
                        split_text(s, sep).last().push(c),
                    ));
                } else {
                    assert(trest[0] == srest[0]);
                    assert(trest.subrange(1, trest.len() as int) =~~= srest.subrange(
                        1,
                        srest.len() as int,
                    ).update(srest.len() - 2, srest.last().push(c)));
                    assert(split_text(s, sep).last() == srest.last());
                    assert(split_text(t, sep) =~~= split_text(s, sep).update(
                        split_text(s, sep).len() - 1,
                        split_text(s, sep).last().push(c),
                    ));
                }
            }
        }
    }
}

// ---------------------------------------------------------------------------
// Executable functions
// ---------------------------------------------------------------------------

/// Whether `needle` matches `hay` at position `at`.
fn str_matches_at(hay: &str, needle: &str, at: usize) -> (r: bool)
    requires
        at + needle@.len() <= hay@.len(),
    ensures
        r == occurs_at(hay@, needle@, at as int),
{
    let n = needle.unicode_len();
    let hlen = hay.unicode_len();
    let mut j: usize = 0;
    while j < n
        invariant
            0 <= j <= n,
            n == needle@.len(),
            hlen == hay@.len(),
            at + n <= hlen,
            forall|k: int| 0 <= k < j ==> hay@[at + k] == needle@[k],
        decreases n - j,
    {
        if hay.get_char(at + j) != needle.get_char(j) {
            proof {
                if occurs_at(hay@, needle@, at as int) {
                    assert(hay@.subrange(at as int, at + needle@.len())[j as int] == hay@[at + j]);
                }
            }
            return false;
        }
        j += 1;
    }
    proof {
        assert(hay@.subrange(at as int, at + needle@.len()) =~= needle@);
    }
    true
}

/// Whether `hay` contains `needle` as a substring.
pub fn str_contains(hay: &str, needle: &str) -> (r: bool)
    ensures
        r == text_contains(hay@, needle@),
{
    let hn = hay.unicode_len();
    let nn = needle.unicode_len();
    if nn > hn {
        return false;
    }
    if nn == 0 {
        assert(hay@.subrange(0, 0) =~= needle@);
        assert(occurs_at(hay@, needle@, 0));
        return true;
    }
    let mut i: usize = 0;
    while i <= hn - nn
        invariant
            0 <= i <= hn - nn + 1,
            0 < nn <= hn,
            hn == hay@.len(),
            nn == needle@.len(),
            forall|k: int| 0 <= k < i ==> !occurs_at(hay@, needle@, k),
        decreases hn - nn + 1 - i,
    {
        if str_matches_at(hay, needle, i) {
            assert(occurs_at(hay@, needle@, i as int));
            return true;
        }
        i += 1;
    }
    false
}

/// Whether `s` starts with `prefix`.
pub fn str_starts_with(s: &str, prefix: &str) -> (r: bool)
    ensures
        r == text_starts_with(s@, prefix@),
{
    if prefix.unicode_len() > s.unicode_len() {
        return false;
    }
    str_matches_at(s, prefix, 0)
}

/// Whether two string slices hold the same characters.
pub fn str_eq(a: &str, b: &str) -> (r: bool)
    ensures
        r == (a@ == b@),
{
    let n = a.unicode_len();
    if n != b.unicode_len() {
        return false;
    }
    let mut i: usize = 0;
    while i < n
        invariant
            0 <= i <= n,
            n == a@.len(),
            n == b@.len(),
            forall|k: int| 0 <= k < i ==> a@[k] == b@[k],
        decreases n - i,
    {
        if a.get_char(i) != b.get_char(i) {
            return false;
        }
        i += 1;
    }
    proof {
        assert(a@ =~= b@);
    }
    true
}

/// `s` with blanks removed from both ends, as a borrowed slice.
pub fn str_trim<'a>(s: &'a str) -> (r: &'a str)
    ensures
        r@ == text_trim(s@),
{
    let n = s.unicode_len();
    proof {
        assert(s@.subrange(0, n as int) =~= s@);
    }
    let mut a: usize = 0;
    while a < n && is_blank(s.get_char(a))
        invariant
            0 <= a <= n,
            n == s@.len(),
            trim_front(s@) == trim_front(s@.subrange(a as int, n as int)),
        decreases n - a,
    {
        proof {
            let cur = s@.subrange(a as int, n as int);
            assert(cur[0] == s@[a as int]);
            assert(cur.drop_first() =~= s@.subrange(a + 1, n as int));
        }
        a += 1;
    }
    proof {
        let cur = s@.subrange(a as int, n as int);
        if a < n {
            assert(cur[0] == s@[a as int]);
        }
        assert(trim_front(cur) == cur);
    }
    let mut b: usize = n;
    while b > a && is_blank(s.get_char(b - 1))
        invariant
            a <= b <= n,
            n == s@.len(),
            trim_front(s@) == s@.subrange(a as int, n as int),
            trim_back(s@.subrange(a as int, n as int)) == trim_back(
                s@.subrange(a as int, b as int),
            ),
        decreases b,
    {
        proof {
            let cur = s@.subrange(a as int, b as int);
            assert(cur.last() == s@[b - 1]);
            assert(cur.drop_last() =~= s@.subrange(a as int, b - 1));
        }
        b -= 1;
    }
    proof {
        let cur = s@.subrange(a as int, b as int);
        if b > a {
            assert(cur.last() == s@[b - 1]);
        }
        assert(trim_back(cur) == cur);
    }
    s.substring_char(a, b)
}

/// Whether `c` is one of the protocol's whitespace characters.
pub fn is_blank(c: char) -> (r: bool)
    ensures
        r == is_blank_char(c),
{
    c == ' ' || c == '\t' || c == '\r' || c == '\n'
}

/// The fields of `s` separated by `sep`.
pub fn split_string(s: &str, sep: char) -> (parts: Vec<String>)
    ensures
        parts@.map_values(|p: String| p@) == split_text(s@, sep),
{
    let n = s.unicode_len();
    let mut parts: Vec<String> = Vec::new();
    proof {
        assert(s@.subrange(0, 0) =~= Seq::<char>::empty());
        assert(parts@.map_values(|p: String| p@) =~= Seq::<Seq<char>>::empty());
        assert(split_text(Seq::<char>::empty(), sep) =~~= parts@.map_values(
            |p: String| p@,
        ).push(Seq::<char>::empty()));
    }
    let mut start: usize = 0;
    let mut i: usize = 0;
    while i < n
        invariant
            0 <= start <= i <= n,
            n == s@.len(),
            split_text(s@.subrange(0, i as int), sep) == parts@.map_values(|p: String| p@).push(
                s@.subrange(start as int, i as int),
            ),
        decreases n - i,
    {
        let c = s.get_char(i);
        proof {
            lemma_split_text_push(s@.subrange(0, i as int), sep, c);
            assert(s@.subrange(0, i + 1) =~= s@.subrange(0, i as int).push(c));
        }
        if c == sep {
            let field = s.substring_char(start, i).to_owned();
            parts.push(field);
            proof {
                let m = parts@.map_values(|p: String| p@);
                assert(m =~~= m.subrange(0, m.len() - 1).push(s@.subrange(
                    start as int,
                    i as int,
                )));
                assert(split_text(s@.subrange(0, i + 1), sep) =~~= m.push(s@.subrange(
                    i + 1,
                    i + 1,
                )));
            }
            start = i + 1;
        } else {
            proof {
                let m = parts@.map_values(|p: String| p@);
                let old_split = split_text(s@.subrange(0, i as int), sep);
                assert(old_split.update(old_split.len() - 1, old_split.last().push(c)) =~~= m.push(
                    s@.subrange(start as int, i as int).push(c),
                ));
                assert(s@.subrange(start as int, i as int).push(c) =~= s@.subrange(
                    start as int,
                    i + 1,
                ));
            }
        }
        i += 1;
    }
    let field = s.substring_char(start, n).to_owned();
    parts.push(field);
    proof {
        assert(s@.subrange(0, n as int) =~= s@);
        let m = parts@.map_values(|p: String| p@);
        assert(m =~~= m.subrange(0, m.len() - 1).push(s@.subrange(start as int, n as int)));
    }
    parts
}

/// The decimal digit, as a one-character string slice.
fn digit_str(d: u32) -> (r: &'static str)
    requires
        d < 10,
    ensures
        r@ == seq![digit_char(d as int)],
{
    if d == 0 {
        proof {
            reveal_strlit("0");
        }
        assert("0"@ =~= seq![digit_char(0)]);
        "0"
    } else if d == 1 {
        proof {
            reveal_strlit("1");
        }
        assert("1"@ =~= seq![digit_char(1)]);
        "1"
    } else if d == 2 {
        proof {
            reveal_strlit("2");
        }
        assert("2"@ =~= seq![digit_char(2)]);
        "2"
    } else if d == 3 {
        proof {
            reveal_strlit("3");
        }
        assert("3"@ =~= seq![digit_char(3)]);
        "3"
    } else if d == 4 {
        proof {
            reveal_strlit("4");
        }
        assert("4"@ =~= seq![digit_char(4)]);
        "4"
    } else if d == 5 {
        proof {
            reveal_strlit("5");
        }
        assert("5"@ =~= seq![digit_char(5)]);
        "5"
    } else if d == 6 {
        proof {
            reveal_strlit("6");
        }
        assert("6"@ =~= seq![digit_char(6)]);
        "6"
    } else if d == 7 {
        proof {
            reveal_strlit("7");
        }
        assert("7"@ =~= seq![digit_char(7)]);
        "7"
    } else if d == 8 {
        proof {
            reveal_strlit("8");
        }
        assert("8"@ =~= seq![digit_char(8)]);
        "8"
    } else {
        proof {
            reveal_strlit("9");
        }
        assert("9"@ =~= seq![digit_char(9)]);
        "9"
    }
}

/// The decimal string of an unsigned number.
pub fn u32_string(n: u32) -> (r: String)
    ensures
        r@ == dec_digits(n as nat),
    decreases n,
{
    if n < 10 {
        digit_str(n).to_owned()
    } else {
        let mut front = u32_string(n / 10);
        front.append(digit_str(n % 10));
        front
    }
}

/// The decimal string of a signed number.
pub fn i32_string(n: i32) -> (r: String)
    ensures
        r@ == int_digits(n as int),
{
    if n >= 0 {
        u32_string(n as u32)
    } else {
        let m: i64 = -(n as i64);
        assert(1 <= m <= 0x8000_0000);
        let mut r = "-".to_owned();
        proof {
            reveal_strlit("-");
            assert("-"@ =~= seq!['-']);
        }
        let digits = u32_string(m as u32);
        r.append(digits.as_str());
        r
    }
}

} // verus!

//! Plain text helpers: substring containment, splitting a file into lines,
//! and decimal rendering of counters.

use vstd::prelude::*;

verus! {

/// True when `needle` occurs as a contiguous run of characters inside `hay`.
pub open spec fn contains_seq(hay: Seq<char>, needle: Seq<char>) -> bool {
    exists|i: int|
        0 <= i && i + needle.len() <= hay.len() && #[trigger] hay.subrange(
            i,
            i + needle.len() as int,
        ) == needle
}

/// True when the text holds the terminal escape character; such text can be
/// rewritten by the colouring layer, so nothing is promised about it there.
pub open spec fn has_escape(s: Seq<char>) -> bool {
    s.contains('\u{1b}')
}

pub proof fn lemma_contains_self(s: Seq<char>)
    ensures
        contains_seq(s, s),
{
    assert(s.subrange(0, 0 + s.len() as int) =~= s);
}

pub proof fn lemma_contains_concat_left(a: Seq<char>, b: Seq<char>, needle: Seq<char>)
    requires
        contains_seq(a, needle),
    ensures
        contains_seq(a + b, needle),
{
    let i = choose|i: int|
        0 <= i && i + needle.len() <= a.len() && #[trigger] a.subrange(i, i + needle.len() as int)
            == needle;
    assert((a + b).subrange(i, i + needle.len() as int) == needle) by {
        assert((a + b).subrange(i, i + needle.len() as int) =~= a.subrange(
            i,
            i + needle.len() as int,
        ));
    }
}

pub proof fn lemma_contains_concat_right(a: Seq<char>, b: Seq<char>, needle: Seq<char>)
    requires
        contains_seq(b, needle),
    ensures
        contains_seq(a + b, needle),
{
    let i = choose|i: int|
        0 <= i && i + needle.len() <= b.len() && #[trigger] b.subrange(i, i + needle.len() as int)
            == needle;
    let j = a.len() as int + i;
    assert((a + b).subrange(j, j + needle.len() as int) == needle) by {
        assert((a + b).subrange(j, j + needle.len() as int) =~= b.subrange(
            i,
            i + needle.len() as int,
        ));
    }
}

/// Whether `needle` sits at offset `i` of `hay`.
fn matches_at(hay: &str, needle: &str, i: usize, n: usize, m: usize) -> (b: bool)
    requires
        n == hay@.len(),
        m == needle@.len(),
        i + m <= n,
    ensures
        b == (hay@.subrange(i as int, i as int + m as int) == needle@),
{
    let mut j: usize = 0;
    while j < m
        invariant
            n == hay@.len(),
            m == needle@.len(),
            i + m <= n,
            j <= m,
            forall|j0: int| 0 <= j0 < j ==> hay@[i + j0] == needle@[j0],
        decreases m - j,
    {
        if hay.get_char(i + j) != needle.get_char(j) {
            assert(hay@.subrange(i as int, i as int + m as int) != needle@) by {
                assert(hay@.subrange(i as int, i as int + m as int)[j as int] == hay@[i + j]);
            }
            return false;
        }
        j += 1;
    }
    assert(hay@.subrange(i as int, i as int + m as int) =~= needle@);
    true
}

/// Substring search, the way the audit matches every marker.
pub fn contains_substr(hay: &str, needle: &str) -> (b: bool)
    ensures
        b == contains_seq(hay@, needle@),
{
    let n = hay.unicode_len();
    let m = needle.unicode_len();
    if m > n {
        return false;
    }
    if m == 0 {
        proof {
            assert(hay@.subrange(0, 0 + needle@.len() as int) =~= needle@);
        }
        return true;
    }
    let mut i: usize = 0;
    while i <= n - m
        invariant
            n == hay@.len(),
            m == needle@.len(),
            1 <= m <= n,
            i <= n - m + 1,
            forall|i0: int|
                0 <= i0 < i ==> #[trigger] hay@.subrange(i0, i0 + m as int) != needle@,
        decreases n - m + 1 - i,
    {
        if matches_at(hay, needle, i, n, m) {
            return true;
        }
        i += 1;
    }
    false
}

/// Offset of the first newline in `s`, or `s.len()` when there is none.
pub open spec fn line_break(s: Seq<char>) -> int
    decreases s.len(),
{
    if s.len() == 0 {
        0
    } else if s[0] == '\n' {
        0
    } else {
        1 + line_break(s.drop_first())
    }
}

pub proof fn lemma_line_break(s: Seq<char>)
    ensures
        0 <= line_break(s) <= s.len(),
        forall|j: int| 0 <= j < line_break(s) ==> s[j] != '\n',
        line_break(s) < s.len() ==> s[line_break(s)] == '\n',
    decreases s.len(),
{
    if s.len() == 0 {
    } else if s[0] == '\n' {
    } else {
        lemma_line_break(s.drop_first());
        assert forall|j: int| 0 <= j < line_break(s) implies s[j] != '\n' by {
            if j > 0 {
                assert(s.drop_first()[j - 1] != '\n');
            }
        }
    }
}

/// The lines of a file: the text split at every newline character.
pub open spec fn split_lines_spec(s: Seq<char>) -> Seq<Seq<char>>
    decreases s.len(),
{
    let i = line_break(s);
    if 0 <= i < s.len() {
        seq![s.subrange(0, i)] + split_lines_spec(s.subrange(i + 1, s.len() as int))
    } else {
        seq![s]
    }
}

pub proof fn lemma_split_no_newline(s: Seq<char>)
    requires
        forall|j: int| 0 <= j < s.len() ==> s[j] != '\n',
    ensures
        split_lines_spec(s) == seq![s],
{
    lemma_line_break(s);
    if line_break(s) < s.len() {
        assert(s[line_break(s)] == '\n');
    }
}

pub proof fn lemma_split_first_newline(s: Seq<char>, p: int)
    requires
        0 <= p < s.len(),
        s[p] == '\n',
        forall|j: int| 0 <= j < p ==> s[j] != '\n',
    ensures
        line_break(s) == p,
        split_lines_spec(s) == seq![s.subrange(0, p)] + split_lines_spec(
            s.subrange(p + 1, s.len() as int),
        ),
    decreases p,
{
    if p == 0 {
    } else {
        assert forall|j: int| 0 <= j < p - 1 implies s.drop_first()[j] != '\n' by {
            assert(s[j + 1] != '\n');
        }
        lemma_split_first_newline(s.drop_first(), p - 1);
    }
}

/// Splits a file's content into its lines; a file with no newline is one
/// line, and every newline ends a line, so there is always at least one.
pub fn split_lines(content: &str) -> (lines: Vec<&str>)
    ensures
        lines@.map_values(|l: &str| l@) == split_lines_spec(content@),
        lines@.len() >= 1,
{
    let n = content.unicode_len();
    let mut lines: Vec<&str> = Vec::new();
    let mut start: usize = 0;
    let mut i: usize = 0;
    proof {
        assert(lines@.map_values(|l: &str| l@) =~= Seq::<Seq<char>>::empty());
        assert(content@.subrange(0, n as int) =~= content@);
        assert(split_lines_spec(content@) =~= lines@.map_values(|l: &str| l@) + split_lines_spec(
            content@.subrange(0, n as int),
        ));
    }
    while i < n
        invariant
            n == content@.len(),
            start <= i <= n,
            forall|j: int| start <= j < i ==> content@[j] != '\n',
            split_lines_spec(content@) == lines@.map_values(|l: &str| l@) + split_lines_spec(
                content@.subrange(start as int, n as int),
            ),
        decreases n - i,
    {
        if content.get_char(i) == '\n' {
            let line = content.substring_char(start, i);
            proof {
                let t = content@.subrange(start as int, n as int);
                assert forall|j: int| 0 <= j < i - start implies t[j] != '\n' by {
                    assert(content@[start + j] != '\n');
                }
                lemma_split_first_newline(t, i - start);
                assert(t.subrange(0, i - start) =~= content@.subrange(start as int, i as int));
                assert(t.subrange(i - start + 1, t.len() as int) =~= content@.subrange(
                    i as int + 1,
                    n as int,
                ));
                assert((lines@ + seq![line]).map_values(|l: &str| l@) =~= lines@.map_values(
                    |l: &str| l@,
                ) + seq![line@]);
            }
            lines.push(line);
            start = i + 1;
        }
        i += 1;
    }
    let last = content.substring_char(start, n);
    proof {
        let t = content@.subrange(start as int, n as int);
        assert forall|j: int| 0 <= j < t.len() implies t[j] != '\n' by {
            assert(content@[start + j] != '\n');
        }
        lemma_split_no_newline(t);
        assert((lines@ + seq![last]).map_values(|l: &str| l@) =~= lines@.map_values(|l: &str| l@)
            + seq![last@]);
    }
    lines.push(last);
    proof {
        assert(lines@.map_values(|l: &str| l@) =~= split_lines_spec(content@));
    }
    lines
}

/// The character for one decimal digit.
pub open spec fn digit_char(d: nat) -> char {
    if d == 0 {
        '0'
    } else if d == 1 {
        '1'
    } else if d == 2 {
        '2'
    } else if d == 3 {
        '3'
    } else if d == 4 {
        '4'
    } else if d == 5 {
        '5'
    } else if d == 6 {
        '6'
    } else if d == 7 {
        '7'
    } else if d == 8 {
        '8'
    } else {
        '9'
    }
}

/// The usual decimal writing of a number, most significant digit first.
pub open spec fn dec_rep(n: nat) -> Seq<char>
    decreases n,
{
    if n < 10 {
        seq![digit_char(n)]
    } else {
        dec_rep(n / 10) + seq![digit_char(n % 10)]
    }
}

/// A decimal writing never holds the terminal escape character, so the
/// colouring layer passes it through verbatim.
pub proof fn lemma_dec_rep_plain(n: nat)
    ensures
        !has_escape(dec_rep(n)),
    decreases n,
{
    if n < 10 {
    } else {
        lemma_dec_rep_plain(n / 10);
        assert forall|i: int| 0 <= i < dec_rep(n).len() implies dec_rep(n)[i] != '\u{1b}' by {
            if i < dec_rep(n / 10).len() {
                assert(dec_rep(n / 10)[i] != '\u{1b}');
            }
        }
    }
}

fn digit_str(d: u64) -> (r: &'static str)
    requires
        d < 10,
    ensures
        r@ == seq![digit_char(d as nat)],
{
    let r: &'static str = if d == 0 {
        "0"
    } else if d == 1 {
        "1"
    } else if d == 2 {
        "2"
    } else if d == 3 {
        "3"
    } else if d == 4 {
        "4"
    } else if d == 5 {
        "5"
    } else if d == 6 {
        "6"
    } else if d == 7 {
        "7"
    } else if d == 8 {
        "8"
    } else {
        "9"
    };
    proof {
        reveal_strlit("0");
        reveal_strlit("1");
        reveal_strlit("2");
        reveal_strlit("3");
        reveal_strlit("4");
        reveal_strlit("5");
        reveal_strlit("6");
        reveal_strlit("7");
        reveal_strlit("8");
        reveal_strlit("9");
        assert(r@ =~= seq![digit_char(d as nat)]);
    }
    r
}

/// Renders a counter in decimal, exactly as its mathematical writing.
pub fn u64_to_string(n: u64) -> (r: String)
    ensures
        r@ == dec_rep(n as nat),
    decreases n,
{
    if n < 10 {
        String::from_str(digit_str(n))
    } else {
        let mut s = u64_to_string(n / 10);
        s.append(digit_str(n % 10));
        s
    }
}

} // verus!

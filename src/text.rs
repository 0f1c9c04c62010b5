//! Small string helpers over character sequences.
use vstd::prelude::*;

verus! {

pub open spec fn digit_char(d: nat) -> char {
    if d == 0 {
        '0'
    } else if d == 1 {
        '1'
    } else if d == 2 {
        '2'
    } else if d == 3 {
        '3'
    } else if d == 4 {
        '4'
    } else if d == 5 {
        '5'
    } else if d == 6 {
        '6'
    } else if d == 7 {
        '7'
    } else if d == 8 {
        '8'
    } else {
        '9'
    }
}

/// The decimal notation of a natural number, most significant digit first.
pub open spec fn decimal(n: nat) -> Seq<char>
    decreases n,
{
    if n < 10 {
        seq![digit_char(n)]
    } else {
        decimal(n / 10).push(digit_char(n % 10))
    }
}

fn digit_str(d: usize) -> (r: &'static str)
    requires
        d < 10,
    ensures
        r@ == seq![digit_char(d as nat)],
{
    proof {
        reveal_strlit("0");
        reveal_strlit("1");
        reveal_strlit("2");
        reveal_strlit("3");
        reveal_strlit("4");
        reveal_strlit("5");
        reveal_strlit("6");
        reveal_strlit("7");
        reveal_strlit("8");
        reveal_strlit("9");
    }
    if d == 0 {
        "0"
    } else if d == 1 {
        "1"
    } else if d == 2 {
        "2"
    } else if d == 3 {
        "3"
    } else if d == 4 {
        "4"
    } else if d == 5 {
        "5"
    } else if d == 6 {
        "6"
    } else if d == 7 {
        "7"
    } else if d == 8 {
        "8"
    } else {
        "9"
    }
}

/// Writes `n` in decimal.
pub fn decimal_string(n: usize) -> (r: String)
    ensures
        r@ == decimal(n as nat),
    decreases n,
{
    if n < 10 {
        String::from_str(digit_str(n))
    } else {
        let mut s = decimal_string(n / 10);
        s.append(digit_str(n % 10));
        s
    }
}

/// Copies an optional string.
pub fn copy_opt(o: &Option<String>) -> (r: Option<String>)
    ensures
        r == *o,
{
    match o {
        Some(s) => Some(s.clone()),
        None => None,
    }
}

/// A line feed.
pub fn newline() -> (r: &'static str)
    ensures
        r@ == seq!['\n'],
{
    proof {
        reveal_strlit("\n");
    }
    "\n"
}

/// A hyphen.
pub fn hyphen() -> (r: &'static str)
    ensures
        r@ == seq!['-'],
{
    proof {
        reveal_strlit("-");
    }
    "-"
}

/// A number sign.
pub fn hash_sign() -> (r: &'static str)
    ensures
        r@ == seq!['#'],
{
    proof {
        reveal_strlit("#");
    }
    "#"
}

/// The empty text.
pub fn empty_text() -> (r: &'static str)
    ensures
        r@ == Seq::<char>::empty(),
{
    proof {
        reveal_strlit("");
    }
    ""
}

/// The characters of `s` from `start` up to `end`, or nothing when that range
/// does not lie within `s`.
pub open spec fn text_between(s: Seq<char>, start: int, end: int) -> Seq<char> {
    if 0 <= start <= end <= s.len() {
        s.subrange(start, end)
    } else {
        Seq::empty()
    }
}

pub fn substring(s: &str, start: usize, end: usize) -> (r: String)
    ensures
        r@ == text_between(s@, start as int, end as int),
{
    if start <= end && end <= s.unicode_len() {
        String::from_str(s.substring_char(start, end))
    } else {
        String::new()
    }
}

/// `s` with every carriage return that precedes a line feed removed.
pub open spec fn normalize_newlines(s: Seq<char>) -> Seq<char>
    decreases s.len(),
{
    if s.len() < 2 {
        s
    } else if s[0] == '\r' && s[1] == '\n' {
        seq!['\n'] + normalize_newlines(s.subrange(2, s.len() as int))
    } else {
        seq![s[0]] + normalize_newlines(s.subrange(1, s.len() as int))
    }
}

pub fn normalized_newlines(s: &str) -> (r: String)
    ensures
        r@ == normalize_newlines(s@),
{
    proof {
        reveal_strlit("\n");
    }
    let n = s.unicode_len();
    let mut out = String::new();
    let mut i: usize = 0;
    assert(s@.subrange(0, n as int) =~= s@);
    assert(out@ + normalize_newlines(s@) =~= normalize_newlines(s@));
    while i < n
        invariant
            n == s@.len(),
            0 <= i <= n,
            out@ + normalize_newlines(s@.subrange(i as int, n as int)) == normalize_newlines(s@),
        decreases n - i,
    {
        let ghost rest = s@.subrange(i as int, n as int);
        if i + 1 < n && s.get_char(i) == '\r' && s.get_char(i + 1) == '\n' {
            assert(rest.subrange(2, rest.len() as int) =~= s@.subrange(i + 2, n as int));
            assert(rest[0] == '\r' && rest[1] == '\n');
            assert(normalize_newlines(rest) == seq!['\n'] + normalize_newlines(
                rest.subrange(2, rest.len() as int),
            ));
            let ghost before = out@;
            out.append(newline());
            assert(out@ + normalize_newlines(s@.subrange(i + 2, n as int)) =~= before
                + normalize_newlines(rest));
            i += 2;
        } else {
            proof {
                if rest.len() >= 2 {
                    assert(rest.subrange(1, rest.len() as int) =~= s@.subrange(i + 1, n as int));
                } else {
                    assert(s@.subrange(i + 1, n as int) =~= Seq::<char>::empty());
                    assert(normalize_newlines(rest) == rest);
                    assert(rest =~= seq![s@[i as int]] + s@.subrange(i + 1, n as int));
                }
            }
            let ghost before = out@;
            out.append(s.substring_char(i, i + 1));
            assert(out@ + normalize_newlines(s@.subrange(i + 1, n as int)) =~= before
                + normalize_newlines(rest));
            i += 1;
        }
    }
    assert(normalize_newlines(s@.subrange(n as int, n as int)) =~= Seq::<char>::empty());
    assert(out@ =~= out@ + Seq::<char>::empty());
    out
}

/// The lines joined with a line feed between each two.
pub open spec fn join_lines(lines: Seq<Seq<char>>) -> Seq<char>
    decreases lines.len(),
{
    if lines.len() == 0 {
        Seq::empty()
    } else if lines.len() == 1 {
        lines[0]
    } else {
        join_lines(lines.drop_last()) + seq!['\n'] + lines.last()
    }
}

pub fn joined_lines(lines: &Vec<String>) -> (r: String)
    ensures
        r@ == join_lines(lines@.map_values(|l: String| l@)),
{
    proof {
        reveal_strlit("\n");
    }
    let ghost views = lines@.map_values(|l: String| l@);
    let mut out = String::new();
    let mut i: usize = 0;
    while i < lines.len()
        invariant
            0 <= i <= lines@.len(),
            views == lines@.map_values(|l: String| l@),
            out@ == join_lines(views.subrange(0, i as int)),
        decreases lines@.len() - i,
    {
        let ghost next = views.subrange(0, i as int + 1);
        assert(next.drop_last() =~= views.subrange(0, i as int));
        assert(next.last() == lines@[i as int]@);
        if i > 0 {
            out.append(newline());
        }
        out.append(lines[i].as_str());
        assert(out@ =~= join_lines(next));
        i += 1;
    }
    assert(views.subrange(0, lines@.len() as int) =~= views);
    out
}

/// Whether a blank line starts at `k`: two line feeds in a row.
pub open spec fn blank_at(s: Seq<char>, k: int) -> bool {
    0 <= k && k + 1 < s.len() && s[k] == '\n' && s[k + 1] == '\n'
}

/// The first position at or after `from` where a blank line starts, or -1.
pub open spec fn first_blank(s: Seq<char>, from: int) -> int
    decreases s.len() - from,
{
    if from < 0 || from + 1 >= s.len() {
        -1
    } else if blank_at(s, from) {
        from
    } else {
        first_blank(s, from + 1)
    }
}

/// `s` cut at each blank line, from left to right; the two line feeds go.
pub open spec fn split_blank(s: Seq<char>) -> Seq<Seq<char>>
    decreases s.len(),
{
    let k = first_blank(s, 0);
    if k < 0 || k + 2 > s.len() {
        seq![s]
    } else {
        seq![s.subrange(0, k)] + split_blank(s.subrange(k + 2, s.len() as int))
    }
}

proof fn lemma_first_blank_range(s: Seq<char>, from: int)
    ensures
        first_blank(s, from) == -1 || (from <= first_blank(s, from) && blank_at(
            s,
            first_blank(s, from),
        )),
    decreases s.len() - from,
{
    if from < 0 || from + 1 >= s.len() {
    } else if blank_at(s, from) {
    } else {
        lemma_first_blank_range(s, from + 1);
    }
}

fn find_blank(s: &str) -> (r: Option<usize>)
    ensures
        r is None ==> first_blank(s@, 0) < 0,
        r matches Some(k) ==> first_blank(s@, 0) == k as int && k + 1 < s@.len(),
{
    let n = s.unicode_len();
    let mut i: usize = 0;
    while n > 0 && i < n - 1
        invariant
            n == s@.len(),
            0 <= i,
            first_blank(s@, 0) == first_blank(s@, i as int),
        decreases n - i,
    {
        if s.get_char(i) == '\n' && s.get_char(i + 1) == '\n' {
            return Some(i);
        }
        i += 1;
    }
    None
}

pub fn split_blank_lines(s: &str) -> (r: Vec<String>)
    ensures
        r@.map_values(|c: String| c@) == split_blank(s@),
    decreases s@.len(),
{
    proof {
        lemma_first_blank_range(s@, 0);
    }
    match find_blank(s) {
        None => {
            let mut r: Vec<String> = Vec::new();
            r.push(String::from_str(s));
            assert(r@.map_values(|c: String| c@) =~= split_blank(s@));
            r
        },
        Some(k) => {
            let n = s.unicode_len();
            let head = String::from_str(s.substring_char(0, k));
            let tail = s.substring_char(k + 2, n);
            let rest = split_blank_lines(tail);
            let mut r: Vec<String> = Vec::new();
            r.push(head);
            let mut i: usize = 0;
            while i < rest.len()
                invariant
                    0 <= i <= rest@.len(),
                    r@.len() == i + 1,
                    r@[0]@ == s@.subrange(0, k as int),
                    forall|j: int| 0 <= j < i ==> (#[trigger] r@[j + 1])@ == rest@[j]@,
                decreases rest@.len() - i,
            {
                r.push(rest[i].clone());
                i += 1;
            }
            assert(tail@ == s@.subrange(k + 2, s@.len() as int));
            assert(split_blank(s@) == seq![s@.subrange(0, k as int)] + split_blank(
                s@.subrange(k + 2, s@.len() as int),
            ));
            assert forall|m: int| 1 <= m < r@.len() implies (#[trigger] r@[m])@ == rest@[m - 1]@ by {
                assert(r@[(m - 1) + 1] == r@[m]);
            }
            assert(r@.map_values(|c: String| c@) =~= seq![s@.subrange(0, k as int)] + rest@.map_values(
                |c: String| c@,
            ));
            r
        },
    }
}

/// A line without the carriage return that may end it.
pub open spec fn strip_cr(l: Seq<char>) -> Seq<char> {
    if l.len() > 0 && l.last() == '\r' {
        l.drop_last()
    } else {
        l
    }
}

/// The first line feed at or after `from`, or -1.
pub open spec fn first_newline(s: Seq<char>, from: int) -> int
    decreases s.len() - from,
{
    if from < 0 || from >= s.len() {
        -1
    } else if s[from] == '\n' {
        from
    } else {
        first_newline(s, from + 1)
    }
}

/// The lines of `s`: cut at each line feed, without the carriage return just
/// before a line feed, and no empty line after a final line feed. A carriage
/// return that no line feed follows stays.
pub open spec fn lines_of(s: Seq<char>) -> Seq<Seq<char>>
    decreases s.len(),
{
    if s.len() == 0 {
        Seq::empty()
    } else {
        let k = first_newline(s, 0);
        if k < 0 || k >= s.len() {
            seq![s]
        } else {
            seq![strip_cr(s.subrange(0, k))] + lines_of(s.subrange(k + 1, s.len() as int))
        }
    }
}

pub proof fn lemma_first_newline_range(s: Seq<char>, from: int)
    ensures
        first_newline(s, from) == -1 || (from <= first_newline(s, from) < s.len() && s[first_newline(
            s,
            from,
        )] == '\n'),
    decreases s.len() - from,
{
    if from < 0 || from >= s.len() {
    } else if s[from] == '\n' {
    } else {
        lemma_first_newline_range(s, from + 1);
    }
}

pub fn without_cr(s: &str) -> (r: String)
    ensures
        r@ == strip_cr(s@),
{
    let n = s.unicode_len();
    if n > 0 && s.get_char(n - 1) == '\r' {
        String::from_str(s.substring_char(0, n - 1))
    } else {
        String::from_str(s)
    }
}

pub fn find_newline(s: &str) -> (r: Option<usize>)
    ensures
        r is None ==> first_newline(s@, 0) < 0,
        r matches Some(k) ==> first_newline(s@, 0) == k as int && k < s@.len(),
{
    let n = s.unicode_len();
    let mut i: usize = 0;
    while i < n
        invariant
            n == s@.len(),
            0 <= i <= n,
            first_newline(s@, 0) == first_newline(s@, i as int),
        decreases n - i,
    {
        if s.get_char(i) == '\n' {
            return Some(i);
        }
        i += 1;
    }
    None
}

/// The lines of `s`, as `lines_of` states them.
pub fn split_lines(s: &str) -> (r: Vec<String>)
    ensures
        r@.map_values(|l: String| l@) == lines_of(s@),
    decreases s@.len(),
{
    let n = s.unicode_len();
    if n == 0 {
        let r: Vec<String> = Vec::new();
        assert(r@.map_values(|l: String| l@) =~= lines_of(s@));
        return r;
    }
    match find_newline(s) {
        None => {
            let mut r: Vec<String> = Vec::new();
            r.push(String::from_str(s));
            assert(r@.map_values(|l: String| l@) =~= lines_of(s@));
            r
        },
        Some(k) => {
            let head = without_cr(s.substring_char(0, k));
            let tail = s.substring_char(k + 1, n);
            let rest = split_lines(tail);
            let mut r: Vec<String> = Vec::new();
            r.push(head);
            let mut i: usize = 0;
            while i < rest.len()
                invariant
                    0 <= i <= rest@.len(),
                    r@.len() == i + 1,
                    r@[0]@ == strip_cr(s@.subrange(0, k as int)),
                    forall|j: int| 0 <= j < i ==> (#[trigger] r@[j + 1])@ == rest@[j]@,
                decreases rest@.len() - i,
            {
                r.push(rest[i].clone());
                i += 1;
            }
            assert(tail@ == s@.subrange(k + 1, s@.len() as int));
            assert forall|m: int| 1 <= m < r@.len() implies (#[trigger] r@[m])@ == rest@[m - 1]@ by {
                assert(r@[(m - 1) + 1] == r@[m]);
            }
            assert(r@.map_values(|l: String| l@) =~= seq![strip_cr(s@.subrange(0, k as int))]
                + rest@.map_values(|l: String| l@));
            r
        },
    }
}

} // verus!

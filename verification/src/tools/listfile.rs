//! The community list file: file ids and their paths, one `id;path` per line.
use std::collections::HashMap;
use vstd::prelude::*;

use crate::tools::text::{chars_of, push_chars};

verus! {

broadcast use vstd::std_specs::hash::group_hash_axioms;

/// The text after the first `c`, none without one.
pub open spec fn after_char(s: Seq<char>, c: char) -> Option<Seq<char>>
    decreases s.len(),
{
    if s.len() == 0 {
        None
    } else if s[0] == c {
        Some(s.drop_first())
    } else {
        after_char(s.drop_first(), c)
    }
}

/// The text before the first `c`, all of it without one.
pub open spec fn until_char(s: Seq<char>, c: char) -> Seq<char>
    decreases s.len(),
{
    if s.len() == 0 {
        s
    } else if s[0] == c {
        Seq::empty()
    } else {
        seq![s[0]] + until_char(s.drop_first(), c)
    }
}

/// A line without the carriage return before its line feed.
pub open spec fn strip_cr(line: Seq<char>) -> Seq<char> {
    if line.len() > 0 && line.last() == '\r' {
        line.drop_last()
    } else {
        line
    }
}

/// The lines of a text as `str::lines` gives them: split at line feeds, a
/// carriage return before a line feed dropped, no line after a final line feed.
pub open spec fn text_lines(t: Seq<char>) -> Seq<Seq<char>>
    decreases t.len(),
{
    if t.len() == 0 {
        Seq::empty()
    } else {
        match after_char(t, '\n') {
            None => seq![t],
            Some(rest) => if rest.len() < t.len() {
                seq![strip_cr(until_char(t, '\n'))] + text_lines(rest)
            } else {
                Seq::empty()
            },
        }
    }
}

pub open spec fn is_digit(c: char) -> bool {
    '0' <= c && c <= '9'
}

/// The value of a sequence of decimal digits.
pub open spec fn digits_value(s: Seq<char>) -> nat
    decreases s.len(),
{
    if s.len() == 0 {
        0
    } else {
        digits_value(s.drop_last()) * 10 + ((s.last() as int) - ('0' as int)) as nat
    }
}

/// Every character is a decimal digit.
pub open spec fn all_digits(s: Seq<char>) -> bool {
    forall|i: int| 0 <= i < s.len() ==> is_digit(#[trigger] s[i])
}

/// An `i64` as `str::parse` reads it: an optional sign and at least one
/// decimal digit, in range.
pub open spec fn spec_parse_i64(s: Seq<char>) -> Option<i64> {
    let neg = s.len() > 0 && s[0] == '-';
    let body = if s.len() > 0 && (s[0] == '-' || s[0] == '+') {
        s.drop_first()
    } else {
        s
    };
    if body.len() > 0 && all_digits(body) {
        let v = digits_value(body);
        if neg && v <= 0x8000_0000_0000_0000 {
            Some((-v) as i64)
        } else if !neg && v <= 0x7fff_ffff_ffff_ffff {
            Some(v as i64)
        } else {
            None
        }
    } else {
        None
    }
}

/// The entry of one line: the id before the first `;` and the path up to the next.
pub open spec fn listfile_entry(line: Seq<char>) -> Option<(i64, Seq<char>)> {
    match spec_parse_i64(until_char(line, ';')) {
        Some(id) => match after_char(line, ';') {
            Some(rest) => Some((id, until_char(rest, ';'))),
            None => None,
        },
        None => None,
    }
}

/// The paths by id of the entries of the lines; a later line replaces an earlier one.
pub open spec fn listfile_map(lines: Seq<Seq<char>>) -> Map<i64, Seq<char>>
    decreases lines.len(),
{
    if lines.len() == 0 {
        Map::empty()
    } else {
        let m = listfile_map(lines.drop_last());
        match listfile_entry(lines.last()) {
            Some((id, path)) => m.insert(id, path),
            None => m,
        }
    }
}

/// Every line of the text is an entry.
pub open spec fn listfile_valid(t: Seq<char>) -> bool {
    forall|i: int| 0 <= i < text_lines(t).len() ==> (#[trigger] listfile_entry(text_lines(t)[i])) is Some
}

pub open spec fn paths_map_view(m: Map<i64, String>) -> Map<i64, Seq<char>> {
    m.map_values(|s: String| s@)
}

proof fn lemma_split_at(s: Seq<char>, c: char, k: int)
    requires
        0 <= k <= s.len(),
        forall|j: int| 0 <= j < k ==> s[j] != c,
    ensures
        k < s.len() && s[k] == c ==> until_char(s, c) == s.take(k) && after_char(s, c) == Some(s.skip(k + 1)),
        k == s.len() ==> until_char(s, c) == s && after_char(s, c) is None,
    decreases k,
{
    if k > 0 {
        let t = s.drop_first();
        assert forall|j: int| 0 <= j < k - 1 implies t[j] != c by {
            assert(t[j] == s[j + 1]);
        }
        lemma_split_at(t, c, k - 1);
        assert(s.take(k) =~= seq![s[0]] + t.take(k - 1));
        if k < s.len() {
            assert(s.skip(k + 1) =~= t.skip(k));
        }
        if k == s.len() {
            assert(s =~= seq![s[0]] + t);
        }
    } else {
        if s.len() > 0 {
            assert(s.take(0) =~= Seq::<char>::empty());
            assert(s.skip(1) =~= s.drop_first());
        }
    }
}

/// The first position of `c` in `cs` from `from`, or the length.
fn find_char(cs: &Vec<char>, from: usize, c: char) -> (res: usize)
    requires
        from <= cs@.len(),
    ensures
        from <= res <= cs@.len(),
        forall|j: int| from <= j < res ==> cs@[j] != c,
        res < cs@.len() ==> cs@[res as int] == c,
{
    let mut i = from;
    while i < cs.len() && cs[i] != c
        invariant
            from <= i <= cs@.len(),
            forall|j: int| from <= j < i ==> cs@[j] != c,
        decreases cs@.len() - i,
    {
        i = i + 1;
    }
    i
}

fn digit_value(c: char) -> (res: u128)
    requires
        is_digit(c),
    ensures
        res == (c as int) - ('0' as int),
{
    (c as u32 - '0' as u32) as u128
}

proof fn lemma_digits_prefix(s: Seq<char>, k: int)
    requires
        0 <= k <= s.len(),
        forall|i: int| 0 <= i < s.len() ==> is_digit(#[trigger] s[i]),
    ensures
        digits_value(s.take(k)) <= digits_value(s),
    decreases s.len() - k,
{
    if k < s.len() {
        lemma_digits_prefix(s, k + 1);
        assert(s.take(k + 1).drop_last() =~= s.take(k));
        assert(is_digit(s[k]));
    } else {
        assert(s.take(k) =~= s);
    }
}

/// Reads an `i64` as `str::parse` does.
pub fn parse_i64(cs: &Vec<char>, from: usize, to: usize) -> (res: Option<i64>)
    requires
        from <= to <= cs@.len(),
    ensures
        res == spec_parse_i64(cs@.subrange(from as int, to as int)),
{
    let ghost s = cs@.subrange(from as int, to as int);
    let mut start = from;
    let neg = from < to && cs[from] == '-';
    if from < to && (cs[from] == '-' || cs[from] == '+') {
        start = from + 1;
    }
    let ghost body = cs@.subrange(start as int, to as int);
    assert(body =~= (if s.len() > 0 && (s[0] == '-' || s[0] == '+') {
        s.drop_first()
    } else {
        s
    }));
    if start == to {
        return None;
    }
    let mut acc: u128 = 0;
    let mut i = start;
    while i < to
        invariant
            start <= i <= to <= cs@.len(),
            start < to,
            s == cs@.subrange(from as int, to as int),
            body == cs@.subrange(start as int, to as int),
            body == (if s.len() > 0 && (s[0] == '-' || s[0] == '+') {
                s.drop_first()
            } else {
                s
            }),
            forall|j: int| start <= j < i ==> is_digit(#[trigger] cs@[j]),
            acc == digits_value(cs@.subrange(start as int, i as int)),
            acc <= 0x8000_0000_0000_0000,
        decreases to - i,
    {
        let c = cs[i];
        if !('0' <= c && c <= '9') {
            assert(!is_digit(body[i - start]));
            assert(!all_digits(body));
            return None;
        }
        assert(cs@.subrange(start as int, i + 1).drop_last() =~= cs@.subrange(start as int, i as int));
        acc = acc * 10 + digit_value(c);
        i = i + 1;
        if acc > 0x8000_0000_0000_0000 {
            proof {
                if all_digits(body) {
                    assert(body.take(i - start) =~= cs@.subrange(start as int, i as int));
                    lemma_digits_prefix(body, i - start);
                }
            }
            return None;
        }
    }
    assert(cs@.subrange(start as int, to as int) == body);
    assert forall|j: int| 0 <= j < body.len() implies is_digit(#[trigger] body[j]) by {
        assert(body[j] == cs@[start + j]);
    }
    assert(all_digits(body));
    if neg {
        if acc == 0x8000_0000_0000_0000 {
            Some(i64::MIN)
        } else {
            Some(-(acc as i64))
        }
    } else if acc <= 0x7fff_ffff_ffff_ffff {
        Some(acc as i64)
    } else {
        None
    }
}


fn entry_of_line(line: &Vec<char>) -> (res: Option<(i64, String)>)
    ensures
        match res {
            Some((id, path)) => listfile_entry(line@) == Some((id, path@)),
            None => listfile_entry(line@) is None,
        },
{
    let n = line.len();
    let p = find_char(line, 0, ';');
    proof {
        lemma_split_at(line@, ';', p as int);
    }
    assert(line@.subrange(0, p as int) =~= line@.take(p as int));
    let id = parse_i64(line, 0, p);
    match id {
        None => None,
        Some(id) => {
            if p == n {
                return None;
            }
            let q = find_char(line, p + 1, ';');
            let ghost rest = line@.skip(p + 1);
            proof {
                assert forall|j: int| 0 <= j < q - (p + 1) implies rest[j] != ';' by {
                    assert(rest[j] == line@[p + 1 + j]);
                }
                lemma_split_at(rest, ';', q - (p + 1));
                if q < n {
                    assert(rest[q - (p + 1)] == line@[q as int]);
                }
            }
            let mut path = String::new();
            push_chars(&mut path, line, p + 1, q);
            assert(path@ =~= until_char(rest, ';'));
            Some((id, path))
        },
    }
}

/// The entries of the list file by id, none where a line is no entry.
pub fn parse_listfile(plain_txt: &str) -> (res: Option<HashMap<i64, String>>)
    ensures
        match res {
            Some(m) => listfile_valid(plain_txt@) && paths_map_view(m@) == listfile_map(text_lines(plain_txt@)),
            None => !listfile_valid(plain_txt@),
        },
{
    let cs = chars_of(plain_txt);
    let n = cs.len();
    let mut result: HashMap<i64, String> = HashMap::new();
    let mut start: usize = 0;
    let ghost mut done: Seq<Seq<char>> = Seq::empty();
    assert(cs@.skip(0) =~= cs@);
    assert(paths_map_view(result@) =~= listfile_map(done));
    while start < n
        invariant
            cs@ == plain_txt@,
            n == cs@.len(),
            start <= n,
            text_lines(cs@) == done + text_lines(cs@.skip(start as int)),
            forall|i: int| 0 <= i < done.len() ==> (#[trigger] listfile_entry(done[i])) is Some,
            paths_map_view(result@) == listfile_map(done),
        decreases n - start,
    {
        let end = find_char(&cs, start, '\n');
        let ghost t = cs@.skip(start as int);
        proof {
            assert forall|j: int| 0 <= j < end - start implies t[j] != '\n' by {
                assert(t[j] == cs@[start + j]);
            }
            if end < n {
                assert(t[end - start] == cs@[end as int]);
            }
            lemma_split_at(t, '\n', end - start);
        }
        let mut line_end = end;
        if end < n && end > start && cs[end - 1] == '\r' {
            line_end = end - 1;
        }
        let mut line: Vec<char> = Vec::new();
        for k in start..line_end
            invariant
                start <= line_end <= n,
                n == cs@.len(),
                line@ == cs@.subrange(start as int, k as int),
        {
            line.push(cs[k]);
            assert(line@ =~= cs@.subrange(start as int, k + 1));
        }
        let ghost this_line = line@;
        proof {
            if end < n {
                assert(t.take(end - start) =~= cs@.subrange(start as int, end as int));
                assert(t.skip(end - start + 1) =~= cs@.skip(end + 1));
                assert(this_line =~= strip_cr(cs@.subrange(start as int, end as int)));
            } else {
                assert(this_line =~= t);
            }
        }
        match entry_of_line(&line) {
            None => {
                proof {
                    assert(text_lines(cs@)[done.len() as int] == this_line);
                }
                return None;
            },
            Some((id, path)) => {
                result.insert(id, path);
                proof {
                    assert(done.push(this_line).drop_last() =~= done);
                    assert(paths_map_view(result@) =~= listfile_map(done.push(this_line)));
                    done = done.push(this_line);
                }
            },
        }
        if end < n {
            start = end + 1;
            assert(text_lines(cs@) =~= done + text_lines(cs@.skip(start as int)));
        } else {
            start = n;
            assert(cs@.skip(n as int) =~= Seq::<char>::empty());
            assert(text_lines(cs@) =~= done + text_lines(cs@.skip(start as int)));
        }
    }
    assert(cs@.skip(start as int) =~= Seq::<char>::empty());
    assert(text_lines(cs@) =~= done);
    Some(result)
}

/// The paths of the list file by id.
pub fn load_listfile(plain_txt: &str) -> (res: HashMap<i64, String>)
    requires
        listfile_valid(plain_txt@),
    ensures
        paths_map_view(res@) == listfile_map(text_lines(plain_txt@)),
{
    match parse_listfile(plain_txt) {
        Some(m) => m,
        None => HashMap::new(),
    }
}

} // verus!

use vstd::prelude::*;
use crate::text::{
    pos_of, lemma_pos_of, chars_of, find_char, owned, strings_view, is_space, is_digit,
    char_is_space, char_is_digit,
};

verus! {

/// Why a captured log yields no timings.
#[derive(Clone, Copy, Debug, PartialEq, Eq, Structural)]
pub enum ParseError {
    /// The log ends before its `OK` line: the build did not complete.
    Incomplete,
}

/// A line with its `\r\n` ending cut: the `\r` goes.
pub open spec fn strip_cr(l: Seq<char>) -> Seq<char> {
    if l.len() > 0 && l.last() == '\r' {
        l.drop_last()
    } else {
        l
    }
}

/// The lines of a text: split at `\n`, each `\r\n` ending dropped, with no empty
/// line after a final `\n`.
pub open spec fn lines_of(s: Seq<char>) -> Seq<Seq<char>>
    decreases s.len(),
{
    if s.len() == 0 {
        seq![]
    } else {
        let i = pos_of(s, '\n') as int;
        if i >= s.len() {
            seq![s]
        } else {
            seq![strip_cr(s.take(i))] + lines_of(s.skip(i + 1))
        }
    }
}

/// The number of leading decimal digits of `s`.
pub open spec fn digit_run(s: Seq<char>) -> nat
    decreases s.len(),
{
    if s.len() > 0 && is_digit(s[0]) {
        1 + digit_run(s.drop_first())
    } else {
        0
    }
}

/// The line that ends a completed log.
pub open spec fn ok_line() -> Seq<char> {
    seq!['O', 'K']
}

pub open spec fn time_prefix() -> Seq<char> {
    seq!['t', 'i', 'm', 'e', ':']
}

/// The duration that a timing line carries: the line is `time:`, one
/// whitespace character, digits, `.`, digits, and at least one more character
/// (the pattern `^time:\s(\d+\.\d+).+$`, with Unicode classes).
/// The fraction takes as many digits as leave at least one character after it.
pub open spec fn time_capture(line: Seq<char>) -> Option<Seq<char>> {
    if line.len() >= 6 && line.take(5) == time_prefix() && is_space(line[5]) {
        let b = line.skip(6);
        let i = digit_run(b) as int;
        if i == 0 || i >= b.len() || b[i] != '.' {
            None
        } else {
            let j = digit_run(b.skip(i + 1)) as int;
            if j == 0 {
                None
            } else if i + 1 + j < b.len() {
                Some(b.take(i + 1 + j))
            } else if j >= 2 {
                Some(b.take(i + j))
            } else {
                None
            }
        }
    } else {
        None
    }
}

/// The durations of the lines before the first `OK` line, in order; `None` when
/// no line is `OK`.
pub open spec fn parse_lines(ls: Seq<Seq<char>>) -> Option<Seq<Seq<char>>>
    decreases ls.len(),
{
    if ls.len() == 0 {
        None
    } else if ls[0] == ok_line() {
        Some(seq![])
    } else {
        match parse_lines(ls.drop_first()) {
            None => None,
            Some(rest) => Some(
                match time_capture(ls[0]) {
                    Some(c) => seq![c] + rest,
                    None => rest,
                },
            ),
        }
    }
}

/// What a whole captured log parses to.
pub open spec fn parse_log(s: Seq<char>) -> Option<Seq<Seq<char>>> {
    parse_lines(lines_of(s))
}

pub open spec fn prepend(o: Seq<Seq<char>>, r: Option<Seq<Seq<char>>>) -> Option<Seq<Seq<char>>> {
    match r {
        None => None,
        Some(x) => Some(o + x),
    }
}

proof fn lemma_sub_step(s: Seq<char>, k: int, to: int)
    requires
        0 <= k < to <= s.len(),
    ensures
        s.subrange(k, to).len() > 0,
        s.subrange(k, to)[0] == s[k],
        s.subrange(k, to).drop_first() == s.subrange(k + 1, to),
{
    assert(s.subrange(k, to).drop_first() =~= s.subrange(k + 1, to));
}

/// The end of the run of digits in `cs` that starts at `from`, looking no
/// further than `to`.
fn digit_end(cs: &Vec<char>, from: usize, to: usize) -> (r: usize)
    requires
        from <= to <= cs.len(),
    ensures
        r == from + digit_run(cs@.subrange(from as int, to as int)),
        from <= r <= to,
{
    let mut k: usize = from;
    while k < to && char_is_digit(cs[k])
        invariant
            from <= k <= to <= cs.len(),
            digit_run(cs@.subrange(from as int, to as int)) == (k - from) + digit_run(
                cs@.subrange(k as int, to as int),
            ),
        decreases to - k,
    {
        proof {
            lemma_sub_step(cs@, k as int, to as int);
        }
        k = k + 1;
    }
    proof {
        if k < to {
            lemma_sub_step(cs@, k as int, to as int);
        }
    }
    k
}

/// Where the duration of the line `cs[start..end]` stands in `cs`, if it is a
/// timing line.
fn capture_at(cs: &Vec<char>, start: usize, end: usize) -> (r: Option<(usize, usize)>)
    requires
        start <= end <= cs.len(),
    ensures
        match time_capture(cs@.subrange(start as int, end as int)) {
            Some(c) => r matches Some(p) && start <= p.0 <= p.1 <= end && cs@.subrange(
                p.0 as int,
                p.1 as int,
            ) == c,
            None => r is None,
        },
{
    let ghost line = cs@.subrange(start as int, end as int);
    if end - start < 6 {
        return None;
    }
    let c5 = cs[start + 5];
    if !(cs[start] == 't' && cs[start + 1] == 'i' && cs[start + 2] == 'm' && cs[start + 3] == 'e'
        && cs[start + 4] == ':' && char_is_space(c5)) {
        proof {
            if line.take(5) == time_prefix() {
                assert(line.take(5)[1] == 'i');
                assert(line.take(5)[2] == 'm');
                assert(line.take(5)[3] == 'e');
                assert(line.take(5)[4] == ':');
            }
        }
        return None;
    }
    proof {
        assert(line.take(5) =~= time_prefix());
    }
    let bs = start + 6;
    let ghost b = line.skip(6);
    assert(b =~= cs@.subrange(bs as int, end as int));
    let k1 = digit_end(cs, bs, end);
    if k1 == bs || k1 >= end || cs[k1] != '.' {
        return None;
    }
    let ghost i = (k1 - bs) as int;
    assert(b.skip(i + 1) =~= cs@.subrange(k1 + 1, end as int));
    let k2 = digit_end(cs, k1 + 1, end);
    let ghost j = (k2 - k1 - 1) as int;
    if k2 == k1 + 1 {
        return None;
    }
    if k2 < end {
        assert(b.take(i + 1 + j) =~= cs@.subrange(bs as int, k2 as int));
        Some((bs, k2))
    } else if k2 - k1 >= 3 {
        assert(b.take(i + j) =~= cs@.subrange(bs as int, k2 - 1));
        Some((bs, k2 - 1))
    } else {
        None
    }
}

/// Parses a captured log into the durations of its timing lines, in order. The
/// log must hold an `OK` line; lines after the first one are not read.
pub fn match_times(text: &str) -> (r: Result<Vec<String>, ParseError>)
    ensures
        match r {
            Ok(v) => parse_log(text@) == Some(strings_view(v@)),
            Err(e) => parse_log(text@) is None && e == ParseError::Incomplete,
        },
{
    let cs = chars_of(text);
    let n = cs.len();
    let mut out: Vec<String> = Vec::new();
    let mut pos: usize = 0;
    assert(cs@.skip(0) =~= cs@);
    while pos < n
        invariant
            cs@ == text@,
            n == cs.len(),
            pos <= n,
            parse_log(text@) == prepend(
                strings_view(out@),
                parse_lines(lines_of(cs@.skip(pos as int))),
            ),
        decreases n - pos,
    {
        let e = find_char(&cs, pos, '\n');
        let ghost s = cs@.skip(pos as int);
        proof {
            lemma_pos_of(s, '\n');
        }
        let mut end = e;
        if e < n && e > pos && cs[e - 1] == '\r' {
            end = e - 1;
        }
        let ghost line = cs@.subrange(pos as int, end as int);
        proof {
            if e < n {
                assert(strip_cr(s.take(e - pos)) =~= line);
                assert(s.skip(e - pos + 1) =~= cs@.skip(e + 1));
                assert(lines_of(s) == seq![line] + lines_of(cs@.skip(e + 1)));
            } else {
                assert(s =~= line);
                assert(lines_of(s) == seq![line]);
            }
            assert(lines_of(s)[0] == line);
            assert(lines_of(s).drop_first() =~= if e < n {
                lines_of(cs@.skip(e + 1))
            } else {
                seq![]
            });
        }
        if end - pos == 2 && cs[pos] == 'O' && cs[pos + 1] == 'K' {
            proof {
                assert(line =~= ok_line());
                assert(strings_view(out@) + seq![] =~= strings_view(out@));
            }
            return Ok(out);
        }
        proof {
            if line == ok_line() {
                assert(line[0] == 'O' && line[1] == 'K');
            }
        }
        let cap = capture_at(&cs, pos, end);
        let ghost before = strings_view(out@);
        match cap {
            Some(p) => {
                let t = owned(text.substring_char(p.0, p.1));
                out.push(t);
                proof {
                    assert(strings_view(out@) =~= before + seq![t@]);
                }
            },
            None => {},
        }
        proof {
            let rest = parse_lines(lines_of(s).drop_first());
            if let Some(x) = rest {
                match time_capture(line) {
                    Some(c) => {
                        assert(before + (seq![c] + x) =~= strings_view(out@) + x);
                    },
                    None => {},
                }
            }
        }
        if e < n {
            pos = e + 1;
        } else {
            pos = n;
            proof {
                assert(cs@.skip(n as int).len() == 0);
            }
        }
    }
    proof {
        assert(cs@.skip(pos as int).len() == 0);
        assert(lines_of(cs@.skip(pos as int)) == Seq::<Seq<char>>::empty());
    }
    Err(ParseError::Incomplete)
}

/// Fields joined by `, `, with no separator before the first or after the last.
pub open spec fn join_fields(items: Seq<Seq<char>>) -> Seq<char>
    decreases items.len(),
{
    if items.len() == 0 {
        seq![]
    } else if items.len() == 1 {
        items[0]
    } else {
        join_fields(items.drop_last()) + seq![',', ' '] + items.last()
    }
}

/// The fields of a package's report line: its path, whether its log parsed,
/// then the durations.
pub open spec fn report_fields(path: Seq<char>, parsed: Option<Seq<Seq<char>>>) -> Seq<Seq<char>> {
    match parsed {
        Some(t) => seq![path, seq!['t', 'r', 'u', 'e']] + t,
        None => seq![path, seq!['f', 'a', 'l', 's', 'e']],
    }
}

/// Joins fields with `, ` into one line.
pub fn join_line(items: &Vec<String>) -> (r: String)
    ensures
        r@ == join_fields(strings_view(items@)),
{
    let ghost all = strings_view(items@);
    if items.len() == 0 {
        return String::new();
    }
    let mut r = owned(items[0].as_str());
    let mut i: usize = 1;
    proof {
        reveal_strlit(", ");
        assert(all.take(1) =~= seq![all[0]]);
    }
    while i < items.len()
        invariant
            all == strings_view(items@),
            1 <= i <= items.len(),
            r@ == join_fields(all.take(i as int)),
        decreases items.len() - i,
    {
        proof {
            reveal_strlit(", ");
            assert(", "@ =~= seq![',', ' ']);
        }
        r.append(", ");
        r.append(items[i].as_str());
        proof {
            let t = all.take(i + 1);
            assert(t.last() == items@[i as int]@);
            assert(t.drop_last() =~= all.take(i as int));
            assert(r@ =~= join_fields(t));
        }
        i = i + 1;
    }
    assert(all.take(items.len() as int) =~= all);
    r
}

/// The report line of one package: `path, true, t1, t2, ...` when its log
/// parses, `path, false` when it does not.
pub fn report_line(path: &str, log: &str) -> (r: String)
    ensures
        r@ == join_fields(report_fields(path@, parse_log(log@))),
{
    let parsed = match_times(log);
    let mut fields: Vec<String> = Vec::new();
    fields.push(owned(path));
    proof {
        reveal_strlit("true");
        reveal_strlit("false");
        assert("true"@ =~= seq!['t', 'r', 'u', 'e']);
        assert("false"@ =~= seq!['f', 'a', 'l', 's', 'e']);
    }
    match parsed {
        Ok(times) => {
            fields.push(owned("true"));
            assert(strings_view(fields@) =~= seq![path@, seq!['t', 'r', 'u', 'e']]
                + strings_view(times@).take(0));
            let mut i: usize = 0;
            while i < times.len()
                invariant
                    0 <= i <= times.len(),
                    strings_view(fields@) == seq![path@, seq!['t', 'r', 'u', 'e']]
                        + strings_view(times@).take(i as int),
                decreases times.len() - i,
            {
                let ghost old_f = strings_view(fields@);
                let item = owned(times[i].as_str());
                fields.push(item);
                proof {
                    assert(strings_view(fields@) =~= old_f.push(item@));
                    assert(strings_view(times@).take(i + 1) =~= strings_view(times@).take(
                        i as int,
                    ).push(times@[i as int]@));
                    assert(strings_view(fields@) =~= seq![path@, seq!['t', 'r', 'u', 'e']]
                        + strings_view(times@).take(i + 1));
                }
                i = i + 1;
            }
            proof {
                assert(strings_view(times@).take(i as int) =~= strings_view(times@));
            }
        },
        Err(_) => {
            fields.push(owned("false"));
        },
    }
    proof {
        assert(strings_view(fields@) =~= report_fields(path@, parse_log(log@)));
    }
    join_line(&fields)
}

} // verus!

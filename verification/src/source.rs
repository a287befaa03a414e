//! Where log lines come from: a local file followed like `tail -f`, or a
//! remote file polled over SSH by comparing line counts.
use vstd::prelude::*;

use crate::text::{
    lemma_lines_of_text, plain_line, strip_cr, text_of,
    chars_of, is_ascii_digit, lines, lines_of, nat_decimal, push_decimal,
    push_str, trim, trim_end, trim_end_str, trim_str, views, words, words_of,
};

verus! {

/// The line that following a local file passes on for a line read from it:
/// the line without trailing whitespace, unless nothing is left.
pub open spec fn local_line(line: Seq<char>) -> Option<Seq<char>> {
    if trim_end(line).len() == 0 {
        None
    } else {
        Some(trim_end(line))
    }
}

pub fn tail_line(line: &str) -> (r: Option<String>)
    ensures
        match r {
            Some(x) => local_line(line@) == Some(x@),
            None => local_line(line@) is None,
        },
{
    let t = trim_end_str(line);
    if t.unicode_len() == 0 {
        None
    } else {
        Some(t)
    }
}

/// The SSH destination: `user@host`, or the host alone.
pub open spec fn destination(host: Seq<char>, user: Option<Seq<char>>) -> Seq<char> {
    match user {
        Some(u) => u + "@"@ + host,
        None => host,
    }
}

pub fn ssh_destination(host: &str, user: Option<&str>) -> (r: String)
    ensures
        r@ == destination(
            host@,
            match user {
                Some(u) => Some(u@),
                None => None,
            },
        ),
{
    let mut r = String::new();
    match user {
        Some(u) => {
            push_str(&mut r, u);
            push_str(&mut r, "@");
            push_str(&mut r, host);
        },
        None => {
            push_str(&mut r, host);
        },
    }
    assert(r@ =~= destination(
        host@,
        match user {
            Some(u) => Some(u@),
            None => None,
        },
    ));
    r
}

/// The value of a nonempty string of ASCII digits.
pub open spec fn digits_value(d: Seq<char>) -> nat
    decreases d.len(),
{
    if d.len() == 0 {
        0
    } else {
        digits_value(d.drop_last()) * 10 + (d.last() as nat - '0' as nat) as nat
    }
}

/// The digits of an unsigned number: without the one `+` that may lead.
pub open spec fn unsigned_digits(w: Seq<char>) -> Seq<char> {
    if w.len() > 0 && w[0] == '+' {
        w.drop_first()
    } else {
        w
    }
}

/// All characters of `d` are ASCII digits.
pub open spec fn all_ascii_digits(d: Seq<char>) -> bool {
    forall|i: int| 0 <= i < d.len() ==> is_ascii_digit(#[trigger] d[i])
}

/// `u64::from_str`: an optional `+`, then one or more ASCII digits whose
/// value fits in a `u64`.
pub open spec fn parse_u64(w: Seq<char>) -> Option<u64> {
    let d = unsigned_digits(w);
    if d.len() == 0 || !all_ascii_digits(d) || digits_value(d) > u64::MAX {
        None
    } else {
        Some(digits_value(d) as u64)
    }
}

proof fn lemma_digits_value_grows(d: Seq<char>, i: int)
    requires
        0 <= i <= d.len(),
        forall|k: int| 0 <= k < d.len() ==> is_ascii_digit(#[trigger] d[k]),
    ensures
        digits_value(d.take(i)) <= digits_value(d),
    decreases d.len() - i,
{
    if i < d.len() {
        lemma_digits_value_grows(d, i + 1);
        assert(d.take(i + 1).drop_last() =~= d.take(i));
    } else {
        assert(d.take(i) =~= d);
    }
}

fn parse_u64_chars(w: &Vec<char>) -> (r: Option<u64>)
    ensures
        r == parse_u64(w@),
{
    let start: usize = if w.len() > 0 && w[0] == '+' {
        1
    } else {
        0
    };
    let ghost d = unsigned_digits(w@);
    assert(d =~= w@.subrange(start as int, w@.len() as int));
    if start == w.len() {
        return None;
    }
    let mut i: usize = start;
    while i < w.len()
        invariant
            start <= i <= w.len(),
            d == w@.subrange(start as int, w@.len() as int),
            d == unsigned_digits(w@),
            forall|k: int| start <= k < i ==> is_ascii_digit(#[trigger] w@[k]),
        decreases w.len() - i,
    {
        if !('0' <= w[i] && w[i] <= '9') {
            assert(!is_ascii_digit(d[i - start]));
            assert(!all_ascii_digits(d));
            return None;
        }
        i = i + 1;
    }
    assert(forall|k: int| 0 <= k < d.len() ==> is_ascii_digit(#[trigger] d[k])) by {
        assert(forall|k: int| 0 <= k < d.len() ==> d[k] == w@[start + k]);
    }
    let mut v: u64 = 0;
    let mut j: usize = start;
    while j < w.len()
        invariant
            start <= j <= w.len(),
            d == w@.subrange(start as int, w@.len() as int),
            d == unsigned_digits(w@),
            forall|k: int| 0 <= k < d.len() ==> is_ascii_digit(#[trigger] d[k]),
            v == digits_value(d.take(j - start)),
        decreases w.len() - j,
    {
        let c = w[j];
        assert(c == d[j - start]);
        assert(is_ascii_digit(c));
        let digit: u64 = (c as u32 - '0' as u32) as u64;
        assert(d.take(j - start + 1).drop_last() =~= d.take(j - start));
        if v > (u64::MAX - digit) / 10 {
            proof {
                assert(digits_value(d.take(j - start + 1)) > u64::MAX) by (nonlinear_arith)
                    requires
                        digits_value(d.take(j - start + 1)) == v * 10 + digit,
                        v > (u64::MAX - digit) / 10,
                        digit <= 9,
                ;
                lemma_digits_value_grows(d, j - start + 1);
            }
            return None;
        }
        proof {
            assert(v * 10 + digit <= u64::MAX) by (nonlinear_arith)
                requires
                    v <= (u64::MAX - digit) / 10,
                    digit <= 9,
            ;
        }
        v = v * 10 + digit;
        j = j + 1;
    }
    assert(d.take(d.len() as int) =~= d);
    Some(v)
}

/// The line count that `wc -l` printed: its first word as a `u64`, or
/// `default` when that is missing or not a number.
pub open spec fn line_count(output: Seq<char>, default: u64) -> u64 {
    if words(output).len() > 0 && parse_u64(words(output)[0]) is Some {
        parse_u64(words(output)[0])->0
    } else {
        default
    }
}

pub fn parse_line_count(output: &str, default: u64) -> (r: u64)
    ensures
        r == line_count(output@, default),
{
    let ws = words_of(output);
    if ws.len() == 0 {
        return default;
    }
    let first = chars_of(ws[0].as_str());
    assert(views(ws@)[0] == ws@[0]@);
    match parse_u64_chars(&first) {
        Some(n) => n,
        None => default,
    }
}

/// The lines of `text` that are not blank, each as it was.
pub open spec fn nonblank_lines(text: Seq<char>) -> Seq<Seq<char>> {
    lines(text).filter(|l: Seq<char>| trim(l).len() > 0)
}

pub fn forwarded_lines(text: &str) -> (r: Vec<String>)
    ensures
        views(r@) == nonblank_lines(text@),
{
    let ls = lines_of(text);
    let ghost keep = |l: Seq<char>| trim(l).len() > 0;
    let mut r: Vec<String> = Vec::new();
    let mut i: usize = 0;
    while i < ls.len()
        invariant
            i <= ls.len(),
            views(ls@) == lines(text@),
            keep == (|l: Seq<char>| trim(l).len() > 0),
            views(r@) == lines(text@).take(i as int).filter(keep),
        decreases ls.len() - i,
    {
        let t = trim_str(ls[i].as_str());
        assert(views(ls@)[i as int] == ls@[i as int]@);
        let ghost before = r@;
        proof {
            reveal_with_fuel(Seq::<_>::filter, 1);
            assert(lines(text@).take(i + 1).drop_last() =~= lines(text@).take(i as int));
            assert(lines(text@).take(i + 1).last() == ls@[i as int]@);
        }
        if t.unicode_len() > 0 {
            r.push(ls[i].clone());
            assert(views(r@) =~= views(before).push(ls@[i as int]@));
        }
        i = i + 1;
    }
    assert(lines(text@).take(ls.len() as int) =~= lines(text@));
    r
}

/// The command that counts the lines of the remote file: `wc -l <path>`.
pub fn line_count_command(path: &str) -> (r: Vec<String>)
    ensures
        views(r@) == seq!["wc"@, "-l"@, path@],
{
    let mut r: Vec<String> = Vec::new();
    r.push(String::from_str("wc"));
    r.push(String::from_str("-l"));
    r.push(String::from_str(path));
    assert(views(r@) =~= seq!["wc"@, "-l"@, path@]);
    r
}

/// The command that fetches the last `n` lines of the remote file:
/// `tail -n <n> <path>`.
pub fn tail_command(n: u64, path: &str) -> (r: Vec<String>)
    ensures
        views(r@) == seq!["tail"@, "-n"@, nat_decimal(n as nat), path@],
{
    let mut r: Vec<String> = Vec::new();
    r.push(String::from_str("tail"));
    r.push(String::from_str("-n"));
    let mut count = String::new();
    push_decimal(&mut count, n);
    assert(count@ =~= nat_decimal(n as nat));
    r.push(count);
    r.push(String::from_str(path));
    assert(views(r@) =~= seq!["tail"@, "-n"@, nat_decimal(n as nat), path@]);
    r
}

/// Where polling a remote file stands: how many lines it had when last
/// read, and the count that a fetch under way will reach.
#[derive(Debug, Clone, Copy, PartialEq, Eq, Structural)]
pub struct PollState {
    pub last_line_count: u64,
    pub pending: Option<u64>,
}

/// What the remote side answered.
#[derive(Debug, Clone)]
pub enum PollEvent {
    /// The output of the line-count command.
    LineCount(String),
    /// The output of the tail command.
    Tail(String),
}

/// What to do next.
#[derive(Debug, Clone)]
pub enum PollAction {
    /// Wait for the polling interval, then count the lines again.
    Wait,
    /// Fetch the last `new_lines` lines.
    FetchTail { new_lines: u64 },
    /// Pass these lines on, then wait and count again.
    Forward { lines: Vec<String> },
}

/// The state in which polling starts, from the first line count (0 when it
/// cannot be read).
pub fn poll_start(output: &str) -> (s: PollState)
    ensures
        s == (PollState { last_line_count: line_count(output@, 0), pending: None }),
{
    PollState { last_line_count: parse_line_count(output, 0), pending: None }
}

/// The state after one polling event. A count that did not grow leaves
/// the last count as it is; a count that grew is held as pending until the
/// new lines arrive, and then becomes the last count.
pub open spec fn poll_next(st: PollState, ev: PollEvent) -> PollState {
    match ev {
        PollEvent::LineCount(out) => poll_after_count(st, line_count(out@, st.last_line_count)),
        PollEvent::Tail(_) => poll_after_tail(st),
    }
}

/// The state once the remote file is known to have `current` lines.
pub open spec fn poll_after_count(st: PollState, current: u64) -> PollState {
    if current > st.last_line_count {
        PollState { last_line_count: st.last_line_count, pending: Some(current) }
    } else {
        PollState { last_line_count: st.last_line_count, pending: None }
    }
}

/// The state once the new lines have arrived.
pub open spec fn poll_after_tail(st: PollState) -> PollState {
    match st.pending {
        Some(current) => PollState { last_line_count: current, pending: None },
        None => st,
    }
}

/// One polling step: the next state, and what to do. A count that grew
/// asks for exactly the new lines; their text is passed on without blank
/// lines.
pub fn poll_step(st: PollState, ev: PollEvent) -> (r: (PollState, PollAction))
    ensures
        r.0 == poll_next(st, ev),
        match ev {
            PollEvent::LineCount(out) => {
                let current = line_count(out@, st.last_line_count);
                if current > st.last_line_count {
                    r.1 matches PollAction::FetchTail { new_lines } && new_lines == current
                        - st.last_line_count
                } else {
                    r.1 is Wait
                }
            },
            PollEvent::Tail(text) => match st.pending {
                Some(_) => r.1 matches PollAction::Forward { lines } && views(lines@)
                    == nonblank_lines(text@),
                None => r.1 is Wait,
            },
        },
{
    match ev {
        PollEvent::LineCount(out) => {
            let current = parse_line_count(out.as_str(), st.last_line_count);
            if current > st.last_line_count {
                (
                    PollState { last_line_count: st.last_line_count, pending: Some(current) },
                    PollAction::FetchTail { new_lines: current - st.last_line_count },
                )
            } else {
                (PollState { last_line_count: st.last_line_count, pending: None }, PollAction::Wait)
            }
        },
        PollEvent::Tail(text) => match st.pending {
            Some(current) => {
                let lines = forwarded_lines(text.as_str());
                (PollState { last_line_count: current, pending: None }, PollAction::Forward { lines })
            },
            None => (st, PollAction::Wait),
        },
    }
}

/// The last line count seen never decreases, and a pending fetch always
/// aims above it: no line is passed on twice.
pub proof fn poll_count_never_decreases(st: PollState, ev: PollEvent)
    requires
        st.pending matches Some(c) ==> c > st.last_line_count,
    ensures
        poll_next(st, ev).last_line_count >= st.last_line_count,
        poll_next(st, ev).pending matches Some(c) ==> c > poll_next(st, ev).last_line_count,
{
}

/// A line that is not blank.
pub open spec fn nonblank(l: Seq<char>) -> bool {
    trim(l).len() > 0
}

/// One polling round on a remote file whose lines are `file`: the count
/// reads its number of lines; when that grew, the fetch of the last
/// `current - last` lines returns their text, and the non-blank ones are
/// passed on. Yields the new state and the lines passed on.
pub open spec fn poll_round(st: PollState, file: Seq<Seq<char>>) -> (PollState, Seq<Seq<char>>) {
    let counted = poll_after_count(st, file.len() as u64);
    match counted.pending {
        Some(current) => (
            poll_after_tail(counted),
            nonblank_lines(
                text_of(file.subrange(file.len() - (current - st.last_line_count), file.len() as int)),
            ),
        ),
        None => (counted, Seq::empty()),
    }
}

/// A round is the two steps that `poll_step` takes: the count event, whose
/// output reads as the file's number of lines, and, when that grew, the
/// tail event, whose output is the text of the file's last new lines.
pub proof fn poll_round_is_two_steps(st: PollState, file: Seq<Seq<char>>, out: String, text: String)
    requires
        st.pending is None,
        file.len() <= u64::MAX,
        line_count(out@, st.last_line_count) == file.len(),
        file.len() > st.last_line_count ==> text@ == text_of(
            file.subrange(st.last_line_count as int, file.len() as int),
        ),
    ensures
        poll_next(st, PollEvent::LineCount(out)) == poll_after_count(st, file.len() as u64),
        poll_next(st, PollEvent::LineCount(out)).pending is Some ==> {
            &&& poll_next(poll_next(st, PollEvent::LineCount(out)), PollEvent::Tail(text))
                == poll_round(st, file).0
            &&& nonblank_lines(text@) == poll_round(st, file).1
        },
        poll_next(st, PollEvent::LineCount(out)).pending is None ==> poll_next(
            st,
            PollEvent::LineCount(out),
        ) == poll_round(st, file).0 && poll_round(st, file).1 == Seq::<Seq<char>>::empty(),
{
}

/// Successive polling rounds on the successive contents `files` of the
/// remote file: the final state and all the lines passed on, in order.
pub open spec fn poll_rounds(st: PollState, files: Seq<Seq<Seq<char>>>) -> (PollState, Seq<Seq<char>>)
    decreases files.len(),
{
    if files.len() == 0 {
        (st, Seq::empty())
    } else {
        let first = poll_round(st, files[0]);
        let rest = poll_rounds(first.0, files.drop_first());
        (rest.0, first.1 + rest.1)
    }
}

/// `a` is the start of `b`: `b` is `a` with lines appended.
pub open spec fn is_prefix(a: Seq<Seq<char>>, b: Seq<Seq<char>>) -> bool {
    a.len() <= b.len() && b.subrange(0, a.len() as int) == a
}

/// The remote file only grows by appending lines: from `start` through
/// each of `files`, each content begins with every earlier one; and no
/// line holds a line break.
pub open spec fn appends_only(start: Seq<Seq<char>>, files: Seq<Seq<Seq<char>>>) -> bool {
    &&& forall|i: int| 0 <= i < files.len() ==> is_prefix(start, #[trigger] files[i])
    &&& forall|i: int, j: int| 0 <= i <= j < files.len() ==> is_prefix(#[trigger] files[i], #[trigger] files[j])
    &&& forall|i: int, k: int|
        0 <= i < files.len() && 0 <= k < files[i].len() ==> plain_line(#[trigger] files[i][k])
    &&& forall|i: int| 0 <= i < files.len() ==> #[trigger] files[i].len() <= u64::MAX
}

proof fn lemma_round(st: PollState, start: Seq<Seq<char>>, file: Seq<Seq<char>>)
    requires
        st == (PollState { last_line_count: start.len() as u64, pending: None }),
        is_prefix(start, file),
        file.len() <= u64::MAX,
        forall|k: int| 0 <= k < file.len() ==> plain_line(#[trigger] file[k]),
    ensures
        poll_round(st, file).0 == (PollState { last_line_count: file.len() as u64, pending: None }),
        poll_round(st, file).1 == file.subrange(start.len() as int, file.len() as int).map_values(
            |l: Seq<char>| strip_cr(l),
        ).filter(|l: Seq<char>| nonblank(l)),
{
    let appended = file.subrange(start.len() as int, file.len() as int);
    if file.len() > start.len() {
        assert forall|k: int| 0 <= k < appended.len() implies plain_line(#[trigger] appended[k]) by {
            assert(appended[k] == file[start.len() + k]);
        }
        lemma_lines_of_text(appended);
        assert((|l: Seq<char>| trim(l).len() > 0) == (|l: Seq<char>| nonblank(l)));
    } else {
        assert(appended.map_values(|l: Seq<char>| strip_cr(l)) =~= Seq::<Seq<char>>::empty());
        reveal_with_fuel(Seq::<_>::filter, 1);
    }
}

/// Polling passes on every line appended to the remote file after the first
/// count exactly once, in file order, leaving out only the blank ones (and
/// the carriage return of a `\r\n` line end, as reading lines drops it);
/// no line that was there at the first count is passed on. This holds when
/// the file only grows by appending, each count reads the file's number of
/// lines and each fetch returns its last lines.
pub proof fn poll_forwards_appended_lines_once(start: Seq<Seq<char>>, files: Seq<Seq<Seq<char>>>)
    requires
        start.len() <= u64::MAX,
        appends_only(start, files),
    ensures
        ({
            let last = if files.len() == 0 {
                start
            } else {
                files[files.len() - 1]
            };
            let r = poll_rounds(PollState { last_line_count: start.len() as u64, pending: None }, files);
            &&& r.0 == PollState { last_line_count: last.len() as u64, pending: None }
            &&& r.1 == last.subrange(start.len() as int, last.len() as int).map_values(
                |l: Seq<char>| strip_cr(l),
            ).filter(|l: Seq<char>| nonblank(l))
        }),
    decreases files.len(),
{
    let st = PollState { last_line_count: start.len() as u64, pending: None };
    let nb = |l: Seq<char>| nonblank(l);
    let cr = |l: Seq<char>| strip_cr(l);
    if files.len() == 0 {
        assert(start.subrange(start.len() as int, start.len() as int).map_values(cr) =~= Seq::<Seq<char>>::empty());
        reveal_with_fuel(Seq::<_>::filter, 1);
    } else {
        let f0 = files[0];
        let rest = files.drop_first();
        let last = files[files.len() - 1];
        assert forall|k: int| 0 <= k < f0.len() implies plain_line(#[trigger] f0[k]) by {
            assert(plain_line(files[0][k]));
        }
        assert(is_prefix(start, f0));
        lemma_round(st, start, f0);
        assert(appends_only(f0, rest)) by {
            assert forall|i: int| 0 <= i < rest.len() implies is_prefix(f0, #[trigger] rest[i]) by {
                assert(is_prefix(files[0], files[i + 1]));
            }
            assert forall|i: int, j: int| 0 <= i <= j < rest.len() implies is_prefix(
                #[trigger] rest[i],
                #[trigger] rest[j],
            ) by {
                assert(is_prefix(files[i + 1], files[j + 1]));
            }
            assert forall|i: int, k: int| 0 <= i < rest.len() && 0 <= k < rest[i].len() implies plain_line(
                #[trigger] rest[i][k],
            ) by {
                assert(plain_line(files[i + 1][k]));
            }
            assert forall|i: int| 0 <= i < rest.len() implies #[trigger] rest[i].len() <= u64::MAX by {
                assert(files[i + 1].len() <= u64::MAX);
            }
        }
        poll_forwards_appended_lines_once(f0, rest);
        let first = poll_round(st, f0);
        assert(first.0 == PollState { last_line_count: f0.len() as u64, pending: None });
        assert(is_prefix(files[0], files[files.len() - 1]));
        let a = start.len() as int;
        let b = f0.len() as int;
        let c = last.len() as int;
        assert(last.subrange(a, c) =~= f0.subrange(a, b) + last.subrange(b, c)) by {
            assert(last.subrange(0, b) == f0);
            assert forall|x: int| 0 <= x < b - a implies last.subrange(a, c)[x] == f0.subrange(a, b)[x] by {
                assert(last.subrange(0, b)[a + x] == last[a + x]);
            }
        }
        assert(last.subrange(a, c).map_values(cr) =~= f0.subrange(a, b).map_values(cr) + last.subrange(
            b,
            c,
        ).map_values(cr));
        Seq::filter_distributes_over_add(
            f0.subrange(a, b).map_values(cr),
            last.subrange(b, c).map_values(cr),
            nb,
        );
        if rest.len() == 0 {
            assert(last == f0);
            assert(last.subrange(b, c).map_values(cr) =~= Seq::<Seq<char>>::empty());
            reveal_with_fuel(Seq::<_>::filter, 1);
        } else {
            assert(rest[rest.len() - 1] == last);
        }
    }
}

} // verus!

//! The line format the task list is kept in: one task per line,
//! `name | language | completed_count`, the last one or two fields optional.
use vstd::prelude::*;
use crate::pomodoro::{Task, TaskView, Phase, task_views};
use crate::text::{chars_of, string_of, sub_chars};

verus! {

/// ASCII whitespace, as `char::is_ascii_whitespace` has it.
pub open spec fn is_ascii_ws(c: char) -> bool {
    c == ' ' || c == '\t' || c == '\n' || c == '\x0C' || c == '\r'
}

/// Index just past the last character before `j` that is not ASCII
/// whitespace.
pub open spec fn ascii_trail(s: Seq<char>, j: int) -> int
    decreases j,
{
    if 0 < j <= s.len() && is_ascii_ws(s[j - 1]) {
        ascii_trail(s, j - 1)
    } else {
        j
    }
}

/// `s` without trailing ASCII whitespace.
pub open spec fn trim_end(s: Seq<char>) -> Seq<char> {
    s.subrange(0, ascii_trail(s, s.len() as int))
}

/// The field separator ` | ` starts at `i`.
pub open spec fn sep_at(s: Seq<char>, i: int) -> bool {
    0 <= i && i + 3 <= s.len() && s[i] == ' ' && s[i + 1] == '|' && s[i + 2] == ' '
}

/// The fields of `s` from the scan position `i` on, the current field having
/// begun at `start`: the pieces between separators, left to right.
pub open spec fn fields_from(s: Seq<char>, i: int, start: int) -> Seq<Seq<char>>
    decreases s.len() - i,
{
    if i < 0 || i >= s.len() {
        seq![s.subrange(start, s.len() as int)]
    } else if sep_at(s, i) {
        seq![s.subrange(start, i)] + fields_from(s, i + 3, i + 3)
    } else {
        fields_from(s, i + 1, start)
    }
}

/// `s` cut at each ` | `, as `str::split(" | ")` does.
pub open spec fn fields(s: Seq<char>) -> Seq<Seq<char>> {
    fields_from(s, 0, 0)
}

pub open spec fn is_digit(c: char) -> bool {
    '0' <= c <= '9'
}

pub open spec fn digit_value(c: char) -> nat {
    (c as u32 - '0' as u32) as nat
}

/// The number a string of decimal digits denotes.
pub open spec fn digits_value(s: Seq<char>) -> nat
    decreases s.len(),
{
    if s.len() == 0 {
        0
    } else {
        digits_value(s.drop_last()) * 10 + digit_value(s.last())
    }
}

/// `s` without one leading `+`.
pub open spec fn unsigned_part(s: Seq<char>) -> Seq<char> {
    if s.len() > 0 && s[0] == '+' {
        s.skip(1)
    } else {
        s
    }
}

pub open spec fn all_digits(d: Seq<char>) -> bool {
    forall|i: int| 0 <= i < d.len() ==> is_digit(#[trigger] d[i])
}

/// `s` read as a `u32` the way `str::parse::<u32>` reads it: an optional `+`,
/// then one or more decimal digits, with a value that fits.
pub open spec fn parse_u32(s: Seq<char>) -> Option<u32> {
    let d = unsigned_part(s);
    if d.len() > 0 && all_digits(d) && digits_value(d) <= u32::MAX {
        Some(digits_value(d) as u32)
    } else {
        None
    }
}

/// The task a stored line stands for: always idle, with the language
/// `Unknown` and a count of zero where those fields are missing, and a count
/// of zero where it does not read as a number.
pub open spec fn parse_line(line: Seq<char>) -> TaskView {
    let f = fields(trim_end(line));
    TaskView {
        name: f[0],
        language: if f.len() > 1 {
            f[1]
        } else {
            "Unknown"@
        },
        state: Phase::Idle,
        timer_start: None,
        completed_count: if f.len() > 2 {
            match parse_u32(f[2]) {
                Some(n) => n,
                None => 0,
            }
        } else {
            0
        },
    }
}

pub open spec fn digit_char(d: nat) -> char {
    seq!['0', '1', '2', '3', '4', '5', '6', '7', '8', '9'][d as int]
}

/// The decimal digits of `n`, without leading zeros.
pub open spec fn decimal(n: nat) -> Seq<char>
    decreases n,
{
    if n < 10 {
        seq![digit_char(n)]
    } else {
        decimal(n / 10).push(digit_char(n % 10))
    }
}

/// The field separator.
pub open spec fn separator() -> Seq<char> {
    seq![' ', '|', ' ']
}

/// The line a task is stored as.
pub open spec fn render_line(t: TaskView) -> Seq<char> {
    t.name + separator() + t.language + separator() + decimal(t.completed_count as nat)
}

/// The file a list of tasks is stored as: each line ends in a line feed.
pub open spec fn render_all(ts: Seq<TaskView>) -> Seq<char>
    decreases ts.len(),
{
    if ts.len() == 0 {
        Seq::empty()
    } else {
        render_line(ts[0]) + seq!['\n'] + render_all(ts.drop_first())
    }
}

/// The lines of `s` from the scan position `i` on, the current line having
/// begun at `start`; an unterminated last line counts, an empty one after
/// the last line feed does not.
pub open spec fn lines_from(s: Seq<char>, i: int, start: int) -> Seq<Seq<char>>
    decreases s.len() - i,
{
    if i < 0 || i >= s.len() {
        if start < s.len() {
            seq![s.subrange(start, s.len() as int)]
        } else {
            Seq::empty()
        }
    } else if s[i] == '\n' {
        seq![s.subrange(start, i)] + lines_from(s, i + 1, i + 1)
    } else {
        lines_from(s, i + 1, start)
    }
}

/// `s` cut at each line feed, as `str::lines` does.
pub open spec fn lines(s: Seq<char>) -> Seq<Seq<char>> {
    lines_from(s, 0, 0)
}

/// The tasks a stored file stands for, one for each line.
pub open spec fn parse_all(s: Seq<char>) -> Seq<TaskView> {
    lines(s).map_values(|l: Seq<char>| parse_line(l))
}

/// A task as it comes back from storage: idle, with no timer.
pub open spec fn stored(t: TaskView) -> TaskView {
    TaskView { state: Phase::Idle, timer_start: None, ..t }
}

/// Text without a line feed.
pub open spec fn no_line_feed(s: Seq<char>) -> bool {
    forall|k: int| 0 <= k < s.len() ==> #[trigger] s[k] != '\n'
}

/// Text that a task field can hold and still be read back: no `|` and no
/// line feed.
pub open spec fn storable_text(s: Seq<char>) -> bool {
    forall|k: int| 0 <= k < s.len() ==> #[trigger] s[k] != '|' && s[k] != '\n'
}

/// Drops trailing ASCII whitespace.
fn trim_end_chars(v: &Vec<char>) -> (r: Vec<char>)
    ensures
        r@ == trim_end(v@),
{
    let n = v.len();
    let mut b: usize = n;
    while b > 0 && (v[b - 1] == ' ' || v[b - 1] == '\t' || v[b - 1] == '\n' || v[b - 1] == '\x0C'
        || v[b - 1] == '\r')
        invariant
            n == v@.len(),
            b <= n,
            ascii_trail(v@, b as int) == ascii_trail(v@, n as int),
        decreases b,
    {
        b = b - 1;
    }
    sub_chars(v, 0, b)
}

/// Cuts `v` at each ` | `.
fn split_fields(v: &Vec<char>) -> (r: Vec<Vec<char>>)
    ensures
        r@.map_values(|p: Vec<char>| p@) == fields(v@),
        r@.len() >= 1,
{
    let ghost s = v@;
    let n = v.len();
    let mut pieces: Vec<Vec<char>> = Vec::new();
    let mut i: usize = 0;
    let mut start: usize = 0;
    loop
        invariant
            s == v@,
            n == s.len(),
            start <= i <= n,
            pieces@.map_values(|p: Vec<char>| p@) + fields_from(s, i as int, start as int)
                == fields(s),
        decreases n - i,
    {
        if i < n && n - i >= 3 && v[i] == ' ' && v[i + 1] == '|' && v[i + 2] == ' ' {
            let p = sub_chars(v, start, i);
            let ghost before = pieces@.map_values(|p: Vec<char>| p@);
            pieces.push(p);
            proof {
                assert(pieces@.map_values(|p: Vec<char>| p@) =~= before.push(p@));
                assert(fields_from(s, i as int, start as int) == seq![p@] + fields_from(
                    s,
                    i + 3,
                    i + 3,
                ));
                assert(before + (seq![p@] + fields_from(s, i + 3, i + 3)) =~= before.push(p@)
                    + fields_from(s, i + 3, i + 3));
            }
            i = i + 3;
            start = i;
        } else if i < n {
            i = i + 1;
        } else {
            let p = sub_chars(v, start, n);
            let ghost before = pieces@.map_values(|p: Vec<char>| p@);
            pieces.push(p);
            proof {
                assert(pieces@.map_values(|p: Vec<char>| p@) =~= before.push(p@));
                assert(before + seq![p@] =~= before.push(p@));
            }
            return pieces;
        }
    }
}

/// Reads a `u32` as `str::parse::<u32>` does; `None` where it does not read.
fn parse_count(v: &Vec<char>) -> (r: Option<u32>)
    ensures
        r == parse_u32(v@),
{
    let n = v.len();
    let first: usize = if n > 0 && v[0] == '+' { 1 } else { 0 };
    let ghost d = unsigned_part(v@);
    assert(d == v@.subrange(first as int, n as int));
    if first == n {
        assert(d.len() == 0);
        assert(parse_u32(v@) == None::<u32>);
        return None;
    }
    let mut acc: u64 = 0;
    let mut big = false;
    let mut i: usize = first;
    while i < n
        invariant
            first <= i <= n,
            n == v@.len(),
            d == v@.subrange(first as int, n as int),
            d == unsigned_part(v@),
            forall|k: int| first <= k < i ==> is_digit(#[trigger] v@[k]),
            !big ==> acc == digits_value(v@.subrange(first as int, i as int)) && acc
                <= u32::MAX,
            big ==> digits_value(v@.subrange(first as int, i as int)) > u32::MAX,
        decreases n - i,
    {
        let c = v[i];
        if !('0' <= c && c <= '9') {
            assert(d[i - first] == v@[i as int]);
            assert(!is_digit(d[i - first]));
            assert(!all_digits(d));
            return None;
        }
        let ghost prev = v@.subrange(first as int, i as int);
        let ghost next = v@.subrange(first as int, i + 1);
        assert(next.drop_last() =~= prev);
        let dv = (c as u32 - '0' as u32) as u64;
        if !big {
            let x = acc * 10 + dv;
            if x > u32::MAX as u64 {
                big = true;
            } else {
                acc = x;
            }
        } else {
            assert(digits_value(next) > u32::MAX) by (nonlinear_arith)
                requires
                    digits_value(next) == digits_value(prev) * 10 + digit_value(c),
                    digits_value(prev) > u32::MAX,
            ;
        }
        i = i + 1;
    }
    assert forall|k: int| 0 <= k < d.len() implies is_digit(#[trigger] d[k]) by {
        assert(d[k] == v@[k + first]);
    }
    assert(v@.subrange(first as int, n as int) == d);
    if big {
        None
    } else {
        Some(acc as u32)
    }
}

/// The task stored on `line`.
pub fn parse_task_line(line: &str) -> (r: Task)
    ensures
        r@ == parse_line(line@),
{
    let v = chars_of(line);
    let t = trim_end_chars(&v);
    let f = split_fields(&t);
    let ghost fv = f@.map_values(|p: Vec<char>| p@);
    let name = string_of(&f[0]);
    let language = if f.len() > 1 {
        string_of(&f[1])
    } else {
        string_of(&chars_of("Unknown"))
    };
    let completed_count: u32 = if f.len() > 2 {
        match parse_count(&f[2]) {
            Some(n) => n,
            None => 0,
        }
    } else {
        0
    };
    assert(fv[0] == f@[0]@);
    Task { name, language, state: Phase::Idle, timer_start: None, completed_count }
}

proof fn lemma_fields_shift(s: Seq<char>, b: Seq<char>, off: int, j: int, k: int)
    requires
        0 <= off <= s.len(),
        b == s.subrange(off, s.len() as int),
        0 <= k <= j <= b.len(),
    ensures
        fields_from(s, off + j, off + k) == fields_from(b, j, k),
    decreases b.len() - j,
{
    if j < b.len() {
        assert(sep_at(s, off + j) == sep_at(b, j));
        if sep_at(b, j) {
            assert(s.subrange(off + k, off + j) == b.subrange(k, j));
            lemma_fields_shift(s, b, off, j + 3, j + 3);
        } else {
            lemma_fields_shift(s, b, off, j + 1, k);
        }
    } else {
        assert(s.subrange(off + k, s.len() as int) == b.subrange(k, b.len() as int));
    }
}

proof fn lemma_fields_single(s: Seq<char>, i: int, start: int)
    requires
        storable_text(s),
        0 <= start <= i <= s.len(),
    ensures
        fields_from(s, i, start) == seq![s.subrange(start, s.len() as int)],
    decreases s.len() - i,
{
    if i < s.len() {
        if i + 1 < s.len() {
            assert(s[i + 1] != '|');
        }
        lemma_fields_single(s, i + 1, start);
    }
}

proof fn lemma_fields_head_from(a: Seq<char>, b: Seq<char>, i: int)
    requires
        storable_text(a),
        0 <= i <= a.len(),
    ensures
        fields_from(a + separator() + b, i, 0) == seq![a] + fields_from(
            a + separator() + b,
            a.len() + 3 as int,
            a.len() + 3 as int,
        ),
    decreases a.len() - i,
{
    let s = a + separator() + b;
    if i < a.len() {
        if i + 1 < a.len() {
            assert(s[i + 1] == a[i + 1]);
        } else {
            assert(s[i + 1] == ' ');
        }
        assert(!sep_at(s, i));
        lemma_fields_head_from(a, b, i + 1);
    } else {
        assert(sep_at(s, i));
        assert(s.subrange(0, i) == a);
    }
}

/// A field free of `|` is cut off at the separator after it.
proof fn lemma_fields_head(a: Seq<char>, b: Seq<char>)
    requires
        storable_text(a),
    ensures
        fields(a + separator() + b) == seq![a] + fields(b),
{
    let s = a + separator() + b;
    lemma_fields_head_from(a, b, 0);
    assert(b == s.subrange(a.len() + 3 as int, s.len() as int));
    lemma_fields_shift(s, b, a.len() + 3 as int, 0, 0);
}

proof fn lemma_lines_shift(s: Seq<char>, b: Seq<char>, off: int, j: int, k: int)
    requires
        0 <= off <= s.len(),
        b == s.subrange(off, s.len() as int),
        0 <= k <= j <= b.len(),
    ensures
        lines_from(s, off + j, off + k) == lines_from(b, j, k),
    decreases b.len() - j,
{
    if j < b.len() {
        assert(s[off + j] == b[j]);
        if b[j] == '\n' {
            assert(s.subrange(off + k, off + j) == b.subrange(k, j));
            lemma_lines_shift(s, b, off, j + 1, j + 1);
        } else {
            lemma_lines_shift(s, b, off, j + 1, k);
        }
    } else {
        assert(s.subrange(off + k, s.len() as int) == b.subrange(k, b.len() as int));
    }
}

proof fn lemma_lines_head_from(a: Seq<char>, b: Seq<char>, i: int)
    requires
        no_line_feed(a),
        0 <= i <= a.len(),
    ensures
        lines_from(a + seq!['\n'] + b, i, 0) == seq![a] + lines_from(
            a + seq!['\n'] + b,
            a.len() + 1 as int,
            a.len() + 1 as int,
        ),
    decreases a.len() - i,
{
    let s = a + seq!['\n'] + b;
    if i < a.len() {
        assert(s[i] == a[i]);
        lemma_lines_head_from(a, b, i + 1);
    } else {
        assert(s[i] == '\n');
        assert(s.subrange(0, i) == a);
    }
}

/// A line free of line feeds is cut off at the line feed after it.
proof fn lemma_lines_head(a: Seq<char>, b: Seq<char>)
    requires
        no_line_feed(a),
    ensures
        lines(a + seq!['\n'] + b) == seq![a] + lines(b),
{
    let s = a + seq!['\n'] + b;
    lemma_lines_head_from(a, b, 0);
    assert(b == s.subrange(a.len() + 1 as int, s.len() as int));
    lemma_lines_shift(s, b, a.len() + 1 as int, 0, 0);
}

proof fn lemma_decimal(n: nat)
    ensures
        decimal(n).len() > 0,
        all_digits(decimal(n)),
        storable_text(decimal(n)),
        digits_value(decimal(n)) == n,
    decreases n,
{
    let ds = seq!['0', '1', '2', '3', '4', '5', '6', '7', '8', '9'];
    assert(ds[0] == '0' && ds[1] == '1' && ds[2] == '2' && ds[3] == '3' && ds[4] == '4');
    assert(ds[5] == '5' && ds[6] == '6' && ds[7] == '7' && ds[8] == '8' && ds[9] == '9');
    if n < 10 {
        assert(digit_value(digit_char(n)) == n);
        assert(decimal(n).drop_last() =~= Seq::<char>::empty());
        assert(digits_value(decimal(n)) == digits_value(decimal(n).drop_last()) * 10
            + digit_value(decimal(n).last()));
        assert(digits_value(Seq::<char>::empty()) == 0);
    } else {
        lemma_decimal(n / 10);
        let d = decimal(n);
        assert(d.drop_last() == decimal(n / 10));
        assert(digit_value(digit_char(n % 10)) == n % 10);
        assert(d.last() == digit_char(n % 10));
        assert(digits_value(d) == digits_value(decimal(n / 10)) * 10 + digit_value(d.last()));
        assert((n / 10) * 10 + n % 10 == n) by (nonlinear_arith);
        assert(all_digits(d)) by {
            assert forall|i: int| 0 <= i < d.len() implies is_digit(#[trigger] d[i]) by {
                if i < d.len() - 1 {
                    assert(d[i] == decimal(n / 10)[i]);
                }
            }
        }
        assert(storable_text(d)) by {
            assert forall|i: int| 0 <= i < d.len() implies #[trigger] d[i] != '|' && d[i]
                != '\n' by {
                if i < d.len() - 1 {
                    assert(d[i] == decimal(n / 10)[i]);
                }
            }
        }
    }
}

proof fn lemma_join_no_line_feed(a: Seq<char>, b: Seq<char>)
    requires
        no_line_feed(a),
        no_line_feed(b),
    ensures
        no_line_feed(a + separator() + b),
{
    let s = a + separator() + b;
    assert forall|k: int| 0 <= k < s.len() implies #[trigger] s[k] != '\n' by {
        if k < a.len() {
            assert(s[k] == a[k]);
        } else if k >= a.len() + 3 {
            assert(s[k] == b[k - a.len() - 3]);
        } else {
            assert(s[k] == separator()[k - a.len()]);
        }
    }
}

/// A task whose name and language are storable reads back from its line
/// with its name, language and count, idle and with no timer.
pub proof fn lemma_line_round_trip(t: TaskView)
    requires
        storable_text(t.name),
        storable_text(t.language),
    ensures
        parse_line(render_line(t)) == stored(t),
{
    let d = decimal(t.completed_count as nat);
    lemma_decimal(t.completed_count as nat);
    let line = render_line(t);
    assert(line == t.name + separator() + (t.language + separator() + d));
    assert(is_digit(line.last()));
    assert(trim_end(line) == line);
    lemma_fields_head(t.name, t.language + separator() + d);
    lemma_fields_head(t.language, d);
    lemma_fields_single(d, 0, 0);
    assert(d.subrange(0, d.len() as int) == d);
    let f = fields(line);
    assert(f == seq![t.name, t.language, d]);
    assert(unsigned_part(d) == d);
}

/// A stored line is free of line feeds.
proof fn lemma_line_no_line_feed(t: TaskView)
    requires
        storable_text(t.name),
        storable_text(t.language),
    ensures
        no_line_feed(render_line(t)),
{
    let d = decimal(t.completed_count as nat);
    lemma_decimal(t.completed_count as nat);
    assert(no_line_feed(t.name) && no_line_feed(t.language) && no_line_feed(d)) by {
        assert forall|k: int| 0 <= k < d.len() implies #[trigger] d[k] != '\n' by {
            assert(d[k] != '|' && d[k] != '\n');
        }
        assert forall|k: int| 0 <= k < t.name.len() implies #[trigger] t.name[k] != '\n' by {
            assert(t.name[k] != '|' && t.name[k] != '\n');
        }
        assert forall|k: int| 0 <= k < t.language.len() implies #[trigger] t.language[k]
            != '\n' by {
            assert(t.language[k] != '|' && t.language[k] != '\n');
        }
    }
    lemma_join_no_line_feed(t.name, t.language);
    lemma_join_no_line_feed(t.name + separator() + t.language, d);
}

/// Saving tasks whose names and languages hold no `|` and no line feed, then
/// loading the result, gives back every task's name, language and count, in
/// order, each idle and with no timer.
pub proof fn lemma_round_trip(ts: Seq<TaskView>)
    requires
        forall|i: int| 0 <= i < ts.len() ==> storable_text(#[trigger] ts[i].name) && storable_text(
            ts[i].language,
        ),
    ensures
        parse_all(render_all(ts)) == ts.map_values(|t: TaskView| stored(t)),
    decreases ts.len(),
{
    if ts.len() == 0 {
        assert(lines(Seq::<char>::empty()) == Seq::<Seq<char>>::empty());
        assert(parse_all(render_all(ts)) =~= ts.map_values(|t: TaskView| stored(t)));
    } else {
        let rest = ts.drop_first();
        assert forall|i: int| 0 <= i < rest.len() implies storable_text(#[trigger] rest[i].name)
            && storable_text(rest[i].language) by {
            assert(rest[i] == ts[i + 1]);
        }
        lemma_round_trip(rest);
        assert(storable_text(ts[0].name) && storable_text(ts[0].language));
        lemma_line_no_line_feed(ts[0]);
        lemma_lines_head(render_line(ts[0]), render_all(rest));
        lemma_line_round_trip(ts[0]);
        let l = lines(render_all(ts));
        let lr = lines(render_all(rest));
        assert(render_all(ts) == render_line(ts[0]) + seq!['\n'] + render_all(rest));
        assert(l == seq![render_line(ts[0])] + lr);
        let p = parse_all(render_all(ts));
        let q = ts.map_values(|t: TaskView| stored(t));
        assert(parse_all(render_all(rest)).len() == rest.len());
        assert(lr.len() == rest.len());
        assert(p.len() == l.len());
        assert(p.len() == q.len());
        assert forall|i: int| 0 <= i < p.len() implies p[i] == q[i] by {
            if i > 0 {
                assert(l[i] == lr[i - 1]);
                assert(parse_all(render_all(rest))[i - 1] == stored(rest[i - 1]));
                assert(rest[i - 1] == ts[i]);
            }
        }
        assert(p =~= q);
    }
}

proof fn lemma_render_all_push(ts: Seq<TaskView>, t: TaskView)
    ensures
        render_all(ts.push(t)) == render_all(ts) + render_line(t) + seq!['\n'],
    decreases ts.len(),
{
    if ts.len() == 0 {
        assert(ts.push(t).drop_first() =~= Seq::<TaskView>::empty());
        assert(ts.push(t)[0] == t);
        assert(render_all(ts.push(t)) == render_line(t) + seq!['\n'] + render_all(
            Seq::<TaskView>::empty(),
        ));
        assert(render_all(ts) == Seq::<char>::empty());
        assert(render_all(ts.push(t)) =~= render_all(ts) + render_line(t) + seq!['\n']);
    } else {
        assert(ts.push(t).drop_first() =~= ts.drop_first().push(t));
        lemma_render_all_push(ts.drop_first(), t);
        assert(ts.push(t)[0] == ts[0]);
        assert(render_all(ts.push(t)) == render_line(ts[0]) + seq!['\n'] + render_all(
            ts.drop_first().push(t),
        ));
        assert(render_all(ts) == render_line(ts[0]) + seq!['\n'] + render_all(ts.drop_first()));
        assert(render_all(ts.push(t)) =~= render_all(ts) + render_line(t) + seq!['\n']);
    }
}

/// The decimal digits of `n`.
fn decimal_chars(n: u32) -> (r: Vec<char>)
    ensures
        r@ == decimal(n as nat),
{
    let ds = vec!['0', '1', '2', '3', '4', '5', '6', '7', '8', '9'];
    assert(ds@ == seq!['0', '1', '2', '3', '4', '5', '6', '7', '8', '9']);
    let mut acc: Vec<char> = Vec::new();
    let mut x: u32 = n;
    while x >= 10
        invariant
            ds@ == seq!['0', '1', '2', '3', '4', '5', '6', '7', '8', '9'],
            decimal(n as nat) == decimal(x as nat) + acc@,
        decreases x,
    {
        let c = ds[(x % 10) as usize];
        let ghost before = acc@;
        acc.insert(0, c);
        proof {
            assert(decimal(x as nat) == decimal((x / 10) as nat).push(c));
            assert(decimal((x / 10) as nat).push(c) + before =~= decimal((x / 10) as nat)
                + acc@);
        }
        x = x / 10;
    }
    let ghost before = acc@;
    acc.insert(0, ds[x as usize]);
    assert(acc@ =~= decimal(x as nat) + before);
    acc
}

/// The file that holds `tasks`: one line each, `name | language | count`,
/// each ending in a line feed.
pub fn render_tasks(tasks: &Vec<Task>) -> (r: String)
    ensures
        r@ == render_all(task_views(tasks@)),
{
    let mut out: Vec<char> = Vec::new();
    let mut i: usize = 0;
    while i < tasks.len()
        invariant
            i <= tasks@.len(),
            out@ == render_all(task_views(tasks@.take(i as int))),
        decreases tasks@.len() - i,
    {
        let t = &tasks[i];
        let mut name = chars_of(t.name.as_str());
        let mut sep1 = vec![' ', '|', ' '];
        let mut language = chars_of(t.language.as_str());
        let mut sep2 = vec![' ', '|', ' '];
        let mut count = decimal_chars(t.completed_count);
        let mut nl = vec!['\n'];
        let ghost before = out@;
        out.append(&mut name);
        out.append(&mut sep1);
        out.append(&mut language);
        out.append(&mut sep2);
        out.append(&mut count);
        out.append(&mut nl);
        proof {
            assert(task_views(tasks@.take(i + 1)) =~= task_views(tasks@.take(i as int)).push(t@));
            lemma_render_all_push(task_views(tasks@.take(i as int)), t@);
            assert(out@ =~= before + render_line(t@) + seq!['\n']);
        }
        i = i + 1;
    }
    assert(tasks@.take(tasks@.len() as int) =~= tasks@);
    string_of(&out)
}

/// Cuts `v` at each line feed.
fn split_lines(v: &Vec<char>) -> (r: Vec<Vec<char>>)
    ensures
        r@.map_values(|p: Vec<char>| p@) == lines(v@),
{
    let ghost s = v@;
    let n = v.len();
    let mut pieces: Vec<Vec<char>> = Vec::new();
    let mut i: usize = 0;
    let mut start: usize = 0;
    loop
        invariant
            s == v@,
            n == s.len(),
            start <= i <= n,
            pieces@.map_values(|p: Vec<char>| p@) + lines_from(s, i as int, start as int)
                == lines(s),
        decreases n - i,
    {
        if i < n && v[i] == '\n' {
            let p = sub_chars(v, start, i);
            let ghost before = pieces@.map_values(|p: Vec<char>| p@);
            pieces.push(p);
            proof {
                assert(pieces@.map_values(|p: Vec<char>| p@) =~= before.push(p@));
                assert(before + (seq![p@] + lines_from(s, i + 1, i + 1)) =~= before.push(p@)
                    + lines_from(s, i + 1, i + 1));
            }
            i = i + 1;
            start = i;
        } else if i < n {
            i = i + 1;
        } else {
            if start < n {
                let p = sub_chars(v, start, n);
                let ghost before = pieces@.map_values(|p: Vec<char>| p@);
                pieces.push(p);
                proof {
                    assert(pieces@.map_values(|p: Vec<char>| p@) =~= before.push(p@));
                    assert(before + seq![p@] =~= before.push(p@));
                }
            } else {
                assert(pieces@.map_values(|p: Vec<char>| p@) + Seq::<Seq<char>>::empty()
                    =~= pieces@.map_values(|p: Vec<char>| p@));
            }
            return pieces;
        }
    }
}

/// The tasks that the stored file `content` holds, one for each line, all
/// idle.
pub fn parse_tasks(content: &str) -> (r: Vec<Task>)
    ensures
        task_views(r@) == parse_all(content@),
{
    let v = chars_of(content);
    let ls = split_lines(&v);
    let ghost lv = ls@.map_values(|p: Vec<char>| p@);
    let mut out: Vec<Task> = Vec::new();
    let mut i: usize = 0;
    while i < ls.len()
        invariant
            i <= ls@.len(),
            lv == ls@.map_values(|p: Vec<char>| p@),
            lv == lines(content@),
            task_views(out@) == lv.take(i as int).map_values(|l: Seq<char>| parse_line(l)),
        decreases ls@.len() - i,
    {
        let line = string_of(&ls[i]);
        let t = parse_task_line(line.as_str());
        let ghost before = out@;
        out.push(t);
        proof {
            assert(task_views(out@) =~= task_views(before).push(t@));
            assert(lv.take(i + 1).map_values(|l: Seq<char>| parse_line(l)) =~= lv.take(
                i as int,
            ).map_values(|l: Seq<char>| parse_line(l)).push(parse_line(lv[i as int])));
        }
        i = i + 1;
    }
    assert(lv.take(lv.len() as int) =~= lv);
    out
}

} // verus!

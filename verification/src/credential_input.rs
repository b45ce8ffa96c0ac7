//! The `key=value` lines that git hands a credential helper on `get`, and the
//! reply the helper writes back.
use vstd::prelude::*;
use crate::text::{
    chars_of, first_index, lemma_first_index_at, lemma_first_index_facts,
    lemma_first_index_none, segment_equals,
};

verus! {

/// Refusal when `protocol=` or `host=` is missing.
pub const INPUT_NOT_SUPPORTED: &'static str = "Input format not supported.";

/// Refusal when `path=` is missing: git must be told to send it.
pub const USEHTTPPATH_REQUIRED: &'static str = "Git usehttppath must be enabled to use this helper. You can active it with\n    git config --global credential.usehttppath true\n    ";

/// A line with its carriage return removed, when it ends in one.
pub open spec fn strip_cr(line: Seq<char>) -> Seq<char> {
    if line.len() > 0 && line.last() == '\r' {
        line.drop_last()
    } else {
        line
    }
}

/// The lines of `s` as `str::lines` yields them: split at `\n`; a line that a
/// `\n` ends loses one trailing `\r`; an empty rest after the last `\n` is no line.
pub open spec fn lines(s: Seq<char>) -> Seq<Seq<char>>
    decreases s.len(),
{
    if s.len() == 0 {
        Seq::empty()
    } else {
        match first_index(s, '\n') {
            Some(k) => {
                proof {
                    lemma_first_index_facts(s, '\n');
                }
                seq![strip_cr(s.take(k))] + lines(s.skip(k + 1))
            },
            None => seq![s],
        }
    }
}

/// The key of a line that holds a `=`: everything before the first `=`.
pub open spec fn line_key(line: Seq<char>) -> Seq<char> {
    match first_index(line, '=') {
        Some(i) => line.take(i),
        None => line,
    }
}

/// The value of a line that holds a `=`: from the first `=` up to the next
/// `=` or the end of the line.
pub open spec fn line_value(line: Seq<char>) -> Seq<char> {
    match first_index(line, '=') {
        Some(i) => {
            let rest = line.skip(i + 1);
            match first_index(rest, '=') {
                Some(j) => rest.take(j),
                None => rest,
            }
        },
        None => Seq::empty(),
    }
}

/// Whether `line` sets `key`: it holds a `=` and its key is `key`.
pub open spec fn sets_key(line: Seq<char>, key: Seq<char>) -> bool {
    first_index(line, '=') is Some && line_key(line) == key
}

/// The value that the last line setting `key` gives it.
pub open spec fn last_value(ls: Seq<Seq<char>>, key: Seq<char>) -> Option<Seq<char>>
    decreases ls.len(),
{
    if ls.len() == 0 {
        None
    } else if sets_key(ls.last(), key) {
        Some(line_value(ls.last()))
    } else {
        last_value(ls.drop_last(), key)
    }
}

/// What a `get` request made of the lines `ls` asks for: the location
/// `protocol://host/path`, or the refusal.
pub open spec fn location_of_lines(ls: Seq<Seq<char>>) -> Result<Seq<char>, Seq<char>> {
    let protocol = last_value(ls, "protocol"@);
    let host = last_value(ls, "host"@);
    let path = last_value(ls, "path"@);
    if protocol is None || host is None {
        Err(INPUT_NOT_SUPPORTED@)
    } else if path is None {
        Err(USEHTTPPATH_REQUIRED@)
    } else {
        Ok(protocol->0 + "://"@ + host->0 + "/"@ + path->0)
    }
}

/// What the `get` request text `s` asks for.
pub open spec fn requested_location(s: Seq<char>) -> Result<Seq<char>, Seq<char>> {
    location_of_lines(lines(s))
}

/// The view of a `Result` of strings.
pub open spec fn result_view(r: Result<String, String>) -> Result<Seq<char>, Seq<char>> {
    match r {
        Ok(s) => Ok(s@),
        Err(e) => Err(e@),
    }
}

/// A stretch `start..end` of the request's characters.
#[derive(Clone, Copy)]
struct Span {
    start: usize,
    end: usize,
}

/// The characters that an optional span covers.
spec fn range_view(cs: Seq<char>, r: Option<Span>) -> Option<Seq<char>> {
    match r {
        Some(sp) => Some(cs.subrange(sp.start as int, sp.end as int)),
        None => None,
    }
}

/// An optional span that lies within `cs`.
spec fn span_fits(cs: Seq<char>, r: Option<Span>) -> bool {
    r matches Some(sp) ==> sp.start <= sp.end <= cs.len()
}

/// The next line of `s` from `start`, when the first `\n` from there stands at `i`.
proof fn lemma_lines_step(s: Seq<char>, start: int, i: int)
    requires
        0 <= start <= i < s.len(),
        s[i] == '\n',
        forall|j: int| start <= j < i ==> s[j] != '\n',
    ensures
        lines(s.skip(start)) == seq![strip_cr(s.subrange(start, i))] + lines(s.skip(i + 1)),
{
    let t = s.skip(start);
    lemma_first_index_at(t, '\n', i - start);
    assert(t.take(i - start) =~= s.subrange(start, i));
    assert(t.skip(i - start + 1) =~= s.skip(i + 1));
}

/// The last line of `s`, from `start` on, when no `\n` follows.
proof fn lemma_lines_last(s: Seq<char>, start: int)
    requires
        0 <= start <= s.len(),
        forall|j: int| start <= j < s.len() ==> s[j] != '\n',
    ensures
        start < s.len() ==> lines(s.skip(start)) == seq![s.subrange(start, s.len() as int)],
        start == s.len() ==> lines(s.skip(start)) == Seq::<Seq<char>>::empty(),
{
    let t = s.skip(start);
    if start < s.len() {
        lemma_first_index_none(t, '\n');
    } else {
        assert(t.len() == 0);
    }
}

/// Where the key and the value of `cs[from..to]` lie: the position of the
/// first `=` and the end of the value; `None` for a line without `=`.
fn split_key_value(cs: &Vec<char>, from: usize, to: usize) -> (r: Option<(usize, usize)>)
    requires
        from <= to <= cs@.len(),
    ensures
        match r {
            Some((eq, end)) => {
                &&& from <= eq < end
                &&& end <= to
                &&& first_index(cs@.subrange(from as int, to as int), '=') is Some
                &&& line_key(cs@.subrange(from as int, to as int)) == cs@.subrange(
                    from as int,
                    eq as int,
                )
                &&& line_value(cs@.subrange(from as int, to as int)) == cs@.subrange(
                    eq + 1,
                    end as int,
                )
            },
            None => first_index(cs@.subrange(from as int, to as int), '=') is None,
        },
{
    let ghost line = cs@.subrange(from as int, to as int);
    let mut eq: usize = from;
    while eq < to && cs[eq] != '='
        invariant
            from <= eq <= to <= cs@.len(),
            line == cs@.subrange(from as int, to as int),
            forall|j: int| 0 <= j < eq - from ==> line[j] != '=',
        decreases to - eq,
    {
        eq = eq + 1;
    }
    if eq == to {
        proof {
            lemma_first_index_none(line, '=');
        }
        return None;
    }
    proof {
        lemma_first_index_at(line, '=', eq - from);
    }
    let mut end: usize = eq + 1;
    let ghost rest = line.skip(eq - from + 1);
    assert(rest =~= cs@.subrange(eq + 1, to as int));
    while end < to && cs[end] != '='
        invariant
            from <= eq < end <= to <= cs@.len(),
            rest == cs@.subrange(eq + 1, to as int),
            forall|j: int| 0 <= j < end - eq - 1 ==> rest[j] != '=',
        decreases to - end,
    {
        end = end + 1;
    }
    proof {
        assert(line.take(eq - from) =~= cs@.subrange(from as int, eq as int));
        if end < to {
            lemma_first_index_at(rest, '=', end - eq - 1);
            assert(rest.take(end - eq - 1) =~= cs@.subrange(eq + 1, end as int));
        } else {
            lemma_first_index_none(rest, '=');
        }
    }
    Some((eq, end))
}

/// Folds the line `cs[from..to]` into the three fields, the last setting winning.
fn take_line(
    cs: &Vec<char>,
    from: usize,
    to: usize,
    protocol: &mut Option<Span>,
    host: &mut Option<Span>,
    path: &mut Option<Span>,
)
    requires
        from <= to <= cs@.len(),
        span_fits(cs@, *old(protocol)),
        span_fits(cs@, *old(host)),
        span_fits(cs@, *old(path)),
    ensures
        ({
            let line = cs@.subrange(from as int, to as int);
            &&& range_view(cs@, *final(protocol)) == if sets_key(line, "protocol"@) {
                Some(line_value(line))
            } else {
                range_view(cs@, *old(protocol))
            }
            &&& range_view(cs@, *final(host)) == if sets_key(line, "host"@) {
                Some(line_value(line))
            } else {
                range_view(cs@, *old(host))
            }
            &&& range_view(cs@, *final(path)) == if sets_key(line, "path"@) {
                Some(line_value(line))
            } else {
                range_view(cs@, *old(path))
            }
        }),
        span_fits(cs@, *final(protocol)),
        span_fits(cs@, *final(host)),
        span_fits(cs@, *final(path)),
{
    proof {
        reveal_strlit("protocol");
        reveal_strlit("host");
        reveal_strlit("path");
        assert("protocol"@.len() == 8 && "host"@.len() == 4 && "path"@.len() == 4);
        assert("host"@[0] != "path"@[0]);
    }
    match split_key_value(cs, from, to) {
        None => {},
        Some((eq, end)) => {
            if segment_equals(cs, from, eq, "protocol") {
                *protocol = Some(Span { start: eq + 1, end });
            } else if segment_equals(cs, from, eq, "host") {
                *host = Some(Span { start: eq + 1, end });
            } else if segment_equals(cs, from, eq, "path") {
                *path = Some(Span { start: eq + 1, end });
            }
        },
    }
}

/// The location that a git credential `get` request asks for: the request's
/// `protocol=`, `host=` and `path=` lines (the last of each counts, lines
/// without `=` are skipped, a value ends at a second `=`) put together as
/// `protocol://host/path`.
pub fn parse_helper_get_input(text: &str) -> (r: Result<String, String>)
    ensures
        result_view(r) == requested_location(text@),
{
    let cs = chars_of(text);
    let n = cs.len();
    let mut protocol: Option<Span> = None;
    let mut host: Option<Span> = None;
    let mut path: Option<Span> = None;
    let mut start: usize = 0;
    let mut i: usize = 0;
    let ghost mut done: Seq<Seq<char>> = Seq::empty();
    assert(text@.skip(0) =~= text@);
    assert(done + lines(text@) =~= lines(text@));
    while i < n
        invariant
            n == cs@.len(),
            cs@ == text@,
            start <= i <= n,
            forall|j: int| start <= j < i ==> cs@[j] != '\n',
            lines(text@) == done + lines(text@.skip(start as int)),
            range_view(cs@, protocol) == last_value(done, "protocol"@),
            range_view(cs@, host) == last_value(done, "host"@),
            range_view(cs@, path) == last_value(done, "path"@),
            span_fits(cs@, protocol),
            span_fits(cs@, host),
            span_fits(cs@, path),
        decreases n - i,
    {
        if cs[i] == '\n' {
            let end = if i > start && cs[i - 1] == '\r' {
                i - 1
            } else {
                i
            };
            let ghost line = cs@.subrange(start as int, end as int);
            proof {
                lemma_lines_step(text@, start as int, i as int);
                assert(strip_cr(cs@.subrange(start as int, i as int)) =~= line);
                assert(lines(text@) =~= done.push(line) + lines(text@.skip(i + 1)));
                assert(done.push(line).drop_last() =~= done);
            }
            take_line(&cs, start, end, &mut protocol, &mut host, &mut path);
            proof {
                done = done.push(line);
            }
            start = i + 1;
        }
        i = i + 1;
    }
    proof {
        lemma_lines_last(text@, start as int);
    }
    if start < n {
        let ghost line = cs@.subrange(start as int, n as int);
        proof {
            assert(lines(text@) =~= done.push(line));
            assert(done.push(line).drop_last() =~= done);
        }
        take_line(&cs, start, n, &mut protocol, &mut host, &mut path);
        proof {
            done = done.push(line);
        }
    } else {
        assert(lines(text@) =~= done);
    }
    match (protocol, host, path) {
        (Some(p), Some(h), Some(t)) => {
            let location = String::from_str(text.substring_char(p.start, p.end)).concat(
                "://",
            ).concat(text.substring_char(h.start, h.end)).concat("/").concat(
                text.substring_char(t.start, t.end),
            );
            Ok(location)
        },
        (Some(_), Some(_), None) => Err(String::from_str(USEHTTPPATH_REQUIRED)),
        _ => Err(String::from_str(INPUT_NOT_SUPPORTED)),
    }
}

/// The reply to a `get` request: the username and password lines of the
/// credential helper protocol.
pub fn credential_response(username: &str, password: &str) -> (r: String)
    ensures
        r@ == "username="@ + username@ + "\n"@ + "password="@ + password@ + "\n"@,
{
    String::from_str("username=").concat(username).concat("\n").concat("password=").concat(
        password,
    ).concat("\n")
}

/// Whether `line` sets none of the fields that a request is made of: it has
/// no `=`, or its key is neither `protocol`, `host` nor `path`.
pub open spec fn ignorable(line: Seq<char>) -> bool {
    !sets_key(line, "protocol"@) && !sets_key(line, "host"@) && !sets_key(line, "path"@)
}

/// Lines at the end that do not set `key` leave its value as it was.
proof fn lemma_last_value_skips_tail(a: Seq<Seq<char>>, ins: Seq<Seq<char>>, key: Seq<char>)
    requires
        forall|i: int| 0 <= i < ins.len() ==> !sets_key(#[trigger] ins[i], key),
    ensures
        last_value(a + ins, key) == last_value(a, key),
    decreases ins.len(),
{
    if ins.len() == 0 {
        assert(a + ins =~= a);
    } else {
        let w = a + ins;
        assert(w.last() == ins.last());
        assert(w.drop_last() =~= a + ins.drop_last());
        assert forall|i: int| 0 <= i < ins.drop_last().len() implies !sets_key(
            #[trigger] ins.drop_last()[i],
            key,
        ) by {
            assert(ins.drop_last()[i] == ins[i]);
        }
        lemma_last_value_skips_tail(a, ins.drop_last(), key);
    }
}

/// Lines that do not set `key` change its value nowhere they stand.
proof fn lemma_last_value_skips_lines(
    a: Seq<Seq<char>>,
    ins: Seq<Seq<char>>,
    b: Seq<Seq<char>>,
    key: Seq<char>,
)
    requires
        forall|i: int| 0 <= i < ins.len() ==> !sets_key(#[trigger] ins[i], key),
    ensures
        last_value(a + ins + b, key) == last_value(a + b, key),
    decreases b.len(),
{
    if b.len() == 0 {
        assert(a + ins + b =~= a + ins);
        assert(a + b =~= a);
        lemma_last_value_skips_tail(a, ins, key);
    } else {
        let whole = a + ins + b;
        let short = a + b;
        assert(whole.last() == b.last());
        assert(short.last() == b.last());
        assert(whole.drop_last() =~= a + ins + b.drop_last());
        assert(short.drop_last() =~= a + b.drop_last());
        lemma_last_value_skips_lines(a, ins, b.drop_last(), key);
    }
}

/// Law: request lines that set none of `protocol`, `host` and `path` (lines
/// without `=`, such as blank lines, and lines with any other key) are
/// ignored, however many stand wherever: the request asks for the same
/// location, or is refused in the same way, with them or without them.
pub proof fn law_ignorable_lines_are_ignored(
    before: Seq<Seq<char>>,
    inserted: Seq<Seq<char>>,
    after: Seq<Seq<char>>,
)
    requires
        forall|i: int| 0 <= i < inserted.len() ==> ignorable(#[trigger] inserted[i]),
    ensures
        location_of_lines(before + inserted + after) == location_of_lines(before + after),
{
    lemma_last_value_skips_lines(before, inserted, after, "protocol"@);
    lemma_last_value_skips_lines(before, inserted, after, "host"@);
    lemma_last_value_skips_lines(before, inserted, after, "path"@);
}

/// The lines of a text that ends a line (or is empty), followed by more text,
/// are its own lines followed by those of the rest.
proof fn lemma_lines_concat(x: Seq<char>, y: Seq<char>)
    requires
        x.len() == 0 || x.last() == '\n',
    ensures
        lines(x + y) == lines(x) + lines(y),
    decreases x.len(),
{
    if x.len() == 0 {
        assert(x + y =~= y);
        assert(lines(x) + lines(y) =~= lines(y));
    } else {
        lemma_first_index_facts(x, '\n');
        let k = first_index(x, '\n')->0;
        let xy = x + y;
        assert forall|j: int| 0 <= j < k implies xy[j] != '\n' by {
            assert(xy[j] == x[j]);
        }
        assert(xy[k] == x[k]);
        lemma_first_index_at(xy, '\n', k);
        assert(xy.take(k) =~= x.take(k));
        let rest = x.skip(k + 1);
        assert(xy.skip(k + 1) =~= rest + y);
        if rest.len() > 0 {
            assert(rest.last() == x.last());
        }
        lemma_lines_concat(rest, y);
        assert(lines(xy) =~= seq![strip_cr(x.take(k))] + (lines(rest) + lines(y)));
        assert(lines(x) == seq![strip_cr(x.take(k))] + lines(rest));
        assert(lines(xy) =~= lines(x) + lines(y));
    }
}

/// Law: whole lines inserted into a request, each setting none of
/// `protocol`, `host` and `path`, change nothing: the request asks for the
/// same location, or is refused in the same way. `before` and `block` end
/// their last line (or are empty); `block` holds the inserted lines.
pub proof fn law_inserted_lines_are_ignored(
    before: Seq<char>,
    block: Seq<char>,
    after: Seq<char>,
)
    requires
        before.len() == 0 || before.last() == '\n',
        block.len() == 0 || block.last() == '\n',
        forall|i: int| 0 <= i < lines(block).len() ==> ignorable(#[trigger] lines(block)[i]),
    ensures
        requested_location(before + block + after) == requested_location(before + after),
{
    lemma_lines_concat(block, after);
    lemma_lines_concat(before, block + after);
    lemma_lines_concat(before, after);
    assert(before + block + after =~= before + (block + after));
    assert(lines(before) + (lines(block) + lines(after)) =~= lines(before) + lines(block)
        + lines(after));
    law_ignorable_lines_are_ignored(lines(before), lines(block), lines(after));
}

/// Whether every line of `ls` is ignorable.
pub open spec fn all_ignorable(ls: Seq<Seq<char>>) -> bool {
    forall|i: int| 0 <= i < ls.len() ==> ignorable(#[trigger] ls[i])
}

/// Ending a text with `\n` gives the lines of the text without its trailing
/// `\r`, and at most some ignorable lines more.
proof fn lemma_lines_newline(x: Seq<char>) -> (extra: Seq<Seq<char>>)
    ensures
        all_ignorable(extra),
        lines(x + "\n"@) == lines(strip_cr(x)) + extra,
    decreases x.len(),
{
    reveal_strlit("\n");
    let xn = x + "\n"@;
    lemma_first_index_facts(x, '\n');
    lemma_first_index_none(Seq::<char>::empty(), '=');
    assert(ignorable(Seq::<char>::empty()));
    match first_index(x, '\n') {
        None => {
            assert forall|j: int| 0 <= j < x.len() implies xn[j] != '\n' by {
                assert(xn[j] == x[j]);
            }
            lemma_first_index_at(xn, '\n', x.len() as int);
            assert(xn.take(x.len() as int) =~= x);
            assert(xn.skip(x.len() as int + 1) =~= Seq::<char>::empty());
            assert(lines(Seq::<char>::empty()) == Seq::<Seq<char>>::empty());
            assert(lines(xn) == seq![strip_cr(xn.take(x.len() as int))] + lines(
                xn.skip(x.len() as int + 1),
            ));
            assert(lines(xn) =~= seq![strip_cr(x)]);
            let sx = strip_cr(x);
            if sx.len() == 0 {
                let extra = seq![Seq::<char>::empty()];
                assert(lines(sx) =~= Seq::<Seq<char>>::empty());
                assert(sx =~= Seq::<char>::empty());
                assert(lines(xn) =~= lines(sx) + extra);
                extra
            } else {
                assert forall|j: int| 0 <= j < sx.len() implies sx[j] != '\n' by {
                    assert(sx[j] == x[j]);
                }
                lemma_first_index_none(sx, '\n');
                assert(lines(xn) =~= lines(sx) + Seq::<Seq<char>>::empty());
                Seq::<Seq<char>>::empty()
            }
        },
        Some(k) => {
            assert forall|j: int| 0 <= j < k implies xn[j] != '\n' by {
                assert(xn[j] == x[j]);
            }
            assert(xn[k] == x[k]);
            lemma_first_index_at(xn, '\n', k);
            let rest = x.skip(k + 1);
            assert(xn.take(k) =~= x.take(k));
            assert(xn.skip(k + 1) =~= rest + "\n"@);
            let extra = lemma_lines_newline(rest);
            let sx = strip_cr(x);
            assert(k < sx.len());
            assert forall|j: int| 0 <= j < k implies sx[j] != '\n' by {
                assert(sx[j] == x[j]);
            }
            assert(sx[k] == x[k]);
            lemma_first_index_at(sx, '\n', k);
            assert(sx.take(k) =~= x.take(k));
            assert(sx.skip(k + 1) =~= strip_cr(rest));
            assert(lines(xn) == seq![strip_cr(x.take(k))] + lines(rest + "\n"@));
            assert(lines(sx) == seq![strip_cr(x.take(k))] + lines(strip_cr(rest)));
            assert(lines(xn) =~= lines(sx) + extra);
            extra
        },
    }
}

/// Law: lines appended to a request, each setting none of `protocol`,
/// `host` and `path`, change nothing but this: the request's last line, now
/// ended by the new `\n`, loses a trailing `\r`. The request asks for what
/// the request without that `\r` asks for.
pub proof fn law_appended_lines_are_ignored(text: Seq<char>, block: Seq<char>)
    requires
        all_ignorable(lines(block)),
    ensures
        requested_location(text + "\n"@ + block) == requested_location(strip_cr(text)),
{
    reveal_strlit("\n");
    let head = text + "\n"@;
    assert(head.last() == '\n');
    lemma_lines_concat(head, block);
    let extra = lemma_lines_newline(text);
    let tail = extra + lines(block);
    assert forall|i: int| 0 <= i < tail.len() implies ignorable(#[trigger] tail[i]) by {
        if i < extra.len() {
            assert(tail[i] == extra[i]);
        } else {
            assert(tail[i] == lines(block)[i - extra.len()]);
        }
    }
    let base = lines(strip_cr(text));
    assert(lines(head + block) =~= base + tail + Seq::<Seq<char>>::empty());
    assert(base + Seq::<Seq<char>>::empty() =~= base);
    law_ignorable_lines_are_ignored(base, tail, Seq::<Seq<char>>::empty());
}

/// Law: a request that does not end in `\r` asks for the same location, or
/// is refused in the same way, with ignorable lines appended.
pub proof fn law_appended_lines_keep_location(text: Seq<char>, block: Seq<char>)
    requires
        text.len() == 0 || text.last() != '\r',
        all_ignorable(lines(block)),
    ensures
        requested_location(text + "\n"@ + block) == requested_location(text),
{
    law_appended_lines_are_ignored(text, block);
}

/// The request line `key=value`.
pub open spec fn field_line(key: Seq<char>, value: Seq<char>) -> Seq<char> {
    key + "="@ + value
}

/// The `get` request that names `protocol`, `host` and `path`, one line each.
pub open spec fn get_request(protocol: Seq<char>, host: Seq<char>, path: Seq<char>) -> Seq<
    char,
> {
    field_line("protocol"@, protocol) + "\n"@ + field_line("host"@, host) + "\n"@ + field_line(
        "path"@,
        path,
    )
}

/// Whether `s` holds neither `=` nor `\n`.
pub open spec fn plain_value(s: Seq<char>) -> bool {
    forall|j: int| 0 <= j < s.len() ==> s[j] != '=' && s[j] != '\n'
}

/// A line that `\n` ends is the first of the lines.
proof fn lemma_lines_cons(line: Seq<char>, rest: Seq<char>)
    requires
        forall|j: int| 0 <= j < line.len() ==> line[j] != '\n',
    ensures
        lines(line + "\n"@ + rest) == seq![strip_cr(line)] + lines(rest),
{
    reveal_strlit("\n");
    let s = line + "\n"@ + rest;
    assert(s[line.len() as int] == '\n');
    assert forall|j: int| 0 <= j < line.len() implies s[j] != '\n' by {
        assert(s[j] == line[j]);
    }
    lemma_first_index_at(s, '\n', line.len() as int);
    assert(s.take(line.len() as int) =~= line);
    assert(s.skip(line.len() as int + 1) =~= rest);
}

/// The key and value of `key=value`.
proof fn lemma_field_line(key: Seq<char>, value: Seq<char>)
    requires
        plain_value(key),
        plain_value(value),
    ensures
        first_index(field_line(key, value), '=') is Some,
        line_key(field_line(key, value)) == key,
        line_value(field_line(key, value)) == value,
        forall|j: int|
            0 <= j < field_line(key, value).len() ==> field_line(key, value)[j] != '\n',
{
    reveal_strlit("=");
    let line = field_line(key, value);
    assert(line[key.len() as int] == '=');
    assert forall|j: int| 0 <= j < key.len() implies line[j] != '=' by {
        assert(line[j] == key[j]);
    }
    lemma_first_index_at(line, '=', key.len() as int);
    assert(line.take(key.len() as int) =~= key);
    let rest = line.skip(key.len() as int + 1);
    assert(rest =~= value);
    lemma_first_index_none(rest, '=');
    assert forall|j: int| 0 <= j < line.len() implies line[j] != '\n' by {
        if j < key.len() {
            assert(line[j] == key[j]);
        } else if j > key.len() {
            assert(line[j] == value[j - key.len() - 1]);
        }
    }
}

/// Law: a `get` request naming a protocol, a host and a path asks for
/// `protocol://host/path`, for every such values without `=` or line breaks.
pub proof fn law_request_names_its_location(protocol: Seq<char>, host: Seq<char>, path: Seq<char>)
    requires
        plain_value(protocol),
        plain_value(host),
        plain_value(path),
        protocol.len() == 0 || protocol.last() != '\r',
        host.len() == 0 || host.last() != '\r',
    ensures
        requested_location(get_request(protocol, host, path)) == Ok::<Seq<char>, Seq<char>>(
            protocol + "://"@ + host + "/"@ + path,
        ),
{
    reveal_strlit("protocol");
    reveal_strlit("host");
    reveal_strlit("path");
    reveal_strlit("=");
    assert(plain_value("protocol"@));
    assert(plain_value("host"@));
    assert(plain_value("path"@));
    lemma_field_line("protocol"@, protocol);
    lemma_field_line("host"@, host);
    lemma_field_line("path"@, path);
    let l1 = field_line("protocol"@, protocol);
    let l2 = field_line("host"@, host);
    let l3 = field_line("path"@, path);
    assert(strip_cr(l1) == l1);
    assert(strip_cr(l2) == l2);
    let tail = l2 + "\n"@ + l3;
    assert(get_request(protocol, host, path) =~= l1 + "\n"@ + tail);
    lemma_lines_cons(l1, tail);
    lemma_lines_cons(l2, l3);
    lemma_first_index_none(l3, '\n');
    assert(l3.len() > 0);
    assert(lines(l3) == seq![l3]);
    let ls = lines(get_request(protocol, host, path));
    assert(ls =~= seq![l1, l2, l3]);
    assert("protocol"@.len() == 8 && "host"@.len() == 4 && "path"@.len() == 4);
    assert("host"@[0] != "path"@[0]);
    assert(ls.drop_last() =~= seq![l1, l2]);
    assert(ls.drop_last().drop_last() =~= seq![l1]);
    assert(seq![l1].drop_last() =~= Seq::<Seq<char>>::empty());
    assert("protocol"@ != "host"@ && "protocol"@ != "path"@ && "host"@ != "path"@);
    assert(last_value(seq![l1], "protocol"@) == Some(protocol));
    assert(last_value(seq![l1, l2], "host"@) == Some(host));
    assert(last_value(seq![l1, l2], "protocol"@) == Some(protocol));
    assert(last_value(ls, "path"@) == Some(path));
    assert(last_value(ls, "host"@) == Some(host));
    assert(last_value(ls, "protocol"@) == Some(protocol));
}

} // verus!

//! The threat-feed text format: a list of lines, each of which names an
//! indicator as its first whitespace-separated field, with `#` comment lines.
use vstd::prelude::*;
use crate::text::{chars_of, first_field, is_space, leading_token, push_chars, skip_spaces, token_end, trim_start};

verus! {

/// How often, in seconds, the feed is downloaded again: hourly.
pub const FEED_REFRESH_SECS: u64 = 3600;

/// The number of characters of `s` before its first line feed (all of them if it has none).
pub open spec fn line_len(s: Seq<char>) -> nat
    decreases s.len(),
{
    if s.len() == 0 || s[0] == '\n' {
        0
    } else {
        1 + line_len(s.drop_first())
    }
}

/// The lines of `s`, as `str::lines` yields them: `s` is split at each `'\n'`, a
/// `'\r'` that stands right before a `'\n'` goes with it, a final `'\n'` starts no
/// further line, and an empty text has no lines.
pub open spec fn lines(s: Seq<char>) -> Seq<Seq<char>>
    decreases s.len(),
{
    if s.len() == 0 {
        Seq::empty()
    } else {
        let k = line_len(s) as int;
        if k < s.len() {
            let line = if k > 0 && s[k - 1] == '\r' {
                s.take(k - 1)
            } else {
                s.take(k)
            };
            seq![line] + lines(s.skip(k + 1))
        } else {
            seq![s]
        }
    }
}

/// What one line of the feed contributes to the list: nothing for a line that
/// starts with `'#'` or holds only whitespace, else its first field and a line feed.
pub open spec fn feed_entry(line: Seq<char>) -> Seq<char> {
    if line.len() > 0 && line[0] == '#' {
        Seq::empty()
    } else if first_field(line).len() == 0 {
        Seq::empty()
    } else {
        first_field(line).push('\n')
    }
}

/// The contributions of `ls`, one after the other.
pub open spec fn feed_entries(ls: Seq<Seq<char>>) -> Seq<char>
    decreases ls.len(),
{
    if ls.len() == 0 {
        Seq::empty()
    } else {
        feed_entry(ls[0]) + feed_entries(ls.drop_first())
    }
}

/// The indicator list extracted from the feed text `text`.
pub open spec fn feed_ips(text: Seq<char>) -> Seq<char> {
    feed_entries(lines(text))
}

proof fn lemma_line_len(s: Seq<char>, k: int)
    requires
        0 <= k <= s.len(),
        forall|j: int| 0 <= j < k ==> s[j] != '\n',
        k == s.len() || s[k] == '\n',
    ensures
        line_len(s) == k,
    decreases k,
{
    if k > 0 {
        lemma_line_len(s.drop_first(), k - 1);
    }
}

proof fn lemma_trim_start_push(l: Seq<char>, c: char)
    requires
        is_space(c),
    ensures
        trim_start(l.push(c)) == if trim_start(l).len() == 0 {
            Seq::<char>::empty()
        } else {
            trim_start(l).push(c)
        },
    decreases l.len(),
{
    if l.len() == 0 {
        assert(seq![c].drop_first() =~= Seq::<char>::empty());
        assert(l.push(c) =~= seq![c]);
        assert(trim_start(Seq::<char>::empty()) == Seq::<char>::empty());
        assert(trim_start(seq![c]) == trim_start(seq![c].drop_first()));
    } else {
        assert(l.push(c)[0] == l[0]);
        assert(l.push(c).drop_first() =~= l.drop_first().push(c));
        lemma_trim_start_push(l.drop_first(), c);
    }
}

proof fn lemma_leading_token_push(t: Seq<char>, c: char)
    requires
        is_space(c),
    ensures
        leading_token(t.push(c)) == leading_token(t),
    decreases t.len(),
{
    if t.len() > 0 {
        assert(t.push(c).drop_first() =~= t.drop_first().push(c));
        lemma_leading_token_push(t.drop_first(), c);
    }
}

/// A whitespace character at the end of a line changes nothing that the line contributes.
proof fn lemma_entry_push_space(l: Seq<char>, c: char)
    requires
        is_space(c),
    ensures
        feed_entry(l.push(c)) == feed_entry(l),
{
    lemma_trim_start_push(l, c);
    if trim_start(l).len() > 0 {
        lemma_leading_token_push(trim_start(l), c);
    }
    if l.len() == 0 {
        assert(l.push(c)[0] == c);
    } else {
        assert(l.push(c)[0] == l[0]);
    }
}

proof fn lemma_entries_cons(l: Seq<char>, ls: Seq<Seq<char>>)
    ensures
        feed_entries(seq![l] + ls) == feed_entry(l) + feed_entries(ls),
{
    assert((seq![l] + ls).drop_first() =~= ls);
    assert((seq![l] + ls)[0] == l);
}

/// One step of the extraction: the first line of `s` ends after `k` characters.
proof fn lemma_feed_step(s: Seq<char>, k: int)
    requires
        0 < s.len(),
        0 <= k <= s.len(),
        forall|j: int| 0 <= j < k ==> s[j] != '\n',
        k == s.len() || s[k] == '\n',
    ensures
        feed_ips(s) == feed_entry(s.take(k)) + if k < s.len() {
            feed_ips(s.skip(k + 1))
        } else {
            Seq::<char>::empty()
        },
{
    lemma_line_len(s, k);
    if k < s.len() {
        let line = if k > 0 && s[k - 1] == '\r' {
            s.take(k - 1)
        } else {
            s.take(k)
        };
        assert(lines(s) == seq![line] + lines(s.skip(k + 1)));
        lemma_entries_cons(line, lines(s.skip(k + 1)));
        if k > 0 && s[k - 1] == '\r' {
            assert(s.take(k - 1).push('\r') =~= s.take(k));
            lemma_entry_push_space(s.take(k - 1), '\r');
        }
    } else {
        assert(s.take(k) =~= s);
        assert(lines(s) == seq![s]);
        lemma_entries_cons(s, Seq::empty());
        assert(feed_entries(Seq::<Seq<char>>::empty()) == Seq::<char>::empty());
        assert(feed_entry(s) + Seq::<char>::empty() =~= feed_entry(s));
    }
}

/// Appends what the line `chars[start..end]` contributes to the list.
fn push_entry(out: &mut String, chars: &Vec<char>, start: usize, end: usize)
    requires
        start <= end <= chars@.len(),
    ensures
        final(out)@ == old(out)@ + feed_entry(chars@.subrange(start as int, end as int)),
{
    let ghost line = chars@.subrange(start as int, end as int);
    if start < end && chars[start] == '#' {
        assert(line[0] == '#');
        assert(old(out)@ + Seq::<char>::empty() =~= old(out)@);
        return ;
    }
    let i = skip_spaces(chars, start, end);
    let j = token_end(chars, i, end);
    if i < j {
        push_chars(out, chars, i, j);
        out.push('\n');
        assert(old(out)@ + chars@.subrange(i as int, j as int) + seq!['\n'] =~= old(out)@
            + chars@.subrange(i as int, j as int).push('\n'));
    } else {
        assert(old(out)@ + Seq::<char>::empty() =~= old(out)@);
    }
}

/// Extracts the indicator list from the text of a threat feed: for each line
/// that does not start with `#`, its first whitespace-separated field, followed
/// by a line feed; lines that hold only whitespace contribute nothing.
pub fn parse_feed(text: &str) -> (out: String)
    ensures
        out@ == feed_ips(text@),
{
    let chars = chars_of(text);
    let n = chars.len();
    let mut out = String::new();
    let mut start: usize = 0;
    assert(chars@.skip(0) =~= chars@);
    assert(out@ + feed_ips(text@) =~= feed_ips(text@));
    while start < n
        invariant
            start <= n == chars@.len(),
            chars@ == text@,
            out@ + feed_ips(chars@.skip(start as int)) == feed_ips(text@),
        decreases n - start,
    {
        let mut end = start;
        while end < n && chars[end] != '\n'
            invariant
                start <= end <= n == chars@.len(),
                forall|j: int| start <= j < end ==> chars@[j] != '\n',
            decreases n - end,
        {
            end = end + 1;
        }
        let ghost s = chars@.skip(start as int);
        let ghost k = end - start;
        proof {
            lemma_feed_step(s, k);
            assert(s.take(k) =~= chars@.subrange(start as int, end as int));
        }
        let ghost before = out@;
        push_entry(&mut out, &chars, start, end);
        if end == n {
            start = n;
            assert(chars@.skip(n as int) =~= Seq::<char>::empty());
            assert(lines(Seq::<char>::empty()) =~= Seq::<Seq<char>>::empty());
            assert(before + (feed_entry(s.take(k)) + Seq::<char>::empty()) =~= out@
                + feed_ips(chars@.skip(start as int)));
        } else {
            assert(s.skip(k + 1) =~= chars@.skip(end + 1));
            start = end + 1;
            assert(before + (feed_entry(s.take(k)) + feed_ips(s.skip(k + 1))) =~= out@
                + feed_ips(chars@.skip(start as int)));
        }
    }
    assert(chars@.skip(start as int) =~= Seq::<char>::empty());
    assert(lines(Seq::<char>::empty()) =~= Seq::<Seq<char>>::empty());
    assert(out@ + Seq::<char>::empty() =~= out@);
    out
}

proof fn lemma_line_len_bounds(s: Seq<char>)
    ensures
        line_len(s) <= s.len(),
        forall|j: int| 0 <= j < line_len(s) ==> s[j] != '\n',
        line_len(s) < s.len() ==> s[line_len(s) as int] == '\n',
    decreases s.len(),
{
    if s.len() > 0 && s[0] != '\n' {
        lemma_line_len_bounds(s.drop_first());
        assert forall|j: int| 0 <= j < line_len(s) implies s[j] != '\n' by {
            if j > 0 {
                assert(s[j] == s.drop_first()[j - 1]);
            }
        }
    }
}

proof fn lemma_entry_empty()
    ensures
        feed_entry(Seq::empty()) == Seq::<char>::empty(),
        feed_ips(Seq::empty()) == Seq::<char>::empty(),
{
    assert(trim_start(Seq::<char>::empty()) == Seq::<char>::empty());
    assert(leading_token(Seq::<char>::empty()) == Seq::<char>::empty());
    assert(lines(Seq::<char>::empty()) =~= Seq::<Seq<char>>::empty());
}

/// A text without line feeds is a single line.
proof fn lemma_feed_one_line(a: Seq<char>)
    requires
        forall|j: int| 0 <= j < a.len() ==> a[j] != '\n',
    ensures
        feed_ips(a) == feed_entry(a),
{
    lemma_entry_empty();
    if a.len() > 0 {
        lemma_feed_step(a, a.len() as int);
        assert(a.take(a.len() as int) =~= a);
        assert(feed_entry(a) + Seq::<char>::empty() =~= feed_entry(a));
    }
}

/// The feed is read line by line: the list extracted from two texts joined by a
/// line feed is the list extracted from the first, followed by that of the second.
pub proof fn lemma_feed_lines_join(a: Seq<char>, b: Seq<char>)
    ensures
        feed_ips(a + seq!['\n'] + b) == feed_ips(a) + feed_ips(b),
    decreases a.len(),
{
    let s = a + seq!['\n'] + b;
    let k = line_len(a) as int;
    lemma_line_len_bounds(a);
    if k < a.len() {
        assert forall|j: int| 0 <= j < k implies s[j] != '\n' by {
            assert(s[j] == a[j]);
        }
        assert(s[k] == a[k]);
        lemma_feed_step(s, k);
        lemma_feed_step(a, k);
        assert(s.take(k) =~= a.take(k));
        assert(s.skip(k + 1) =~= a.skip(k + 1) + seq!['\n'] + b);
        lemma_feed_lines_join(a.skip(k + 1), b);
        assert(feed_entry(a.take(k)) + (feed_ips(a.skip(k + 1)) + feed_ips(b)) =~= feed_entry(
            a.take(k),
        ) + feed_ips(a.skip(k + 1)) + feed_ips(b));
    } else {
        let n = a.len() as int;
        assert forall|j: int| 0 <= j < n implies s[j] != '\n' by {
            assert(s[j] == a[j]);
        }
        assert(s[n] == '\n');
        lemma_feed_step(s, n);
        assert(s.take(n) =~= a);
        assert(s.skip(n + 1) =~= b);
        lemma_feed_one_line(a);
    }
}

/// Whitespace at the very end of a feed text (a line feed too) changes nothing in the list.
pub proof fn lemma_feed_trailing_space(a: Seq<char>, c: char)
    requires
        is_space(c),
    ensures
        feed_ips(a.push(c)) == feed_ips(a),
    decreases a.len(),
{
    lemma_entry_empty();
    if c == '\n' {
        lemma_feed_lines_join(a, Seq::empty());
        assert(a + seq!['\n'] + Seq::<char>::empty() =~= a.push(c));
        assert(feed_ips(a) + Seq::<char>::empty() =~= feed_ips(a));
    } else {
        let k = line_len(a) as int;
        lemma_line_len_bounds(a);
        if k < a.len() {
            let s = a.push(c);
            assert forall|j: int| 0 <= j < k implies s[j] != '\n' by {
                assert(s[j] == a[j]);
            }
            assert(s[k] == a[k]);
            lemma_feed_step(s, k);
            lemma_feed_step(a, k);
            assert(s.take(k) =~= a.take(k));
            assert(s.skip(k + 1) =~= a.skip(k + 1).push(c));
            lemma_feed_trailing_space(a.skip(k + 1), c);
        } else {
            assert forall|j: int| 0 <= j < a.push(c).len() implies a.push(c)[j] != '\n' by {
                if j < a.len() {
                    assert(a.push(c)[j] == a[j]);
                }
            }
            lemma_feed_one_line(a.push(c));
            lemma_feed_one_line(a);
            lemma_entry_push_space(a, c);
        }
    }
}

/// Lines may end with `"\r\n"` as well as with `"\n"`: both give the same list.
pub proof fn lemma_feed_crlf(a: Seq<char>, b: Seq<char>)
    ensures
        feed_ips(a + seq!['\r', '\n'] + b) == feed_ips(a + seq!['\n'] + b),
{
    assert(a + seq!['\r', '\n'] + b =~= a.push('\r') + seq!['\n'] + b);
    lemma_feed_lines_join(a.push('\r'), b);
    lemma_feed_lines_join(a, b);
    lemma_feed_trailing_space(a, '\r');
}

/// A comment line, one that starts with `'#'`, adds nothing to the list.
pub proof fn lemma_feed_comment(comment: Seq<char>, b: Seq<char>)
    requires
        comment.len() > 0,
        comment[0] == '#',
        forall|j: int| 0 <= j < comment.len() ==> comment[j] != '\n',
    ensures
        feed_ips(comment + seq!['\n'] + b) == feed_ips(b),
{
    lemma_feed_lines_join(comment, b);
    lemma_feed_one_line(comment);
    assert(Seq::<char>::empty() + feed_ips(b) =~= feed_ips(b));
}

/// A line that is not a comment line but whose first field starts with `'#'`
/// (the field is indented): its field is listed, and would read back as a comment.
pub open spec fn indented_comment(line: Seq<char>) -> bool {
    &&& !(line.len() > 0 && line[0] == '#')
    &&& first_field(line).len() > 0
    &&& first_field(line)[0] == '#'
}

proof fn lemma_leading_token_spaces(t: Seq<char>)
    ensures
        forall|j: int| 0 <= j < leading_token(t).len() ==> !is_space(#[trigger] leading_token(t)[j]),
        (forall|j: int| 0 <= j < t.len() ==> !is_space(#[trigger] t[j])) ==> leading_token(t) == t,
    decreases t.len(),
{
    if t.len() > 0 && !is_space(t[0]) {
        lemma_leading_token_spaces(t.drop_first());
        let r = leading_token(t.drop_first());
        assert forall|j: int| 0 <= j < leading_token(t).len() implies !is_space(
            #[trigger] leading_token(t)[j],
        ) by {
            if j > 0 {
                assert(leading_token(t)[j] == r[j - 1]);
            }
        }
        if forall|j: int| 0 <= j < t.len() ==> !is_space(#[trigger] t[j]) {
            assert forall|j: int| 0 <= j < t.drop_first().len() implies !is_space(
                #[trigger] t.drop_first()[j],
            ) by {
                assert(t.drop_first()[j] == t[j + 1]);
            }
            assert(seq![t[0]] + t.drop_first() =~= t);
        }
    } else if t.len() > 0 {
        assert(!(forall|j: int| 0 <= j < t.len() ==> !is_space(#[trigger] t[j])));
    }
}

proof fn lemma_entries_reparse(ls: Seq<Seq<char>>)
    requires
        forall|i: int| 0 <= i < ls.len() ==> !indented_comment(#[trigger] ls[i]),
    ensures
        feed_ips(feed_entries(ls)) == feed_entries(ls),
    decreases ls.len(),
{
    lemma_entry_empty();
    if ls.len() > 0 {
        let rest = ls.drop_first();
        assert forall|i: int| 0 <= i < rest.len() implies !indented_comment(#[trigger] rest[i]) by {
            assert(rest[i] == ls[i + 1]);
        }
        lemma_entries_reparse(rest);
        let e = feed_entry(ls[0]);
        if e.len() == 0 {
            assert(feed_entries(ls) =~= feed_entries(rest));
        } else {
            let f = first_field(ls[0]);
            assert(!indented_comment(ls[0]));
            lemma_leading_token_spaces(trim_start(ls[0]));
            assert(forall|j: int| 0 <= j < f.len() ==> !is_space(#[trigger] f[j]));
            assert forall|j: int| 0 <= j < f.len() implies f[j] != '\n' by {
                assert(!is_space(f[j]));
            }
            lemma_feed_lines_join(f, feed_entries(rest));
            assert(feed_entries(ls) =~= f + seq!['\n'] + feed_entries(rest));
            lemma_feed_one_line(f);
            lemma_leading_token_spaces(f);
            assert(!is_space(f[0]));
            assert(trim_start(f) == f);
            assert(first_field(f) == f);
        }
    }
}

/// Each of `fields` followed by a line feed, one after the other.
pub open spec fn field_lines(fields: Seq<Seq<char>>) -> Seq<char>
    decreases fields.len(),
{
    if fields.len() == 0 {
        Seq::empty()
    } else {
        fields[0].push('\n') + field_lines(fields.drop_first())
    }
}

/// A field as the list holds it: not empty, and without whitespace.
pub open spec fn is_field(f: Seq<char>) -> bool {
    &&& f.len() > 0
    &&& forall|j: int| 0 <= j < f.len() ==> !is_space(#[trigger] f[j])
}

proof fn lemma_entries_fields(ls: Seq<Seq<char>>) -> (fields: Seq<Seq<char>>)
    ensures
        field_lines(fields) == feed_entries(ls),
        fields.len() <= ls.len(),
        forall|i: int| 0 <= i < fields.len() ==> is_field(#[trigger] fields[i]),
    decreases ls.len(),
{
    if ls.len() == 0 {
        Seq::empty()
    } else {
        let rest = lemma_entries_fields(ls.drop_first());
        let e = feed_entry(ls[0]);
        if e.len() == 0 {
            assert(feed_entries(ls) =~= feed_entries(ls.drop_first()));
            rest
        } else {
            let f = first_field(ls[0]);
            lemma_leading_token_spaces(trim_start(ls[0]));
            let fields = seq![f] + rest;
            assert(fields.drop_first() =~= rest);
            assert(fields[0] == f);
            assert forall|i: int| 0 <= i < fields.len() implies is_field(#[trigger] fields[i]) by {
                if i > 0 {
                    assert(fields[i] == rest[i - 1]);
                }
            }
            fields
        }
    }
}

/// The extracted list is a sequence of fields, each non-empty, without
/// whitespace and ended by a line feed, and there are no more of them than the
/// text has lines.
pub proof fn lemma_feed_fields(text: Seq<char>) -> (fields: Seq<Seq<char>>)
    ensures
        field_lines(fields) == feed_ips(text),
        fields.len() <= lines(text).len(),
        forall|i: int| 0 <= i < fields.len() ==> is_field(#[trigger] fields[i]),
{
    lemma_entries_fields(lines(text))
}

proof fn lemma_leading_token_field(f: Seq<char>, rest: Seq<char>)
    requires
        forall|j: int| 0 <= j < f.len() ==> !is_space(#[trigger] f[j]),
        rest.len() == 0 || is_space(rest[0]),
    ensures
        leading_token(f + rest) == f,
    decreases f.len(),
{
    if f.len() == 0 {
        assert(f + rest =~= rest);
    } else {
        assert((f + rest)[0] == f[0]);
        assert((f + rest).drop_first() =~= f.drop_first() + rest);
        assert forall|j: int| 0 <= j < f.drop_first().len() implies !is_space(
            #[trigger] f.drop_first()[j],
        ) by {
            assert(f.drop_first()[j] == f[j + 1]);
        }
        lemma_leading_token_field(f.drop_first(), rest);
        assert(seq![f[0]] + f.drop_first() =~= f);
    }
}

/// A line that is not a comment line contributes its first field, whole, and a
/// line feed: for every field `f` (not empty, without whitespace, not starting
/// with `'#'`) and every rest of the line that starts with whitespace or is
/// empty, the text `f + rest` gives the list `f` and a line feed, however long `f` is.
pub proof fn lemma_feed_field_line(f: Seq<char>, rest: Seq<char>)
    requires
        is_field(f),
        f[0] != '#',
        rest.len() == 0 || is_space(rest[0]),
        forall|j: int| 0 <= j < rest.len() ==> rest[j] != '\n',
    ensures
        feed_ips(f + rest) == f.push('\n'),
{
    let l = f + rest;
    assert forall|j: int| 0 <= j < l.len() implies l[j] != '\n' by {
        if j < f.len() {
            assert(l[j] == f[j]);
            assert(!is_space(f[j]));
        } else {
            assert(l[j] == rest[j - f.len()]);
        }
    }
    lemma_feed_one_line(l);
    assert(l[0] == f[0]);
    assert(!is_space(f[0]));
    assert(trim_start(l) == l);
    lemma_leading_token_field(f, rest);
}

/// Leading whitespace before the first field changes nothing: `ws + line` gives
/// the same list as `line`, for every run `ws` of whitespace other than line
/// feeds in front of a line that does not start with `'#'`.
pub proof fn lemma_feed_leading_space(ws: Seq<char>, line: Seq<char>)
    requires
        forall|j: int| 0 <= j < ws.len() ==> is_space(#[trigger] ws[j]) && ws[j] != '\n',
        forall|j: int| 0 <= j < line.len() ==> line[j] != '\n',
        line.len() == 0 || line[0] != '#',
    ensures
        feed_ips(ws + line) == feed_ips(line),
    decreases ws.len(),
{
    if ws.len() > 0 {
        let rest = ws.drop_first();
        assert forall|j: int| 0 <= j < rest.len() implies is_space(#[trigger] rest[j]) && rest[j]
            != '\n' by {
            assert(rest[j] == ws[j + 1]);
        }
        lemma_feed_leading_space(rest, line);
        let l = ws + line;
        assert forall|j: int| 0 <= j < l.len() implies l[j] != '\n' by {
            if j < ws.len() {
                assert(l[j] == ws[j]);
            } else {
                assert(l[j] == line[j - ws.len()]);
            }
        }
        let r = rest + line;
        assert forall|j: int| 0 <= j < r.len() implies r[j] != '\n' by {
            if j < rest.len() {
                assert(r[j] == rest[j]);
            } else {
                assert(r[j] == line[j - rest.len()]);
            }
        }
        lemma_feed_one_line(l);
        lemma_feed_one_line(r);
        assert(l[0] == ws[0]);
        assert(l.drop_first() =~= r);
        assert(trim_start(l) == trim_start(r));
        if r.len() > 0 {
            if rest.len() > 0 {
                assert(r[0] == rest[0]);
            } else {
                assert(r[0] == line[0]);
            }
        }
    }
    else {
        assert(ws + line =~= line);
    }
}

proof fn lemma_trim_start_spaces(ws: Seq<char>, t: Seq<char>)
    requires
        forall|j: int| 0 <= j < ws.len() ==> is_space(#[trigger] ws[j]),
    ensures
        trim_start(ws + t) == trim_start(t),
    decreases ws.len(),
{
    if ws.len() == 0 {
        assert(ws + t =~= t);
    } else {
        assert((ws + t)[0] == ws[0]);
        assert((ws + t).drop_first() =~= ws.drop_first() + t);
        assert forall|j: int| 0 <= j < ws.drop_first().len() implies is_space(
            #[trigger] ws.drop_first()[j],
        ) by {
            assert(ws.drop_first()[j] == ws[j + 1]);
        }
        lemma_trim_start_spaces(ws.drop_first(), t);
    }
}

/// An indented line is no comment line: after leading whitespace (at least one
/// character, no line feed), a field `f` is listed whole, even when it starts
/// with `'#'`; the rest of the line (empty or starting with whitespace) adds nothing.
pub proof fn lemma_feed_indented_field(ws: Seq<char>, f: Seq<char>, rest: Seq<char>)
    requires
        ws.len() > 0,
        forall|j: int| 0 <= j < ws.len() ==> is_space(#[trigger] ws[j]) && ws[j] != '\n',
        is_field(f),
        rest.len() == 0 || is_space(rest[0]),
        forall|j: int| 0 <= j < rest.len() ==> rest[j] != '\n',
    ensures
        feed_ips(ws + f + rest) == f.push('\n'),
{
    let l = ws + f + rest;
    assert(l =~= ws + (f + rest));
    assert forall|j: int| 0 <= j < l.len() implies l[j] != '\n' by {
        if j < ws.len() {
            assert(l[j] == ws[j]);
        } else if j < ws.len() + f.len() {
            assert(l[j] == f[j - ws.len()]);
            assert(!is_space(f[j - ws.len()]));
        } else {
            assert(l[j] == rest[j - ws.len() - f.len()]);
        }
    }
    lemma_feed_one_line(l);
    assert(l[0] == ws[0]);
    lemma_trim_start_spaces(ws, f + rest);
    assert((f + rest)[0] == f[0]);
    assert(!is_space(f[0]));
    assert(trim_start(f + rest) == f + rest);
    lemma_leading_token_field(f, rest);
}

/// Extracting the list again from an extracted list gives the same list, for
/// every text in which no line holds an indented comment (see `indented_comment`).
pub proof fn lemma_feed_reparse(text: Seq<char>)
    requires
        forall|i: int| 0 <= i < lines(text).len() ==> !indented_comment(#[trigger] lines(text)[i]),
    ensures
        feed_ips(feed_ips(text)) == feed_ips(text),
{
    lemma_entries_reparse(lines(text));
}

} // verus!

//! Character-level text operations on `str` and `String`, specified over
//! their views as sequences of characters.
use vstd::prelude::*;

verus! {

/// `String::push` appends one character.
pub assume_specification[ String::push ](string: &mut String, ch: char)
    ensures
        final(string)@ == old(string)@.push(ch),
;

/// The Unicode `White_Space` characters, the ones for which `char::is_whitespace` holds.
pub open spec fn is_space(c: char) -> bool {
    let u = c as u32;
    ||| 9 <= u <= 13
    ||| u == 32
    ||| u == 0x85
    ||| u == 0xA0
    ||| u == 0x1680
    ||| 0x2000 <= u <= 0x200A
    ||| u == 0x2028
    ||| u == 0x2029
    ||| u == 0x202F
    ||| u == 0x205F
    ||| u == 0x3000
}

/// Whether `c` is a whitespace character.
pub fn is_whitespace(c: char) -> (b: bool)
    ensures
        b == is_space(c),
{
    let u = c as u32;
    (9 <= u && u <= 13) || u == 32 || u == 0x85 || u == 0xA0 || u == 0x1680 || (0x2000 <= u
        && u <= 0x200A) || u == 0x2028 || u == 0x2029 || u == 0x202F || u == 0x205F || u == 0x3000
}

/// The characters of `s`, in order.
pub fn chars_of(s: &str) -> (v: Vec<char>)
    ensures
        v@ == s@,
{
    let mut v: Vec<char> = Vec::new();
    for c in it: s.chars()
        invariant
            v@ == it.seq().take(it.index() as int),
    {
        v.push(c);
    }
    v
}

/// Appends `chars[from..to]` to `out`.
pub fn push_chars(out: &mut String, chars: &Vec<char>, from: usize, to: usize)
    requires
        from <= to <= chars@.len(),
    ensures
        final(out)@ == old(out)@ + chars@.subrange(from as int, to as int),
{
    let mut i = from;
    while i < to
        invariant
            from <= i <= to <= chars@.len(),
            out@ == old(out)@ + chars@.subrange(from as int, i as int),
        decreases to - i,
    {
        out.push(chars[i]);
        assert(chars@.subrange(from as int, i + 1) == chars@.subrange(from as int, i as int).push(
            chars@[i as int],
        ));
        i = i + 1;
    }
}

/// `p` occurs in `s` starting at position `i`.
pub open spec fn occurs_at(s: Seq<char>, p: Seq<char>, i: int) -> bool {
    &&& 0 <= i
    &&& i + p.len() <= s.len()
    &&& s.subrange(i, i + p.len()) == p
}

/// `p` occurs somewhere in `s` (as `str::contains` with a string pattern).
pub open spec fn has_substring(s: Seq<char>, p: Seq<char>) -> bool {
    exists|i: int| occurs_at(s, p, i)
}

/// `s` begins with `p` (as `str::starts_with` with a string pattern).
pub open spec fn has_prefix(s: Seq<char>, p: Seq<char>) -> bool {
    occurs_at(s, p, 0)
}

/// Whether `p` occurs in `s` at position `i`.
fn matches_at(s: &Vec<char>, p: &Vec<char>, i: usize) -> (b: bool)
    ensures
        b == occurs_at(s@, p@, i as int),
{
    if i > s.len() || p.len() > s.len() - i {
        return false;
    }
    let mut k: usize = 0;
    while k < p.len()
        invariant
            i + p.len() <= s.len(),
            k <= p@.len(),
            forall|j: int| 0 <= j < k ==> s@[i + j] == p@[j],
        decreases p.len() - k,
    {
        if s[i + k] != p[k] {
            assert(s@.subrange(i as int, i + p@.len())[k as int] != p@[k as int]);
            return false;
        }
        k = k + 1;
    }
    assert(s@.subrange(i as int, i + p@.len()) =~= p@);
    true
}

/// Whether `pattern` occurs in `s`.
pub fn contains_str(s: &str, pattern: &str) -> (b: bool)
    ensures
        b == has_substring(s@, pattern@),
{
    let sv = chars_of(s);
    let pv = chars_of(pattern);
    if pv.len() > sv.len() {
        assert forall|i: int| !occurs_at(s@, pattern@, i) by {}
        return false;
    }
    let last = sv.len() - pv.len();
    let mut i: usize = 0;
    while i < last
        invariant
            i <= last,
            sv@ == s@,
            pv@ == pattern@,
            last == sv@.len() - pv@.len(),
            forall|j: int| 0 <= j < i ==> !occurs_at(s@, pattern@, j),
        decreases last - i,
    {
        if matches_at(&sv, &pv, i) {
            return true;
        }
        i = i + 1;
    }
    let found = matches_at(&sv, &pv, last);
    assert(!found ==> forall|j: int| !occurs_at(s@, pattern@, j)) by {
        if !found {
            assert forall|j: int| !occurs_at(s@, pattern@, j) by {
                if 0 <= j < i {
                }
            }
        }
    }
    found
}

/// Whether `s` begins with `prefix`.
pub fn starts_with_str(s: &str, prefix: &str) -> (b: bool)
    ensures
        b == has_prefix(s@, prefix@),
{
    let sv = chars_of(s);
    let pv = chars_of(prefix);
    matches_at(&sv, &pv, 0)
}

/// `s` without its leading whitespace.
pub open spec fn trim_start(s: Seq<char>) -> Seq<char>
    decreases s.len(),
{
    if s.len() > 0 && is_space(s[0]) {
        trim_start(s.drop_first())
    } else {
        s
    }
}

/// The longest prefix of `s` that holds no whitespace.
pub open spec fn leading_token(s: Seq<char>) -> Seq<char>
    decreases s.len(),
{
    if s.len() > 0 && !is_space(s[0]) {
        seq![s[0]] + leading_token(s.drop_first())
    } else {
        Seq::empty()
    }
}

/// The first whitespace-separated field of `s`, as the first item of
/// `str::split_whitespace`; empty when `s` holds nothing but whitespace.
pub open spec fn first_field(s: Seq<char>) -> Seq<char> {
    leading_token(trim_start(s))
}

/// The position of the first non-whitespace character of `chars[from..to]`, or `to`.
pub fn skip_spaces(chars: &Vec<char>, from: usize, to: usize) -> (i: usize)
    requires
        from <= to <= chars@.len(),
    ensures
        from <= i <= to,
        trim_start(chars@.subrange(from as int, to as int)) == chars@.subrange(i as int, to as int),
        forall|j: int| from <= j < i ==> is_space(chars@[j]),
        i < to ==> !is_space(chars@[i as int]),
{
    let mut i = from;
    while i < to && is_whitespace(chars[i])
        invariant
            from <= i <= to <= chars@.len(),
            trim_start(chars@.subrange(from as int, to as int)) == trim_start(
                chars@.subrange(i as int, to as int),
            ),
            forall|j: int| from <= j < i ==> is_space(chars@[j]),
        decreases to - i,
    {
        assert(chars@.subrange(i as int, to as int).drop_first() =~= chars@.subrange(
            i + 1,
            to as int,
        ));
        i = i + 1;
    }
    i
}

/// The end of the whitespace-free run of `chars[from..to]` that starts at `from`.
pub fn token_end(chars: &Vec<char>, from: usize, to: usize) -> (j: usize)
    requires
        from <= to <= chars@.len(),
    ensures
        from <= j <= to,
        leading_token(chars@.subrange(from as int, to as int)) == chars@.subrange(
            from as int,
            j as int,
        ),
{
    let mut j = from;
    while j < to && !is_whitespace(chars[j])
        invariant
            from <= j <= to <= chars@.len(),
            leading_token(chars@.subrange(from as int, to as int)) == chars@.subrange(
                from as int,
                j as int,
            ) + leading_token(chars@.subrange(j as int, to as int)),
        decreases to - j,
    {
        let ghost rest = chars@.subrange(j as int, to as int);
        assert(rest.drop_first() =~= chars@.subrange(j + 1, to as int));
        assert(chars@.subrange(from as int, j as int) + (seq![rest[0]] + leading_token(
            rest.drop_first(),
        )) =~= chars@.subrange(from as int, j + 1) + leading_token(rest.drop_first()));
        j = j + 1;
    }
    assert(chars@.subrange(from as int, j as int) + Seq::<char>::empty() =~= chars@.subrange(
        from as int,
        j as int,
    ));
    j
}

/// `s` without its trailing whitespace.
pub open spec fn trim_end(s: Seq<char>) -> Seq<char>
    decreases s.len(),
{
    if s.len() > 0 && is_space(s.last()) {
        trim_end(s.drop_last())
    } else {
        s
    }
}

/// `s` without its leading and trailing whitespace (as `str::trim`).
pub open spec fn trimmed(s: Seq<char>) -> Seq<char> {
    trim_end(trim_start(s))
}

proof fn lemma_trim_start_part(s: Seq<char>) -> (i: int)
    ensures
        0 <= i <= s.len(),
        trim_start(s) == s.subrange(i, s.len() as int),
        forall|k: int| 0 <= k < i ==> is_space(#[trigger] s[k]),
        i < s.len() ==> !is_space(s[i]),
    decreases s.len(),
{
    if s.len() > 0 && is_space(s[0]) {
        let i0 = lemma_trim_start_part(s.drop_first());
        assert(s.drop_first().subrange(i0, s.drop_first().len() as int) =~= s.subrange(
            i0 + 1,
            s.len() as int,
        ));
        assert forall|k: int| 0 <= k < i0 + 1 implies is_space(#[trigger] s[k]) by {
            if k > 0 {
                assert(s[k] == s.drop_first()[k - 1]);
            }
        }
        if i0 + 1 < s.len() {
            assert(s[i0 + 1] == s.drop_first()[i0]);
        }
        i0 + 1
    } else {
        assert(s.subrange(0, s.len() as int) =~= s);
        0
    }
}

proof fn lemma_trim_end_part(s: Seq<char>) -> (j: int)
    ensures
        0 <= j <= s.len(),
        trim_end(s) == s.subrange(0, j),
        forall|k: int| j <= k < s.len() ==> is_space(#[trigger] s[k]),
        j > 0 ==> !is_space(s[j - 1]),
    decreases s.len(),
{
    if s.len() > 0 && is_space(s.last()) {
        let j0 = lemma_trim_end_part(s.drop_last());
        assert(s.drop_last().subrange(0, j0) =~= s.subrange(0, j0));
        assert forall|k: int| j0 <= k < s.len() implies is_space(#[trigger] s[k]) by {
            if k < s.len() - 1 {
                assert(s[k] == s.drop_last()[k]);
            }
        }
        if j0 > 0 {
            assert(s[j0 - 1] == s.drop_last()[j0 - 1]);
        }
        j0
    } else {
        assert(s.subrange(0, s.len() as int) =~= s);
        s.len() as int
    }
}

/// `trimmed(s)` is the part `s[i..j]` of `s` between its leading and its
/// trailing whitespace: every character before `i` and from `j` on is whitespace,
/// and the part is empty or begins and ends with a character that is not.
pub proof fn lemma_trimmed_part(s: Seq<char>) -> (ij: (int, int))
    ensures
        0 <= ij.0 <= ij.1 <= s.len(),
        trimmed(s) == s.subrange(ij.0, ij.1),
        forall|k: int| 0 <= k < ij.0 ==> is_space(#[trigger] s[k]),
        forall|k: int| ij.1 <= k < s.len() ==> is_space(#[trigger] s[k]),
        ij.0 < ij.1 ==> !is_space(s[ij.0]) && !is_space(s[ij.1 - 1]),
{
    let i = lemma_trim_start_part(s);
    let t = s.subrange(i, s.len() as int);
    let j0 = lemma_trim_end_part(t);
    assert(t.subrange(0, j0) =~= s.subrange(i, i + j0));
    assert forall|k: int| i + j0 <= k < s.len() implies is_space(#[trigger] s[k]) by {
        assert(s[k] == t[k - i]);
    }
    if j0 > 0 {
        assert(s[i + j0 - 1] == t[j0 - 1]);
    }
    (i, i + j0)
}

/// `s` without its leading and trailing whitespace.
pub fn trim(s: &str) -> (t: String)
    ensures
        t@ == trimmed(s@),
        t@.len() > 0 ==> !is_space(t@[0]) && !is_space(t@.last()),
{
    let chars = chars_of(s);
    let n = chars.len();
    let i = skip_spaces(&chars, 0, n);
    assert(chars@.subrange(0, n as int) =~= chars@);
    let mut j = n;
    while j > i && is_whitespace(chars[j - 1])
        invariant
            i <= j <= n == chars@.len(),
            trim_end(chars@.subrange(i as int, n as int)) == trim_end(
                chars@.subrange(i as int, j as int),
            ),
        decreases j,
    {
        assert(chars@.subrange(i as int, j as int).drop_last() =~= chars@.subrange(
            i as int,
            j - 1,
        ));
        j = j - 1;
    }
    let mut t = String::new();
    push_chars(&mut t, &chars, i, j);
    assert(Seq::<char>::empty() + chars@.subrange(i as int, j as int) =~= chars@.subrange(
        i as int,
        j as int,
    ));
    t
}

} // verus!

//! Character-level text handling: Unicode whitespace, trimming, line and word
//! splitting, and building `String`s, all specified over `Seq<char>`.
use vstd::prelude::*;

verus! {

/// The Unicode `White_Space` property, which is what `char::is_whitespace`,
/// `str::trim` and `str::split_whitespace` go by.
pub open spec fn is_ws(c: char) -> bool {
    ||| ('\u{9}' <= c && c <= '\u{d}')
    ||| c == ' '
    ||| c == '\u{85}'
    ||| c == '\u{a0}'
    ||| c == '\u{1680}'
    ||| ('\u{2000}' <= c && c <= '\u{200a}')
    ||| c == '\u{2028}'
    ||| c == '\u{2029}'
    ||| c == '\u{202f}'
    ||| c == '\u{205f}'
    ||| c == '\u{3000}'
}

/// Number of whitespace characters at the start of `s`.
pub open spec fn ws_prefix_len(s: Seq<char>) -> nat
    decreases s.len(),
{
    if s.len() > 0 && is_ws(s[0]) {
        1 + ws_prefix_len(s.drop_first())
    } else {
        0
    }
}

/// Number of whitespace characters at the end of `s`.
pub open spec fn ws_suffix_len(s: Seq<char>) -> nat
    decreases s.len(),
{
    if s.len() > 0 && is_ws(s.last()) {
        1 + ws_suffix_len(s.drop_last())
    } else {
        0
    }
}

/// `s` without its leading whitespace.
pub open spec fn trim_start(s: Seq<char>) -> Seq<char> {
    s.skip(ws_prefix_len(s) as int)
}

/// `s` without its trailing whitespace.
pub open spec fn trim_end(s: Seq<char>) -> Seq<char> {
    s.take(s.len() - ws_suffix_len(s))
}

/// `s` without leading and trailing whitespace (`str::trim`).
pub open spec fn trim(s: Seq<char>) -> Seq<char> {
    trim_end(trim_start(s))
}

/// `s` with every `from` replaced by `to`.
pub open spec fn replace_char(s: Seq<char>, from: char, to: char) -> Seq<char> {
    s.map_values(|c: char| if c == from { to } else { c })
}

/// Step lemma: skipping one more leading whitespace character.
proof fn lemma_ws_prefix_step(s: Seq<char>, i: int)
    requires
        0 <= i < s.len(),
        is_ws(s[i]),
    ensures
        ws_prefix_len(s.skip(i)) == 1 + ws_prefix_len(s.skip(i + 1)),
{
    assert(s.skip(i).drop_first() =~= s.skip(i + 1));
}

/// Step lemma: dropping one more trailing whitespace character.
proof fn lemma_ws_suffix_step(s: Seq<char>, j: int)
    requires
        0 < j <= s.len(),
        is_ws(s[j - 1]),
    ensures
        ws_suffix_len(s.take(j)) == 1 + ws_suffix_len(s.take(j - 1)),
{
    assert(s.take(j).drop_last() =~= s.take(j - 1));
}

/// Whether `c` is Unicode whitespace, as `char::is_whitespace` decides it.
pub fn is_whitespace(c: char) -> (b: bool)
    ensures
        b == is_ws(c),
{
    (c >= '\u{9}' && c <= '\u{d}') || c == ' ' || c == '\u{85}' || c == '\u{a0}' || c == '\u{1680}'
        || (c >= '\u{2000}' && c <= '\u{200a}') || c == '\u{2028}' || c == '\u{2029}' || c
        == '\u{202f}' || c == '\u{205f}' || c == '\u{3000}'
}

/// Appends one character to a `String` (`String::push`).
#[verifier::external_body]
pub(crate) fn push_char(s: &mut String, c: char)
    ensures
        final(s)@ == old(s)@.push(c),
{
    s.push(c);
}

/// The characters of `s`, in order.
pub fn chars_of(s: &str) -> (r: Vec<char>)
    ensures
        r@ == s@,
{
    let mut r: Vec<char> = Vec::new();
    for c in it: s.chars()
        invariant
            r@ == it.seq().take(it.index() as int),
            it.seq() == s@,
    {
        r.push(c);
    }
    r
}

/// Appends the characters `v[from..to]` to `s`.
pub fn push_range(s: &mut String, v: &Vec<char>, from: usize, to: usize)
    requires
        from <= to <= v.len(),
    ensures
        final(s)@ == old(s)@ + v@.subrange(from as int, to as int),
{
    let mut i = from;
    while i < to
        invariant
            from <= i <= to <= v.len(),
            s@ == old(s)@ + v@.subrange(from as int, i as int),
        decreases to - i,
    {
        push_char(s, v[i]);
        assert(v@.subrange(from as int, i + 1) =~= v@.subrange(from as int, i as int).push(v[i as int]));
        i += 1;
    }
}

/// A `String` holding the characters `v[from..to]`.
pub fn string_of_range(v: &Vec<char>, from: usize, to: usize) -> (r: String)
    requires
        from <= to <= v.len(),
    ensures
        r@ == v@.subrange(from as int, to as int),
{
    let mut r = String::new();
    push_range(&mut r, v, from, to);
    assert(Seq::<char>::empty() + v@.subrange(from as int, to as int) =~= v@.subrange(from as int, to as int));
    r
}

/// A `String` holding the characters of `v`.
pub fn string_of(v: &Vec<char>) -> (r: String)
    ensures
        r@ == v@,
{
    let r = string_of_range(v, 0, v.len());
    assert(v@.subrange(0, v.len() as int) =~= v@);
    r
}

/// The bounds `(a, b)` of `v` with leading and trailing whitespace removed:
/// `v[a..b]` is `trim(v)`.
pub fn trim_bounds(v: &Vec<char>) -> (r: (usize, usize))
    ensures
        r.0 <= r.1 <= v.len(),
        v@.subrange(r.0 as int, r.1 as int) == trim(v@),
{
    let n = v.len();
    let mut a: usize = 0;
    proof {
        assert(v@.skip(0) =~= v@);
    }
    while a < n && is_whitespace(v[a])
        invariant
            a <= n == v.len(),
            ws_prefix_len(v@) == a + ws_prefix_len(v@.skip(a as int)),
        decreases n - a,
    {
        proof {
            lemma_ws_prefix_step(v@, a as int);
        }
        a += 1;
    }
    proof {
        if a < n {
            assert(v@.skip(a as int)[0] == v@[a as int]);
        }
        assert(ws_prefix_len(v@.skip(a as int)) == 0);
    }
    let ghost t = trim_start(v@);
    assert(t =~= v@.skip(a as int));
    let mut b: usize = n;
    proof {
        assert(t.take(t.len() as int) =~= t);
    }
    while b > a && is_whitespace(v[b - 1])
        invariant
            a <= b <= n == v.len(),
            t =~= v@.skip(a as int),
            ws_suffix_len(t) == (n - b) + ws_suffix_len(t.take(b - a)),
        decreases b - a,
    {
        proof {
            assert(t[b - 1 - a] == v@[b - 1]);
            lemma_ws_suffix_step(t, (b - a) as int);
        }
        b -= 1;
    }
    proof {
        let m = (b - a) as int;
        if m > 0 {
            assert(t.take(m).last() == v@[b - 1]);
        }
        assert(ws_suffix_len(t.take(m)) == 0);
        assert(trim_end(t) =~= t.take(m));
        assert(v@.subrange(a as int, b as int) =~= t.take(m));
    }
    (a, b)
}

/// `str::trim`: `s` without leading and trailing Unicode whitespace.
pub fn trim_str(s: &str) -> (r: String)
    ensures
        r@ == trim(s@),
{
    let v = chars_of(s);
    let (a, b) = trim_bounds(&v);
    string_of_range(&v, a, b)
}


/// Length of the first line of `s`: the characters before the first `'\n'`.
pub open spec fn line_len(s: Seq<char>) -> nat
    decreases s.len(),
{
    if s.len() > 0 && s[0] != '\n' {
        1 + line_len(s.drop_first())
    } else {
        0
    }
}

/// `s` without one trailing carriage return.
pub open spec fn strip_cr(s: Seq<char>) -> Seq<char> {
    if s.len() > 0 && s.last() == '\r' {
        s.drop_last()
    } else {
        s
    }
}

/// The lines of `s`, as `str::lines` yields them: split at `"\n"` or `"\r\n"`,
/// without the terminators, and without an empty line after a final terminator.
pub open spec fn lines(s: Seq<char>) -> Seq<Seq<char>>
    decreases s.len(),
{
    if s.len() == 0 {
        seq![]
    } else {
        let k = line_len(s);
        if k >= s.len() {
            seq![s]
        } else {
            seq![strip_cr(s.take(k as int))] + lines(s.skip(k + 1 as int))
        }
    }
}

/// Length of the leading run of non-whitespace characters of `s`.
pub open spec fn word_len(s: Seq<char>) -> nat
    decreases s.len(),
{
    if s.len() > 0 && !is_ws(s[0]) {
        1 + word_len(s.drop_first())
    } else {
        0
    }
}

/// The whitespace-separated words of `s`, as `str::split_whitespace` yields them.
pub open spec fn words(s: Seq<char>) -> Seq<Seq<char>>
    decreases s.len(),
{
    if s.len() == 0 {
        seq![]
    } else if is_ws(s[0]) {
        words(s.drop_first())
    } else {
        let k = word_len(s);
        proof {
            lemma_word_len_bound(s);
        }
        seq![s.take(k as int)] + words(s.skip(k as int))
    }
}

/// A word fits in the text, and a text starting with a non-whitespace
/// character starts with a word of at least one character.
pub proof fn lemma_word_len_bound(s: Seq<char>)
    ensures
        word_len(s) <= s.len(),
        s.len() > 0 && !is_ws(s[0]) ==> word_len(s) >= 1,
    decreases s.len(),
{
    if s.len() > 0 && !is_ws(s[0]) {
        lemma_word_len_bound(s.drop_first());
    }
}

/// `line_len` is the position of the first newline.
proof fn lemma_line_len_is(s: Seq<char>, m: int)
    requires
        0 <= m <= s.len(),
        forall|j: int| 0 <= j < m ==> s[j] != '\n',
        m < s.len() ==> s[m] == '\n',
    ensures
        line_len(s) == m,
    decreases m,
{
    if m > 0 {
        lemma_line_len_is(s.drop_first(), m - 1);
    }
}

/// `word_len` is the position of the first whitespace character.
proof fn lemma_word_len_is(s: Seq<char>, m: int)
    requires
        0 <= m <= s.len(),
        forall|j: int| 0 <= j < m ==> !is_ws(s[j]),
        m < s.len() ==> is_ws(s[m]),
    ensures
        word_len(s) == m,
    decreases m,
{
    if m > 0 {
        lemma_word_len_is(s.drop_first(), m - 1);
    }
}

/// A text that is one word `x`, a space, and one word `y` splits into exactly
/// those two words.
pub proof fn lemma_two_words(x: Seq<char>, y: Seq<char>)
    requires
        x.len() > 0,
        y.len() > 0,
        forall|i: int| 0 <= i < x.len() ==> !is_ws(#[trigger] x[i]),
        forall|i: int| 0 <= i < y.len() ==> !is_ws(#[trigger] y[i]),
    ensures
        words(x + seq![' '] + y) == seq![x, y],
{
    let s = x + seq![' '] + y;
    assert forall|j: int| 0 <= j < x.len() implies !is_ws(#[trigger] s[j]) by {
        assert(s[j] == x[j]);
    }
    assert(s[x.len() as int] == ' ');
    lemma_word_len_is(s, x.len() as int);
    assert(s.take(x.len() as int) =~= x);
    let rest = s.skip(x.len() as int);
    assert(rest.drop_first() =~= y);
    assert(is_ws(rest[0]));
    lemma_word_len_is(y, y.len() as int);
    assert(y.take(y.len() as int) =~= y);
    assert(y.skip(y.len() as int) =~= Seq::<char>::empty());
    assert(words(y.skip(y.len() as int)) =~= Seq::<Seq<char>>::empty());
    assert(words(y) =~= seq![y]);
    assert(words(rest) == words(y));
    assert(words(s) =~= seq![x] + words(rest));
}

/// The views of a sequence of `String`s.
pub open spec fn views(v: Seq<String>) -> Seq<Seq<char>> {
    v.map_values(|x: String| x@)
}

/// `str::lines` on the characters of `v`.
pub fn lines_of(v: &Vec<char>) -> (r: Vec<String>)
    ensures
        views(r@) == lines(v@),
{
    let n = v.len();
    let mut out: Vec<String> = Vec::new();
    let mut start: usize = 0;
    let mut i: usize = 0;
    proof {
        assert(v@.skip(0) =~= v@);
    }
    while i < n
        invariant
            start <= i <= n == v.len(),
            forall|j: int| start <= j < i ==> v@[j] != '\n',
            lines(v@) == views(out@) + lines(v@.skip(start as int)),
        decreases n - i,
    {
        if v[i] == '\n' {
            let ghost rest = v@.skip(start as int);
            proof {
                lemma_line_len_is(rest, (i - start) as int);
                assert(rest.take((i - start) as int) =~= v@.subrange(start as int, i as int));
                assert(rest.skip((i - start) + 1) =~= v@.skip(i + 1));
            }
            let end = if i > start && v[i - 1] == '\r' {
                i - 1
            } else {
                i
            };
            let line = string_of_range(v, start, end);
            proof {
                assert(line@ =~= strip_cr(v@.subrange(start as int, i as int)));
            }
            let ghost old_out = out@;
            out.push(line);
            proof {
                assert(views(out@) =~= views(old_out).push(line@));
                assert(lines(rest) =~= seq![line@] + lines(v@.skip(i + 1)));
                assert(views(out@) + lines(v@.skip(i + 1)) =~= views(old_out) + lines(rest));
            }
            start = i + 1;
        }
        i += 1;
    }
    if start < n {
        let ghost rest = v@.skip(start as int);
        proof {
            lemma_line_len_is(rest, (n - start) as int);
            assert(rest =~= v@.subrange(start as int, n as int));
        }
        let line = string_of_range(v, start, n);
        let ghost old_out = out@;
        out.push(line);
        proof {
            assert(views(out@) =~= views(old_out).push(line@));
            assert(lines(rest) =~= seq![line@]);
            assert(views(out@) =~= views(old_out) + lines(rest));
        }
    } else {
        proof {
            assert(v@.skip(start as int) =~= Seq::<char>::empty());
            assert(views(out@) + Seq::<Seq<char>>::empty() =~= views(out@));
        }
    }
    out
}

/// `str::split_whitespace` on the characters of `v`.
pub fn words_of(v: &Vec<char>) -> (r: Vec<String>)
    ensures
        views(r@) == words(v@),
{
    let n = v.len();
    let mut out: Vec<String> = Vec::new();
    let mut i: usize = 0;
    proof {
        assert(v@.skip(0) =~= v@);
    }
    while i < n
        invariant
            i <= n == v.len(),
            words(v@) == views(out@) + words(v@.skip(i as int)),
        decreases n - i,
    {
        if is_whitespace(v[i]) {
            proof {
                assert(v@.skip(i as int).drop_first() =~= v@.skip(i + 1));
            }
            i += 1;
        } else {
            let start = i;
            while i < n && !is_whitespace(v[i])
                invariant
                    start <= i <= n == v.len(),
                    forall|j: int| start <= j < i ==> !is_ws(v@[j]),
                decreases n - i,
            {
                i += 1;
            }
            let ghost rest = v@.skip(start as int);
            proof {
                lemma_word_len_is(rest, (i - start) as int);
                assert(rest.take((i - start) as int) =~= v@.subrange(start as int, i as int));
                assert(rest.skip((i - start) as int) =~= v@.skip(i as int));
            }
            let word = string_of_range(v, start, i);
            let ghost old_out = out@;
            out.push(word);
            proof {
                assert(views(out@) =~= views(old_out).push(word@));
                assert(words(rest) =~= seq![word@] + words(v@.skip(i as int)));
                assert(views(out@) + words(v@.skip(i as int)) =~= views(old_out) + words(rest));
            }
        }
    }
    proof {
        assert(v@.skip(n as int) =~= Seq::<char>::empty());
        assert(views(out@) + Seq::<Seq<char>>::empty() =~= views(out@));
    }
    out
}

/// `s` with every `from` replaced by `to`.
pub fn replace_char_of(v: &Vec<char>, from: char, to: char) -> (r: Vec<char>)
    ensures
        r@ == replace_char(v@, from, to),
{
    let mut r: Vec<char> = Vec::new();
    let mut i: usize = 0;
    while i < v.len()
        invariant
            i <= v.len(),
            r@ =~= replace_char(v@.take(i as int), from, to),
        decreases v.len() - i,
    {
        let c = if v[i] == from {
            to
        } else {
            v[i]
        };
        r.push(c);
        i += 1;
        proof {
            assert(replace_char(v@.take(i as int), from, to) =~= replace_char(
                v@.take(i - 1),
                from,
                to,
            ).push(c));
        }
    }
    proof {
        assert(v@.take(v.len() as int) =~= v@);
    }
    r
}

/// Whether the characters of `a` and `b` are the same.
pub fn str_eq(a: &str, b: &str) -> (r: bool)
    ensures
        r == (a@ == b@),
{
    let x = chars_of(a);
    let y = chars_of(b);
    if x.len() != y.len() {
        return false;
    }
    let mut i: usize = 0;
    while i < x.len()
        invariant
            i <= x.len() == y.len(),
            x@ == a@,
            y@ == b@,
            forall|j: int| 0 <= j < i ==> x@[j] == y@[j],
        decreases x.len() - i,
    {
        if x[i] != y[i] {
            assert(x@[i as int] != y@[i as int]);
            return false;
        }
        i += 1;
    }
    proof {
        assert(x@ =~= y@);
    }
    true
}


/// The items of `xs` with `sep` between each pair of neighbours (`[S]::join`).
pub open spec fn join(xs: Seq<Seq<char>>, sep: Seq<char>) -> Seq<char>
    decreases xs.len(),
{
    if xs.len() == 0 {
        seq![]
    } else if xs.len() == 1 {
        xs[0]
    } else {
        join(xs.drop_last(), sep) + sep + xs.last()
    }
}

/// The items of `xs` one after the other.
pub open spec fn concat(xs: Seq<Seq<char>>) -> Seq<char> {
    join(xs, seq![])
}

/// Joins the strings of `xs`, putting `sep` between neighbours.
pub fn join_strings(xs: &Vec<String>, sep: &str) -> (r: String)
    ensures
        r@ == join(views(xs@), sep@),
{
    let mut r = String::new();
    let mut i: usize = 0;
    while i < xs.len()
        invariant
            i <= xs.len(),
            r@ == join(views(xs@).take(i as int), sep@),
        decreases xs.len() - i,
    {
        let ghost before = r@;
        if i > 0 {
            r.append(sep);
        }
        r.append(xs[i].as_str());
        i += 1;
        proof {
            let t = views(xs@).take(i as int);
            assert(t.drop_last() =~= views(xs@).take(i - 1));
            assert(t.last() == xs@[i - 1]@);
            if i == 1 {
                assert(before =~= Seq::<char>::empty());
                assert(r@ =~= t[0]);
            } else {
                assert(r@ =~= join(t.drop_last(), sep@) + sep@ + t.last());
            }
        }
    }
    proof {
        assert(views(xs@).take(xs.len() as int) =~= views(xs@));
    }
    r
}

/// Whether a rule `"---"` starts at position `i` of `s`.
pub open spec fn is_rule_at(s: Seq<char>, i: int) -> bool {
    &&& 0 <= i
    &&& i + 3 <= s.len()
    &&& s[i] == '-'
    &&& s[i + 1] == '-'
    &&& s[i + 2] == '-'
}

/// Position of the first rule `"---"` in `s`, or `-1` when there is none.
pub open spec fn rule_index(s: Seq<char>) -> int
    decreases s.len(),
{
    if s.len() < 3 {
        -1
    } else if is_rule_at(s, 0) {
        0
    } else {
        let r = rule_index(s.drop_first());
        if r < 0 {
            -1
        } else {
            r + 1
        }
    }
}

/// The pieces of `s` between rules `"---"`, as `str::split("---")` yields them.
pub open spec fn split_rules(s: Seq<char>) -> Seq<Seq<char>>
    decreases s.len(),
{
    let k = rule_index(s);
    if k < 0 {
        seq![s]
    } else {
        proof {
            lemma_rule_index_bound(s);
        }
        seq![s.take(k)] + split_rules(s.skip(k + 3))
    }
}

/// `rule_index` is `-1` or the position of a rule.
pub proof fn lemma_rule_index_bound(s: Seq<char>)
    ensures
        rule_index(s) >= -1,
        rule_index(s) >= 0 ==> is_rule_at(s, rule_index(s)),
    decreases s.len(),
{
    if s.len() >= 3 && !is_rule_at(s, 0) {
        let t = s.drop_first();
        lemma_rule_index_bound(t);
        let r = rule_index(t);
        if r >= 0 {
            assert(t[r] == s[r + 1] && t[r + 1] == s[r + 2] && t[r + 2] == s[r + 3]);
        }
    }
}

/// The first position of a rule is what `rule_index` gives.
proof fn lemma_rule_index_found(s: Seq<char>, m: int)
    requires
        is_rule_at(s, m),
        forall|j: int| 0 <= j < m ==> !is_rule_at(s, j),
    ensures
        rule_index(s) == m,
    decreases m,
{
    if m > 0 {
        let t = s.drop_first();
        assert(!is_rule_at(s, 0));
        assert forall|j: int| 0 <= j < m - 1 implies !is_rule_at(t, j) by {
            assert(!is_rule_at(s, j + 1));
            if is_rule_at(t, j) {
                assert(t[j] == s[j + 1] && t[j + 1] == s[j + 2] && t[j + 2] == s[j + 3]);
            }
        }
        assert(t[m - 1] == s[m] && t[m] == s[m + 1] && t[m + 1] == s[m + 2]);
        lemma_rule_index_found(t, m - 1);
    }
}

/// Without a rule, `rule_index` gives `-1`.
proof fn lemma_rule_index_none(s: Seq<char>)
    requires
        forall|j: int| 0 <= j ==> !is_rule_at(s, j),
    ensures
        rule_index(s) == -1,
    decreases s.len(),
{
    if s.len() >= 3 {
        let t = s.drop_first();
        assert forall|j: int| 0 <= j implies !is_rule_at(t, j) by {
            assert(!is_rule_at(s, j + 1));
            if is_rule_at(t, j) {
                assert(t[j] == s[j + 1] && t[j + 1] == s[j + 2] && t[j + 2] == s[j + 3]);
            }
        }
        lemma_rule_index_none(t);
    }
}

/// `str::split("---")` on the characters of `v`.
pub fn split_rules_of(v: &Vec<char>) -> (r: Vec<String>)
    ensures
        views(r@) == split_rules(v@),
{
    let n = v.len();
    let mut out: Vec<String> = Vec::new();
    let mut start: usize = 0;
    let mut i: usize = 0;
    proof {
        assert(v@.skip(0) =~= v@);
    }
    while i < n && n - i >= 3
        invariant
            start <= i <= n == v.len(),
            forall|j: int| start <= j < i ==> !is_rule_at(v@, j),
            split_rules(v@) == views(out@) + split_rules(v@.skip(start as int)),
        decreases n - i,
    {
        if v[i] == '-' && v[i + 1] == '-' && v[i + 2] == '-' {
            let ghost rest = v@.skip(start as int);
            proof {
                assert forall|j: int| 0 <= j < i - start implies !is_rule_at(rest, j) by {
                    assert(!is_rule_at(v@, j + start));
                    if is_rule_at(rest, j) {
                        assert(rest[j] == v@[j + start] && rest[j + 1] == v@[j + start + 1]
                            && rest[j + 2] == v@[j + start + 2]);
                    }
                }
                assert(rest[i - start] == v@[i as int] && rest[i - start + 1] == v@[i + 1]
                    && rest[i - start + 2] == v@[i + 2]);
                lemma_rule_index_found(rest, (i - start) as int);
                assert(rest.take((i - start) as int) =~= v@.subrange(start as int, i as int));
                assert(rest.skip((i - start) + 3) =~= v@.skip(i + 3));
            }
            let piece = string_of_range(v, start, i);
            let ghost old_out = out@;
            out.push(piece);
            proof {
                assert(views(out@) =~= views(old_out).push(piece@));
                assert(split_rules(rest) =~= seq![piece@] + split_rules(v@.skip(i + 3)));
                assert(views(out@) + split_rules(v@.skip(i + 3)) =~= views(old_out) + split_rules(rest));
            }
            start = i + 3;
            i = i + 3;
        } else {
            proof {
                assert(!is_rule_at(v@, i as int));
            }
            i += 1;
        }
    }
    let ghost rest = v@.skip(start as int);
    proof {
        assert forall|j: int| 0 <= j implies !is_rule_at(rest, j) by {
            if is_rule_at(rest, j) {
                assert(rest[j] == v@[j + start] && rest[j + 1] == v@[j + start + 1] && rest[j + 2]
                    == v@[j + start + 2]);
                assert(is_rule_at(v@, j + start));
            }
        }
        lemma_rule_index_none(rest);
        assert(rest =~= v@.subrange(start as int, n as int));
    }
    let piece = string_of_range(v, start, n);
    let ghost old_out = out@;
    out.push(piece);
    proof {
        assert(views(out@) =~= views(old_out).push(piece@));
        assert(split_rules(rest) =~= seq![piece@]);
        assert(views(out@) =~= views(old_out) + split_rules(rest));
    }
    out
}


/// The decimal digit character for `d` (`0 <= d < 10`).
pub open spec fn digit_char(d: nat) -> char {
    ((48 + d) as u8) as char
}

/// The decimal representation of `n`, without leading zeros.
pub open spec fn decimal_nat(n: nat) -> Seq<char>
    decreases n,
{
    if n < 10 {
        seq![digit_char(n)]
    } else {
        decimal_nat(n / 10).push(digit_char(n % 10))
    }
}

/// The decimal representation of `i` as `Display` writes an integer: a minus
/// sign for negative values, then the digits of the magnitude.
pub open spec fn decimal(i: int) -> Seq<char> {
    if i < 0 {
        seq!['-'] + decimal_nat((-i) as nat)
    } else {
        decimal_nat(i as nat)
    }
}

/// Appends the decimal digits of `n`.
pub fn push_decimal_u64(s: &mut String, n: u64)
    ensures
        final(s)@ == old(s)@ + decimal_nat(n as nat),
    decreases n,
{
    if n >= 10 {
        push_decimal_u64(s, n / 10);
    }
    let d: u8 = (n % 10) as u8;
    push_char(s, (48u8 + d) as char);
    proof {
        if n < 10 {
            assert(old(s)@ + decimal_nat(n as nat) =~= old(s)@.push(digit_char(n as nat)));
        } else {
            assert(old(s)@ + decimal_nat(n as nat) =~= (old(s)@ + decimal_nat((n / 10) as nat)).push(
                digit_char((n % 10) as nat),
            ));
        }
    }
}

/// Appends the decimal representation of `n`, with a minus sign when negative.
pub fn push_decimal_i64(s: &mut String, n: i64)
    ensures
        final(s)@ == old(s)@ + decimal(n as int),
{
    if n < 0 {
        push_char(s, '-');
        let m: u64 = if n == i64::MIN {
            9223372036854775808u64
        } else {
            (-n) as u64
        };
        push_decimal_u64(s, m);
        proof {
            assert(old(s)@ + decimal(n as int) =~= old(s)@.push('-') + decimal_nat(m as nat));
        }
    } else {
        push_decimal_u64(s, n as u64);
    }
}


/// A copy of `v[from..to]`.
pub fn slice_chars(v: &Vec<char>, from: usize, to: usize) -> (r: Vec<char>)
    requires
        from <= to <= v.len(),
    ensures
        r@ == v@.subrange(from as int, to as int),
{
    let mut r: Vec<char> = Vec::new();
    let mut i = from;
    while i < to
        invariant
            from <= i <= to <= v.len(),
            r@ == v@.subrange(from as int, i as int),
        decreases to - i,
    {
        r.push(v[i]);
        i += 1;
        proof {
            assert(r@ =~= v@.subrange(from as int, i as int));
        }
    }
    r
}

} // verus!

//! Text seen as a sequence of characters: searching, splitting, trimming and
//! replacing.
//!
//! Every function here is stated over `Seq<char>`, the view of `str` and of
//! `String`. Positions are character positions, not byte offsets.

use vstd::prelude::*;

verus! {

/// `String::push` appends one character to the end of the string.
pub assume_specification[ String::push ](s: &mut String, ch: char)
    ensures
        final(s)@ == old(s)@.push(ch),
;

/// `pat` stands in `text` at character position `at`.
pub open spec fn occurs_at(text: Seq<char>, pat: Seq<char>, at: int) -> bool {
    &&& 0 <= at
    &&& at + pat.len() <= text.len()
    &&& text.subrange(at, at + pat.len()) == pat
}

/// `pat` stands somewhere in `text`.
pub open spec fn contains(text: Seq<char>, pat: Seq<char>) -> bool {
    exists|at: int| occurs_at(text, pat, at)
}

/// The first position, not before `from`, at which `pat` stands in `text`.
pub open spec fn find_from(text: Seq<char>, pat: Seq<char>, from: int) -> Option<int>
    decreases text.len() + 1 - from,
{
    if from < 0 || from + pat.len() > text.len() {
        None
    } else if occurs_at(text, pat, from) {
        Some(from)
    } else {
        find_from(text, pat, from + 1)
    }
}

/// The first position at which `pat` stands in `text`.
pub open spec fn find(text: Seq<char>, pat: Seq<char>) -> Option<int> {
    find_from(text, pat, 0)
}

/// `text` from position `start` on, with every occurrence of `pat`, taken from
/// the left without overlap, exchanged for `to`.
pub open spec fn replace_from(text: Seq<char>, pat: Seq<char>, to: Seq<char>, start: int) -> Seq<
    char,
>
    decreases text.len() - start,
{
    if pat.len() == 0 || start < 0 || start > text.len() {
        text.skip(start)
    } else {
        match find_from(text, pat, start) {
            Some(at) => if start <= at && at + pat.len() <= text.len() {
                text.subrange(start, at) + to + replace_from(text, pat, to, at + pat.len())
            } else {
                text.skip(start)
            },
            None => text.skip(start),
        }
    }
}

/// `text` with every occurrence of `pat` exchanged for `to`.
pub open spec fn replace_all(text: Seq<char>, pat: Seq<char>, to: Seq<char>) -> Seq<char> {
    replace_from(text, pat, to, 0)
}

/// The pieces of `text`, from position `start` on, between occurrences of `sep`.
pub open spec fn split_from(text: Seq<char>, sep: Seq<char>, start: int) -> Seq<Seq<char>>
    decreases text.len() - start,
{
    if sep.len() == 0 || start < 0 || start > text.len() {
        seq![text.skip(start)]
    } else {
        match find_from(text, sep, start) {
            Some(at) => if start <= at && at + sep.len() <= text.len() {
                seq![text.subrange(start, at)] + split_from(text, sep, at + sep.len())
            } else {
                seq![text.skip(start)]
            },
            None => seq![text.skip(start)],
        }
    }
}

/// The pieces of `text` between occurrences of `sep`.
pub open spec fn split(text: Seq<char>, sep: Seq<char>) -> Seq<Seq<char>> {
    split_from(text, sep, 0)
}

/// A line without the carriage return that came before its line feed.
pub open spec fn strip_cr(line: Seq<char>) -> Seq<char> {
    if line.len() > 0 && line.last() == '\r' {
        line.drop_last()
    } else {
        line
    }
}

/// The lines of `text`: its pieces between line feeds, a carriage return before
/// a line feed left out, and no empty line after a final line feed.
pub open spec fn lines(text: Seq<char>) -> Seq<Seq<char>> {
    let pieces = split(text, seq!['\n']);
    let closed = pieces.drop_last().map_values(|p: Seq<char>| strip_cr(p));
    if pieces.last().len() == 0 {
        closed
    } else {
        closed.push(pieces.last())
    }
}

/// The non-empty pieces of `s`, from position `start` on, between elements that
/// are separators. No separator stands between `start` and `at`.
pub open spec fn runs_from<A>(s: Seq<A>, is_sep: spec_fn(A) -> bool, start: int, at: int) -> Seq<
    Seq<A>,
>
    decreases s.len() - at,
{
    let piece = if start < at {
        seq![s.subrange(start, at)]
    } else {
        Seq::empty()
    };
    if at >= s.len() {
        piece
    } else if is_sep(s[at]) {
        piece + runs_from(s, is_sep, at + 1, at + 1)
    } else {
        runs_from(s, is_sep, start, at + 1)
    }
}

/// The non-empty pieces of `s` between elements that are separators.
pub open spec fn runs<A>(s: Seq<A>, is_sep: spec_fn(A) -> bool) -> Seq<Seq<A>> {
    runs_from(s, is_sep, 0, 0)
}

/// What stands for the elements of `s` from position `i` on, where `f` says what
/// stands for each.
pub open spec fn spread_from<A>(s: Seq<A>, f: spec_fn(A) -> Seq<char>, i: int) -> Seq<char>
    decreases s.len() - i,
{
    if i < 0 || i >= s.len() {
        Seq::empty()
    } else {
        f(s[i]) + spread_from(s, f, i + 1)
    }
}

/// What stands for `s`, where `f` says what stands for each element.
pub open spec fn spread<A>(s: Seq<A>, f: spec_fn(A) -> Seq<char>) -> Seq<char> {
    spread_from(s, f, 0)
}

/// Characters with the Unicode property `White_Space`.
pub open spec fn is_white(c: char) -> bool {
    ||| '\u{9}' <= c <= '\u{d}'
    ||| c == ' '
    ||| c == '\u{85}'
    ||| c == '\u{a0}'
    ||| c == '\u{1680}'
    ||| '\u{2000}' <= c <= '\u{200a}'
    ||| c == '\u{2028}'
    ||| c == '\u{2029}'
    ||| c == '\u{202f}'
    ||| c == '\u{205f}'
    ||| c == '\u{3000}'
}

/// `text` without its leading white space.
pub open spec fn trim_start(text: Seq<char>) -> Seq<char>
    decreases text.len(),
{
    if text.len() > 0 && is_white(text[0]) {
        trim_start(text.skip(1))
    } else {
        text
    }
}

/// `text` without its trailing white space.
pub open spec fn trim_end(text: Seq<char>) -> Seq<char>
    decreases text.len(),
{
    if text.len() > 0 && is_white(text.last()) {
        trim_end(text.drop_last())
    } else {
        text
    }
}

/// `text` without white space at either end.
pub open spec fn trim(text: Seq<char>) -> Seq<char> {
    trim_end(trim_start(text))
}

/// The pieces with `sep` between each two neighbours.
pub open spec fn join(pieces: Seq<Seq<char>>, sep: Seq<char>) -> Seq<char>
    decreases pieces.len(),
{
    if pieces.len() == 0 {
        Seq::empty()
    } else if pieces.len() == 1 {
        pieces[0]
    } else {
        join(pieces.drop_last(), sep) + sep + pieces.last()
    }
}

/// The characters behind a sequence of string slices.
pub open spec fn views(parts: Seq<&str>) -> Seq<Seq<char>> {
    parts.map_values(|p: &str| p@)
}

/// The characters behind a sequence of strings.
pub open spec fn string_views(parts: Seq<String>) -> Seq<Seq<char>> {
    parts.map_values(|p: String| p@)
}

/// The view of an optional string.
pub open spec fn opt_view(text: Option<String>) -> Option<Seq<char>> {
    match text {
        Some(t) => Some(t@),
        None => None,
    }
}

/// The view of an optional string slice.
pub open spec fn opt_str_view(text: Option<&str>) -> Option<Seq<char>> {
    match text {
        Some(t) => Some(t@),
        None => None,
    }
}

/// Where each piece is made of characters with a property, so is the whole.
pub proof fn lemma_spread_all<A>(
    s: Seq<A>,
    f: spec_fn(A) -> Seq<char>,
    p: spec_fn(char) -> bool,
    i: int,
)
    requires
        0 <= i,
        forall|a: A, k: int| 0 <= k < f(a).len() ==> p(#[trigger] f(a)[k]),
    ensures
        forall|k: int|
            0 <= k < spread_from(s, f, i).len() ==> p(#[trigger] spread_from(s, f, i)[k]),
    decreases s.len() - i,
{
    if i < s.len() {
        lemma_spread_all(s, f, p, i + 1);
        let head = f(s[i]);
        let rest = spread_from(s, f, i + 1);
        assert forall|k: int| 0 <= k < (head + rest).len() implies p(
            #[trigger] (head + rest)[k],
        ) by {
            if k < head.len() {
                assert((head + rest)[k] == f(s[i])[k]);
            } else {
                assert((head + rest)[k] == rest[k - head.len()]);
            }
        }
    }
}

/// Where each piece, and the separator, is made of characters with a property, so
/// is the join.
pub proof fn lemma_join_all(pieces: Seq<Seq<char>>, sep: Seq<char>, p: spec_fn(char) -> bool)
    requires
        forall|i: int, k: int|
            0 <= i < pieces.len() && 0 <= k < pieces[i].len() ==> p(#[trigger] pieces[i][k]),
        forall|k: int| 0 <= k < sep.len() ==> p(#[trigger] sep[k]),
    ensures
        forall|k: int| 0 <= k < join(pieces, sep).len() ==> p(#[trigger] join(pieces, sep)[k]),
    decreases pieces.len(),
{
    if pieces.len() == 1 {
        assert forall|k: int| 0 <= k < pieces[0].len() implies p(
            #[trigger] join(pieces, sep)[k],
        ) by {
            assert(join(pieces, sep)[k] == pieces[0][k]);
        }
    } else if pieces.len() > 1 {
        let front = pieces.drop_last();
        assert forall|i: int, k: int|
            0 <= i < front.len() && 0 <= k < front[i].len() implies p(#[trigger] front[i][k]) by {
            assert(front[i][k] == pieces[i][k]);
        }
        lemma_join_all(front, sep, p);
        let a = join(front, sep);
        let whole = a + sep + pieces.last();
        assert forall|k: int| 0 <= k < whole.len() implies p(#[trigger] whole[k]) by {
            if k < a.len() {
                assert(whole[k] == a[k]);
            } else if k < a.len() + sep.len() {
                assert(whole[k] == sep[k - a.len()]);
            } else {
                let last = pieces.len() - 1;
                assert(whole[k] == pieces[last][k - a.len() - sep.len()]);
            }
        }
    }
}

/// A join, taken apart at its first piece.
proof fn lemma_join_front(pieces: Seq<Seq<char>>, sep: Seq<char>)
    requires
        pieces.len() >= 2,
    ensures
        join(pieces, sep) == pieces[0] + sep + join(pieces.skip(1), sep),
    decreases pieces.len(),
{
    let rest = pieces.skip(1);
    if pieces.len() == 2 {
        assert(pieces.drop_last() =~= seq![pieces[0]]);
        assert(join(pieces.drop_last(), sep) == pieces[0]);
        assert(rest =~= seq![pieces[1]]);
    } else {
        let front = pieces.drop_last();
        lemma_join_front(front, sep);
        assert(front.skip(1) =~= rest.drop_last());
        assert(rest.last() == pieces.last());
        assert(join(pieces, sep) =~= pieces[0] + sep + (join(rest.drop_last(), sep) + sep
            + rest.last()));
    }
}

proof fn lemma_split_join_from(
    before: Seq<char>,
    pieces: Seq<Seq<char>>,
    sep: Seq<char>,
    mark: char,
)
    requires
        pieces.len() > 0,
        sep.len() > 0,
        sep[0] == mark,
        forall|i: int, k: int|
            0 <= i < pieces.len() && 0 <= k < pieces[i].len() ==> #[trigger] pieces[i][k] != mark,
    ensures
        split_from(before + join(pieces, sep), sep, before.len() as int) == pieces,
    decreases pieces.len(),
{
    let text = before + join(pieces, sep);
    let start = before.len() as int;
    let first = pieces[0];
    let n = first.len();
    if pieces.len() > 1 {
        lemma_join_front(pieces, sep);
    }
    assert forall|k: int| start <= k < start + n implies !occurs_at(text, sep, k) by {
        assert(text[k] == first[k - start]);
        assert(pieces[0][k - start] != mark);
        if occurs_at(text, sep, k) {
            assert(text.subrange(k, k + sep.len())[0] == text[k]);
        }
    }
    lemma_find_from_advance(text, sep, start, start + n);
    if pieces.len() == 1 {
        assert(text.len() == start + n);
        assert(find_from(text, sep, start + n) is None);
        assert(text.skip(start) =~= first);
        assert(split_from(text, sep, start) =~= pieces);
    } else {
        let rest = pieces.skip(1);
        assert(text.subrange(start + n, start + n + sep.len()) =~= sep);
        assert(occurs_at(text, sep, start + n));
        assert(find_from(text, sep, start) == Some(start + n));
        let further = before + first + sep;
        assert(text =~= further + join(rest, sep));
        assert forall|i: int, k: int|
            0 <= i < rest.len() && 0 <= k < rest[i].len() implies #[trigger] rest[i][k] != mark by {
            assert(rest[i][k] == pieces[i + 1][k]);
        }
        lemma_split_join_from(further, rest, sep, mark);
        assert(text.subrange(start, start + n) =~= first);
        assert(split_from(text, sep, start) =~= seq![first] + rest);
        assert(seq![first] + rest =~= pieces);
    }
}

/// Pieces that hold no character of the separator's kind come back from their
/// join.
pub proof fn lemma_split_join(pieces: Seq<Seq<char>>, sep: Seq<char>)
    requires
        pieces.len() > 0,
        sep.len() > 0,
        forall|i: int, k: int|
            0 <= i < pieces.len() && 0 <= k < pieces[i].len() ==> #[trigger] pieces[i][k] != sep[0],
    ensures
        split(join(pieces, sep), sep) == pieces,
{
    lemma_split_join_from(Seq::empty(), pieces, sep, sep[0]);
    assert(Seq::<char>::empty() + join(pieces, sep) =~= join(pieces, sep));
}

/// A found position is one where the pattern stands, and none comes before it;
/// no position is found only where the pattern stands nowhere.
pub proof fn lemma_find_from(text: Seq<char>, pat: Seq<char>, from: int)
    requires
        0 <= from,
    ensures
        match find_from(text, pat, from) {
            Some(at) => {
                &&& from <= at
                &&& occurs_at(text, pat, at)
                &&& forall|k: int| from <= k < at ==> !occurs_at(text, pat, k)
            },
            None => forall|k: int| from <= k ==> !occurs_at(text, pat, k),
        },
    decreases text.len() + 1 - from,
{
    if from + pat.len() <= text.len() && !occurs_at(text, pat, from) {
        lemma_find_from(text, pat, from + 1);
    }
}

/// Where the pattern does not stand between `from` and `to`, a search may start at `to`.
pub proof fn lemma_find_from_advance(text: Seq<char>, pat: Seq<char>, from: int, to: int)
    requires
        0 <= from <= to,
        forall|k: int| from <= k < to ==> !occurs_at(text, pat, k),
    ensures
        find_from(text, pat, from) == find_from(text, pat, to),
    decreases to - from,
{
    if from < to {
        assert(!occurs_at(text, pat, from));
        lemma_find_from_advance(text, pat, from + 1, to);
    }
}

/// `contains` and `find` agree.
pub proof fn lemma_contains_find(text: Seq<char>, pat: Seq<char>)
    ensures
        contains(text, pat) <==> find(text, pat) is Some,
{
    lemma_find_from(text, pat, 0);
    match find(text, pat) {
        Some(at) => {
            assert(occurs_at(text, pat, at));
        },
        None => {
            if contains(text, pat) {
                let at = choose|at: int| occurs_at(text, pat, at);
                assert(0 <= at);
            }
        },
    }
}

/// The characters of `text`.
pub fn chars_of(text: &str) -> (out: Vec<char>)
    ensures
        out@ == text@,
{
    let mut out: Vec<char> = Vec::new();
    for c in it: text.chars()
        invariant
            out@ == text@.take(it.index()),
            it.seq() == text@,
    {
        out.push(c);
    }
    out
}

/// The string with the characters `chars`.
pub fn text_of(chars: &Vec<char>) -> (out: String)
    ensures
        out@ == chars@,
{
    let mut out = String::new();
    let mut i: usize = 0;
    while i < chars.len()
        invariant
            i <= chars.len(),
            out@ == chars@.take(i as int),
        decreases chars.len() - i,
    {
        out.push(chars[i]);
        i = i + 1;
    }
    out
}

/// Whether `pat` stands in `text` at `at`.
fn stands_at(text: &Vec<char>, pat: &Vec<char>, at: usize) -> (r: bool)
    ensures
        r == occurs_at(text@, pat@, at as int),
{
    if at > text.len() || pat.len() > text.len() - at {
        return false;
    }
    let mut i: usize = 0;
    while i < pat.len()
        invariant
            at <= text.len(),
            pat.len() <= text.len() - at,
            i <= pat.len(),
            forall|k: int| 0 <= k < i ==> text@[at + k] == pat@[k],
        decreases pat.len() - i,
    {
        if text[at + i] != pat[i] {
            assert(text@.subrange(at as int, at + pat@.len())[i as int] != pat@[i as int]);
            return false;
        }
        i = i + 1;
    }
    assert(text@.subrange(at as int, at + pat@.len()) =~= pat@);
    true
}

/// The first position, not before `from`, at which `pat` stands in `text`.
pub fn find_chars(text: &Vec<char>, pat: &Vec<char>, from: usize) -> (r: Option<usize>)
    ensures
        match r {
            Some(at) => find_from(text@, pat@, from as int) == Some(at as int),
            None => find_from(text@, pat@, from as int) is None,
        },
{
    if from > text.len() {
        return None;
    }
    let mut at: usize = from;
    while pat.len() <= text.len() - at
        invariant
            from <= at <= text.len(),
            forall|k: int| from <= k < at ==> !occurs_at(text@, pat@, k),
        decreases text.len() - at,
    {
        if stands_at(text, pat, at) {
            proof {
                lemma_find_from_advance(text@, pat@, from as int, at as int);
            }
            return Some(at);
        }
        assert(pat.len() > 0) by {
            if pat.len() == 0 {
                assert(text@.subrange(at as int, at as int) =~= pat@);
            }
        }
        at = at + 1;
    }
    proof {
        lemma_find_from_advance(text@, pat@, from as int, at as int);
    }
    None
}

/// Whether two texts hold the same characters.
pub fn same(a: &str, b: &str) -> (r: bool)
    ensures
        r == (a@ == b@),
{
    let left = a.to_string();
    let right = b.to_string();
    left == right
}

/// Whether `text` begins with `prefix`.
pub fn starts_with(text: &str, prefix: &str) -> (r: bool)
    ensures
        r == prefix@.is_prefix_of(text@),
{
    let t = chars_of(text);
    let p = chars_of(prefix);
    stands_at(&t, &p, 0)
}

/// Whether `text` ends with `suffix`.
pub fn ends_with(text: &str, suffix: &str) -> (r: bool)
    ensures
        r == suffix@.is_suffix_of(text@),
{
    let t = chars_of(text);
    let s = chars_of(suffix);
    if s.len() > t.len() {
        return false;
    }
    stands_at(&t, &s, t.len() - s.len())
}

/// Whether `pat` stands somewhere in `text`.
pub fn holds(text: &str, pat: &str) -> (r: bool)
    ensures
        r == contains(text@, pat@),
{
    let t = chars_of(text);
    let p = chars_of(pat);
    proof {
        lemma_contains_find(text@, pat@);
    }
    find_chars(&t, &p, 0).is_some()
}

/// The characters of `text` from `from` up to `to`.
pub fn slice(text: &Vec<char>, from: usize, to: usize) -> (out: String)
    requires
        from <= to <= text.len(),
    ensures
        out@ == text@.subrange(from as int, to as int),
{
    let mut out = String::new();
    let mut i: usize = from;
    while i < to
        invariant
            from <= i <= to <= text.len(),
            out@ == text@.subrange(from as int, i as int),
        decreases to - i,
    {
        out.push(text[i]);
        i = i + 1;
        assert(text@.subrange(from as int, i as int) =~= text@.subrange(
            from as int,
            i - 1,
        ).push(text@[i - 1]));
    }
    out
}

/// `text` with every occurrence of `pat` exchanged for `to`.
pub fn replace(text: &str, pat: &str, to: &str) -> (out: String)
    requires
        pat@.len() > 0,
    ensures
        out@ == replace_all(text@, pat@, to@),
{
    let t = chars_of(text);
    let p = chars_of(pat);
    let mut out = String::new();
    let mut start: usize = 0;
    loop
        invariant
            t@ == text@,
            p@ == pat@,
            p.len() > 0,
            start <= t.len(),
            out@ + replace_from(t@, p@, to@, start as int) == replace_all(t@, p@, to@),
        decreases t.len() - start,
    {
        proof {
            lemma_find_from(t@, p@, start as int);
        }
        match find_chars(&t, &p, start) {
            Some(at) => {
                let piece = slice(&t, start, at);
                let ghost before = out@;
                out.append(piece.as_str());
                out.append(to);
                assert(out@ + replace_from(t@, p@, to@, at + p@.len()) =~= before + (t@.subrange(
                    start as int,
                    at as int,
                ) + to@ + replace_from(t@, p@, to@, at + p@.len())));
                start = at + p.len();
            },
            None => {
                let piece = slice(&t, start, t.len());
                assert(t@.subrange(start as int, t@.len() as int) =~= t@.skip(start as int));
                out.append(piece.as_str());
                return out;
            },
        }
    }
}

/// The pieces of `text` between occurrences of `sep`.
pub fn split_on<'a>(text: &'a str, sep: &str) -> (parts: Vec<&'a str>)
    requires
        sep@.len() > 0,
    ensures
        views(parts@) == split(text@, sep@),
{
    let t = chars_of(text);
    let p = chars_of(sep);
    let mut parts: Vec<&'a str> = Vec::new();
    let mut start: usize = 0;
    loop
        invariant
            t@ == text@,
            p@ == sep@,
            p.len() > 0,
            start <= t.len(),
            views(parts@) + split_from(t@, p@, start as int) == split(t@, p@),
        decreases t.len() - start,
    {
        proof {
            lemma_find_from(t@, p@, start as int);
        }
        let ghost before = parts@;
        match find_chars(&t, &p, start) {
            Some(at) => {
                let piece = text.substring_char(start, at);
                parts.push(piece);
                assert(views(parts@) =~= views(before).push(piece@));
                assert(views(parts@) + split_from(t@, p@, at + p@.len()) =~= views(before) + (
                seq![t@.subrange(start as int, at as int)] + split_from(
                    t@,
                    p@,
                    at + p@.len(),
                )));
                start = at + p.len();
            },
            None => {
                let piece = text.substring_char(start, t.len());
                assert(t@.subrange(start as int, t@.len() as int) =~= t@.skip(start as int));
                parts.push(piece);
                assert(views(parts@) =~= views(before) + seq![t@.skip(start as int)]);
                return parts;
            },
        }
    }
}

/// A text is cut into at least one piece.
pub proof fn lemma_split_from_nonempty(text: Seq<char>, sep: Seq<char>, start: int)
    ensures
        split_from(text, sep, start).len() > 0,
{
}

/// The same strings, each on its own.
pub fn owned(texts: &Vec<&str>) -> (out: Vec<String>)
    ensures
        string_views(out@) == views(texts@),
{
    let mut out: Vec<String> = Vec::new();
    while out.len() < texts.len()
        invariant
            out.len() <= texts.len(),
            forall|j: int| 0 <= j < out.len() ==> (#[trigger] out@[j])@ == views(texts@)[j],
        decreases texts.len() - out.len(),
    {
        out.push(texts[out.len()].to_string());
    }
    assert(string_views(out@) =~= views(texts@));
    out
}

/// Whether `c` has the Unicode property `White_Space`.
pub fn white(c: char) -> (r: bool)
    ensures
        r == is_white(c),
{
    ('\u{9}' <= c && c <= '\u{d}') || c == ' ' || c == '\u{85}' || c == '\u{a0}' || c == '\u{1680}'
        || ('\u{2000}' <= c && c <= '\u{200a}') || c == '\u{2028}' || c == '\u{2029}' || c
        == '\u{202f}' || c == '\u{205f}' || c == '\u{3000}'
}

/// `text` without white space at either end.
pub fn trimmed<'a>(text: &'a str) -> (out: &'a str)
    ensures
        out@ == trim(text@),
{
    let t = chars_of(text);
    let mut from: usize = 0;
    assert(t@.skip(0) =~= t@);
    while from < t.len() && white(t[from])
        invariant
            from <= t.len(),
            t@ == text@,
            trim_start(t@.skip(from as int)) == trim_start(t@),
        decreases t.len() - from,
    {
        assert(t@.skip(from as int).skip(1) =~= t@.skip(from + 1));
        from = from + 1;
    }
    let ghost rest = t@.skip(from as int);
    assert(trim_start(t@) == rest);
    let mut to: usize = t.len();
    assert(t@.subrange(from as int, to as int) =~= rest);
    while to > from && white(t[to - 1])
        invariant
            from <= to <= t.len(),
            trim_end(t@.subrange(from as int, to as int)) == trim_end(rest),
        decreases to,
    {
        assert(t@.subrange(from as int, to as int).drop_last() =~= t@.subrange(
            from as int,
            to - 1,
        ));
        to = to - 1;
    }
    text.substring_char(from, to)
}

/// The lines of `text`.
pub fn lines_of<'a>(text: &'a str) -> (out: Vec<&'a str>)
    ensures
        views(out@) == lines(text@),
{
    proof {
        reveal_strlit("\n");
        assert("\n"@ =~= seq!['\n']);
        lemma_split_from_nonempty(text@, seq!['\n'], 0);
    }
    let pieces = split_on(text, "\n");
    let ghost all = split(text@, seq!['\n']);
    assert(views(pieces@).len() == pieces@.len());
    let mut out: Vec<&'a str> = Vec::new();
    let mut i: usize = 0;
    let last = pieces.len() - 1;
    while i < last
        invariant
            i <= last,
            last + 1 == pieces.len(),
            views(pieces@) == all,
            views(out@) == all.take(i as int).map_values(|p: Seq<char>| strip_cr(p)),
        decreases last - i,
    {
        let piece = pieces[i];
        assert(piece@ == all[i as int]);
        let cs = chars_of(piece);
        let ghost before = out@;
        let line = if cs.len() > 0 && cs[cs.len() - 1] == '\r' {
            let cut = piece.substring_char(0, cs.len() - 1);
            assert(cut@ =~= cs@.drop_last());
            cut
        } else {
            piece
        };
        out.push(line);
        assert(views(out@) =~= views(before).push(line@));
        assert(all.take(i + 1) =~= all.take(i as int).push(all[i as int]));
        assert(all.take(i + 1).map_values(|p: Seq<char>| strip_cr(p)) =~= all.take(
            i as int,
        ).map_values(|p: Seq<char>| strip_cr(p)).push(strip_cr(all[i as int])));
        i = i + 1;
    }
    let piece = pieces[last];
    assert(piece@ == all[last as int]);
    assert(all.take(last as int) =~= all.drop_last());
    let ghost before = out@;
    if !piece.is_empty() {
        out.push(piece);
        assert(views(out@) =~= views(before).push(piece@));
    }
    out
}

/// The words of `text` between white space.
pub fn words(text: &str) -> (out: Vec<String>)
    ensures
        string_views(out@) == runs(text@, |c: char| is_white(c)),
{
    let t = chars_of(text);
    let ghost sep = |c: char| is_white(c);
    let mut out: Vec<String> = Vec::new();
    let mut start: usize = 0;
    let mut at: usize = 0;
    assert(string_views(out@) + runs_from(text@, sep, 0, 0) =~= runs(text@, sep));
    while at < t.len()
        invariant
            start <= at <= t.len(),
            t@ == text@,
            sep == (|c: char| is_white(c)),
            string_views(out@) + runs_from(text@, sep, start as int, at as int) == runs(text@, sep),
        decreases t.len() - at,
    {
        let ghost before = string_views(out@);
        if white(t[at]) {
            let ghost rest = runs_from(text@, sep, at + 1, at + 1);
            if start < at {
                let piece = slice(&t, start, at);
                out.push(piece);
                assert(string_views(out@) =~= before.push(piece@));
                assert(before + (seq![piece@] + rest) =~= before.push(piece@) + rest);
            } else {
                assert(Seq::<Seq<char>>::empty() + rest =~= rest);
            }
            start = at + 1;
        }
        at = at + 1;
    }
    let ghost before = string_views(out@);
    if start < at {
        let piece = slice(&t, start, at);
        out.push(piece);
        assert(string_views(out@) =~= before + seq![piece@]);
    } else {
        assert(before + Seq::<Seq<char>>::empty() =~= before);
    }
    out
}

/// A copy of an optional string.
pub fn opt_copy(text: &Option<String>) -> (r: Option<String>)
    ensures
        opt_view(r) == opt_view(*text),
{
    match text {
        Some(t) => Some(t.clone()),
        None => None,
    }
}

/// `a` followed by `b`.
pub fn concat(a: &str, b: &str) -> (out: String)
    ensures
        out@ == a@ + b@,
{
    let mut out = a.to_string();
    out.append(b);
    out
}

/// `a`, `b` and `c`, one after the other.
pub fn concat3(a: &str, b: &str, c: &str) -> (out: String)
    ensures
        out@ == a@ + b@ + c@,
{
    let mut out = a.to_string();
    out.append(b);
    out.append(c);
    out
}

/// The pieces with `sep` between each two neighbours.
pub fn joined(pieces: &Vec<String>, sep: &str) -> (out: String)
    ensures
        out@ == join(string_views(pieces@), sep@),
{
    let mut out = String::new();
    let mut i: usize = 0;
    let ghost all = string_views(pieces@);
    while i < pieces.len()
        invariant
            i <= pieces.len(),
            all == string_views(pieces@),
            out@ == join(all.take(i as int), sep@),
        decreases pieces.len() - i,
    {
        if i > 0 {
            out.append(sep);
        }
        out.append(pieces[i].as_str());
        assert(all.take(i + 1).drop_last() =~= all.take(i as int));
        assert(all.take(i + 1).last() == pieces@[i as int]@);
        i = i + 1;
        assert(out@ =~= join(all.take(i as int), sep@));
    }
    assert(all.take(i as int) =~= all);
    out
}

/// A search finds the first occurrence.
proof fn lemma_find_from_first(text: Seq<char>, pat: Seq<char>, from: int, at: int)
    requires
        0 <= from <= at,
        occurs_at(text, pat, at),
        forall|k: int| from <= k < at ==> !occurs_at(text, pat, k),
    ensures
        find_from(text, pat, from) == Some(at),
{
    lemma_find_from_advance(text, pat, from, at);
}

/// A search finds nothing where nothing is.
proof fn lemma_find_from_none(text: Seq<char>, pat: Seq<char>, from: int)
    requires
        0 <= from,
        forall|k: int| from <= k ==> !occurs_at(text, pat, k),
    ensures
        find_from(text, pat, from) is None,
{
    lemma_find_from(text, pat, from);
}

/// No occurrence of a pattern reaches across a character that is not in it.
proof fn lemma_occurs_beside(
    a: Seq<char>,
    d: char,
    b: Seq<char>,
    pat: Seq<char>,
    k: int,
)
    requires
        pat.len() > 0,
        !pat.contains(d),
    ensures
        occurs_at(a + seq![d] + b, pat, k) <==> (occurs_at(a, pat, k) || occurs_at(
            b,
            pat,
            k - a.len() - 1,
        )),
        occurs_at(a, pat, k) ==> k + pat.len() <= a.len(),
{
    let text = a + seq![d] + b;
    let n = a.len() as int;
    if occurs_at(text, pat, k) {
        let found = text.subrange(k, k + pat.len());
        if k <= n < k + pat.len() {
            assert(found[n - k] == d);
            assert(pat[n - k] == d);
        } else if k < n {
            assert(a.subrange(k, k + pat.len()) =~= found);
        } else {
            assert(b.subrange(k - n - 1, k - n - 1 + pat.len()) =~= found);
        }
    }
    if occurs_at(a, pat, k) {
        assert(text.subrange(k, k + pat.len()) =~= a.subrange(k, k + pat.len()));
    }
    if occurs_at(b, pat, k - n - 1) {
        assert(text.subrange(k, k + pat.len()) =~= b.subrange(k - n - 1, k - n - 1 + pat.len()));
    }
}

proof fn lemma_replace_behind(
    a: Seq<char>,
    d: char,
    b: Seq<char>,
    pat: Seq<char>,
    to: Seq<char>,
    start: int,
)
    requires
        pat.len() > 0,
        !pat.contains(d),
        a.len() + 1 <= start <= a.len() + 1 + b.len(),
    ensures
        replace_from(a + seq![d] + b, pat, to, start) == replace_from(
            b,
            pat,
            to,
            start - a.len() - 1,
        ),
    decreases a.len() + 1 + b.len() - start,
{
    let text = a + seq![d] + b;
    let n = a.len() + 1;
    lemma_find_from(b, pat, start - n);
    assert forall|k: int| start <= k implies occurs_at(text, pat, k) == occurs_at(
        b,
        pat,
        k - n,
    ) by {
        lemma_occurs_beside(a, d, b, pat, k);
    }
    match find_from(b, pat, start - n) {
        Some(at) => {
            assert forall|k: int| start <= k < at + n implies !occurs_at(text, pat, k) by {
                assert(!occurs_at(b, pat, k - n));
            }
            assert(occurs_at(text, pat, at + n));
            lemma_find_from_first(text, pat, start, at + n);
            assert(at + pat.len() <= b.len());
            lemma_replace_behind(a, d, b, pat, to, at + n + pat.len());
            assert(text.subrange(start, at + n) =~= b.subrange(start - n, at));
        },
        None => {
            assert forall|k: int| start <= k implies !occurs_at(text, pat, k) by {
                assert(!occurs_at(b, pat, k - n));
            }
            lemma_find_from_none(text, pat, start);
            assert(text.skip(start) =~= b.skip(start - n));
        },
    }
}

proof fn lemma_replace_split_from(
    a: Seq<char>,
    d: char,
    b: Seq<char>,
    pat: Seq<char>,
    to: Seq<char>,
    start: int,
)
    requires
        pat.len() > 0,
        !pat.contains(d),
        0 <= start <= a.len(),
    ensures
        replace_from(a + seq![d] + b, pat, to, start) == replace_from(a, pat, to, start) + seq![d]
            + replace_all(b, pat, to),
    decreases a.len() - start,
{
    let text = a + seq![d] + b;
    let n = a.len() as int;
    lemma_find_from(a, pat, start);
    match find_from(a, pat, start) {
        Some(at) => {
            assert forall|k: int| start <= k < at implies !occurs_at(text, pat, k) by {
                lemma_occurs_beside(a, d, b, pat, k);
                lemma_occurs_beside(a, d, b, pat, at);
                if occurs_at(b, pat, k - n - 1) {
                    assert(k >= n + 1);
                }
            }
            lemma_occurs_beside(a, d, b, pat, at);
            lemma_find_from_first(text, pat, start, at);
            lemma_replace_split_from(a, d, b, pat, to, at + pat.len());
            assert(text.subrange(start, at) =~= a.subrange(start, at));
            assert(replace_from(text, pat, to, start) =~= replace_from(a, pat, to, start) + seq![d]
                + replace_all(b, pat, to));
        },
        None => {
            lemma_find_from(b, pat, 0);
            match find_from(b, pat, 0) {
                Some(at) => {
                    let there = at + n + 1;
                    assert forall|k: int| start <= k < there implies !occurs_at(text, pat, k) by {
                        lemma_occurs_beside(a, d, b, pat, k);
                        if k >= n + 1 {
                            assert(!occurs_at(b, pat, k - n - 1));
                        }
                    }
                    lemma_occurs_beside(a, d, b, pat, there);
                    lemma_find_from_first(text, pat, start, there);
                    lemma_replace_behind(a, d, b, pat, to, there + pat.len());
                    assert(replace_from(text, pat, to, start) =~= replace_from(a, pat, to, start)
                        + seq![d] + replace_all(b, pat, to));
                },
                None => {
                    assert forall|k: int| start <= k implies !occurs_at(text, pat, k) by {
                        lemma_occurs_beside(a, d, b, pat, k);
                        if k >= n + 1 {
                            assert(!occurs_at(b, pat, k - n - 1));
                        }
                    }
                    lemma_find_from_none(text, pat, start);
                    assert(b.skip(0) =~= b);
                    assert(text.skip(start) =~= a.skip(start) + seq![d] + b);
                },
            }
        },
    }
}

/// On both sides of a character that is not in the pattern, occurrences are
/// exchanged independently.
pub proof fn lemma_replace_split(
    a: Seq<char>,
    d: char,
    b: Seq<char>,
    pat: Seq<char>,
    to: Seq<char>,
)
    requires
        pat.len() > 0,
        !pat.contains(d),
    ensures
        replace_all(a + seq![d] + b, pat, to) == replace_all(a, pat, to) + seq![d] + replace_all(
            b,
            pat,
            to,
        ),
{
    lemma_replace_split_from(a, d, b, pat, to, 0);
}

/// A text without the pattern stays as it is.
pub proof fn lemma_replace_nothing(text: Seq<char>, pat: Seq<char>, to: Seq<char>)
    requires
        pat.len() > 0,
        !contains(text, pat),
    ensures
        replace_all(text, pat, to) == text,
{
    assert forall|k: int| 0 <= k implies !occurs_at(text, pat, k) by {}
    lemma_find_from_none(text, pat, 0);
    assert(text.skip(0) =~= text);
}

/// The pattern itself is exchanged.
pub proof fn lemma_replace_whole(pat: Seq<char>, to: Seq<char>)
    requires
        pat.len() > 0,
    ensures
        replace_all(pat, pat, to) == to,
{
    assert(pat.subrange(0, pat.len() as int) =~= pat);
    assert(occurs_at(pat, pat, 0));
    lemma_find_from_first(pat, pat, 0, 0);
    let n = pat.len() as int;
    assert forall|k: int| n <= k implies !occurs_at(pat, pat, k) by {}
    lemma_find_from_none(pat, pat, n);
    assert(replace_from(pat, pat, to, n) =~= Seq::empty());
    assert(replace_from(pat, pat, to, 0) =~= pat.subrange(0, 0) + to + replace_from(
        pat,
        pat,
        to,
        n,
    ));
}

/// Trailing white space is all that goes.
pub proof fn lemma_trim_end_blanks(text: Seq<char>, blanks: Seq<char>)
    requires
        text.len() > 0 ==> !is_white(text.last()),
        forall|k: int| 0 <= k < blanks.len() ==> is_white(#[trigger] blanks[k]),
    ensures
        trim_end(text + blanks) == text,
    decreases blanks.len(),
{
    if blanks.len() == 0 {
        assert(text + blanks =~= text);
    } else {
        let all = text + blanks;
        assert(is_white(blanks[blanks.len() - 1]));
        assert(all.last() == blanks[blanks.len() - 1]);
        assert(all.drop_last() =~= text + blanks.drop_last());
        assert forall|k: int| 0 <= k < blanks.drop_last().len() implies is_white(
            #[trigger] blanks.drop_last()[k],
        ) by {
            assert(is_white(blanks[k]));
        }
        lemma_trim_end_blanks(text, blanks.drop_last());
    }
}

/// Leading white space is all that goes.
pub proof fn lemma_trim_start_blanks(blanks: Seq<char>, text: Seq<char>)
    requires
        text.len() > 0 ==> !is_white(text[0]),
        forall|k: int| 0 <= k < blanks.len() ==> is_white(#[trigger] blanks[k]),
    ensures
        trim_start(blanks + text) == text,
    decreases blanks.len(),
{
    if blanks.len() == 0 {
        assert(blanks + text =~= text);
    } else {
        let all = blanks + text;
        assert(is_white(blanks[0]));
        assert(all.skip(1) =~= blanks.skip(1) + text);
        assert forall|k: int| 0 <= k < blanks.skip(1).len() implies is_white(
            #[trigger] blanks.skip(1)[k],
        ) by {
            assert(is_white(blanks[k + 1]));
        }
        lemma_trim_start_blanks(blanks.skip(1), text);
    }
}

/// White space at the ends goes, and nothing else does.
pub proof fn law_trim(before: Seq<char>, text: Seq<char>, after: Seq<char>)
    requires
        text.len() > 0,
        !is_white(text[0]),
        !is_white(text.last()),
        forall|k: int| 0 <= k < before.len() ==> is_white(#[trigger] before[k]),
        forall|k: int| 0 <= k < after.len() ==> is_white(#[trigger] after[k]),
    ensures
        trim(before + text + after) == text,
{
    assert(before + text + after =~= before + (text + after));
    lemma_trim_start_blanks(before, text + after);
    lemma_trim_end_blanks(text, after);
}

proof fn lemma_split_behind(a: Seq<char>, d: char, b: Seq<char>, start: int)
    requires
        a.len() + 1 <= start <= a.len() + 1 + b.len(),
    ensures
        split_from(a + seq![d] + b, seq![d], start) == split_from(
            b,
            seq![d],
            start - a.len() - 1,
        ),
    decreases a.len() + 1 + b.len() - start,
{
    let text = a + seq![d] + b;
    let sep = seq![d];
    let n = a.len() + 1;
    lemma_find_from(b, sep, start - n);
    assert forall|k: int| start <= k implies occurs_at(text, sep, k) == occurs_at(
        b,
        sep,
        k - n,
    ) by {
        if k + 1 <= text.len() {
            assert(text.subrange(k, k + 1) =~= b.subrange(k - n, k - n + 1));
        }
    }
    match find_from(b, sep, start - n) {
        Some(at) => {
            assert forall|k: int| start <= k < at + n implies !occurs_at(text, sep, k) by {
                assert(!occurs_at(b, sep, k - n));
            }
            assert(occurs_at(text, sep, at + n));
            lemma_find_from_first(text, sep, start, at + n);
            lemma_split_behind(a, d, b, at + n + 1);
            assert(text.subrange(start, at + n) =~= b.subrange(start - n, at));
        },
        None => {
            assert forall|k: int| start <= k implies !occurs_at(text, sep, k) by {
                assert(!occurs_at(b, sep, k - n));
            }
            lemma_find_from_none(text, sep, start);
            assert(text.skip(start) =~= b.skip(start - n));
        },
    }
}

/// Up to the first separator stands the first piece, and behind it the others.
pub proof fn law_split_at_first(a: Seq<char>, d: char, b: Seq<char>)
    requires
        !a.contains(d),
    ensures
        split(a + seq![d] + b, seq![d]) == seq![a] + split(b, seq![d]),
        split(a, seq![d]) == seq![a],
{
    let text = a + seq![d] + b;
    let sep = seq![d];
    let n = a.len() as int;
    assert forall|k: int| 0 <= k < n implies !occurs_at(text, sep, k) by {
        if occurs_at(text, sep, k) {
            assert(text.subrange(k, k + 1)[0] == d);
            assert(a[k] == d);
        }
    }
    assert(text.subrange(n, n + 1) =~= sep);
    assert(occurs_at(text, sep, n));
    lemma_find_from_first(text, sep, 0, n);
    lemma_split_behind(a, d, b, n + 1);
    assert(text.subrange(0, n) =~= a);
    assert forall|k: int| 0 <= k implies !occurs_at(a, sep, k) by {
        if occurs_at(a, sep, k) {
            assert(a.subrange(k, k + 1)[0] == d);
            assert(a[k] == d);
        }
    }
    lemma_find_from_none(a, sep, 0);
    assert(a.skip(0) =~= a);
}

/// Behind the last separator stands the last piece.
pub proof fn law_split_at_last(a: Seq<char>, d: char, b: Seq<char>)
    requires
        !b.contains(d),
    ensures
        split(a + seq![d] + b, seq![d]).last() == b,
        split(a + seq![d] + b, seq![d]).len() > 1,
    decreases a.len(),
{
    if !a.contains(d) {
        law_split_at_first(a, d, b);
        law_split_at_first(b, d, b);
        assert(split(a + seq![d] + b, seq![d]) =~= seq![a, b]);
    } else {
        lemma_find_from(a, seq![d], 0);
        let some = choose|k: int| 0 <= k < a.len() && a[k] == d;
        assert(a.subrange(some, some + 1) =~= seq![d]);
        assert(occurs_at(a, seq![d], some));
        let at = find_from(a, seq![d], 0)->0;
        assert(a.subrange(at, at + 1)[0] == d);
        let head = a.take(at);
        let tail = a.skip(at + 1);
        assert(a =~= head + seq![d] + tail);
        assert(!head.contains(d)) by {
            if head.contains(d) {
                let k = choose|k: int| 0 <= k < head.len() && head[k] == d;
                assert(a.subrange(k, k + 1) =~= seq![d]);
                assert(occurs_at(a, seq![d], k));
            }
        }
        let rest = tail + seq![d] + b;
        assert(a + seq![d] + b =~= head + seq![d] + rest);
        law_split_at_first(head, d, rest);
        law_split_at_last(tail, d, b);
    }
}

proof fn lemma_runs_behind<A>(
    a: Seq<A>,
    b: Seq<A>,
    is_sep: spec_fn(A) -> bool,
    start: int,
    at: int,
)
    requires
        a.len() <= start <= at <= a.len() + b.len(),
    ensures
        runs_from(a + b, is_sep, start, at) == runs_from(
            b,
            is_sep,
            start - a.len(),
            at - a.len(),
        ),
    decreases a.len() + b.len() - at,
{
    let s = a + b;
    let n = a.len() as int;
    assert(s.subrange(start, at) =~= b.subrange(start - n, at - n));
    if at < s.len() {
        if is_sep(s[at]) {
            lemma_runs_behind(a, b, is_sep, at + 1, at + 1);
        } else {
            lemma_runs_behind(a, b, is_sep, start, at + 1);
        }
    }
}

proof fn lemma_runs_first<A>(
    piece: Seq<A>,
    sep: A,
    rest: Seq<A>,
    is_sep: spec_fn(A) -> bool,
    at: int,
)
    requires
        0 <= at <= piece.len(),
        forall|k: int| 0 <= k < piece.len() ==> !is_sep(#[trigger] piece[k]),
        is_sep(sep),
    ensures
        runs_from(piece + seq![sep] + rest, is_sep, 0, at) == (if piece.len() > 0 {
            seq![piece]
        } else {
            Seq::empty()
        }) + runs(rest, is_sep),
    decreases piece.len() - at,
{
    let s = piece + seq![sep] + rest;
    let n = piece.len() as int;
    if at < n {
        assert(!is_sep(piece[at]));
        assert(s[at] == piece[at]);
        lemma_runs_first(piece, sep, rest, is_sep, at + 1);
    } else {
        assert(s[at] == sep);
        assert(s =~= (piece + seq![sep]) + rest);
        lemma_runs_behind(piece + seq![sep], rest, is_sep, n + 1, n + 1);
        assert(s.subrange(0, n) =~= piece);
    }
}

/// The first run is what stands before the first separator, where that is anything,
/// and the others are those of what stands behind it.
pub proof fn law_runs_at_first<A>(
    piece: Seq<A>,
    sep: A,
    rest: Seq<A>,
    is_sep: spec_fn(A) -> bool,
)
    requires
        forall|k: int| 0 <= k < piece.len() ==> !is_sep(#[trigger] piece[k]),
        is_sep(sep),
    ensures
        runs(piece + seq![sep] + rest, is_sep) == (if piece.len() > 0 {
            seq![piece]
        } else {
            Seq::empty()
        }) + runs(rest, is_sep),
{
    lemma_runs_first(piece, sep, rest, is_sep, 0);
}

} // verus!

//! Just enough HTTP to ask a browser for its debugging endpoint.
//!
//! The browser keeps the connection open whatever the request says, so a reply
//! ends where its `Content-Length` says that it does.

use vstd::prelude::*;

use crate::decimal::{digits, is_digit, law_decimal_round_trip, lemma_digits, parse_up_to, parsed};
use crate::error::{Error, ErrorView};
use crate::text::{
    chars_of, concat3, is_white, law_split_at_first, law_trim, lemma_split_from_nonempty, lines,
    lines_of, slice, split, starts_with, trim, trimmed, views,
};
use crate::unicode::{ascii_lower, ascii_lowered, decode, decoded, lower_ascii};

verus! {

/// The text of a request for `path`.
pub fn request_text(path: &str) -> (out: String)
    ensures
        out@ == "GET "@ + path@
            + " HTTP/1.1\r\nHost: localhost\r\nAccept: application/json\r\nConnection: close\r\n\r\n"@,
{
    concat3(
        "GET ",
        path,
        " HTTP/1.1\r\nHost: localhost\r\nAccept: application/json\r\nConnection: close\r\n\r\n",
    )
}

/// An empty line ends at position `at + 4`.
pub open spec fn blank_at(buf: Seq<u8>, at: int) -> bool {
    &&& 0 <= at
    &&& at + 4 <= buf.len()
    &&& buf[at] == 13
    &&& buf[at + 1] == 10
    &&& buf[at + 2] == 13
    &&& buf[at + 3] == 10
}

/// The first position, not before `from`, at which two line ends stand.
pub open spec fn first_blank(buf: Seq<u8>, from: int) -> Option<int>
    decreases buf.len() - from,
{
    if from < 0 || from + 4 > buf.len() {
        None
    } else if blank_at(buf, from) {
        Some(from)
    } else {
        first_blank(buf, from + 1)
    }
}

/// The position of the first two line ends in a row.
pub fn find_double_crlf(buf: &[u8]) -> (r: Option<usize>)
    ensures
        match r {
            Some(at) => first_blank(buf@, 0) == Some(at as int) && at + 4 <= buf@.len(),
            None => first_blank(buf@, 0) is None,
        },
{
    let mut at: usize = 0;
    while buf.len() - at >= 4
        invariant
            at <= buf@.len(),
            first_blank(buf@, at as int) == first_blank(buf@, 0),
        decreases buf@.len() - at,
    {
        if buf[at] == 13 && buf[at + 1] == 10 && buf[at + 2] == 13 && buf[at + 3] == 10 {
            return Some(at);
        }
        at = at + 1;
    }
    None
}

/// The first line of a head, or nothing.
pub open spec fn status_line(head: Seq<char>) -> Seq<char> {
    if lines(head).len() > 0 {
        lines(head)[0]
    } else {
        Seq::empty()
    }
}

/// The status line says that all is well.
pub open spec fn is_success(status: Seq<char>) -> bool {
    "HTTP/1.1 200"@.is_prefix_of(status) || "HTTP/1.0 200"@.is_prefix_of(status)
}

/// The length that a header line announces for the body.
pub open spec fn announced_length(line: Seq<char>) -> Option<nat> {
    let low = ascii_lowered(line);
    if "content-length:"@.is_prefix_of(low) {
        parsed(trim(low.skip("content-length:"@.len() as int)), usize::MAX as nat)
    } else {
        None
    }
}

/// The length that the first header line, not before `from`, which announces one
/// gives for the body.
pub open spec fn body_length(header: Seq<Seq<char>>, from: int) -> Option<nat>
    decreases header.len() - from,
{
    if from < 0 || from >= header.len() {
        None
    } else if announced_length(header[from]) is Some {
        announced_length(header[from])
    } else {
        body_length(header, from + 1)
    }
}

fn line_length(line: &str) -> (r: Option<usize>)
    ensures
        match r {
            Some(n) => announced_length(line@) == Some(n as nat),
            None => announced_length(line@) is None,
        },
{
    let low = lower_ascii(line);
    if !starts_with(low.as_str(), "content-length:") {
        return None;
    }
    let chars = chars_of(low.as_str());
    let name = chars_of("content-length:");
    let rest = slice(&chars, name.len(), chars.len());
    assert(rest@ =~= low@.skip(name@.len() as int));
    match parse_up_to(trimmed(rest.as_str()), usize::MAX as u64) {
        Some(n) => Some(n as usize),
        None => None,
    }
}

/// The length that a reply's head announces for its body.
pub fn content_length(head: &str) -> (r: Option<usize>)
    ensures
        match r {
            Some(n) => body_length(lines(head@), 0) == Some(n as nat),
            None => body_length(lines(head@), 0) is None,
        },
{
    let header = lines_of(head);
    let ghost all = lines(head@);
    assert(views(header@).len() == header@.len());
    let mut i: usize = 0;
    while i < header.len()
        invariant
            i <= header.len(),
            views(header@) == all,
            all == lines(head@),
            header.len() == all.len(),
            body_length(all, i as int) == body_length(all, 0),
        decreases header.len() - i,
    {
        assert(all[i as int] == header@[i as int]@);
        match line_length(header[i]) {
            Some(n) => {
                return Some(n);
            },
            None => {},
        }
        i = i + 1;
    }
    None
}

/// What to do about what has come of a reply.
pub enum HttpStep {
    /// Read on.
    More,
    /// The reply is complete, and this is its body.
    Done(String),
    /// The reply is of no use.
    Failed(Error),
}

/// The value behind an `HttpStep`.
pub enum HttpStepView {
    More,
    Done(Seq<char>),
    Failed(ErrorView),
}

impl View for HttpStep {
    type V = HttpStepView;

    open spec fn view(&self) -> HttpStepView {
        match self {
            HttpStep::More => HttpStepView::More,
            HttpStep::Done(body) => HttpStepView::Done(body@),
            HttpStep::Failed(e) => HttpStepView::Failed(e@),
        }
    }
}

/// What to do about `buf`, which has come of the reply to a request for `path`
/// from `addr`, where `ended` says whether the connection was closed after it and
/// `head` is the text before its first empty line at `end`.
pub open spec fn after_head(
    buf: Seq<u8>,
    ended: bool,
    path: Seq<char>,
    addr: Seq<char>,
    end: int,
    head: Seq<char>,
) -> HttpStepView {
    let status = status_line(head);
    if !is_success(status) {
        HttpStepView::Failed(
            ErrorView::Transport("HTTP "@ + path + " from Chrome at "@ + addr + ": "@ + status),
        )
    } else {
        match body_length(lines(head), 0) {
            Some(n) => if end + 4 + n <= buf.len() {
                HttpStepView::Done(decoded(buf.subrange(end + 4, end + 4 + n)))
            } else if ended {
                HttpStepView::Failed(
                    ErrorView::Transport(
                        "Chrome closed the connection before sending the full response body"@,
                    ),
                )
            } else {
                HttpStepView::More
            },
            None => if ended {
                HttpStepView::Done(decoded(buf.skip(end + 4)))
            } else {
                HttpStepView::More
            },
        }
    }
}

/// What to do about `buf`, which has come of a reply.
pub open spec fn http_step(
    buf: Seq<u8>,
    ended: bool,
    path: Seq<char>,
    addr: Seq<char>,
) -> HttpStepView {
    match first_blank(buf, 0) {
        Some(end) => after_head(buf, ended, path, addr, end, decoded(buf.take(end))),
        None => if ended {
            HttpStepView::Failed(
                ErrorView::Transport("Chrome closed the connection before headers"@),
            )
        } else {
            HttpStepView::More
        },
    }
}

fn bytes_between(buf: &Vec<u8>, from: usize, to: usize) -> (out: Vec<u8>)
    requires
        from <= to <= buf@.len(),
    ensures
        out@ == buf@.subrange(from as int, to as int),
{
    let mut out: Vec<u8> = Vec::new();
    let mut i: usize = from;
    while i < to
        invariant
            from <= i <= to <= buf@.len(),
            out@ == buf@.subrange(from as int, i as int),
        decreases to - i,
    {
        out.push(buf[i]);
        i = i + 1;
    }
    out
}

/// What to do about what has come of a reply, given the text of its head, which
/// ends at `end`.
pub fn judge(buf: &Vec<u8>, ended: bool, path: &str, addr: &str, end: usize, head: &str) -> (step:
    HttpStep)
    requires
        end + 4 <= buf@.len(),
    ensures
        step@ == after_head(buf@, ended, path@, addr@, end as int, head@),
{
    let header = lines_of(head);
    assert(views(header@).len() == header@.len());
    let status = if header.len() > 0 {
        assert(lines(head@)[0] == header@[0]@);
        header[0]
    } else {
        proof {
            reveal_strlit("");
        }
        assert(""@ =~= Seq::<char>::empty());
        ""
    };
    if !(starts_with(status, "HTTP/1.1 200") || starts_with(status, "HTTP/1.0 200")) {
        let mut message = concat3("HTTP ", path, " from Chrome at ");
        message.append(addr);
        message.append(": ");
        message.append(status);
        return HttpStep::Failed(Error::Transport(message));
    }
    let size: usize = buf.len();
    let start: usize = end + 4;
    match content_length(head) {
        Some(n) => {
            if n <= size - start {
                HttpStep::Done(decode(&bytes_between(buf, start, start + n)))
            } else if ended {
                HttpStep::Failed(
                    Error::transport(
                        "Chrome closed the connection before sending the full response body",
                    ),
                )
            } else {
                HttpStep::More
            }
        },
        None => {
            if ended {
                let body = bytes_between(buf, start, size);
                assert(body@ =~= buf@.skip(start as int));
                HttpStep::Done(decode(&body))
            } else {
                HttpStep::More
            }
        },
    }
}

/// What to do about what has come of the reply to a request for `path` from
/// `addr`. `ended` says whether the connection was closed after it.
pub fn http_get(buf: &Vec<u8>, ended: bool, path: &str, addr: &str) -> (step: HttpStep)
    ensures
        step@ == http_step(buf@, ended, path@, addr@),
{
    match find_double_crlf(buf.as_slice()) {
        Some(end) => {
            let head_bytes = bytes_between(buf, 0, end);
            assert(head_bytes@ =~= buf@.take(end as int));
            let head = decode(&head_bytes);
            judge(buf, ended, path, addr, end, head.as_str())
        },
        None => {
            if ended {
                HttpStep::Failed(Error::transport("Chrome closed the connection before headers"))
            } else {
                HttpStep::More
            }
        },
    }
}

proof fn lemma_first_blank_extends(buf: Seq<u8>, more: Seq<u8>, from: int)
    requires
        0 <= from,
        first_blank(buf, from) is Some,
    ensures
        first_blank(buf + more, from) == first_blank(buf, from),
        from <= first_blank(buf, from)->0,
        blank_at(buf, first_blank(buf, from)->0),
    decreases buf.len() - from,
{
    if !blank_at(buf, from) {
        lemma_first_blank_extends(buf, more, from + 1);
    }
}

/// A reply that is complete while the connection is still open stays what it is,
/// whatever comes after it: nothing needs to be waited for.
pub proof fn law_complete_reply_is_final(
    buf: Seq<u8>,
    more: Seq<u8>,
    ended: bool,
    path: Seq<char>,
    addr: Seq<char>,
)
    requires
        !(http_step(buf, false, path, addr) is More),
    ensures
        http_step(buf + more, ended, path, addr) == http_step(buf, false, path, addr),
{
    lemma_first_blank_extends(buf, more, 0);
    let end = first_blank(buf, 0)->0;
    assert((buf + more).take(end) =~= buf.take(end));
    match body_length(lines(decoded(buf.take(end))), 0) {
        Some(n) => {
            if end + 4 + n <= buf.len() {
                assert((buf + more).subrange(end + 4, end + 4 + n) =~= buf.subrange(
                    end + 4,
                    end + 4 + n,
                ));
            }
        },
        None => {},
    }
}

/// Once the connection is closed, a reply is judged.
pub proof fn law_closed_reply_is_judged(buf: Seq<u8>, path: Seq<char>, addr: Seq<char>)
    ensures
        !(http_step(buf, true, path, addr) is More),
{
}

/// A reply is of use only where its status is 200.
pub proof fn law_only_200_is_success(status: Seq<char>)
    ensures
        is_success(status) ==> status.len() >= 12 && status.subrange(9, 12) == seq!['2', '0', '0'],
        "HTTP/1.1 200"@.is_prefix_of(status) ==> is_success(status),
        "HTTP/1.0 200"@.is_prefix_of(status) ==> is_success(status),
{
    reveal_strlit("HTTP/1.1 200");
    reveal_strlit("HTTP/1.0 200");
    if is_success(status) {
        let start = status.subrange(0, 12);
        assert(status.subrange(9, 12) =~= start.subrange(9, 12));
        if "HTTP/1.1 200"@.is_prefix_of(status) {
            assert("HTTP/1.1 200"@.subrange(9, 12) =~= seq!['2', '0', '0']);
        } else {
            assert("HTTP/1.0 200"@.subrange(9, 12) =~= seq!['2', '0', '0']);
        }
    }
}

/// A line with the header's name, in any letter case, blanks and a number announces
/// that number.
pub proof fn law_length_line(name: Seq<char>, blanks: Seq<char>, n: nat)
    requires
        ascii_lowered(name) == "content-length:"@,
        forall|k: int| 0 <= k < blanks.len() ==> #[trigger] blanks[k] == ' ',
        n <= usize::MAX,
    ensures
        announced_length(name + blanks + digits(n)) == Some(n),
{
    let number = digits(n);
    let line = name + blanks + number;
    let low = ascii_lowered(line);
    let start = "content-length:"@;
    lemma_digits(n);
    assert forall|k: int| 0 <= k < number.len() implies {
        let c = #[trigger] number[k];
        ascii_lower(c) == c && !is_white(c)
    } by {
        assert(is_digit(number[k]));
    }
    assert(low =~= start + blanks + number) by {
        assert(start.len() == name.len());
        assert forall|k: int| 0 <= k < low.len() implies low[k] == (start + blanks + number)[k] by {
            if k < name.len() {
                assert(ascii_lowered(name)[k] == ascii_lower(name[k]));
            } else if k < name.len() + blanks.len() {
                assert(line[k] == blanks[k - name.len()]);
            } else {
                assert(line[k] == number[k - name.len() - blanks.len()]);
            }
        }
    }
    assert(low.subrange(0, start.len() as int) =~= start);
    assert(low.skip(start.len() as int) =~= blanks + number);
    let none = Seq::<char>::empty();
    assert(blanks + number + none =~= blanks + number);
    law_trim(blanks, number, none);
    law_decimal_round_trip(n, usize::MAX as nat);
}

/// The body of a reply is the bytes behind the head's empty line, as many as the head
/// announces, whatever follows them.
pub proof fn law_body_follows_the_head(
    head: Seq<u8>,
    body: Seq<u8>,
    more: Seq<u8>,
    ended: bool,
    path: Seq<char>,
    addr: Seq<char>,
)
    requires
        first_blank(head + seq![13u8, 10u8, 13u8, 10u8] + body + more, 0) == Some(
            head.len() as int,
        ),
        is_success(status_line(decoded(head))),
        body_length(lines(decoded(head)), 0) == Some(body.len()),
    ensures
        http_step(head + seq![13u8, 10u8, 13u8, 10u8] + body + more, ended, path, addr)
            == HttpStepView::Done(decoded(body)),
{
    let buf = head + seq![13u8, 10u8, 13u8, 10u8] + body + more;
    let end = head.len() as int;
    assert(buf.take(end) =~= head);
    assert(buf.subrange(end + 4, end + 4 + body.len()) =~= body);
}

/// Where fewer bytes have come than the head announces, there is no body: more is
/// waited for while it can come, and the reply is of no use when it cannot.
pub proof fn law_unfinished_body(
    head: Seq<u8>,
    part: Seq<u8>,
    announced: nat,
    path: Seq<char>,
    addr: Seq<char>,
)
    requires
        first_blank(head + seq![13u8, 10u8, 13u8, 10u8] + part, 0) == Some(head.len() as int),
        is_success(status_line(decoded(head))),
        body_length(lines(decoded(head)), 0) == Some(announced),
        part.len() < announced,
    ensures
        http_step(head + seq![13u8, 10u8, 13u8, 10u8] + part, false, path, addr)
            == HttpStepView::More,
        http_step(head + seq![13u8, 10u8, 13u8, 10u8] + part, true, path, addr) is Failed,
{
    let buf = head + seq![13u8, 10u8, 13u8, 10u8] + part;
    assert(buf.take(head.len() as int) =~= head);
}

/// The first line that announces a length counts.
pub proof fn law_first_length_counts(header: Seq<Seq<char>>, at: int)
    requires
        0 <= at < header.len(),
        announced_length(header[at]) is Some,
        forall|i: int| 0 <= i < at ==> announced_length(#[trigger] header[i]) is None,
    ensures
        body_length(header, 0) == announced_length(header[at]),
{
    lemma_first_length(header, at, 0);
}

proof fn lemma_first_length(header: Seq<Seq<char>>, at: int, from: int)
    requires
        0 <= from <= at < header.len(),
        announced_length(header[at]) is Some,
        forall|i: int| 0 <= i < at ==> announced_length(#[trigger] header[i]) is None,
    ensures
        body_length(header, from) == announced_length(header[at]),
    decreases at - from,
{
    if from < at {
        assert(announced_length(header[from]) is None);
        lemma_first_length(header, at, from + 1);
    }
}

proof fn lemma_no_blank_before(buf: Seq<u8>, from: int)
    requires
        0 <= from,
    ensures
        first_blank(buf, from) matches Some(at) ==> from <= at && at + 4 <= buf.len()
            && buf.subrange(at, at + 4) == seq![13u8, 10u8, 13u8, 10u8],
        forall|j: int|
            from <= j && j + 4 <= buf.len() && (first_blank(buf, from) matches Some(at) ==> j
                < at) ==> #[trigger] buf.subrange(j, j + 4) != seq![13u8, 10u8, 13u8, 10u8],
    decreases buf.len() - from,
{
    let mark = seq![13u8, 10u8, 13u8, 10u8];
    if from + 4 <= buf.len() {
        if blank_at(buf, from) {
            assert(buf.subrange(from, from + 4) =~= mark);
        } else {
            lemma_no_blank_before(buf, from + 1);
            let here = buf.subrange(from, from + 4);
            if here == mark {
                assert(here[0] == 13 && here[1] == 10 && here[2] == 13 && here[3] == 10);
                assert(buf[from] == 13 && buf[from + 1] == 10 && buf[from + 2] == 13);
                assert(buf[from + 3] == 10);
            }
        }
    }
}

/// The head of a reply ends at the first place where a carriage return, a line feed, a
/// carriage return and a line feed stand, and where they stand nowhere it has not ended.
pub proof fn law_head_ends_at_first_empty_line(buf: Seq<u8>)
    ensures
        first_blank(buf, 0) matches Some(at) ==> 0 <= at && at + 4 <= buf.len() && buf.subrange(
            at,
            at + 4,
        ) == seq![13u8, 10u8, 13u8, 10u8],
        forall|j: int|
            0 <= j && j + 4 <= buf.len() && (first_blank(buf, 0) matches Some(at) ==> j < at)
                ==> #[trigger] buf.subrange(j, j + 4) != seq![13u8, 10u8, 13u8, 10u8],
{
    lemma_no_blank_before(buf, 0);
}

/// The status stands on the first line of the head, without the carriage return at
/// its end.
pub proof fn law_status_is_the_first_line(status: Seq<char>, rest: Seq<char>)
    requires
        !status.contains('\n'),
    ensures
        status_line(status + seq!['\r', '\n'] + rest) == status,
        status_line(Seq::empty()) == Seq::<char>::empty(),
{
    let line = status + seq!['\r'];
    let text = status + seq!['\r', '\n'] + rest;
    assert(text =~= line + seq!['\n'] + rest);
    assert(!line.contains('\n')) by {
        assert forall|k: int| 0 <= k < line.len() implies line[k] != '\n' by {
            if k < status.len() {
                assert(status.contains(status[k]));
            }
        }
    }
    law_split_at_first(line, '\n', rest);
    lemma_split_from_nonempty(rest, seq!['\n'], 0);
    let pieces = split(text, seq!['\n']);
    assert(pieces[0] == line && pieces.len() >= 2);
    assert(pieces.drop_last()[0] == line);
    assert(line.drop_last() =~= status);
    assert(lines(text)[0] == status);
    let none = Seq::<char>::empty();
    law_split_at_first(none, '\n', none);
    assert(split(none, seq!['\n']) =~= seq![none]);
    assert(lines(none).len() == 0);
}

/// A reply with another status than 200 is of no use, and what is said of it names what
/// was asked for, who was asked and the status.
pub proof fn law_failed_status_is_told(
    buf: Seq<u8>,
    ended: bool,
    path: Seq<char>,
    addr: Seq<char>,
    head: Seq<u8>,
)
    requires
        first_blank(buf, 0) == Some(head.len() as int),
        head == buf.take(head.len() as int),
        !is_success(status_line(decoded(head))),
    ensures
        http_step(buf, ended, path, addr) == HttpStepView::Failed(
            ErrorView::Transport(
                "HTTP "@ + path + " from Chrome at "@ + addr + ": "@ + status_line(decoded(head)),
            ),
        ),
{
}

} // verus!

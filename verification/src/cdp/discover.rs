//! Finding a running browser's debugging endpoint.
//!
//! A browser started with `--remote-debugging-port=N` answers plain HTTP:
//! `GET /json/version` tells the browser's own WebSocket URL, `GET /json` lists
//! its targets, each with a WebSocket URL.

use vstd::prelude::*;

use crate::decimal::{decimal, digits, parse_up_to, parsed};
use crate::error::{Error, ErrorView};
use crate::json::{json_of_text, member_text, parse_json, Json, JsonView};
use crate::text::{
    chars_of, concat, contains, find, find_chars, is_white, law_split_at_first, law_split_at_last,
    law_trim, lemma_find_from, lemma_find_from_advance, lemma_split_from_nonempty, lines, lines_of,
    occurs_at, runs, runs_from, slice, split, split_on, string_views, trim, trimmed, views, words,
};
use crate::unicode::{decode, decoded};

verus! {

/// The process that holds a profile, as the target of its lock says: what follows
/// the last hyphen.
pub open spec fn lock_owner(target: Seq<char>) -> Option<nat> {
    parsed(split(target, seq!['-']).last(), u32::MAX as nat)
}

/// The process that holds a profile, as the target of its lock says.
pub fn read_singleton_lock(target: &str) -> (r: Option<u32>)
    ensures
        match r {
            Some(pid) => lock_owner(target@) == Some(pid as nat),
            None => lock_owner(target@) is None,
        },
{
    proof {
        reveal_strlit("-");
        assert("-"@ =~= seq!['-']);
        lemma_split_from_nonempty(target@, seq!['-'], 0);
    }
    let pieces = split_on(target, "-");
    assert(views(pieces@).len() == pieces@.len());
    let last = pieces[pieces.len() - 1];
    assert(last@ == split(target@, seq!['-']).last());
    match parse_up_to(last, u32::MAX as u64) {
        Some(pid) => Some(pid as u32),
        None => None,
    }
}

/// The port that a browser says it listens on: the first line of what it wrote.
pub open spec fn active_port(contents: Seq<char>) -> Option<nat> {
    if lines(contents).len() > 0 {
        parsed(trim(lines(contents)[0]), u16::MAX as nat)
    } else {
        None
    }
}

/// The port that a browser says it listens on.
pub fn read_devtools_active_port(contents: &str) -> (r: Option<u16>)
    ensures
        match r {
            Some(port) => active_port(contents@) == Some(port as nat),
            None => active_port(contents@) is None,
        },
{
    let all = lines_of(contents);
    assert(views(all@).len() == all@.len());
    if all.len() == 0 {
        return None;
    }
    assert(all@[0]@ == lines(contents@)[0]);
    match parse_up_to(trimmed(all[0]), u16::MAX as u64) {
        Some(port) => Some(port as u16),
        None => None,
    }
}

/// The texts of some byte strings.
pub open spec fn decoded_all(pieces: Seq<Seq<u8>>) -> Seq<Seq<char>> {
    pieces.map_values(|piece: Seq<u8>| decoded(piece))
}

fn piece_of(raw: &Vec<u8>, from: usize, to: usize) -> (out: String)
    requires
        from <= to <= raw@.len(),
    ensures
        out@ == decoded(raw@.subrange(from as int, to as int)),
{
    let mut piece: Vec<u8> = Vec::new();
    let mut i: usize = from;
    while i < to
        invariant
            from <= i <= to <= raw@.len(),
            piece@ == raw@.subrange(from as int, i as int),
        decreases to - i,
    {
        piece.push(raw[i]);
        i = i + 1;
    }
    decode(&piece)
}

/// A process's arguments, out of the bytes in which each ends with a NUL.
pub fn read_process_argv(raw: &Vec<u8>) -> (argv: Vec<String>)
    ensures
        string_views(argv@) == decoded_all(runs(raw@, |b: u8| b == 0)),
{
    let ghost sep = |b: u8| b == 0;
    let ghost whole = decoded_all(runs(raw@, sep));
    let mut argv: Vec<String> = Vec::new();
    let mut start: usize = 0;
    let mut at: usize = 0;
    assert(string_views(argv@) + decoded_all(runs_from(raw@, sep, 0, 0)) =~= whole);
    while at < raw.len()
        invariant
            start <= at <= raw@.len(),
            sep == (|b: u8| b == 0),
            whole == decoded_all(runs(raw@, sep)),
            string_views(argv@) + decoded_all(runs_from(raw@, sep, start as int, at as int))
                == whole,
        decreases raw@.len() - at,
    {
        let ghost before = string_views(argv@);
        if raw[at] == 0 {
            let ghost rest = runs_from(raw@, sep, at + 1, at + 1);
            if start < at {
                let piece = piece_of(raw, start, at);
                argv.push(piece);
                assert(string_views(argv@) =~= before.push(piece@));
                assert(before + decoded_all(
                    seq![raw@.subrange(start as int, at as int)] + rest,
                ) =~= before.push(piece@) + decoded_all(rest));
            } else {
                assert(Seq::<Seq<u8>>::empty() + rest =~= rest);
            }
            start = at + 1;
        }
        at = at + 1;
    }
    let ghost before = string_views(argv@);
    if start < at {
        let piece = piece_of(raw, start, at);
        argv.push(piece);
        assert(string_views(argv@) =~= before + decoded_all(
            seq![raw@.subrange(start as int, at as int)],
        ));
    } else {
        assert(before + decoded_all(Seq::<Seq<u8>>::empty()) =~= before);
    }
    argv
}

/// A process's arguments, out of what a listing of processes printed.
pub fn listed_argv(printed: &Vec<u8>) -> (argv: Vec<String>)
    ensures
        string_views(argv@) == runs(decoded(printed@), |c: char| is_white(c)),
{
    let text = decode(printed);
    words(text.as_str())
}

/// One browsing target: a tab, a frame, a worker.
#[derive(Debug)]
pub struct PageTarget {
    /// The target's id.
    pub id: String,
    /// Its title.
    pub title: String,
    /// Its kind, such as `page`, `iframe` or `worker`.
    pub kind: String,
    /// The URL that is loaded in it.
    pub url: String,
    /// Its own WebSocket URL.
    pub web_socket_debugger_url: String,
}

/// The value behind a `PageTarget`.
pub struct PageTargetView {
    pub id: Seq<char>,
    pub title: Seq<char>,
    pub kind: Seq<char>,
    pub url: Seq<char>,
    pub web_socket_debugger_url: Seq<char>,
}

impl View for PageTarget {
    type V = PageTargetView;

    open spec fn view(&self) -> PageTargetView {
        PageTargetView {
            id: self.id@,
            title: self.title@,
            kind: self.kind@,
            url: self.url@,
            web_socket_debugger_url: self.web_socket_debugger_url@,
        }
    }
}

/// What follows the scheme in a URL: all behind the first `://`.
pub open spec fn after_scheme(raw: Seq<char>) -> Seq<char> {
    match find(raw, "://"@) {
        Some(at) => raw.skip(at + 3),
        None => raw,
    }
}

/// The path in a URL, from its slash on.
pub open spec fn url_path(raw: Seq<char>) -> Seq<char> {
    let rest = after_scheme(raw);
    match find(rest, seq!['/']) {
        Some(at) => rest.skip(at),
        None => Seq::empty(),
    }
}

/// The host and port to connect to.
pub open spec fn authority(host: Seq<char>, port: u16) -> Seq<char> {
    host + ":"@ + digits(port as nat)
}

/// The WebSocket URL with the path of `raw` at the given host and port.
pub open spec fn rewritten(raw: Seq<char>, host: Seq<char>, port: u16) -> Seq<char> {
    "ws://"@ + authority(host, port) + url_path(raw)
}

/// The WebSocket URL with the path of `raw` at the given host and port.
///
/// A browser builds its URLs from the request's `Host` header, not from where it
/// listens.
pub fn rewrite_ws_url_host(raw: &str, host: &str, port: u16) -> (out: String)
    ensures
        out@ == rewritten(raw@, host@, port),
{
    proof {
        reveal_strlit("://");
        reveal_strlit("/");
        assert("/"@ =~= seq!['/']);
    }
    let whole = chars_of(raw);
    let length: usize = whole.len();
    let mark = chars_of("://");
    let start: usize = match find_chars(&whole, &mark, 0) {
        Some(at) => {
            proof {
                lemma_find_from(raw@, "://"@, 0);
            }
            at + 3
        },
        None => 0,
    };
    let rest = slice(&whole, start, length);
    assert(rest@ =~= after_scheme(raw@));
    let chars = chars_of(rest.as_str());
    let slash = chars_of("/");
    let mut out = concat("ws://", host);
    out.append(":");
    out.append(decimal(port as u64).as_str());
    assert(out@ =~= "ws://"@ + authority(host@, port));
    match find_chars(&chars, &slash, 0) {
        Some(at) => {
            proof {
                lemma_find_from(rest@, seq!['/'], 0);
            }
            let path = slice(&chars, at, chars.len());
            assert(path@ =~= rest@.skip(at as int));
            out.append(path.as_str());
        },
        None => {
            assert(out@ + Seq::<char>::empty() =~= out@);
        },
    }
    out
}

/// No slash stands in `text`.
pub open spec fn without_slash(text: Seq<char>) -> bool {
    forall|i: int| 0 <= i < text.len() ==> #[trigger] text[i] != '/'
}

/// A path begins with a slash, where there is one.
proof fn lemma_url_path(raw: Seq<char>)
    ensures
        url_path(raw).len() > 0 ==> url_path(raw)[0] == '/',
{
    let rest = after_scheme(raw);
    lemma_find_from(rest, seq!['/'], 0);
    if let Some(at) = find(rest, seq!['/']) {
        assert(rest.subrange(at, at + 1)[0] == '/');
    }
}

/// Behind a name without a slash, the path is all from the first slash on.
proof fn lemma_path_after(name: Seq<char>, path: Seq<char>)
    requires
        without_slash(name),
        path.len() > 0 ==> path[0] == '/',
    ensures
        match find(name + path, seq!['/']) {
            Some(at) => (name + path).skip(at) == path,
            None => path.len() == 0,
        },
{
    let rest = name + path;
    lemma_find_from(rest, seq!['/'], 0);
    if path.len() > 0 {
        assert(rest.subrange(name.len() as int, name.len() as int + 1) =~= seq!['/']);
        assert(occurs_at(rest, seq!['/'], name.len() as int));
        let at = find(rest, seq!['/'])->0;
        assert(rest.subrange(at, at + 1)[0] == '/');
        assert(rest.skip(at) =~= path);
    } else if find(rest, seq!['/']) is Some {
        let at = find(rest, seq!['/'])->0;
        assert(rest.subrange(at, at + 1)[0] == '/');
    }
}

/// The first `://` of a URL is the one behind its scheme.
proof fn lemma_after_scheme(scheme: Seq<char>, rest: Seq<char>)
    requires
        !scheme.contains(':'),
    ensures
        after_scheme(scheme + "://"@ + rest) == rest,
{
    reveal_strlit("://");
    let sep = "://"@;
    let text = scheme + sep + rest;
    let n = scheme.len() as int;
    assert forall|k: int| 0 <= k < n implies !occurs_at(text, sep, k) by {
        if occurs_at(text, sep, k) {
            assert(text.subrange(k, k + 3)[0] == ':');
            assert(scheme[k] == ':');
        }
    }
    lemma_find_from_advance(text, sep, 0, n);
    assert(text.subrange(n, n + 3) =~= sep);
    assert(occurs_at(text, sep, n));
    assert(text.skip(n + 3) =~= rest);
}

/// The path that a URL came with is kept as it is, whatever stands in it, and all
/// before it is rebuilt.
pub proof fn law_path_is_kept_whole(
    scheme: Seq<char>,
    name: Seq<char>,
    path: Seq<char>,
    host: Seq<char>,
    port: u16,
)
    requires
        !scheme.contains(':'),
        without_slash(name),
        path.len() > 0 ==> path[0] == '/',
    ensures
        rewritten(scheme + "://"@ + name + path, host, port) == "ws://"@ + authority(host, port)
            + path,
{
    let raw = scheme + "://"@ + name + path;
    assert(raw =~= scheme + "://"@ + (name + path));
    lemma_after_scheme(scheme, name + path);
    lemma_path_after(name, path);
    assert(url_path(raw) =~= path);
}

/// A rewritten URL names the host and port and keeps the path.
pub proof fn law_rewritten_keeps_path(raw: Seq<char>, host: Seq<char>, port: u16)
    requires
        without_slash(host),
    ensures
        ("ws://"@ + authority(host, port)).is_prefix_of(rewritten(raw, host, port)),
        after_scheme(rewritten(raw, host, port)) == authority(host, port) + url_path(raw),
        url_path(rewritten(raw, host, port)) == url_path(raw),
{
    reveal_strlit("://");
    reveal_strlit("ws://");
    reveal_strlit("ws");
    reveal_strlit(":");
    let name = authority(host, port);
    let path = url_path(raw);
    let text = rewritten(raw, host, port);
    let number = digits(port as nat);
    lemma_url_path(raw);
    crate::decimal::lemma_digits(port as nat);
    assert forall|i: int| 0 <= i < name.len() implies #[trigger] name[i] != '/' by {
        if i > host.len() {
            assert(name[i] == number[i - host.len() - 1]);
        }
    }
    assert(text =~= "ws"@ + "://"@ + (name + path));
    lemma_after_scheme("ws"@, name + path);
    lemma_path_after(name, path);
    assert(url_path(text) =~= path);
}

/// Rewriting a URL a second time changes nothing.
pub proof fn law_rewriting_is_idempotent(raw: Seq<char>, host: Seq<char>, port: u16)
    requires
        without_slash(host),
    ensures
        rewritten(rewritten(raw, host, port), host, port) == rewritten(raw, host, port),
{
    law_rewritten_keeps_path(raw, host, port);
}

/// The browser's WebSocket URL, given what its reply to `/json/version` reads as.
pub open spec fn browser_url(
    read: Result<JsonView, Seq<char>>,
    host: Seq<char>,
    port: u16,
) -> Result<Seq<char>, ErrorView> {
    match read {
        Ok(json) => match member_text(json, "webSocketDebuggerUrl"@) {
            Some(raw) => Ok(rewritten(raw, host, port)),
            None => Err(
                ErrorView::Transport("No webSocketDebuggerUrl in /json/version"@),
            ),
        },
        Err(cause) => Err(
            ErrorView::Transport("Invalid JSON from /json/version: "@ + cause),
        ),
    }
}

/// The browser's WebSocket URL, given what its reply to `/json/version` reads as.
pub fn browser_ws(read: Result<Json, String>, host: &str, port: u16) -> (r: Result<String, Error>)
    ensures
        crate::cdp::transport::result_view(r) == browser_url(
            crate::json::read_view(read),
            host@,
            port,
        ),
{
    match read {
        Ok(json) => match json.member_string("webSocketDebuggerUrl") {
            Some(raw) => Ok(rewrite_ws_url_host(raw.as_str(), host, port)),
            None => Err(Error::transport("No webSocketDebuggerUrl in /json/version")),
        },
        Err(cause) => Err(
            Error::Transport(concat("Invalid JSON from /json/version: ", cause.as_str())),
        ),
    }
}

/// The browser's WebSocket URL, out of its reply to `/json/version`.
pub fn discover_browser_ws(body: &str, host: &str, port: u16) -> (r: Result<String, Error>)
    ensures
        crate::cdp::transport::result_view(r) == browser_url(json_of_text(body@), host@, port),
{
    browser_ws(parse_json(body), host, port)
}

/// A target with its WebSocket URL at the given host and port.
pub open spec fn relocated(target: PageTargetView, host: Seq<char>, port: u16) -> PageTargetView {
    PageTargetView {
        web_socket_debugger_url: rewritten(target.web_socket_debugger_url, host, port),
        ..target
    }
}

/// The views of targets.
pub open spec fn target_views(targets: Seq<PageTarget>) -> Seq<PageTargetView> {
    targets.map_values(|t: PageTarget| t@)
}

/// The targets that a browser listed, with their WebSocket URLs at the host and
/// port where it was asked.
pub fn discover_pages(targets: Vec<PageTarget>, host: &str, port: u16) -> (out: Vec<PageTarget>)
    ensures
        target_views(out@) == target_views(targets@).map_values(
            |t: PageTargetView| relocated(t, host@, port),
        ),
{
    let mut rest = targets;
    let mut out: Vec<PageTarget> = Vec::new();
    let mut i: usize = 0;
    let n: usize = rest.len();
    while i < n
        invariant
            i <= n,
            n == targets@.len(),
            rest@ == targets@.skip(i as int),
            out@.len() == i,
            forall|j: int|
                0 <= j < i ==> (#[trigger] out@[j])@ == relocated(targets@[j]@, host@, port),
        decreases n - i,
    {
        let target = rest.remove(0);
        assert(target == targets@[i as int]);
        let url = rewrite_ws_url_host(target.web_socket_debugger_url.as_str(), host, port);
        out.push(
            PageTarget {
                id: target.id,
                title: target.title,
                kind: target.kind,
                url: target.url,
                web_socket_debugger_url: url,
            },
        );
        i = i + 1;
    }
    assert(target_views(out@) =~= target_views(targets@).map_values(
        |t: PageTargetView| relocated(t, host@, port),
    ));
    out
}

/// The error of a target list that is none.
pub fn invalid_pages(cause: &str) -> (e: Error)
    ensures
        e@ == ErrorView::Transport("Invalid JSON from /json: "@ + cause@),
{
    Error::Transport(concat("Invalid JSON from /json: ", cause))
}

/// The first port from `start` to `end` where a browser answers, and its
/// WebSocket URL. `probe` asks at one port.
pub fn auto_connect<F: Fn(u16) -> Option<String>>(start: u16, end: u16, probe: F) -> (r: Option<
    (u16, String),
>)
    requires
        forall|port: u16| start <= port <= end ==> #[trigger] probe.requires((port,)),
    ensures
        match r {
            Some((port, url)) => {
                &&& start <= port <= end
                &&& probe.ensures((port,), Some(url))
                &&& forall|p: u16| start <= p < port ==> #[trigger] probe.ensures((p,), None)
            },
            None => forall|p: u16| start <= p <= end ==> #[trigger] probe.ensures((p,), None),
        },
{
    if start > end {
        return None;
    }
    let mut port: u16 = start;
    loop
        invariant
            start <= port <= end,
            forall|p: u16| start <= p <= end ==> #[trigger] probe.requires((p,)),
            forall|p: u16| start <= p < port ==> #[trigger] probe.ensures((p,), None),
        decreases end - port,
    {
        match probe(port) {
            Some(url) => {
                return Some((port, url));
            },
            None => {},
        }
        if port == end {
            return None;
        }
        port = port + 1;
    }
}

/// A lock's target is a host's name, a hyphen and the number of the process that holds
/// the profile, whatever hyphens stand in the name.
pub proof fn law_lock_names_its_owner(host: Seq<char>, pid: u32)
    ensures
        lock_owner(host + seq!['-'] + digits(pid as nat)) == Some(pid as nat),
{
    let number = digits(pid as nat);
    crate::decimal::lemma_digits(pid as nat);
    assert(!number.contains('-')) by {
        if number.contains('-') {
            let k = choose|k: int| 0 <= k < number.len() && number[k] == '-';
            assert(crate::decimal::is_digit(number[k]));
        }
    }
    law_split_at_last(host, '-', number);
    crate::decimal::law_decimal_round_trip(pid as nat, u32::MAX as nat);
}

/// What a browser wrote begins with its port, on a line of its own.
pub proof fn law_port_is_the_first_line(port: u16, rest: Seq<char>)
    ensures
        active_port(digits(port as nat) + seq!['\n'] + rest) == Some(port as nat),
{
    let number = digits(port as nat);
    crate::decimal::lemma_digits(port as nat);
    assert forall|k: int| 0 <= k < number.len() implies {
        let c = #[trigger] number[k];
        c != '\n' && c != '\r' && !is_white(c)
    } by {
        assert(crate::decimal::is_digit(number[k]));
    }
    assert(!number.contains('\n'));
    let text = number + seq!['\n'] + rest;
    law_split_at_first(number, '\n', rest);
    lemma_split_from_nonempty(rest, seq!['\n'], 0);
    let pieces = split(text, seq!['\n']);
    assert(pieces[0] == number);
    assert(pieces.len() >= 2);
    assert(pieces.drop_last()[0] == number);
    assert(lines(text)[0] == number);
    let none = Seq::<char>::empty();
    assert(none + number + none =~= number);
    law_trim(none, number, none);
    crate::decimal::law_decimal_round_trip(port as nat, u16::MAX as nat);
}

/// A target keeps its id, its title, its kind and its URL; only where it is reached
/// changes, and there only the host and the port.
pub proof fn law_target_keeps_the_rest(target: PageTargetView, host: Seq<char>, port: u16)
    ensures
        relocated(target, host, port).id == target.id,
        relocated(target, host, port).title == target.title,
        relocated(target, host, port).kind == target.kind,
        relocated(target, host, port).url == target.url,
        ("ws://"@ + host + ":"@ + digits(port as nat)).is_prefix_of(
            relocated(target, host, port).web_socket_debugger_url,
        ),
{
    let start = "ws://"@ + host + ":"@ + digits(port as nat);
    let whole = relocated(target, host, port).web_socket_debugger_url;
    assert(whole =~= start + url_path(target.web_socket_debugger_url));
    assert(whole.subrange(0, start.len() as int) =~= start);
}

/// Where nothing was written there is no port.
pub proof fn law_nothing_written_is_no_port()
    ensures
        active_port(Seq::empty()) is None,
{
    let none = Seq::<char>::empty();
    law_split_at_first(none, '\n', none);
    assert(split(none, seq!['\n']) =~= seq![none]);
    assert(lines(none).len() == 0);
}

} // verus!

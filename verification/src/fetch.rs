//! Requests made by a page itself.

use vstd::prelude::*;

use crate::error::Error;
use crate::json::{
    add_json, add_number, add_optional_text, add_text, array, distinct_keys, has_key, json_value,
    keys, member_text, member_value, member_views, moderate, number_text, object, object_text,
    optional_text, quoted, shallow_text, sorted_text, sound, sound_items, text_of_json, JsonView,
};
use crate::text::{concat3, contains, occurs_at, opt_view, string_views};
use crate::textmap::{holds_entries, quoted_values, TextMap};

verus! {

/// A request to make.
#[derive(Debug)]
pub struct BrowserFetchRequest {
    /// The URL.
    pub url: String,
    /// The method, or `GET`.
    pub method: Option<String>,
    /// The headers.
    pub headers: TextMap,
    /// The body.
    pub body: Option<String>,
    /// The credentials mode.
    pub credentials: Option<String>,
    /// The redirect mode.
    pub redirect: Option<String>,
    /// How many characters of the response's body to return at most.
    pub max_body_chars: Option<usize>,
}

/// The value behind a `BrowserFetchRequest`.
pub struct BrowserFetchRequestView {
    pub url: Seq<char>,
    pub method: Option<Seq<char>>,
    pub headers: Seq<(Seq<char>, Seq<char>)>,
    pub body: Option<Seq<char>>,
    pub credentials: Option<Seq<char>>,
    pub redirect: Option<Seq<char>>,
    pub max_body_chars: Option<usize>,
}

impl View for BrowserFetchRequest {
    type V = BrowserFetchRequestView;

    open spec fn view(&self) -> BrowserFetchRequestView {
        BrowserFetchRequestView {
            url: self.url@,
            method: opt_view(self.method),
            headers: self.headers@,
            body: opt_view(self.body),
            credentials: opt_view(self.credentials),
            redirect: opt_view(self.redirect),
            max_body_chars: self.max_body_chars,
        }
    }
}

impl BrowserFetchRequest {
    /// A plain request for a URL.
    pub fn get(url: &str) -> (r: BrowserFetchRequest)
        ensures
            r@ == (BrowserFetchRequestView {
                url: url@,
                method: None,
                headers: Seq::empty(),
                body: None,
                credentials: None,
                redirect: None,
                max_body_chars: None,
            }),
    {
        BrowserFetchRequest {
            url: url.to_string(),
            method: None,
            headers: TextMap::new(),
            body: None,
            credentials: None,
            redirect: None,
            max_body_chars: None,
        }
    }
}

/// A response.
#[derive(Debug)]
pub struct BrowserFetchResponse {
    /// The URL in the end.
    pub url: String,
    /// The status code.
    pub status: u16,
    /// The status text.
    pub status_text: String,
    /// Whether the status says that all is well.
    pub ok: bool,
    /// The headers.
    pub headers: TextMap,
    /// The body, or the beginning of it.
    pub body: String,
    /// Whether the body was cut.
    pub truncated: bool,
}

/// What one of several requests came to.
#[derive(Debug)]
pub struct BrowserFetchOutcome {
    /// The URL that was asked for.
    pub url: String,
    /// The response, where there is one.
    pub response: Option<BrowserFetchResponse>,
    /// The error, where there is one.
    pub error: Option<String>,
}

/// The member for headers, where there are any.
pub open spec fn optional_headers(headers: Seq<(Seq<char>, Seq<char>)>) -> Seq<
    (Seq<char>, Seq<char>),
> {
    if headers.len() > 0 {
        seq![("headers"@, sorted_text(quoted_values(headers))->Ok_0)]
    } else {
        Seq::empty()
    }
}

/// The member for a limit, where there is one.
pub open spec fn optional_limit(limit: Option<usize>) -> Seq<(Seq<char>, Seq<char>)> {
    match limit {
        Some(n) => seq![("maxBodyChars"@, number_text(n as u64))],
        None => Seq::empty(),
    }
}

/// The members of a request. What is not given is left out.
pub open spec fn request_members(r: BrowserFetchRequestView) -> Seq<(Seq<char>, Seq<char>)> {
    seq![("url"@, quoted(r.url))] + optional_text("method"@, r.method) + optional_headers(r.headers)
        + optional_text("body"@, r.body) + optional_text("credentials"@, r.credentials)
        + optional_text("redirect"@, r.redirect) + optional_limit(r.max_body_chars)
}

/// `text` is JSON, and what a script reads from it is the request, each part in its
/// place.
pub open spec fn tells(text: Seq<char>, r: BrowserFetchRequestView) -> bool {
    &&& json_value(text) matches Some(back)
    &&& back matches JsonView::Object(read) && keys(read) == keys(request_members(r))
    &&& member_text(back, "url"@) == Some(r.url)
    &&& member_text(back, "method"@) == r.method
    &&& r.headers.len() > 0 && distinct_keys(r.headers) ==> (member_value(
        back,
        "headers"@,
    ) matches Some(h) && holds_entries(h, r.headers))
    &&& r.headers.len() == 0 ==> back.member("headers"@) is None
    &&& member_text(back, "body"@) == r.body
    &&& member_text(back, "credentials"@) == r.credentials
    &&& member_text(back, "redirect"@) == r.redirect
    &&& match r.max_body_chars {
        Some(n) => member_value(back, "maxBodyChars"@) == Some(JsonView::Unsigned(n as u64)),
        None => back.member("maxBodyChars"@) is None,
    }
}

/// The place of a key among the members of a request.
spec fn rank(key: Seq<char>) -> int {
    if key.len() == 3 {
        0
    } else if key.len() == 6 {
        1
    } else if key.len() == 7 {
        2
    } else if key.len() == 4 {
        3
    } else if key.len() == 11 {
        4
    } else if key.len() == 8 {
        5
    } else {
        6
    }
}

/// The members stand in the order of their ranks, all below `bound`.
spec fn ranked(members: Seq<(Seq<char>, Seq<char>)>, bound: int) -> bool {
    &&& forall|i: int, j: int|
        0 <= i < j < members.len() ==> rank((#[trigger] members[i]).0) < rank(
            (#[trigger] members[j]).0,
        )
    &&& forall|i: int| 0 <= i < members.len() ==> rank((#[trigger] members[i]).0) < bound
}

proof fn lemma_ranked(
    members: Seq<(Seq<char>, Seq<char>)>,
    more: Seq<(Seq<char>, Seq<char>)>,
    at: int,
)
    requires
        ranked(members, at),
        more.len() <= 1,
        more.len() == 1 ==> rank(more[0].0) == at,
    ensures
        ranked(members + more, at + 1),
{
    let all = members + more;
    assert forall|i: int| 0 <= i < all.len() implies rank((#[trigger] all[i]).0) < at + 1 by {
        if i < members.len() {
            assert(all[i] == members[i]);
        } else {
            assert(all[i] == more[0]);
        }
    }
    assert forall|i: int, j: int| 0 <= i < j < all.len() implies rank((#[trigger] all[i]).0)
        < rank((#[trigger] all[j]).0) by {
        assert(all[i] == members[i]);
        if j < members.len() {
            assert(all[j] == members[j]);
        } else {
            assert(all[j] == more[0]);
        }
    }
}

/// What the key stands for is given.
spec fn given(r: BrowserFetchRequestView, key: Seq<char>) -> bool {
    &&& rank(key) == 1 ==> r.method is Some
    &&& rank(key) == 2 ==> r.headers.len() > 0
    &&& rank(key) == 3 ==> r.body is Some
    &&& rank(key) == 4 ==> r.credentials is Some
    &&& rank(key) == 5 ==> r.redirect is Some
    &&& rank(key) == 6 ==> r.max_body_chars is Some
}

spec fn all_given(r: BrowserFetchRequestView, members: Seq<(Seq<char>, Seq<char>)>) -> bool {
    forall|i: int| 0 <= i < members.len() ==> given(r, (#[trigger] members[i]).0)
}

proof fn lemma_given(
    r: BrowserFetchRequestView,
    members: Seq<(Seq<char>, Seq<char>)>,
    more: Seq<(Seq<char>, Seq<char>)>,
)
    requires
        all_given(r, members),
        all_given(r, more),
    ensures
        all_given(r, members + more),
{
    let all = members + more;
    assert forall|i: int| 0 <= i < all.len() implies given(r, (#[trigger] all[i]).0) by {
        if i < members.len() {
            assert(all[i] == members[i]);
        } else {
            assert(all[i] == more[i - members.len()]);
        }
    }
}

/// A key for what is not given does not occur.
proof fn lemma_left_out(
    r: BrowserFetchRequestView,
    members: Seq<(Seq<char>, Seq<char>)>,
    key: Seq<char>,
)
    requires
        all_given(r, members),
        !given(r, key),
    ensures
        !has_key(members, key),
{
}

/// The keys are distinct, and those of what is not given do not occur.
proof fn lemma_request_keys(r: BrowserFetchRequestView)
    ensures
        distinct_keys(request_members(r)),
        r.method is None ==> !has_key(request_members(r), "method"@),
        r.headers.len() == 0 ==> !has_key(request_members(r), "headers"@),
        r.body is None ==> !has_key(request_members(r), "body"@),
        r.credentials is None ==> !has_key(request_members(r), "credentials"@),
        r.redirect is None ==> !has_key(request_members(r), "redirect"@),
        r.max_body_chars is None ==> !has_key(request_members(r), "maxBodyChars"@),
{
    reveal_strlit("url");
    reveal_strlit("method");
    reveal_strlit("headers");
    reveal_strlit("body");
    reveal_strlit("credentials");
    reveal_strlit("redirect");
    reveal_strlit("maxBodyChars");
    let a = seq![("url"@, quoted(r.url))];
    assert(ranked(a, 1));
    let b = a + optional_text("method"@, r.method);
    lemma_ranked(a, optional_text("method"@, r.method), 1);
    let c = b + optional_headers(r.headers);
    lemma_ranked(b, optional_headers(r.headers), 2);
    let d = c + optional_text("body"@, r.body);
    lemma_ranked(c, optional_text("body"@, r.body), 3);
    let e = d + optional_text("credentials"@, r.credentials);
    lemma_ranked(d, optional_text("credentials"@, r.credentials), 4);
    let f = e + optional_text("redirect"@, r.redirect);
    lemma_ranked(e, optional_text("redirect"@, r.redirect), 5);
    lemma_ranked(f, optional_limit(r.max_body_chars), 6);
    lemma_given(r, a, optional_text("method"@, r.method));
    lemma_given(r, b, optional_headers(r.headers));
    lemma_given(r, c, optional_text("body"@, r.body));
    lemma_given(r, d, optional_text("credentials"@, r.credentials));
    lemma_given(r, e, optional_text("redirect"@, r.redirect));
    lemma_given(r, f, optional_limit(r.max_body_chars));
    let all = request_members(r);
    if r.method is None {
        lemma_left_out(r, all, "method"@);
    }
    if r.headers.len() == 0 {
        lemma_left_out(r, all, "headers"@);
    }
    if r.body is None {
        lemma_left_out(r, all, "body"@);
    }
    if r.credentials is None {
        lemma_left_out(r, all, "credentials"@);
    }
    if r.redirect is None {
        lemma_left_out(r, all, "redirect"@);
    }
    if r.max_body_chars is None {
        lemma_left_out(r, all, "maxBodyChars"@);
    }
}

/// The JSON text of a request.
pub open spec fn request_json(r: BrowserFetchRequestView) -> Seq<char> {
    object_text(request_members(r))
}

/// The JSON text of a request.
pub fn request_to_json(request: &BrowserFetchRequest) -> (out: String)
    ensures
        out@ == request_json(request@),
        shallow_text(out@, 2),
        tells(out@, request@),
{
    let ghost r = request@;
    let mut members: Vec<(String, String)> = Vec::new();
    assert(sound(member_views(members@), 1));
    add_text(&mut members, "url", request.url.as_str());
    assert(member_views(members@) =~= seq![("url"@, quoted(r.url))]);
    add_optional_text(&mut members, "method", &request.method);
    if request.headers.len() > 0 {
        let ghost before = member_views(members@);
        let headers = request.headers.to_json();
        assert(shallow_text(headers@, 1));
        let ghost h = headers@;
        add_json(&mut members, "headers", headers);
        assert(before.push(("headers"@, h)) =~= before + seq![("headers"@, h)]);
    } else {
        assert(member_views(members@) + Seq::empty() =~= member_views(members@));
    }
    add_optional_text(&mut members, "body", &request.body);
    add_optional_text(&mut members, "credentials", &request.credentials);
    add_optional_text(&mut members, "redirect", &request.redirect);
    match request.max_body_chars {
        Some(n) => {
            let ghost before = member_views(members@);
            add_number(&mut members, "maxBodyChars", n as u64);
            assert(before.push(("maxBodyChars"@, number_text(n as u64))) =~= before + seq![
                ("maxBodyChars"@, number_text(n as u64)),
            ]);
        },
        None => {
            assert(member_views(members@) + Seq::empty() =~= member_views(members@));
        },
    }
    let ghost all = request_members(r);
    assert(member_views(members@) =~= all);
    let text = match object(members) {
        Ok(text) => text,
        Err(message) => message,
    };
    proof {
        lemma_request_keys(r);
        let a = seq![("url"@, quoted(r.url))];
        let b = a + optional_text("method"@, r.method);
        let c = b + optional_headers(r.headers);
        let d = c + optional_text("body"@, r.body);
        let e = d + optional_text("credentials"@, r.credentials);
        let f = e + optional_text("redirect"@, r.redirect);
        assert(all == f + optional_limit(r.max_body_chars));
        assert(all[0] == ("url"@, quoted(r.url)));
        if r.method is Some {
            assert(all[a.len() as int] == ("method"@, quoted(r.method->0)));
        }
        if r.headers.len() > 0 {
            let h = sorted_text(quoted_values(r.headers))->Ok_0;
            assert(all[b.len() as int] == ("headers"@, h));
            assert(moderate(json_value(h)->0));
        }
        if r.body is Some {
            assert(all[c.len() as int] == ("body"@, quoted(r.body->0)));
        }
        if r.credentials is Some {
            assert(all[d.len() as int] == ("credentials"@, quoted(r.credentials->0)));
        }
        if r.redirect is Some {
            assert(all[e.len() as int] == ("redirect"@, quoted(r.redirect->0)));
        }
        if r.max_body_chars is Some {
            assert(all[f.len() as int] == (
                "maxBodyChars"@,
                number_text(r.max_body_chars->0 as u64),
            ));
        }
    }
    text
}

/// What stands before the request in a script that makes one.
pub const FETCH_HEAD: &'static str = r#"(async () => {
  const request = "#;

/// What stands behind the request in a script that makes one.
pub const FETCH_TAIL: &'static str = r#";
  const maxBodyChars = request.maxBodyChars ?? null;
  const init = {
    method: request.method ?? "GET",
    headers: request.headers ?? {},
    body: request.body ?? undefined,
    credentials: request.credentials ?? "same-origin",
    redirect: request.redirect ?? "follow"
  };
  const response = await fetch(request.url, init);
  const headers = Object.fromEntries(response.headers.entries());
  const text = await response.text();
  const truncated = maxBodyChars !== null && text.length > maxBodyChars;
  return {
    url: response.url,
    status: response.status,
    statusText: response.statusText,
    ok: response.ok,
    headers,
    body: truncated ? text.slice(0, maxBodyChars) : text,
    truncated
  };
})()"#;

/// What stands before the requests in a script that makes several.
pub const FETCH_MANY_HEAD: &'static str = r#"(async () => {
  const requests = "#;

/// What stands behind the requests in a script that makes several.
pub const FETCH_MANY_TAIL: &'static str = r#";
  const run = async (request) => {
    try {
      const maxBodyChars = request.maxBodyChars ?? null;
      const response = await fetch(request.url, {
        method: request.method ?? "GET",
        headers: request.headers ?? {},
        body: request.body ?? undefined,
        credentials: request.credentials ?? "same-origin",
        redirect: request.redirect ?? "follow"
      });
      const text = await response.text();
      const truncated = maxBodyChars !== null && text.length > maxBodyChars;
      return {
        url: request.url,
        response: {
          url: response.url,
          status: response.status,
          statusText: response.statusText,
          ok: response.ok,
          headers: Object.fromEntries(response.headers.entries()),
          body: truncated ? text.slice(0, maxBodyChars) : text,
          truncated
        }
      };
    } catch (error) {
      return {
        url: request.url,
        error: error instanceof Error ? error.message : String(error)
      };
    }
  };
  return Promise.all(requests.map(run));
})()"#;

/// A script that makes a request in the page.
pub fn fetch_script(request: &BrowserFetchRequest) -> (r: Result<String, Error>)
    ensures
        r matches Ok(script) && script@ == FETCH_HEAD@ + request_json(request@) + FETCH_TAIL@,
        tells(request_json(request@), request@),
{
    let json = request_to_json(request);
    Ok(concat3(FETCH_HEAD, json.as_str(), FETCH_TAIL))
}

/// The JSON text of several requests.
pub open spec fn requests_json(requests: Seq<BrowserFetchRequest>) -> Seq<char> {
    text_of_json(
        JsonView::Array(requests.map_values(|r: BrowserFetchRequest| request_json(r@))),
    )->Ok_0
}

/// `value` is an array, and what a script reads from its items are the requests.
pub open spec fn tells_all(value: Option<JsonView>, requests: Seq<BrowserFetchRequest>) -> bool {
    &&& value matches Some(JsonView::Array(items))
    &&& items.len() == requests.len()
    &&& forall|i: int| 0 <= i < items.len() ==> tells(#[trigger] items[i], requests[i]@)
}

/// A script that makes several requests in the page at once.
pub fn fetch_many_script(requests: &Vec<BrowserFetchRequest>) -> (r: Result<String, Error>)
    ensures
        r matches Ok(script) && script@ == FETCH_MANY_HEAD@ + requests_json(requests@)
            + FETCH_MANY_TAIL@,
        tells_all(json_value(requests_json(requests@)), requests@),
{
    let mut items: Vec<String> = Vec::new();
    while items.len() < requests.len()
        invariant
            items.len() <= requests.len(),
            forall|j: int|
                0 <= j < items.len() ==> (#[trigger] items@[j])@ == request_json(requests@[j]@),
            forall|j: int|
                0 <= j < items.len() ==> shallow_text((#[trigger] items@[j])@, 2) && tells(
                    items@[j]@,
                    requests@[j]@,
                ),
        decreases requests.len() - items.len(),
    {
        let item = request_to_json(&requests[items.len()]);
        items.push(item);
    }
    let ghost texts = string_views(items@);
    assert(texts =~= requests@.map_values(|r: BrowserFetchRequest| request_json(r@)));
    assert(sound_items(texts, 2)) by {
        assert forall|i: int| 0 <= i < texts.len() implies shallow_text(#[trigger] texts[i], 2) by {
            assert(shallow_text(items@[i]@, 2));
        }
    }
    let ghost written = items@;
    let text = match array(items) {
        Ok(text) => text,
        Err(message) => message,
    };
    proof {
        let read = json_value(text@)->0->Array_0;
        assert forall|i: int| 0 <= i < read.len() implies tells(#[trigger] read[i], requests@[i]@) by {
            assert(tells(written[i]@, requests@[i]@));
            assert(texts[i] == written[i]@);
        }
    }
    Ok(concat3(FETCH_MANY_HEAD, text.as_str(), FETCH_MANY_TAIL))
}

/// The script hands each part of a request to the browser's own `fetch`, with the usual
/// value where a part is missing, and cuts the response's body at the limit. A text is
/// not looked into until it is revealed, for which it is written out once more.
pub proof fn law_requests_are_made_as_asked()
    ensures
        contains(FETCH_TAIL@, r#"method: request.method ?? "GET","#@),
        contains(FETCH_TAIL@, r#"headers: request.headers ?? {},"#@),
        contains(FETCH_TAIL@, r#"body: request.body ?? undefined,"#@),
        contains(FETCH_TAIL@, r#"credentials: request.credentials ?? "same-origin","#@),
        contains(FETCH_TAIL@, r#"redirect: request.redirect ?? "follow""#@),
        contains(FETCH_TAIL@, r#"await fetch(request.url, init)"#@),
        contains(FETCH_TAIL@, r#"url: response.url,"#@),
        contains(FETCH_TAIL@, r#"status: response.status,"#@),
        contains(FETCH_TAIL@, r#"body: truncated ? text.slice(0, maxBodyChars) : text,"#@),
        contains(FETCH_TAIL@, r#"maxBodyChars !== null && text.length > maxBodyChars"#@),
{
    reveal_strlit(
        r#";
  const maxBodyChars = request.maxBodyChars ?? null;
  const init = {
    method: request.method ?? "GET",
    headers: request.headers ?? {},
    body: request.body ?? undefined,
    credentials: request.credentials ?? "same-origin",
    redirect: request.redirect ?? "follow"
  };
  const response = await fetch(request.url, init);
  const headers = Object.fromEntries(response.headers.entries());
  const text = await response.text();
  const truncated = maxBodyChars !== null && text.length > maxBodyChars;
  return {
    url: response.url,
    status: response.status,
    statusText: response.statusText,
    ok: response.ok,
    headers,
    body: truncated ? text.slice(0, maxBodyChars) : text,
    truncated
  };
})()"#,
    );
    let text = FETCH_TAIL@;
    reveal_strlit(r#"method: request.method ?? "GET","#);
    assert(text.subrange(76, 108) =~= r#"method: request.method ?? "GET","#@);
    assert(occurs_at(text, r#"method: request.method ?? "GET","#@, 76));
    reveal_strlit(r#"headers: request.headers ?? {},"#);
    assert(text.subrange(113, 144) =~= r#"headers: request.headers ?? {},"#@);
    assert(occurs_at(text, r#"headers: request.headers ?? {},"#@, 113));
    reveal_strlit(r#"body: request.body ?? undefined,"#);
    assert(text.subrange(149, 181) =~= r#"body: request.body ?? undefined,"#@);
    assert(occurs_at(text, r#"body: request.body ?? undefined,"#@, 149));
    reveal_strlit(r#"credentials: request.credentials ?? "same-origin","#);
    assert(text.subrange(186, 236) =~= r#"credentials: request.credentials ?? "same-origin","#@);
    assert(occurs_at(text, r#"credentials: request.credentials ?? "same-origin","#@, 186));
    reveal_strlit(r#"redirect: request.redirect ?? "follow""#);
    assert(text.subrange(241, 279) =~= r#"redirect: request.redirect ?? "follow""#@);
    assert(occurs_at(text, r#"redirect: request.redirect ?? "follow""#@, 241));
    reveal_strlit(r#"await fetch(request.url, init)"#);
    assert(text.subrange(304, 334) =~= r#"await fetch(request.url, init)"#@);
    assert(occurs_at(text, r#"await fetch(request.url, init)"#@, 304));
    reveal_strlit(r#"url: response.url,"#);
    assert(text.subrange(528, 546) =~= r#"url: response.url,"#@);
    assert(occurs_at(text, r#"url: response.url,"#@, 528));
    reveal_strlit(r#"status: response.status,"#);
    assert(text.subrange(551, 575) =~= r#"status: response.status,"#@);
    assert(occurs_at(text, r#"status: response.status,"#@, 551));
    reveal_strlit(r#"body: truncated ? text.slice(0, maxBodyChars) : text,"#);
    assert(text.subrange(651, 704) =~= r#"body: truncated ? text.slice(0, maxBodyChars) : text,"#@);
    assert(occurs_at(text, r#"body: truncated ? text.slice(0, maxBodyChars) : text,"#@, 651));
    reveal_strlit(r#"maxBodyChars !== null && text.length > maxBodyChars"#);
    assert(text.subrange(460, 511) =~= r#"maxBodyChars !== null && text.length > maxBodyChars"#@);
    assert(occurs_at(text, r#"maxBodyChars !== null && text.length > maxBodyChars"#@, 460));
}

/// The script hands each part of a request to the browser's own `fetch`, with the usual
/// value where a part is missing, and cuts the response's body at the limit. A text is
/// not looked into until it is revealed, for which it is written out once more.
pub proof fn law_many_requests_are_made_as_asked()
    ensures
        contains(FETCH_MANY_TAIL@, r#"method: request.method ?? "GET","#@),
        contains(FETCH_MANY_TAIL@, r#"headers: request.headers ?? {},"#@),
        contains(FETCH_MANY_TAIL@, r#"body: request.body ?? undefined,"#@),
        contains(FETCH_MANY_TAIL@, r#"credentials: request.credentials ?? "same-origin","#@),
        contains(FETCH_MANY_TAIL@, r#"redirect: request.redirect ?? "follow""#@),
        contains(FETCH_MANY_TAIL@, r#"await fetch(request.url, {"#@),
        contains(FETCH_MANY_TAIL@, r#"url: response.url,"#@),
        contains(FETCH_MANY_TAIL@, r#"status: response.status,"#@),
        contains(FETCH_MANY_TAIL@, r#"body: truncated ? text.slice(0, maxBodyChars) : text,"#@),
        contains(FETCH_MANY_TAIL@, r#"maxBodyChars !== null && text.length > maxBodyChars"#@),
        contains(FETCH_MANY_TAIL@, r#"Promise.all(requests.map(run))"#@),
{
    reveal_strlit(
        r#";
  const run = async (request) => {
    try {
      const maxBodyChars = request.maxBodyChars ?? null;
      const response = await fetch(request.url, {
        method: request.method ?? "GET",
        headers: request.headers ?? {},
        body: request.body ?? undefined,
        credentials: request.credentials ?? "same-origin",
        redirect: request.redirect ?? "follow"
      });
      const text = await response.text();
      const truncated = maxBodyChars !== null && text.length > maxBodyChars;
      return {
        url: request.url,
        response: {
          url: response.url,
          status: response.status,
          statusText: response.statusText,
          ok: response.ok,
          headers: Object.fromEntries(response.headers.entries()),
          body: truncated ? text.slice(0, maxBodyChars) : text,
          truncated
        }
      };
    } catch (error) {
      return {
        url: request.url,
        error: error instanceof Error ? error.message : String(error)
      };
    }
  };
  return Promise.all(requests.map(run));
})()"#,
    );
    let text = FETCH_MANY_TAIL@;
    reveal_strlit(r#"method: request.method ?? "GET","#);
    assert(text.subrange(162, 194) =~= r#"method: request.method ?? "GET","#@);
    assert(occurs_at(text, r#"method: request.method ?? "GET","#@, 162));
    reveal_strlit(r#"headers: request.headers ?? {},"#);
    assert(text.subrange(203, 234) =~= r#"headers: request.headers ?? {},"#@);
    assert(occurs_at(text, r#"headers: request.headers ?? {},"#@, 203));
    reveal_strlit(r#"body: request.body ?? undefined,"#);
    assert(text.subrange(243, 275) =~= r#"body: request.body ?? undefined,"#@);
    assert(occurs_at(text, r#"body: request.body ?? undefined,"#@, 243));
    reveal_strlit(r#"credentials: request.credentials ?? "same-origin","#);
    assert(text.subrange(284, 334) =~= r#"credentials: request.credentials ?? "same-origin","#@);
    assert(occurs_at(text, r#"credentials: request.credentials ?? "same-origin","#@, 284));
    reveal_strlit(r#"redirect: request.redirect ?? "follow""#);
    assert(text.subrange(343, 381) =~= r#"redirect: request.redirect ?? "follow""#@);
    assert(occurs_at(text, r#"redirect: request.redirect ?? "follow""#@, 343));
    reveal_strlit(r#"await fetch(request.url, {"#);
    assert(text.subrange(127, 153) =~= r#"await fetch(request.url, {"#@);
    assert(occurs_at(text, r#"await fetch(request.url, {"#@, 127));
    reveal_strlit(r#"url: response.url,"#);
    assert(text.subrange(582, 600) =~= r#"url: response.url,"#@);
    assert(occurs_at(text, r#"url: response.url,"#@, 582));
    reveal_strlit(r#"status: response.status,"#);
    assert(text.subrange(611, 635) =~= r#"status: response.status,"#@);
    assert(occurs_at(text, r#"status: response.status,"#@, 611));
    reveal_strlit(r#"body: truncated ? text.slice(0, maxBodyChars) : text,"#);
    assert(text.subrange(783, 836) =~= r#"body: truncated ? text.slice(0, maxBodyChars) : text,"#@);
    assert(occurs_at(text, r#"body: truncated ? text.slice(0, maxBodyChars) : text,"#@, 783));
    reveal_strlit(r#"maxBodyChars !== null && text.length > maxBodyChars"#);
    assert(text.subrange(458, 509) =~= r#"maxBodyChars !== null && text.length > maxBodyChars"#@);
    assert(occurs_at(text, r#"maxBodyChars !== null && text.length > maxBodyChars"#@, 458));
    reveal_strlit(r#"Promise.all(requests.map(run))"#);
    assert(text.subrange(1038, 1068) =~= r#"Promise.all(requests.map(run))"#@);
    assert(occurs_at(text, r#"Promise.all(requests.map(run))"#@, 1038));
}

/// What a script reads of a request: each part that is given, under its own name, and
/// nothing of a part that is not.
pub proof fn law_request_is_told(text: Seq<char>, r: BrowserFetchRequestView)
    requires
        tells(text, r),
        distinct_keys(r.headers),
    ensures
        json_value(text) matches Some(back) && {
            &&& member_text(back, "url"@) == Some(r.url)
            &&& member_text(back, "method"@) == r.method
            &&& member_text(back, "body"@) == r.body
            &&& member_text(back, "credentials"@) == r.credentials
            &&& member_text(back, "redirect"@) == r.redirect
            &&& back.member("headers"@) is Some <==> r.headers.len() >= 1
            &&& forall|i: int|
                0 <= i < r.headers.len() ==> (member_value(back, "headers"@) matches Some(h)
                    && member_text(h, (#[trigger] r.headers[i]).0) == Some(r.headers[i].1))
            &&& back.member("maxBodyChars"@) is Some <==> r.max_body_chars is Some
            &&& r.max_body_chars matches Some(n) ==> member_value(back, "maxBodyChars"@) == Some(
                JsonView::Unsigned(n as u64),
            )
        },
{
}

/// What a script reads of several requests: as many as there are, in their order.
pub proof fn law_requests_are_told(
    value: Option<JsonView>,
    requests: Seq<BrowserFetchRequest>,
    i: int,
)
    requires
        tells_all(value, requests),
        0 <= i < requests.len(),
    ensures
        value matches Some(JsonView::Array(items)) && {
            &&& items.len() == requests.len()
            &&& tells(items[i], requests[i]@)
        },
{
}

} // verus!

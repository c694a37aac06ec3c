//! What the browser's answers mean for a page.

use vstd::prelude::*;

use crate::decimal::{
    decimal, digits, is_digit, law_decimal_round_trip, law_other_texts_are_no_numbers, parse_up_to,
    parsed, signed_decimal, signed_digits,
};
use crate::encoding::{base64_bytes, decode_base64};
use crate::error::{Error, ErrorView};
use crate::json::{Json, JsonView};
use crate::text::{concat, concat3, contains, holds, opt_str_view, opt_view, same, string_views, views};

verus! {

/// The text of an HTTP error that still brought a page.
pub open spec fn is_http_failure(error: Seq<char>) -> bool {
    error == "net::ERR_HTTP_RESPONSE_CODE_FAILURE"@
}

/// Whether a page was loaded. An error status is no failure: the page is there.
pub fn check_nav_result(error_text: &Option<String>) -> (r: Result<(), Error>)
    ensures
        match r {
            Ok(_) => error_text matches Some(t) ==> is_http_failure(t@),
            Err(e) => error_text matches Some(t) && !is_http_failure(t@) && e@
                == ErrorView::Navigation(t@),
        },
        r is Ok <==> (error_text matches Some(t) ==> t@ == "net::ERR_HTTP_RESPONSE_CODE_FAILURE"@),
{
    match error_text {
        Some(error) => if same(error.as_str(), "net::ERR_HTTP_RESPONSE_CODE_FAILURE") {
            Ok(())
        } else {
            Err(Error::Navigation(error.clone()))
        },
        None => Ok(()),
    }
}

/// Whether the first page of a new tab was loaded.
pub fn check_first_load(error_text: Option<String>) -> (r: Result<(), Error>)
    ensures
        match r {
            Ok(_) => error_text is None,
            Err(e) => error_text matches Some(t) && e@ == ErrorView::Navigation(t@),
        },
{
    match error_text {
        Some(error) => Err(Error::Navigation(error)),
        None => Ok(()),
    }
}

/// The URL that cookies are set for: none on a blank page, since the browser would
/// refuse them without a word.
pub fn cookie_url(url: String) -> (r: Option<String>)
    ensures
        opt_view(r) == (if url@ == "about:blank"@ {
            None
        } else {
            Some(url@)
        }),
{
    if same(url.as_str(), "about:blank") {
        None
    } else {
        Some(url)
    }
}

/// Whether a cookie was set.
pub fn check_cookie_set(success: bool) -> (r: Result<(), Error>)
    ensures
        match r {
            Ok(_) => success,
            Err(e) => !success && e@ == ErrorView::CdpSimple("Failed to set cookie"@),
        },
{
    if success {
        Ok(())
    } else {
        Err(Error::CdpSimple("Failed to set cookie".to_string()))
    }
}

/// An exception that a script threw.
pub struct JsException {
    /// What it says.
    pub text: String,
    /// The line where it was thrown.
    pub line_number: i32,
    /// The column where it was thrown.
    pub column_number: i32,
}

/// What is said of an exception.
pub open spec fn exception_text(e: JsException) -> Seq<char> {
    "JavaScript error: "@ + e.text@ + " at "@ + signed_digits(e.line_number as int) + ":"@
        + signed_digits(e.column_number as int)
}

/// Whether a script ran without an exception.
pub fn check_js_result(exception: &Option<JsException>) -> (r: Result<(), Error>)
    ensures
        match r {
            Ok(_) => exception is None,
            Err(e) => exception matches Some(x) && e@ == ErrorView::CdpSimple(exception_text(*x)),
        },
{
    match exception {
        Some(x) => {
            let mut message = concat3("JavaScript error: ", x.text.as_str(), " at ");
            message.append(signed_decimal(x.line_number as i64).as_str());
            message.append(":");
            message.append(signed_decimal(x.column_number as i64).as_str());
            Err(Error::CdpSimple(message))
        },
        None => Ok(()),
    }
}

/// The value of an expression, as JSON text.
pub fn evaluated(exception: &Option<JsException>, value: Option<String>) -> (r: Result<
    String,
    Error,
>)
    ensures
        match r {
            Ok(text) => exception is None && opt_view(value) == Some(text@),
            Err(e) => match exception {
                Some(x) => e@ == ErrorView::CdpSimple(exception_text(*x)),
                None => value is None && e@ == ErrorView::CdpSimple(
                    "No value returned from evaluate"@,
                ),
            },
        },
{
    check_js_result(exception)?;
    match value {
        Some(text) => Ok(text),
        None => Err(Error::CdpSimple("No value returned from evaluate".to_string())),
    }
}

/// The element that a selector found; number zero stands for none.
pub fn found_node(node_id: i32, selector: &str) -> (r: Result<i32, Error>)
    ensures
        match r {
            Ok(id) => id == node_id && node_id != 0,
            Err(e) => node_id == 0 && e@ == ErrorView::ElementNotFound(selector@),
        },
{
    if node_id == 0 {
        Err(Error::ElementNotFound(selector.to_string()))
    } else {
        Ok(node_id)
    }
}

/// The elements that a selector found, without those that are none.
pub fn found_nodes(node_ids: &Vec<i32>) -> (r: Vec<i32>)
    ensures
        r@ == node_ids@.filter(|id: i32| id != 0),
{
    let ghost keep = |id: i32| id != 0;
    let mut r: Vec<i32> = Vec::new();
    let mut i: usize = 0;
    reveal(Seq::filter);
    while i < node_ids.len()
        invariant
            i <= node_ids@.len(),
            keep == (|id: i32| id != 0),
            r@ == node_ids@.take(i as int).filter(keep),
        decreases node_ids@.len() - i,
    {
        reveal(Seq::filter);
        assert(node_ids@.take(i + 1).drop_last() =~= node_ids@.take(i as int));
        if node_ids[i] != 0 {
            r.push(node_ids[i]);
        }
        i = i + 1;
    }
    assert(node_ids@.take(i as int) =~= node_ids@);
    r
}

/// The error of a search by text that found nothing.
pub open spec fn text_not_found(text: Seq<char>) -> ErrorView {
    ErrorView::ElementNotFound("text: "@ + text)
}

/// The object that a search by text found, given what the browser says of it.
pub fn text_search_object(
    exception: &Option<JsException>,
    subtype: Option<&str>,
    object_id: Option<String>,
    text: &str,
) -> (r: Result<String, Error>)
    ensures
        match r {
            Ok(id) => exception is None && opt_str_view(subtype) != Some("null"@) && opt_view(
                object_id,
            ) == Some(id@),
            Err(e) => match exception {
                Some(x) => e@ == ErrorView::CdpSimple(exception_text(*x)),
                None => (opt_str_view(subtype) == Some("null"@) || object_id is None) && e@
                    == text_not_found(text@),
            },
        },
{
    check_js_result(exception)?;
    let is_null = match subtype {
        Some(s) => same(s, "null"),
        None => false,
    };
    if is_null {
        return Err(Error::ElementNotFound(concat("text: ", text)));
    }
    match object_id {
        Some(id) => Ok(id),
        None => Err(Error::ElementNotFound(concat("text: ", text))),
    }
}

/// The element behind the object that a search by text found.
pub fn text_search_node(node_id: i32, text: &str) -> (r: Result<i32, Error>)
    ensures
        match r {
            Ok(id) => id == node_id && node_id != 0,
            Err(e) => node_id == 0 && e@ == text_not_found(text@),
        },
{
    if node_id == 0 {
        Err(Error::ElementNotFound(concat("text: ", text)))
    } else {
        Ok(node_id)
    }
}

/// A property of an object.
pub struct PropertyDescriptor {
    /// Its name.
    pub name: String,
    /// The object that it holds.
    pub object_id: Option<String>,
}

/// The property is an item of an array, and an object.
pub open spec fn is_object_item(p: PropertyDescriptor) -> bool {
    parsed(p.name@, usize::MAX as nat) is Some && p.object_id is Some
}

/// The objects that stand in an array, out of its properties. Its length and
/// what it inherits have names that are no numbers.
pub fn array_objects(properties: &Vec<PropertyDescriptor>) -> (r: Vec<String>)
    ensures
        string_views(r@) == properties@.filter(
            |p: PropertyDescriptor| is_object_item(p),
        ).map_values(|p: PropertyDescriptor| opt_view(p.object_id)->0),
{
    let ghost keep = |p: PropertyDescriptor| is_object_item(p);
    let ghost get = |p: PropertyDescriptor| opt_view(p.object_id)->0;
    let mut r: Vec<String> = Vec::new();
    let mut i: usize = 0;
    reveal(Seq::filter);
    assert(string_views(r@) =~= properties@.take(0).filter(keep).map_values(get));
    while i < properties.len()
        invariant
            i <= properties@.len(),
            keep == (|p: PropertyDescriptor| is_object_item(p)),
            get == (|p: PropertyDescriptor| opt_view(p.object_id)->0),
            string_views(r@) == properties@.take(i as int).filter(keep).map_values(
                get,
            ),
        decreases properties@.len() - i,
    {
        reveal(Seq::filter);
        let ghost before = string_views(r@);
        let p = &properties[i];
        assert(properties@.take(i + 1).drop_last() =~= properties@.take(i as int));
        let is_index = parse_up_to(p.name.as_str(), usize::MAX as u64).is_some();
        if is_index {
            if let Some(id) = &p.object_id {
                r.push(id.clone());
                assert(string_views(r@) =~= before.push(id@));
                let ghost kept = properties@.take(i as int).filter(keep);
                assert(kept.push(*p).map_values(get) =~= kept.map_values(get).push(id@));
            }
        }
        i = i + 1;
    }
    assert(properties@.take(i as int) =~= properties@);
    r
}

/// The error is about an element that is not there or not to be seen.
pub open spec fn is_element_error(e: ErrorView) -> bool {
    match e {
        ErrorView::ElementNotFound(_) => true,
        ErrorView::ElementNotVisible { .. } => true,
        ErrorView::Cdp { message, .. } => contains(message, "box model"@) || contains(
            message,
            "Could not find node"@,
        ) || contains(message, "No node with given id"@) || contains(
            message,
            "Node is not an element"@,
        ),
        _ => false,
    }
}

/// Whether an error is about an element that is not there or not to be seen.
pub fn is_element_cdp_error(e: &Error) -> (r: bool)
    ensures
        r == is_element_error(e@),
{
    match e {
        Error::ElementNotFound(_) => true,
        Error::ElementNotVisible { .. } => true,
        Error::Cdp { message, .. } => holds(message.as_str(), "box model") || holds(
            message.as_str(),
            "Could not find node",
        ) || holds(message.as_str(), "No node with given id") || holds(
            message.as_str(),
            "Node is not an element",
        ),
        _ => false,
    }
}

/// What trying to click comes to, given what one step of it came to: an element
/// that is not there or not to be seen is no error.
pub fn try_outcome(step: Result<(), Error>) -> (r: Result<bool, Error>)
    ensures
        match step {
            Ok(_) => r == Ok::<bool, Error>(true),
            Err(e) => if is_element_error(e@) {
                r == Ok::<bool, Error>(false)
            } else {
                r == Err::<bool, Error>(e)
            },
        },
{
    match step {
        Ok(_) => Ok(true),
        Err(e) => if is_element_cdp_error(&e) {
            Ok(false)
        } else {
            Err(e)
        },
    }
}

/// What to do next in trying to click.
pub enum TryClick {
    /// Click the element that was found.
    Click,
    /// Nothing: this is what it comes to.
    Done(Result<bool, Error>),
}

/// What to do in trying to click, given what the search for the element came to.
pub fn try_click(search: Result<(), Error>) -> (r: TryClick)
    ensures
        match search {
            Ok(_) => r is Click,
            Err(e) => r == TryClick::Done(
                if is_element_error(e@) {
                    Ok(false)
                } else {
                    Err(e)
                },
            ),
        },
{
    match search {
        Ok(_) => TryClick::Click,
        Err(e) => TryClick::Done(try_outcome(Err(e))),
    }
}

/// Whether an element can be seen, given whether the browser knows where it is.
pub fn visibility(box_model: Result<(), Error>) -> (r: Result<bool, Error>)
    ensures
        match box_model {
            Ok(_) => r == Ok::<bool, Error>(true),
            Err(e) => if e is Cdp && contains(e->message@, "box model"@) {
                r == Ok::<bool, Error>(false)
            } else {
                r == Err::<bool, Error>(e)
            },
        },
{
    match box_model {
        Ok(_) => Ok(true),
        Err(e) => {
            let unseen = match &e {
                Error::Cdp { message, .. } => holds(message.as_str(), "box model"),
                _ => false,
            };
            if unseen {
                Ok(false)
            } else {
                Err(e)
            }
        },
    }
}

/// The error of an element without a place.
pub fn not_visible(node_id: i32) -> (e: Error)
    ensures
        e@ == (ErrorView::ElementNotVisible {
            selector: "node "@ + signed_digits(node_id as int),
        }),
{
    Error::ElementNotVisible { selector: concat("node ", signed_decimal(node_id as i64).as_str()) }
}

/// The value that an expression has on an element. None stands for null.
pub fn element_value(value: Option<Json>) -> (r: Json)
    ensures
        r@ == (match value {
            Some(v) => v@,
            None => JsonView::Null,
        }),
{
    match value {
        Some(v) => v,
        None => Json::Null,
    }
}

/// A value as text; nothing where it is no string.
pub fn value_text(value: &Json) -> (r: String)
    ensures
        r@ == (match value@.as_text() {
            Some(t) => t,
            None => Seq::empty(),
        }),
{
    match value.as_text() {
        Some(t) => t.clone(),
        None => String::new(),
    }
}

/// A value as a truth value; the given one where it is none.
pub fn value_flag(value: &Json, default: bool) -> (r: bool)
    ensures
        r == (match value@ {
            JsonView::Bool(b) => b,
            _ => default,
        }),
{
    match value {
        Json::Bool(b) => *b,
        _ => default,
    }
}

/// An attribute's value, where it has one.
pub fn attribute_value(value: &Json) -> (r: Option<String>)
    ensures
        opt_view(r) == value@.as_text(),
{
    match value.as_text() {
        Some(t) => Some(t.clone()),
        None => None,
    }
}

/// The body of a response.
#[derive(Debug)]
pub enum ResponseBody {
    /// Text.
    Text(String),
    /// Anything else.
    Binary(Vec<u8>),
}

impl ResponseBody {
    /// The body's text. Only a body that is text may be asked for it.
    pub fn as_text(&self) -> (r: Option<&str>)
        requires
            self is Text,
        ensures
            opt_str_view(r) == Some(self->Text_0@),
    {
        match self {
            ResponseBody::Text(s) => Some(s.as_str()),
            ResponseBody::Binary(_) => None,
        }
    }

    /// The body's bytes.
    pub fn as_bytes(&self) -> (r: &[u8])
        ensures
            r@ == (match self {
                ResponseBody::Text(s) => vstd::utf8::encode_utf8(s@),
                ResponseBody::Binary(b) => b@,
            }),
    {
        match self {
            ResponseBody::Text(s) => s.as_str().as_bytes(),
            ResponseBody::Binary(b) => b.as_slice(),
        }
    }
}

/// What a decoding came to, with its error as one of the library's.
pub fn decoded_or_error(r: Result<Vec<u8>, String>) -> (out: Result<Vec<u8>, Error>)
    ensures
        match r {
            Ok(bytes) => out == Ok::<Vec<u8>, Error>(bytes),
            Err(message) => out matches Err(e) && e@ == ErrorView::Decode(message@),
        },
{
    match r {
        Ok(bytes) => Ok(bytes),
        Err(message) => Err(Error::Decode(message)),
    }
}

/// The body that the browser sent, as base64 where it says so.
pub fn response_body(body: String, base64_encoded: bool) -> (r: Result<ResponseBody, Error>)
    ensures
        match r {
            Ok(ResponseBody::Text(t)) => !base64_encoded && t@ == body@,
            Ok(ResponseBody::Binary(b)) => base64_encoded && base64_bytes(body@) == Ok::<
                Seq<u8>,
                Seq<char>,
            >(b@),
            Err(e) => base64_encoded && (base64_bytes(body@) matches Err(m) && e@
                == ErrorView::Decode(m)),
        },
{
    if base64_encoded {
        match decoded_or_error(decode_base64(body.as_str())) {
            Ok(bytes) => Ok(ResponseBody::Binary(bytes)),
            Err(e) => Err(e),
        }
    } else {
        Ok(ResponseBody::Text(body))
    }
}

/// What a page holds.
#[derive(Debug)]
pub struct PageState {
    /// Its URL.
    pub url: String,
    /// Its title.
    pub title: String,
    /// How many input fields.
    pub input_count: u32,
    /// How many buttons.
    pub button_count: u32,
    /// How many links.
    pub link_count: u32,
    /// How many forms.
    pub form_count: u32,
}

/// What is said of a page that tells nothing.
pub fn unknown_state() -> (s: PageState)
    ensures
        s.url@ == "unknown"@,
        s.title@ == "unknown"@,
        s.input_count == 0,
        s.button_count == 0,
        s.link_count == 0,
        s.form_count == 0,
{
    PageState {
        url: "unknown".to_string(),
        title: "unknown".to_string(),
        input_count: 0,
        button_count: 0,
        link_count: 0,
        form_count: 0,
    }
}

/// The name of a file for a picture taken while debugging, in milliseconds since
/// 1970.
pub fn debug_filename(dir: Option<&str>, prefix: &str, timestamp: u64) -> (out: String)
    ensures
        out@ == (match dir {
            Some(d) => d@ + "/"@,
            None => Seq::empty(),
        }) + prefix@ + "_"@ + digits(timestamp as nat) + ".png"@,
{
    let mut out = match dir {
        Some(d) => concat(d, "/"),
        None => String::new(),
    };
    out.append(prefix);
    out.append("_");
    out.append(decimal(timestamp).as_str());
    out.append(".png");
    out
}

/// Strings the way that `{:?}` prints them.
pub uninterp spec fn debug_text(texts: Seq<Seq<char>>) -> Seq<char>;

/// Strings the way that `{:?}` prints them: `std::fmt::Debug` of a list of strings.
///
/// Trusted: the outcome depends on the strings alone.
#[verifier::external_body]
pub(crate) fn debug_list(texts: &Vec<&str>) -> (out: String)
    ensures
        out@ == debug_text(views(texts@)),
{
    format!("{:?}", texts)
}

/// The error of a search in which no selector found anything.
fn none_found(selectors: &Vec<&str>) -> (e: Error)
    ensures
        e@ == ErrorView::ElementNotFound(
            "None of selectors found: "@ + debug_text(views(selectors@)),
        ),
{
    Error::ElementNotFound(concat("None of selectors found: ", debug_list(selectors).as_str()))
}

/// Which of several selectors to look for next, when so many of them, from the
/// first on, have found nothing.
pub fn find_any(selectors: &Vec<&str>, failed: usize) -> (r: Result<usize, Error>)
    ensures
        match r {
            Ok(next) => next == failed && failed < selectors@.len(),
            Err(e) => failed >= selectors@.len() && e@ == ErrorView::ElementNotFound(
                "None of selectors found: "@ + debug_text(views(selectors@)),
            ),
        },
{
    if failed < selectors.len() {
        Ok(failed)
    } else {
        Err(none_found(selectors))
    }
}

/// What is said of an exception: its text, its line and its column, in this order.
pub proof fn law_exception_is_told(e: JsException)
    ensures
        exception_text(e) == "JavaScript error: "@ + e.text@ + " at "@ + signed_digits(
            e.line_number as int,
        ) + ":"@ + signed_digits(e.column_number as int),
{
}

/// An error is about a missing or unseen element exactly where it says so itself, or
/// where the browser complains about a node or a box.
pub proof fn law_element_errors(e: ErrorView)
    ensures
        e is ElementNotFound || e is ElementNotVisible ==> is_element_error(e),
        e matches ErrorView::Cdp { message, .. } ==> (is_element_error(e) <==> (contains(
            message,
            "box model"@,
        ) || contains(message, "Could not find node"@) || contains(
            message,
            "No node with given id"@,
        ) || contains(message, "Node is not an element"@))),
        !(e is ElementNotFound || e is ElementNotVisible || e is Cdp) ==> !is_element_error(e),
{
}

/// A property is an object in an array exactly where its name is a number and it holds
/// an object.
pub proof fn law_array_items(p: PropertyDescriptor, n: nat)
    ensures
        n <= usize::MAX && p.name@ == digits(n) && p.object_id is Some ==> is_object_item(p),
        p.object_id is None ==> !is_object_item(p),
        p.name@ == "length"@ ==> !is_object_item(p),
{
    reveal_strlit("length");
    if n <= usize::MAX {
        law_decimal_round_trip(n, usize::MAX as nat);
    }
    if p.name@ == "length"@ {
        assert(p.name@[0] == 'l' && !is_digit(p.name@[0]));
        law_other_texts_are_no_numbers(p.name@, usize::MAX as nat);
    }
}

/// A search that finds nothing says what was searched for.
pub proof fn law_search_error_names_its_text(text: Seq<char>)
    ensures
        text_not_found(text) matches ErrorView::ElementNotFound(message) && message == "text: "@
            + text && text.is_suffix_of(message),
{
    let message = "text: "@ + text;
    assert(message.subrange(message.len() - text.len(), message.len() as int) =~= text);
}

} // verus!

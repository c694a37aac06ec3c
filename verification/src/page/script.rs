//! Scripts that a page runs for its caller.

use vstd::prelude::*;

use crate::json::{holds_strings, json_value, strings, strings_json};
use crate::page::escape::{
    escape_js_string, escaped, escaped_from, law_literal_value, literal_value,
    piece,
};
use crate::text::{concat3, owned, views};
use crate::unicode::{ascii_lower, ascii_lowered, ascii_only, lower, lowered};

verus! {

/// How a text is compared with an element's.
#[derive(Debug, Clone, Copy, PartialEq, Eq, Structural)]
pub enum TextMatch {
    /// It is the element's text without white space at the ends.
    Exact,
    /// The element's text holds it, in upper or lower case.
    Contains,
    /// The element's text begins with it, in upper or lower case.
    StartsWith,
    /// The element's text ends with it, in upper or lower case.
    EndsWith,
}

impl Default for TextMatch {
    fn default() -> (m: TextMatch)
        ensures
            m == TextMatch::Contains,
    {
        TextMatch::Contains
    }
}

/// The title of a page.
pub const TITLE: &'static str = "document.title || ''";

/// The HTML of a page.
pub const CONTENT: &'static str = "document.documentElement.outerHTML";

/// The text of a page.
pub const TEXT: &'static str = "document.body?.innerText || ''";

/// Selects what stands in the field with the cursor.
pub const SELECT_ACTIVE: &'static str = "document.activeElement.select()";

/// Brings an element into view.
pub const SCROLL_INTO_VIEW: &'static str =
    "function() { this.scrollIntoView({ behavior: 'smooth', block: 'center' }); }";

/// What stands before the first condition in a search for one element.
pub const FIND_HEAD: &'static str = r#"
            (() => {
                const interactive = 'a, button, input[type="submit"], input[type="button"], [role="button"], [onclick]';
                for (const el of document.querySelectorAll(interactive)) {
                    const t = el.innerText || el.textContent || el.value || '';
                    if ("#;

/// What stands between the conditions in a search for one element.
pub const FIND_MIDDLE: &'static str = r#") return el;
                }
                const secondary = 'label, span, div, p, h1, h2, h3, h4, h5, h6, li, td, th';
                for (const el of document.querySelectorAll(secondary)) {
                    const t = el.innerText || el.textContent || el.value || '';
                    if ("#;

/// What stands behind the conditions in a search for one element.
pub const FIND_TAIL: &'static str = r#") return el;
                }
                return null;
            })()
            "#;

/// What stands before the text in a search for all elements.
pub const FIND_ALL_HEAD: &'static str = r#"
            (() => {
                const selectors = 'a, button, input, label, span, div, p, h1, h2, h3, h4, h5, h6, li, td, th';
                const elements = document.querySelectorAll(selectors);
                const matches = [];
                for (const el of elements) {
                    const t = (el.innerText || el.textContent || el.value || '').toLowerCase();
                    if (t.includes('"#;

/// What stands behind the text in a search for all elements.
pub const FIND_ALL_TAIL: &'static str = r#"')) {
                        matches.push(el);
                    }
                }
                return matches;
            })()
            "#;

/// Counts the page's requests that have not been answered, from the first call on.
pub const PENDING_REQUESTS: &'static str = r#"
            (() => {
                // Check if there are pending fetches/XHRs
                if (window.__eoka_pending_requests === undefined) {
                    window.__eoka_pending_requests = 0;

                    // Intercept fetch
                    const originalFetch = window.fetch;
                    window.fetch = function(...args) {
                        window.__eoka_pending_requests++;
                        return originalFetch.apply(this, args).finally(() => {
                            window.__eoka_pending_requests--;
                        });
                    };

                    // Intercept XHR
                    const originalOpen = XMLHttpRequest.prototype.open;
                    const originalSend = XMLHttpRequest.prototype.send;
                    XMLHttpRequest.prototype.open = function(...args) {
                        this.__eoka_tracked = true;
                        return originalOpen.apply(this, args);
                    };
                    XMLHttpRequest.prototype.send = function(...args) {
                        if (this.__eoka_tracked) {
                            window.__eoka_pending_requests++;
                            this.addEventListener('loadend', () => {
                                window.__eoka_pending_requests--;
                            });
                        }
                        return originalSend.apply(this, args);
                    };
                }
                return window.__eoka_pending_requests;
            })()
        "#;

/// Tells what a page holds.
pub const PAGE_STATE: &'static str = r#"({
                url: location.href,
                title: document.title,
                input_count: document.querySelectorAll('input').length,
                button_count: document.querySelectorAll('button').length,
                link_count: document.querySelectorAll('a').length,
                form_count: document.querySelectorAll('form').length
            })"#;

/// The condition under which an element's text `t` matches, given the lower case
/// of the escaped text.
pub open spec fn condition(
    match_type: TextMatch,
    escaped_text: Seq<char>,
    lower_text: Seq<char>,
) -> Seq<char> {
    match match_type {
        TextMatch::Exact => "t.trim() === '"@ + escaped_text + "'"@,
        TextMatch::Contains => "t.toLowerCase().includes('"@ + lower_text + "')"@,
        TextMatch::StartsWith => "t.toLowerCase().startsWith('"@ + lower_text + "')"@,
        TextMatch::EndsWith => "t.toLowerCase().endsWith('"@ + lower_text + "')"@,
    }
}

/// The condition under which an element's text matches.
pub fn match_condition(match_type: TextMatch, escaped_text: &str, lower_text: &str) -> (out: String)
    ensures
        out@ == condition(match_type, escaped_text@, lower_text@),
{
    match match_type {
        TextMatch::Exact => concat3("t.trim() === '", escaped_text, "'"),
        TextMatch::Contains => concat3("t.toLowerCase().includes('", lower_text, "')"),
        TextMatch::StartsWith => concat3("t.toLowerCase().startsWith('", lower_text, "')"),
        TextMatch::EndsWith => concat3("t.toLowerCase().endsWith('", lower_text, "')"),
    }
}

/// The script that looks for an element with the condition.
pub open spec fn search(condition: Seq<char>) -> Seq<char> {
    FIND_HEAD@ + condition + FIND_MIDDLE@ + condition + FIND_TAIL@
}

/// A script that looks for an element by its text, among those that do something
/// first.
pub fn find_by_text_script(text: &str, match_type: TextMatch) -> (out: String)
    ensures
        out@ == search(condition(match_type, escaped(text@), lowered(escaped(text@)))),
{
    let body = escape_js_string(text);
    let low = lower(body.as_str());
    let cond = match_condition(match_type, body.as_str(), low.as_str());
    let mut out = concat3(FIND_HEAD, cond.as_str(), FIND_MIDDLE);
    out.append(cond.as_str());
    out.append(FIND_TAIL);
    out
}

/// A script that looks for all elements whose text holds `text`.
pub fn find_all_by_text_script(text: &str) -> (out: String)
    ensures
        out@ == FIND_ALL_HEAD@ + lowered(escaped(text@)) + FIND_ALL_TAIL@,
{
    let body = escape_js_string(text);
    let low = lower(body.as_str());
    concat3(FIND_ALL_HEAD, low.as_str(), FIND_ALL_TAIL)
}

/// A script that puts the cursor into a field and selects what stands there.
pub fn focus_script(selector: &str) -> (out: String)
    ensures
        out@ == "(() => { const el = document.querySelector('"@ + escaped(selector@)
            + "'); if (el) { el.focus(); el.select(); } })()"@,
{
    let body = escape_js_string(selector);
    concat3(
        "(() => { const el = document.querySelector('",
        body.as_str(),
        "'); if (el) { el.focus(); el.select(); } })()",
    )
}

/// A script that selects an option by its value.
pub fn select_script(selector: &str, value: &str) -> (out: String)
    ensures
        out@ == r#"(()=>{const el=document.querySelector('"#@
            + escaped(selector@) + r#"');if(!el)throw new Error('Select not found');const opt=[...el.options].find(o=>o.value==='"#@
            + escaped(value@) + r#"');if(!opt)throw new Error('Option not found: "#@
            + escaped(value@) + r#"');el.value='"#@
            + escaped(value@) + r#"';el.dispatchEvent(new Event('change',{bubbles:true}))})()"#@,
{
    let sel = escape_js_string(selector);
    let val = escape_js_string(value);
    let mut out = concat3(
        r#"(()=>{const el=document.querySelector('"#,
        sel.as_str(),
        r#"');if(!el)throw new Error('Select not found');const opt=[...el.options].find(o=>o.value==='"#,
    );
    out.append(val.as_str());
    out.append(
        r#"');if(!opt)throw new Error('Option not found: "#,
    );
    out.append(val.as_str());
    out.append(
        r#"');el.value='"#,
    );
    out.append(val.as_str());
    out.append(
        r#"';el.dispatchEvent(new Event('change',{bubbles:true}))})()"#,
    );
    out
}

/// A script that selects an option by its text.
pub fn select_by_text_script(selector: &str, text: &str) -> (out: String)
    ensures
        out@ == r#"(()=>{const el=document.querySelector('"#@
            + escaped(selector@) + r#"');if(!el)throw new Error('Select not found');const opt=[...el.options].find(o=>o.text.trim()==='"#@
            + escaped(text@) + r#"');if(!opt)throw new Error('Option not found: "#@
            + escaped(text@) + r#"');el.value=opt.value;el.dispatchEvent(new Event('change',{bubbles:true}))})()"#@,
{
    let sel = escape_js_string(selector);
    let txt = escape_js_string(text);
    let mut out = concat3(
        r#"(()=>{const el=document.querySelector('"#,
        sel.as_str(),
        r#"');if(!el)throw new Error('Select not found');const opt=[...el.options].find(o=>o.text.trim()==='"#,
    );
    out.append(txt.as_str());
    out.append(
        r#"');if(!opt)throw new Error('Option not found: "#,
    );
    out.append(txt.as_str());
    out.append(
        r#"');el.value=opt.value;el.dispatchEvent(new Event('change',{bubbles:true}))})()"#,
    );
    out
}

/// A script that selects the options with the given values, and no others.
pub fn select_multiple_script(selector: &str, values: &Vec<&str>) -> (out: String)
    ensures
        out@ == r#"(()=>{const el=document.querySelector('"#@
            + escaped(selector@) + r#"');if(!el)throw new Error('Select not found');const v="#@
            + strings_json(views(values@)) + r#";for(const o of el.options)o.selected=v.includes(o.value);el.dispatchEvent(new Event('change',{bubbles:true}))})()"#@,
        holds_strings(json_value(strings_json(views(values@))), views(values@)),
{
    let sel = escape_js_string(selector);
    let vals = strings(&owned(values));
    let mut out = concat3(
        r#"(()=>{const el=document.querySelector('"#,
        sel.as_str(),
        r#"');if(!el)throw new Error('Select not found');const v="#,
    );
    out.append(vals.as_str());
    out.append(
        r#";for(const o of el.options)o.selected=v.includes(o.value);el.dispatchEvent(new Event('change',{bubbles:true}))})()"#,
    );
    out
}

/// A script that evaluates an expression inside a frame.
pub fn evaluate_in_frame_script(frame_selector: &str, expression: &str) -> (out: String)
    ensures
        out@ == r#"
            (() => {
                const iframe = document.querySelector('"#@
            + escaped(frame_selector@) + r#"');
                if (!iframe || !iframe.contentWindow) throw new Error('Frame not found: "#@
            + escaped(frame_selector@) + r#"');
                const _exec = new iframe.contentWindow.Function('return (' + '"#@
            + escaped(expression@) + r#"' + ')');
                return _exec.call(iframe.contentWindow);
            })()
            "#@,
{
    let frame = escape_js_string(frame_selector);
    let expr = escape_js_string(expression);
    let mut out = concat3(
        r#"
            (() => {
                const iframe = document.querySelector('"#,
        frame.as_str(),
        r#"');
                if (!iframe || !iframe.contentWindow) throw new Error('Frame not found: "#,
    );
    out.append(frame.as_str());
    out.append(
        r#"');
                const _exec = new iframe.contentWindow.Function('return (' + '"#,
    );
    out.append(expr.as_str());
    out.append(
        r#"' + ')');
                return _exec.call(iframe.contentWindow);
            })()
            "#,
    );
    out
}

/// A function that evaluates an expression on the element that it is called on.
pub fn element_function(expression: &str) -> (out: String)
    ensures
        out@ == "function() { return "@ + expression@ + "; }"@,
{
    concat3("function() { return ", expression, "; }")
}

/// An expression for an element's attribute.
pub fn attribute_expression(name: &str) -> (out: String)
    ensures
        out@ == "this.getAttribute('"@ + escaped(name@) + "')"@,
{
    let body = escape_js_string(name);
    concat3("this.getAttribute('", body.as_str(), "')")
}

/// An expression for an element's computed style.
pub fn css_expression(property: &str) -> (out: String)
    ensures
        out@ == "getComputedStyle(this).getPropertyValue('"@ + escaped(property@) + "')"@,
{
    let body = escape_js_string(property);
    concat3("getComputedStyle(this).getPropertyValue('", body.as_str(), "')")
}

proof fn lemma_lower_escaped(s: Seq<char>, i: int)
    requires
        0 <= i <= s.len(),
        ascii_only(s),
    ensures
        ascii_only(escaped_from(s, i)),
        ascii_lowered(escaped_from(s, i)) == escaped_from(ascii_lowered(s), i),
    decreases s.len() - i,
{
    let low = ascii_lowered(s);
    if i < s.len() {
        lemma_lower_escaped(s, i + 1);
        let p = piece(s, i);
        let rest = escaped_from(s, i + 1);
        assert(s[i] as u32 <= 127);
        assert(low[i] == ascii_lower(s[i]));
        if i + 1 < s.len() {
            assert(low[i + 1] == ascii_lower(s[i + 1]));
            assert(s[i + 1] as u32 <= 127);
        }
        assert(ascii_lowered(p) =~= piece(low, i));
        assert(ascii_only(p));
        assert(ascii_lowered(p + rest) =~= ascii_lowered(p) + ascii_lowered(rest));
        assert forall|k: int| 0 <= k < (p + rest).len() implies (#[trigger] (p + rest)[k]) as u32
            <= 127 by {
            if k < p.len() {
                assert((p + rest)[k] == p[k]);
            } else {
                assert((p + rest)[k] == rest[k - p.len()]);
            }
        }
    } else {
        assert(ascii_lowered(escaped_from(s, i)) =~= Seq::empty());
    }
}

/// What a search compares in lower case is a literal for the lower case of the
/// text: lowering does not spoil the escapes. For ASCII texts.
pub proof fn law_lower_case_is_searched_for(s: Seq<char>)
    requires
        ascii_only(s),
    ensures
        lowered(escaped(s)) == escaped(lowered(s)),
        literal_value(lowered(escaped(s)), '\'') == Some(lowered(s)),
{
    lemma_lower_escaped(s, 0);
    law_literal_value(lowered(s), '\'');
}

/// The whole text is compared as it is; its beginning, its end and what stands in it
/// are compared in lower case.
pub proof fn law_conditions(exact: Seq<char>, low: Seq<char>)
    ensures
        condition(TextMatch::Exact, exact, low) == "t.trim() === '"@ + exact + "'"@,
        condition(TextMatch::Contains, exact, low) == "t.toLowerCase().includes('"@ + low + "')"@,
        condition(TextMatch::StartsWith, exact, low) == "t.toLowerCase().startsWith('"@ + low
            + "')"@,
        condition(TextMatch::EndsWith, exact, low) == "t.toLowerCase().endsWith('"@ + low + "')"@,
{
}

} // verus!

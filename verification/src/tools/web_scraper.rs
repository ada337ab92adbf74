//! The web scraper tool: how a call is read, and what is extracted from a
//! fetched page with CSS selectors (through the `scraper` crate).

use vstd::prelude::*;
use crate::engine::executor::is_text;
use crate::error::Error;
use crate::json::JsonValue;
use crate::tools::types::{ParameterType, ToolParameter, ToolParams, ToolResult, declares, get_text_param,
    require_text_param, text_array, text_param};
use crate::text::{concat, decimal, owned, str_eq, string_views, usize_text};

verus! {

/// The texts of the elements of an HTML document that a CSS selector
/// selects, in document order, as `scraper` gives them
/// (`Html::parse_document`, `Selector::parse`, `select`, `text`); `None`
/// when the selector does not parse.
pub uninterp spec fn css_texts(html: Seq<char>, selector: Seq<char>) -> Option<Seq<Seq<char>>>;

/// For each element that a CSS selector selects, in document order, the
/// value of an attribute when the element has it; `None` when the selector
/// does not parse.
pub uninterp spec fn css_attr_options(html: Seq<char>, selector: Seq<char>, attribute: Seq<char>) -> Option<Seq<Option<Seq<char>>>>;

/// The values that are there, in order.
pub open spec fn present_values(s: Seq<Option<Seq<char>>>) -> Seq<Seq<char>>
    decreases s.len(),
{
    if s.len() == 0 {
        Seq::empty()
    } else {
        match s.last() {
            Some(v) => present_values(s.drop_last()).push(v),
            None => present_values(s.drop_last()),
        }
    }
}

/// The first element's value, or the empty text when there is no first
/// element or it lacks the attribute.
pub open spec fn first_value(s: Seq<Option<Seq<char>>>) -> Seq<char> {
    if s.len() > 0 {
        match s[0] {
            Some(v) => v,
            None => Seq::empty(),
        }
    } else {
        Seq::empty()
    }
}

/// Texts that may be missing, seen as character sequences.
pub open spec fn option_views(v: Seq<Option<String>>) -> Seq<Option<Seq<char>>> {
    v.map_values(|o: Option<String>| match o {
        Some(t) => Some(t@),
        None => None,
    })
}

/// All text of an HTML document (that of its root element).
pub uninterp spec fn html_text(html: Seq<char>) -> Seq<char>;

/// The `{:?}` text of the error for a CSS selector that does not parse.
pub uninterp spec fn selector_error_text(selector: Seq<char>) -> Seq<char>;

/// The texts of the selected elements (named by `css_texts`); on a selector
/// that does not parse, its error text.
#[verifier::external_body]
fn select_texts(html: &str, selector: &str) -> (r: Result<Vec<String>, String>)
    ensures
        match r {
            Ok(v) => css_texts(html@, selector@) == Some(string_views(v@)),
            Err(e) => css_texts(html@, selector@) is None && e@ == selector_error_text(selector@),
        },
{
    let document = scraper::Html::parse_document(html);
    match scraper::Selector::parse(selector) {
        Ok(sel) => Ok(document.select(&sel).map(|el| el.text().collect::<String>()).collect()),
        Err(e) => Err(format!("{:?}", e)),
    }
}

/// The attribute of each selected element, `None` where it is missing
/// (named by `css_attr_options`); on a selector that does not parse, its
/// error text.
#[verifier::external_body]
fn select_attr_options(html: &str, selector: &str, attribute: &str) -> (r: Result<Vec<Option<String>>, String>)
    ensures
        match r {
            Ok(v) => css_attr_options(html@, selector@, attribute@) == Some(option_views(v@)),
            Err(e) => css_attr_options(html@, selector@, attribute@) is None && e@ == selector_error_text(selector@),
        },
{
    let document = scraper::Html::parse_document(html);
    match scraper::Selector::parse(selector) {
        Ok(sel) => Ok(document.select(&sel).map(|el| el.value().attr(attribute).map(|v| v.to_string())).collect()),
        Err(e) => Err(format!("{:?}", e)),
    }
}

/// The values that are there, in order.
fn present_strings(v: Vec<Option<String>>) -> (r: Vec<String>)
    ensures
        string_views(r@) == present_values(option_views(v@)),
{
    let ghost all = option_views(v@);
    let mut out: Vec<String> = Vec::new();
    let mut i: usize = 0;
    while i < v.len()
        invariant
            all == option_views(v@),
            i <= v@.len(),
            string_views(out@) == present_values(all.take(i as int)),
        decreases v@.len() - i,
    {
        assert(all.take(i + 1).drop_last() =~= all.take(i as int));
        let ghost before = out@;
        match &v[i] {
            Some(t) => {
                out.push(t.clone());
                assert(string_views(out@) =~= string_views(before).push(t@));
            },
            None => {},
        }
        i = i + 1;
    }
    assert(all.take(i as int) =~= all);
    out
}

/// The text of the whole document (named by `html_text`).
#[verifier::external_body]
fn root_text(html: &str) -> (r: String)
    ensures
        r@ == html_text(html@),
{
    scraper::Html::parse_document(html).root_element().text().collect::<String>()
}

/// What a call to the scraper asks for.
#[allow(inconsistent_fields)]
#[derive(Debug)]
pub enum ScrapeOperation {
    ExtractText { url: String, selector: Option<String> },
    ExtractLinks { url: String },
    ExtractAttributes { url: String, selector: String, attribute: String },
    PageInfo { url: String },
}

/// The texts that `extract_text` reports: those of the selected elements,
/// or the whole document's text when no selector is given.
pub open spec fn extracted_texts(html: Seq<char>, selector: Option<Seq<char>>) -> Option<Seq<Seq<char>>> {
    match selector {
        Some(s) => css_texts(html, s),
        None => Some(seq![html_text(html)]),
    }
}

/// `v` is a JSON array of the strings `items`.
pub open spec fn texts_are(v: JsonValue, items: Seq<Seq<char>>) -> bool {
    v matches JsonValue::Array(a) && a@.len() == items.len()
        && forall|k: int| 0 <= k < items.len() ==> is_text(#[trigger] a@[k], items[k])
}

/// `v` is the JSON number `n`.
pub open spec fn number_is(v: JsonValue, n: nat) -> bool {
    v matches JsonValue::Number(t) && t@ == decimal(n)
}

/// A JSON array of strings holding copies of `items`, with its length.
fn texts_value(items: &Vec<String>) -> (r: (JsonValue, JsonValue))
    ensures
        texts_are(r.0, string_views(items@)),
        number_is(r.1, items@.len()),
{
    let a = text_array(items);
    proof {
        assert forall|k: int| 0 <= k < items@.len() implies is_text(#[trigger] a->Array_0@[k], string_views(items@)[k]) by {}
    }
    (a, JsonValue::Number(usize_text(items.len())))
}

/// Fetches pages and extracts text, links, attributes or a summary.
pub struct WebScraperTool;

impl WebScraperTool {
    /// A scraper.
    pub fn new() -> Self {
        WebScraperTool
    }

    /// The tool's name.
    pub fn name(&self) -> (s: &'static str)
        ensures
            s@ == "web_scraper"@,
    {
        "web_scraper"
    }

    /// What the tool does.
    pub fn description(&self) -> (s: &'static str)
        ensures
            s@ == "Fetch and extract data from web pages using CSS selectors"@,
    {
        "Fetch and extract data from web pages using CSS selectors"
    }

    /// The parameters the tool takes.
    pub fn parameters(&self) -> (ps: Vec<ToolParameter>)
        ensures
            ps@.len() == 4,
            declares(ps@[0], "operation"@, "Operation: extract_text, extract_links, extract_attributes, page_info"@, ParameterType::String, true),
            declares(ps@[1], "url"@, "URL to scrape"@, ParameterType::String, true),
            declares(ps@[2], "selector"@, "CSS selector (for extract_text, extract_attributes)"@, ParameterType::String, false),
            declares(ps@[3], "attribute"@, "Attribute name (for extract_attributes)"@, ParameterType::String, false),
    {
        let mut ps: Vec<ToolParameter> = Vec::new();
        ps.push(ToolParameter::new("operation", "Operation: extract_text, extract_links, extract_attributes, page_info", ParameterType::String, true));
        ps.push(ToolParameter::new("url", "URL to scrape", ParameterType::String, true));
        ps.push(ToolParameter::new("selector", "CSS selector (for extract_text, extract_attributes)", ParameterType::String, false));
        ps.push(ToolParameter::new("attribute", "Attribute name (for extract_attributes)", ParameterType::String, false));
        ps
    }

    /// The operation that a call asks for: the errors name the missing
    /// parameter, or the unknown operation.
    pub fn plan(params: &ToolParams) -> (r: Result<ScrapeOperation, Error>)
        ensures
            text_param(*params, "operation"@) is None ==>
                (r matches Err(Error::Internal(m)) && m@ == "Missing operation parameter"@),
            text_param(*params, "operation"@) is Some && text_param(*params, "url"@) is None ==>
                (r matches Err(Error::Internal(m)) && m@ == "Missing url parameter"@),
            r matches Ok(op) ==> match op {
                ScrapeOperation::ExtractText { url, selector } =>
                    text_param(*params, "operation"@) == Some("extract_text"@) && text_param(*params, "url"@) == Some(url@)
                    && match selector { Some(s) => text_param(*params, "selector"@) == Some(s@), None => text_param(*params, "selector"@) is None },
                ScrapeOperation::ExtractLinks { url } =>
                    text_param(*params, "operation"@) == Some("extract_links"@) && text_param(*params, "url"@) == Some(url@),
                ScrapeOperation::ExtractAttributes { url, selector, attribute } =>
                    text_param(*params, "operation"@) == Some("extract_attributes"@) && text_param(*params, "url"@) == Some(url@)
                    && text_param(*params, "selector"@) == Some(selector@) && text_param(*params, "attribute"@) == Some(attribute@),
                ScrapeOperation::PageInfo { url } =>
                    text_param(*params, "operation"@) == Some("page_info"@) && text_param(*params, "url"@) == Some(url@),
            },
            text_param(*params, "operation"@) matches Some(o) ==> (text_param(*params, "url"@) is Some
                && o != "extract_text"@ && o != "extract_links"@ && o != "extract_attributes"@ && o != "page_info"@ ==>
                (r matches Err(Error::Internal(m)) && m@ == "Unknown operation: "@ + o)),
            (text_param(*params, "operation"@) == Some("extract_attributes"@) && text_param(*params, "url"@) is Some
                && text_param(*params, "selector"@) is None) ==>
                (r matches Err(Error::Internal(m)) && m@ == "Missing selector parameter for extract_attributes"@),
            (text_param(*params, "operation"@) == Some("extract_attributes"@) && text_param(*params, "url"@) is Some
                && text_param(*params, "selector"@) is Some && text_param(*params, "attribute"@) is None) ==>
                (r matches Err(Error::Internal(m)) && m@ == "Missing attribute parameter for extract_attributes"@),
            text_param(*params, "operation"@) matches Some(o) ==> (text_param(*params, "url"@) is Some
                && (o == "extract_text"@ || o == "extract_links"@ || o == "page_info"@) ==> r is Ok),
            (text_param(*params, "operation"@) == Some("extract_attributes"@) && text_param(*params, "url"@) is Some
                && text_param(*params, "selector"@) is Some && text_param(*params, "attribute"@) is Some) ==> r is Ok,
    {
        proof {
            reveal_strlit("extract_text");
            reveal_strlit("extract_links");
            reveal_strlit("extract_attributes");
            reveal_strlit("page_info");
            assert("extract_text"@.len() == 12 && "extract_links"@.len() == 13);
            assert("extract_attributes"@.len() == 18 && "page_info"@.len() == 9);
        }
        let op = require_text_param(params, "operation", "Missing operation parameter")?;
        let url = require_text_param(params, "url", "Missing url parameter")?;
        let o = op.as_str();
        if str_eq(o, "extract_text") {
            Ok(ScrapeOperation::ExtractText { url, selector: get_text_param(params, "selector") })
        } else if str_eq(o, "extract_links") {
            Ok(ScrapeOperation::ExtractLinks { url })
        } else if str_eq(o, "extract_attributes") {
            let selector = require_text_param(params, "selector", "Missing selector parameter for extract_attributes")?;
            let attribute = require_text_param(params, "attribute", "Missing attribute parameter for extract_attributes")?;
            Ok(ScrapeOperation::ExtractAttributes { url, selector, attribute })
        } else if str_eq(o, "page_info") {
            Ok(ScrapeOperation::PageInfo { url })
        } else {
            Err(Error::Internal(concat("Unknown operation: ", o)))
        }
    }

    /// The error for an unsuccessful HTTP answer: `HTTP error: {status}`.
    pub fn http_error(status: &str) -> (e: Error)
        ensures
            e matches Error::Internal(m) && m@ == "HTTP error: "@ + status@,
    {
        Error::Internal(concat("HTTP error: ", status))
    }

    /// The texts of a page (see `extracted_texts`): `count`, `texts`, `url`.
    pub fn extract_text(url: &str, html: &str, selector: Option<&str>) -> (r: Result<ToolResult, Error>)
        ensures
            match extracted_texts(html@, match selector { Some(s) => Some(s@), None => None }) {
                Some(ts) => r matches Ok(res) && res.success && res.error is None
                    && (res.output matches JsonValue::Object(f) && f@.len() == 3
                        && f@[0].0@ == "count"@ && number_is(f@[0].1, ts.len())
                        && f@[1].0@ == "texts"@ && texts_are(f@[1].1, ts)
                        && f@[2].0@ == "url"@ && is_text(f@[2].1, url@)),
                None => r matches Err(Error::Internal(m)) && selector matches Some(s)
                    && m@ == "Invalid CSS selector: "@ + selector_error_text(s@),
            },
    {
        let texts = match selector {
            Some(s) => match select_texts(html, s) {
                Ok(v) => v,
                Err(e) => return Err(Error::Internal(concat("Invalid CSS selector: ", e.as_str()))),
            },
            None => {
                let mut v: Vec<String> = Vec::new();
                v.push(root_text(html));
                assert(string_views(v@) =~= seq![html_text(html@)]);
                v
            },
        };
        let (arr, count) = texts_value(&texts);
        let mut f: Vec<(String, JsonValue)> = Vec::new();
        f.push((owned("count"), count));
        f.push((owned("texts"), arr));
        f.push((owned("url"), JsonValue::String(owned(url))));
        Ok(ToolResult::success(JsonValue::Object(f)))
    }

    /// The links of a page (the `href` of every `a` element that has one):
    /// `count`, `links`, `url`.
    pub fn extract_links(url: &str, html: &str) -> (r: Result<ToolResult, Error>)
        ensures
            match css_attr_options(html@, "a[href]"@, "href"@) {
                Some(os) => r matches Ok(res) && res.success && res.error is None
                    && (res.output matches JsonValue::Object(f) && f@.len() == 3
                        && f@[0].0@ == "count"@ && number_is(f@[0].1, present_values(os).len())
                        && f@[1].0@ == "links"@ && texts_are(f@[1].1, present_values(os))
                        && f@[2].0@ == "url"@ && is_text(f@[2].1, url@)),
                None => r matches Err(Error::Internal(m)) && m@ == "Invalid CSS selector: "@ + selector_error_text("a[href]"@),
            },
    {
        let links = match select_attr_options(html, "a[href]", "href") {
            Ok(v) => present_strings(v),
            Err(e) => return Err(Error::Internal(concat("Invalid CSS selector: ", e.as_str()))),
        };
        let (arr, count) = texts_value(&links);
        let mut f: Vec<(String, JsonValue)> = Vec::new();
        f.push((owned("count"), count));
        f.push((owned("links"), arr));
        f.push((owned("url"), JsonValue::String(owned(url))));
        Ok(ToolResult::success(JsonValue::Object(f)))
    }

    /// An attribute of the selected elements: `attribute`, `count`,
    /// `selector`, `url`, `values`.
    pub fn extract_attributes(url: &str, html: &str, selector: &str, attribute: &str) -> (r: Result<ToolResult, Error>)
        ensures
            match css_attr_options(html@, selector@, attribute@) {
                Some(os) => r matches Ok(res) && res.success && res.error is None
                    && (res.output matches JsonValue::Object(f) && f@.len() == 5
                        && f@[0].0@ == "attribute"@ && is_text(f@[0].1, attribute@)
                        && f@[1].0@ == "count"@ && number_is(f@[1].1, present_values(os).len())
                        && f@[2].0@ == "selector"@ && is_text(f@[2].1, selector@)
                        && f@[3].0@ == "url"@ && is_text(f@[3].1, url@)
                        && f@[4].0@ == "values"@ && texts_are(f@[4].1, present_values(os))),
                None => r matches Err(Error::Internal(m)) && m@ == "Invalid CSS selector: "@ + selector_error_text(selector@),
            },
    {
        let values = match select_attr_options(html, selector, attribute) {
            Ok(v) => present_strings(v),
            Err(e) => return Err(Error::Internal(concat("Invalid CSS selector: ", e.as_str()))),
        };
        let (arr, count) = texts_value(&values);
        let mut f: Vec<(String, JsonValue)> = Vec::new();
        f.push((owned("attribute"), JsonValue::String(owned(attribute))));
        f.push((owned("count"), count));
        f.push((owned("selector"), JsonValue::String(owned(selector))));
        f.push((owned("url"), JsonValue::String(owned(url))));
        f.push((owned("values"), arr));
        Ok(ToolResult::success(JsonValue::Object(f)))
    }

    /// A summary of a page: the meta description, the `h1`-`h3` headings,
    /// the title (empty when missing), and the URL.
    pub fn page_info(url: &str, html: &str) -> (r: ToolResult)
        ensures
            r.success && r.error is None,
            r.output matches JsonValue::Object(f) && f@.len() == 4
                && f@[0].0@ == "description"@ && is_text(f@[0].1, match css_attr_options(html@, "meta[name='description']"@, "content"@) {
                    Some(os) => first_value(os),
                    None => Seq::empty(),
                })
                && f@[1].0@ == "headings"@ && texts_are(f@[1].1, match css_texts(html@, "h1, h2, h3"@) {
                    Some(hs) => hs,
                    None => Seq::empty(),
                })
                && f@[2].0@ == "title"@ && is_text(f@[2].1, match css_texts(html@, "title"@) {
                    Some(ts) => if ts.len() > 0 { ts[0] } else { Seq::empty() },
                    None => Seq::empty(),
                })
                && f@[3].0@ == "url"@ && is_text(f@[3].1, url@),
    {
        let title = match select_texts(html, "title") {
            Ok(ts) => if ts.len() > 0 { ts[0].clone() } else { String::new() },
            Err(_) => String::new(),
        };
        let description = match select_attr_options(html, "meta[name='description']", "content") {
            Ok(os) => if os.len() > 0 {
                match &os[0] {
                    Some(d) => d.clone(),
                    None => String::new(),
                }
            } else {
                String::new()
            },
            Err(_) => String::new(),
        };
        let headings = match select_texts(html, "h1, h2, h3") {
            Ok(hs) => hs,
            Err(_) => Vec::new(),
        };
        let (arr, _) = texts_value(&headings);
        let mut f: Vec<(String, JsonValue)> = Vec::new();
        f.push((owned("description"), JsonValue::String(description)));
        f.push((owned("headings"), arr));
        f.push((owned("title"), JsonValue::String(title)));
        f.push((owned("url"), JsonValue::String(owned(url))));
        ToolResult::success(JsonValue::Object(f))
    }
}

} // verus!

//! The maintenance plugin: during its time ranges every request is answered
//! by the gateway, in the form the client asked for.
use vstd::prelude::*;
use vstd::string::*;

use crate::reflect::Reflect;
use crate::request::{header_value, SgHeader, SgRequest};
use crate::response::{SgResponse, FORBIDDEN, OK};
use crate::text::{has_piece, has_piece_spec};

verus! {

/// A time of day, in milliseconds since midnight.
#[derive(Clone, Copy, PartialEq, Eq, Structural, Debug)]
pub struct SgTimeOfDay {
    pub ms: u32,
}

/// A half-open range of times of day; one whose start is after its end
/// wraps past midnight.
#[derive(Clone, Copy, PartialEq, Eq, Structural, Debug)]
pub struct SgTimeRange {
    pub start: SgTimeOfDay,
    pub end: SgTimeOfDay,
}

pub open spec fn range_contains(r: SgTimeRange, t: SgTimeOfDay) -> bool {
    if r.start.ms > r.end.ms {
        !(r.end.ms <= t.ms < r.start.ms)
    } else {
        r.start.ms <= t.ms < r.end.ms
    }
}

pub open spec fn any_range_contains(v: Seq<SgTimeRange>, t: SgTimeOfDay) -> bool {
    exists|i: int| 0 <= i < v.len() && range_contains(#[trigger] v[i], t)
}

pub struct SgFilterMaintenance {
    pub enabled_time_range: Option<Vec<SgTimeRange>>,
    pub title: String,
    pub msg: String,
}

pub const DEFAULT_TITLE: &'static str = "System Maintenance";

pub const DEFAULT_MESSAGE: &'static str = "We apologize for the inconvenience, but we are currently performing system maintenance. We will be back to normal shortly./n Thank you for your patience, understanding, and support.";

/// What the plugin answers.
pub enum MaintenanceReply {
    /// Outside maintenance: the request goes on.
    Pass,
    /// An HTML page with the title and the message.
    Html(String),
    /// `403` with the plain message, for JSON clients.
    Forbidden(String),
    /// A bare `<h1>title</h1>`.
    Plain(String),
}

/// The message with each `/n` turned into `<br>`.
pub open spec fn with_breaks(s: Seq<char>) -> Seq<char>
    decreases s.len(),
{
    if s.len() == 0 {
        s
    } else if s.len() >= 2 && s[0] == '/' && s[1] == 'n' {
        "<br>"@ + with_breaks(s.subrange(2, s.len() as int))
    } else {
        seq![s[0]] + with_breaks(s.subrange(1, s.len() as int))
    }
}

/// The maintenance page.
pub open spec fn html_page(title: Seq<char>, msg: Seq<char>) -> Seq<char> {
    "<!DOCTYPE html><html><head><meta charset=\"UTF-8\" /><title>"@ + title + "</title></head><body><div><h1>"@
        + title + "</h1><br><p>"@ + with_breaks(msg) + "</p></div></body></html>"@
}

pub open spec fn plain_page(title: Seq<char>) -> Seq<char> {
    "<h1>"@ + title + "</h1>"@
}

pub open spec fn content_type_name() -> Seq<char> {
    "content-type"@
}

pub open spec fn accept_name() -> Seq<char> {
    "accept"@
}

/// Whether the header `name` lists `media` among its comma-separated items.
pub open spec fn header_lists(hs: Seq<SgHeader>, name: Seq<char>, media: Seq<char>) -> bool {
    match header_value(hs, name) {
        Some(v) => has_piece_spec(v, ',', media),
        None => false,
    }
}

pub open spec fn asks_for(req: SgRequest, media: Seq<char>) -> bool {
    headers_ask_for(req.headers@, media)
}

/// Whether headers `hs` ask for `media`, in `content-type` or `accept`.
pub open spec fn headers_ask_for(hs: Seq<SgHeader>, media: Seq<char>) -> bool {
    header_lists(hs, content_type_name(), media) || header_lists(hs, accept_name(), media)
}

/// `resp` is the maintenance answer of `m` to a request with headers `hs`.
pub open spec fn maintenance_answer(m: SgFilterMaintenance, hs: Seq<SgHeader>, resp: SgResponse) -> bool {
    if headers_ask_for(hs, "text/html"@) {
        &&& resp.status == OK
        &&& resp.body@.content == encode_utf8_text(html_page(m.title@, m.msg@))
        &&& resp.headers@.len() == 1
        &&& resp.headers@[0].name@ == content_type_name()
        &&& resp.headers@[0].value@ == "text/html"@
    } else if headers_ask_for(hs, "application/json"@) {
        &&& resp.status == FORBIDDEN
        &&& resp.body@.content == encode_utf8_text(m.msg@)
        &&& resp.headers@.len() == 0
    } else {
        &&& resp.status == OK
        &&& resp.body@.content == encode_utf8_text(plain_page(m.title@))
        &&& resp.headers@.len() == 0
    }
}

fn with_breaks_from(s: &str, i: usize) -> (r: String)
    requires
        i <= s@.len(),
    ensures
        r@ == with_breaks(s@.subrange(i as int, s@.len() as int)),
    decreases s@.len() - i,
{
    let n = s.unicode_len();
    let ghost t = s@.subrange(i as int, n as int);
    if i == n {
        assert(t.len() == 0);
        return String::new();
    }
    if n - i >= 2 && s.get_char(i) == '/' && s.get_char(i + 1) == 'n' {
        let rest = with_breaks_from(s, i + 2);
        assert(t.subrange(2, t.len() as int) =~= s@.subrange(i + 2, n as int));
        let mut out = String::from_str("<br>");
        out.append(rest.as_str());
        out
    } else {
        let rest = with_breaks_from(s, i + 1);
        assert(t.subrange(1, t.len() as int) =~= s@.subrange(i + 1, n as int));
        let mut out = s.substring_char(i, i + 1).to_owned();
        assert(out@ =~= seq![t[0]]);
        out.append(rest.as_str());
        out
    }
}

fn header_has(req: &SgRequest, name: &str, media: &str) -> (r: bool)
    ensures
        r == header_lists(req.headers@, name@, media@),
{
    match req.header(name) {
        Some(v) => has_piece(v.as_str(), ',', media),
        None => false,
    }
}

impl SgFilterMaintenance {
    /// The plugin with its default title and message, always on.
    pub fn new() -> (r: Self)
        ensures
            r.enabled_time_range.is_none(),
            r.title@ == DEFAULT_TITLE@,
            r.msg@ == DEFAULT_MESSAGE@,
    {
        SgFilterMaintenance {
            enabled_time_range: None,
            title: String::from_str(DEFAULT_TITLE),
            msg: String::from_str(DEFAULT_MESSAGE),
        }
    }

    /// Whether maintenance is on at `time`: always without ranges, else when
    /// one of them contains it.
    pub open spec fn on_at(&self, time: SgTimeOfDay) -> bool {
        match self.enabled_time_range {
            None => true,
            Some(v) => any_range_contains(v@, time),
        }
    }

    pub fn check_by_time(&self, time: SgTimeOfDay) -> (r: bool)
        ensures
            r == self.on_at(time),
    {
        let ranges = match &self.enabled_time_range {
            Some(v) => v,
            None => return true,
        };
        let n = ranges.len();
        let mut i: usize = 0;
        while i < n
            invariant
                n == ranges@.len(),
                self.enabled_time_range == Some(*ranges),
                i <= n,
                forall|j: int| 0 <= j < i ==> !range_contains(#[trigger] ranges@[j], time),
            decreases n - i,
        {
            let r = ranges[i];
            let inside = if r.start.ms > r.end.ms {
                !(r.end.ms <= time.ms && time.ms < r.start.ms)
            } else {
                r.start.ms <= time.ms && time.ms < r.end.ms
            };
            if inside {
                assert(range_contains(ranges@[i as int], time));
                return true;
            }
            i += 1;
        }
        false
    }

    /// The answer to `req` at `time`.
    pub fn req_filter(&self, req: &SgRequest, time: SgTimeOfDay) -> (r: MaintenanceReply)
        ensures
            !self.on_at(time) ==> r is Pass,
            self.on_at(time) ==> if asks_for(*req, "text/html"@) {
                r matches MaintenanceReply::Html(b) && b@ == html_page(self.title@, self.msg@)
            } else if asks_for(*req, "application/json"@) {
                r matches MaintenanceReply::Forbidden(m) && m@ == self.msg@
            } else {
                r matches MaintenanceReply::Plain(b) && b@ == plain_page(self.title@)
            },
    {
        if !self.check_by_time(time) {
            return MaintenanceReply::Pass;
        }
        if header_has(req, "content-type", "text/html") || header_has(req, "accept", "text/html") {
            let mut page = String::from_str("<!DOCTYPE html><html><head><meta charset=\"UTF-8\" /><title>");
            page.append(self.title.as_str());
            page.append("</title></head><body><div><h1>");
            page.append(self.title.as_str());
            page.append("</h1><br><p>");
            let msg = with_breaks_from(self.msg.as_str(), 0);
            assert(self.msg@.subrange(0, self.msg@.len() as int) =~= self.msg@);
            page.append(msg.as_str());
            page.append("</p></div></body></html>");
            MaintenanceReply::Html(page)
        } else if header_has(req, "content-type", "application/json") || header_has(
            req,
            "accept",
            "application/json",
        ) {
            MaintenanceReply::Forbidden(self.msg.clone())
        } else {
            let mut page = String::from_str("<h1>");
            page.append(self.title.as_str());
            page.append("</h1>");
            MaintenanceReply::Plain(page)
        }
    }
}

/// The response for a reply other than `Pass`.
pub fn maintenance_response(reply: &MaintenanceReply, reflect: Reflect) -> (r: Option<SgResponse>)
    requires
        reflect.wf(),
    ensures
        r matches Some(resp) ==> resp.body@.extensions == reflect@,
        match *reply {
            MaintenanceReply::Pass => r.is_none(),
            MaintenanceReply::Html(b) => r matches Some(resp) && resp.wf() && resp.status == OK
                && resp.body@.content == encode_utf8_text(b@) && resp.headers@.len() == 1
                && resp.headers@[0].name@ == content_type_name() && resp.headers@[0].value@ == "text/html"@,
            MaintenanceReply::Forbidden(m) => r matches Some(resp) && resp.wf() && resp.status == FORBIDDEN
                && resp.body@.content == encode_utf8_text(m@) && resp.headers@.len() == 0,
            MaintenanceReply::Plain(b) => r matches Some(resp) && resp.wf() && resp.status == OK
                && resp.body@.content == encode_utf8_text(b@) && resp.headers@.len() == 0,
        },
{
    match reply {
        MaintenanceReply::Pass => None,
        MaintenanceReply::Html(b) => {
            let mut resp = SgResponse::with_code_message(OK, b.as_str(), reflect);
            resp.headers.push(SgHeader { name: String::from_str("content-type"), value: String::from_str("text/html") });
            Some(resp)
        },
        MaintenanceReply::Forbidden(m) => Some(SgResponse::with_code_message(FORBIDDEN, m.as_str(), reflect)),
        MaintenanceReply::Plain(b) => Some(SgResponse::with_code_message(OK, b.as_str(), reflect)),
    }
}

pub open spec fn encode_utf8_text(s: Seq<char>) -> Seq<u8> {
    vstd::utf8::encode_utf8(s)
}

} // verus!

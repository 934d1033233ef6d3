//! What is asked of Cloudflare's API, and what its answers mean.

use vstd::prelude::*;
use vstd::string::*;
use vstd::utf8::encode_utf8;

use crate::config::parts::{header_views, HeaderKey, HeaderPair};
use crate::hysteria2::acme::{
    escaped, url_escape, zone_candidates, zone_candidates_spec, CloudflareAuth,
    CloudflareDnsOptions,
};
use crate::text::{decimal, decimal_text, joined, text_views};

verus! {

pub const CLOUDFLARE_CONNECT_TIMEOUT_SECS: u64 = 10;

pub const CLOUDFLARE_REQUEST_TIMEOUT_SECS: u64 = 30;

/// How long a record may be kept where the configuration does not say: the
/// service decides.
pub const DEFAULT_TTL: u32 = 1;

/// The headers by which a program shows itself.
pub open spec fn auth_headers(auth: CloudflareAuth) -> Seq<HeaderKey> {
    match auth {
        CloudflareAuth::ApiToken(token) => seq![
            HeaderKey { name: "authorization"@, value: "Bearer "@ + token@ },
        ],
        CloudflareAuth::GlobalKey { email, key } => seq![
            HeaderKey { name: "x-auth-email"@, value: email@ },
            HeaderKey { name: "x-auth-key"@, value: key@ },
        ],
    }
}

/// A record to be published.
#[derive(Debug)]
pub struct TxtRecord {
    pub kind: String,
    pub name: String,
    pub content: String,
    pub ttl: u32,
}

/// A record that was published.
#[derive(Debug)]
pub struct CreatedCloudflareDnsRecord {
    pub id: String,
    pub zone_id: String,
}

/// One who talks to Cloudflare.
#[derive(Clone, Debug)]
pub struct CloudflareDnsClient {
    pub auth: CloudflareAuth,
    pub zone_id: Option<String>,
    pub ttl: u32,
}

impl CloudflareDnsClient {
    pub fn new(opts: CloudflareDnsOptions) -> (client: Self)
        ensures
            client.auth == opts.auth,
            client.zone_id == opts.zone_id,
            client.ttl == match opts.ttl {
                Some(ttl) => ttl,
                None => 1,
            },
    {
        let ttl: u32 = match opts.ttl {
            Some(ttl) => ttl,
            None => DEFAULT_TTL,
        };
        Self { auth: opts.auth, zone_id: opts.zone_id, ttl }
    }

    /// The headers that every request carries.
    pub fn apply_auth(&self) -> (headers: Vec<HeaderPair>)
        ensures
            header_views(headers@) == auth_headers(self.auth),
    {
        let mut headers: Vec<HeaderPair> = Vec::new();
        match &self.auth {
            CloudflareAuth::ApiToken(token) => {
                headers.push(
                    HeaderPair {
                        name: "authorization".to_owned(),
                        value: joined("Bearer ", token.as_str()),
                    },
                );
            },
            CloudflareAuth::GlobalKey { email, key } => {
                headers.push(
                    HeaderPair {
                        name: "x-auth-email".to_owned(),
                        value: email.as_str().to_owned(),
                    },
                );
                headers.push(
                    HeaderPair {
                        name: "x-auth-key".to_owned(),
                        value: key.as_str().to_owned(),
                    },
                );
            },
        }
        assert(header_views(headers@) =~= auth_headers(self.auth));
        headers
    }

    /// The record that shows control over a domain.
    pub fn txt_record(&self, name: &str, content: &str) -> (record: TxtRecord)
        ensures
            record.kind@ == "TXT"@,
            record.name@ == name@,
            record.content@ == content@,
            record.ttl == self.ttl,
    {
        TxtRecord {
            kind: "TXT".to_owned(),
            name: name.to_owned(),
            content: content.to_owned(),
            ttl: self.ttl,
        }
    }

    /// Begins to look for the zone of a domain: the configured one, or else
    /// each zone that the domain may lie in, the longest first.
    pub fn zone_search(&self, domain: &str) -> (begun: (ZoneSearch, ZoneStep))
        ensures
            begun.0.domain@ == domain@,
            begun.0.wf(),
            match self.zone_id {
                Some(id) => begun.1 matches ZoneStep::Found(found) && found@ == id@,
                None => {
                    &&& begun.0.asked == 1
                    &&& begun.1 matches ZoneStep::Ask(url)
                    &&& url@ == zone_url(zone_candidates_spec(domain@)[0])
                },
            },
    {
        let candidates = zone_candidates(domain);
        proof {
            candidates_exist(domain@);
        }
        let mut search = ZoneSearch { domain: domain.to_owned(), candidates, asked: 0 };
        match &self.zone_id {
            Some(id) => (search, ZoneStep::Found(id.as_str().to_owned())),
            None => {
                assert(text_views(search.candidates@)[0] == search.candidates@[0]@);
                let url = zone_query(search.candidates[0].as_str());
                search.asked = 1;
                (search, ZoneStep::Ask(url))
            },
        }
    }
}

proof fn candidates_exist(domain: Seq<char>)
    ensures
        zone_candidates_spec(domain).len() > 0,
{
}

/// Where records of a zone are published.
pub fn records_url(zone_id: &str) -> (url: String)
    ensures
        url@ == "https://api.cloudflare.com/client/v4/zones/"@ + zone_id@ + "/dns_records"@,
{
    let mut url = joined("https://api.cloudflare.com/client/v4/zones/", zone_id);
    url.append("/dns_records");
    url
}

/// Where a record that was published can be taken back.
pub fn record_url(record: &CreatedCloudflareDnsRecord) -> (url: String)
    ensures
        url@ == "https://api.cloudflare.com/client/v4/zones/"@ + record.zone_id@ + "/dns_records"@
            + "/"@ + record.id@,
{
    let mut url = records_url(record.zone_id.as_str());
    url.append("/");
    url.append(record.id.as_str());
    url
}

/// Where a zone is asked for by its name.
pub open spec fn zone_url(zone: Seq<char>) -> Seq<char> {
    "https://api.cloudflare.com/client/v4/zones?name="@ + escaped(encode_utf8(zone))
}

fn zone_query(zone: &str) -> (url: String)
    ensures
        url@ == zone_url(zone@),
{
    joined("https://api.cloudflare.com/client/v4/zones?name=", url_escape(zone).as_str())
}

/// What the search for a zone does next.
#[derive(Debug)]
pub enum ZoneStep {
    Ask(String),
    Found(String),
    Fail(String),
}

/// A search for the zone of a domain.
#[derive(Debug)]
pub struct ZoneSearch {
    pub domain: String,
    pub candidates: Vec<String>,
    pub asked: usize,
}

impl ZoneSearch {
    pub open spec fn wf(&self) -> bool {
        &&& text_views(self.candidates@) == zone_candidates_spec(self.domain@)
        &&& self.asked <= self.candidates@.len()
    }

    /// Goes on with the zones of the name that was asked for: the first of them
    /// is the one; without any, the next name is asked for.
    pub fn next(&mut self, zones: &Vec<String>) -> (step: ZoneStep)
        requires
            old(self).wf(),
        ensures
            final(self).wf(),
            final(self).domain == old(self).domain,
            final(self).candidates == old(self).candidates,
            final(self).asked == if step is Ask {
                old(self).asked + 1
            } else {
                old(self).asked as int
            },
            if zones@.len() > 0 {
                step matches ZoneStep::Found(id) && id@ == zones@[0]@
            } else if old(self).asked < old(self).candidates@.len() {
                step matches ZoneStep::Ask(url) && url@ == zone_url(
                    zone_candidates_spec(old(self).domain@)[old(self).asked as int],
                )
            } else {
                step matches ZoneStep::Fail(text) && text@
                    == "failed to discover Cloudflare zone for "@ + old(self).domain@
            },
    {
        if zones.len() > 0 {
            return ZoneStep::Found(zones[0].as_str().to_owned());
        }
        if self.asked < self.candidates.len() {
            assert(text_views(self.candidates@)[self.asked as int]
                == self.candidates@[self.asked as int]@);
            let url = zone_query(self.candidates[self.asked].as_str());
            self.asked = self.asked + 1;
            ZoneStep::Ask(url)
        } else {
            ZoneStep::Fail(
                joined("failed to discover Cloudflare zone for ", self.domain.as_str()),
            )
        }
    }
}

/// An error as the service tells it, with what led to it.
#[derive(Debug)]
pub struct CloudflareError {
    pub code: Option<u64>,
    pub message: String,
    pub error_chain: Vec<CloudflareError>,
}

/// An answer of the service.
#[derive(Debug)]
pub struct CloudflareResponse<T> {
    pub success: bool,
    pub result: Option<T>,
    pub errors: Vec<CloudflareError>,
}

/// An error in words: its code, its message and, in brackets, what led to it.
pub open spec fn error_text(error: CloudflareError) -> Seq<char>
    decreases error, 0int,
{
    let own = match error.code {
        Some(code) => decimal_text(code as nat) + ": "@ + error.message@,
        None => error.message@,
    };
    if error.error_chain@.len() > 0 {
        own + " ("@ + errors_text(error.error_chain, error.error_chain@.len()) + ")"@
    } else {
        own
    }
}

/// The first `count` errors in words, with semicolons between them.
pub open spec fn errors_text(errors: Vec<CloudflareError>, count: nat) -> Seq<char>
    decreases errors, count,
{
    if count == 0 || count > errors@.len() {
        Seq::empty()
    } else if count == 1 {
        error_text(errors[0])
    } else {
        errors_text(errors, (count - 1) as nat) + "; "@ + error_text(errors[count - 1])
    }
}

pub fn format_cloudflare_error(err: &CloudflareError) -> (text: String)
    ensures
        text@ == error_text(*err),
    decreases err, 0int,
{
    let mut text = match err.code {
        Some(code) => {
            let mut text = decimal(code);
            text.append(": ");
            text.append(err.message.as_str());
            text
        },
        None => err.message.as_str().to_owned(),
    };
    if err.error_chain.len() > 0 {
        let chain = format_cloudflare_errors(&err.error_chain);
        text.append(" (");
        text.append(chain.as_str());
        text.append(")");
    }
    text
}

fn format_cloudflare_errors(errors: &Vec<CloudflareError>) -> (text: String)
    ensures
        text@ == errors_text(*errors, errors@.len()),
    decreases errors, 1int,
{
    let mut text = String::new();
    let mut i: usize = 0;
    while i < errors.len()
        invariant
            i <= errors@.len(),
            text@ == errors_text(*errors, i as nat),
        decreases errors@.len() - i,
    {
        if i > 0 {
            text.append("; ");
        }
        let one = format_cloudflare_error(&errors[i]);
        let ghost before = text@;
        text.append(one.as_str());
        assert(i == 0 ==> text@ =~= one@);
        i += 1;
    }
    text
}

/// The errors of an answer in words.
pub open spec fn answer_errors(errors: Vec<CloudflareError>) -> Seq<char> {
    if errors@.len() == 0 {
        "unknown error"@
    } else {
        errors_text(errors, errors@.len())
    }
}

impl<T> CloudflareResponse<T> {
    pub fn error_message(&self) -> (text: String)
        ensures
            text@ == answer_errors(self.errors),
    {
        if self.errors.len() == 0 {
            "unknown error".to_owned()
        } else {
            format_cloudflare_errors(&self.errors)
        }
    }

    /// What an answer that came with `status` gives.
    pub fn judge(self, status: u16) -> (result: Result<T, String>)
        ensures
            match result {
                Ok(value) => 200 <= status < 300 && self.success && self.result == Some(value),
                Err(text) => if !(200 <= status < 300) || !self.success {
                    text@ == "Cloudflare API error: "@ + answer_errors(self.errors)
                } else {
                    &&& self.result is None
                    &&& text@ == "Cloudflare API success response missing result"@
                },
            },
    {
        if status < 200 || status >= 300 || !self.success {
            return Err(joined("Cloudflare API error: ", self.error_message().as_str()));
        }
        match self.result {
            Some(value) => Ok(value),
            None => Err("Cloudflare API success response missing result".to_owned()),
        }
    }
}

} // verus!

//! Connection metadata, gathered from the backend's two description endpoints.

use vstd::prelude::*;

use crate::text;

verus! {

/// Connection metadata gathered before a session.
#[derive(Clone, Debug)]
pub struct Metadata {
    pub client_ip: Option<String>,
    pub country: Option<String>,
    pub region: Option<String>,
    pub city: Option<String>,
    pub postal_code: Option<String>,
    pub latitude: Option<String>,
    pub longitude: Option<String>,
    pub asn: Option<u32>,
    pub as_organization: Option<String>,
    pub colo: Option<String>,
    pub http_protocol: Option<String>,
    pub tls: Option<String>,
}

/// The contents of [`Metadata`].
#[verifier::ext_equal]
pub struct MetadataView {
    pub client_ip: Option<Seq<char>>,
    pub country: Option<Seq<char>>,
    pub region: Option<Seq<char>>,
    pub city: Option<Seq<char>>,
    pub postal_code: Option<Seq<char>>,
    pub latitude: Option<Seq<char>>,
    pub longitude: Option<Seq<char>>,
    pub asn: Option<u32>,
    pub as_organization: Option<Seq<char>>,
    pub colo: Option<Seq<char>>,
    pub http_protocol: Option<Seq<char>>,
    pub tls: Option<Seq<char>>,
}

impl View for Metadata {
    type V = MetadataView;

    open spec fn view(&self) -> MetadataView {
        MetadataView {
            client_ip: text::opt(self.client_ip),
            country: text::opt(self.country),
            region: text::opt(self.region),
            city: text::opt(self.city),
            postal_code: text::opt(self.postal_code),
            latitude: text::opt(self.latitude),
            longitude: text::opt(self.longitude),
            asn: self.asn,
            as_organization: text::opt(self.as_organization),
            colo: text::opt(self.colo),
            http_protocol: text::opt(self.http_protocol),
            tls: text::opt(self.tls),
        }
    }
}

/// Metadata of which nothing is known.
pub open spec fn unknown() -> MetadataView {
    MetadataView {
        client_ip: None,
        country: None,
        region: None,
        city: None,
        postal_code: None,
        latitude: None,
        longitude: None,
        asn: None,
        as_organization: None,
        colo: None,
        http_protocol: None,
        tls: None,
    }
}

impl Default for Metadata {
    fn default() -> (md: Metadata)
        ensures
            md@ == unknown(),
    {
        Metadata {
            client_ip: None,
            country: None,
            region: None,
            city: None,
            postal_code: None,
            latitude: None,
            longitude: None,
            asn: None,
            as_organization: None,
            colo: None,
            http_protocol: None,
            tls: None,
        }
    }
}

/// The backend names its location either by a bare IATA code or by an object that may
/// hold one.
#[derive(Clone, Debug, Default)]
pub enum ColoField {
    Object { iata: Option<String> },
    Code(String),
    #[default]
    Absent,
}

impl ColoField {
    /// The code that the field holds.
    pub open spec fn iata(self) -> Option<Seq<char>> {
        match self {
            ColoField::Object { iata } => text::opt(iata),
            ColoField::Code(s) => Some(s@),
            ColoField::Absent => None,
        }
    }

    /// Takes the code out of the field.
    pub fn into_iata(self) -> (code: Option<String>)
        ensures
            text::opt(code) == self.iata(),
    {
        match self {
            ColoField::Object { iata } => iata,
            ColoField::Code(s) => Some(s),
            ColoField::Absent => None,
        }
    }
}

/// The body of the `meta` endpoint.
#[derive(Clone, Debug)]
pub struct MetaJson {
    pub as_organization: Option<String>,
    pub asn: Option<u32>,
    pub colo: ColoField,
    pub country: Option<String>,
    pub city: Option<String>,
    pub region: Option<String>,
    pub postal_code: Option<String>,
    pub latitude: Option<String>,
    pub longitude: Option<String>,
    pub client_ip: Option<String>,
    pub http_protocol: Option<String>,
}

/// An answer of the `meta` endpoint: the HTTP version it came by, and the body where it
/// could be read.
#[derive(Clone, Debug)]
pub struct MetaReply {
    pub http_version: String,
    pub body: Option<MetaJson>,
}

/// What an answer of the `meta` endpoint tells. The HTTP version is that of the
/// connection, whatever the body says of it.
pub open spec fn told_by_meta(reply: Option<MetaReply>) -> MetadataView {
    match reply {
        None => unknown(),
        Some(r) => match r.body {
            None => MetadataView { http_protocol: Some(r.http_version@), ..unknown() },
            Some(b) => MetadataView {
                client_ip: text::opt(b.client_ip),
                country: text::opt(b.country),
                region: text::opt(b.region),
                city: text::opt(b.city),
                postal_code: text::opt(b.postal_code),
                latitude: text::opt(b.latitude),
                longitude: text::opt(b.longitude),
                asn: b.asn,
                as_organization: text::opt(b.as_organization),
                colo: b.colo.iata(),
                http_protocol: Some(r.http_version@),
                tls: None,
            },
        },
    }
}

impl Metadata {
    /// Starts the metadata from the answer of the `meta` endpoint, if there was one.
    pub fn from_meta(reply: Option<MetaReply>) -> (md: Metadata)
        ensures
            md@ == told_by_meta(reply),
    {
        let mut md = Metadata::default();
        if let Some(reply) = reply {
            md.http_protocol = Some(reply.http_version);
            if let Some(meta) = reply.body {
                md.as_organization = meta.as_organization;
                md.asn = meta.asn;
                md.colo = meta.colo.into_iata();
                md.country = meta.country;
                md.city = meta.city;
                md.region = meta.region;
                md.postal_code = meta.postal_code;
                md.latitude = meta.latitude;
                md.longitude = meta.longitude;
                md.client_ip = meta.client_ip;
            }
        }
        md
    }

    /// Metadata from both endpoints: what the first leaves open, the second fills in.
    pub fn gather(reply: Option<MetaReply>, trace: &str) -> (md: Metadata)
        ensures
            md@ == traced(told_by_meta(reply), lines(trace@)),
    {
        let mut md = Metadata::from_meta(reply);
        parse_trace_into(trace, &mut md);
        md
    }
}

/// The index of the first `c`, or the length where there is none.
pub open spec fn position(s: Seq<char>, c: char) -> nat
    decreases s.len(),
{
    if s.len() == 0 || s[0] == c {
        0
    } else {
        1 + position(s.drop_first(), c)
    }
}

/// A line without the carriage return that belongs to its line break.
pub open spec fn without_return(line: Seq<char>) -> Seq<char> {
    if line.len() > 0 && line.last() == '\r' {
        line.drop_last()
    } else {
        line
    }
}

/// The lines of a text. A line ends at a line feed, which a carriage return may precede;
/// the last line needs no end.
pub open spec fn lines(s: Seq<char>) -> Seq<Seq<char>>
    decreases s.len(),
{
    let k = position(s, '\n') as int;
    if s.len() == 0 {
        Seq::empty()
    } else if k >= s.len() {
        seq![s]
    } else {
        seq![without_return(s.take(k))] + lines(s.skip(k + 1))
    }
}

/// `known` where there is one, else `found`.
pub open spec fn keep_or(known: Option<Seq<char>>, found: Seq<char>) -> Option<Seq<char>> {
    match known {
        Some(v) => Some(v),
        None => Some(found),
    }
}

/// What one `key=value` line adds to the metadata. A line without `=` or with another key
/// adds nothing, and what is known stays.
pub open spec fn traced_line(md: MetadataView, line: Seq<char>) -> MetadataView {
    let k = position(line, '=') as int;
    let key = line.take(k);
    let value = line.skip(k + 1);
    if k >= line.len() {
        md
    } else if key == "ip"@ {
        MetadataView { client_ip: keep_or(md.client_ip, value), ..md }
    } else if key == "loc"@ {
        MetadataView { country: keep_or(md.country, value), ..md }
    } else if key == "colo"@ {
        MetadataView { colo: keep_or(md.colo, value), ..md }
    } else if key == "tls"@ {
        MetadataView { tls: keep_or(md.tls, value), ..md }
    } else if key == "http"@ {
        MetadataView { http_protocol: keep_or(md.http_protocol, value), ..md }
    } else {
        md
    }
}

/// What the lines add to the metadata, one after the other.
pub open spec fn traced(md: MetadataView, ls: Seq<Seq<char>>) -> MetadataView
    decreases ls.len(),
{
    if ls.len() == 0 {
        md
    } else {
        traced(traced_line(md, ls[0]), ls.drop_first())
    }
}

proof fn lemma_position(s: Seq<char>, c: char, k: int)
    requires
        0 <= k <= s.len(),
        forall|i: int| 0 <= i < k ==> s[i] != c,
        k < s.len() ==> s[k] == c,
    ensures
        position(s, c) == k,
    decreases s.len(),
{
    if k > 0 {
        let t = s.drop_first();
        assert forall|i: int| 0 <= i < k - 1 implies t[i] != c by {
            assert(t[i] == s[i + 1]);
        }
        assert(s[0] != c);
        lemma_position(t, c, k - 1);
    }
}

fn find(chars: &Vec<char>, from: usize, to: usize, c: char) -> (k: usize)
    requires
        from <= to <= chars.len(),
    ensures
        from <= k <= to,
        k == from + position(chars@.subrange(from as int, to as int), c),
{
    let mut k: usize = from;
    while k < to && chars[k] != c
        invariant
            from <= k <= to <= chars.len(),
            forall|i: int| from <= i < k ==> chars@[i] != c,
        decreases to - k,
    {
        k = k + 1;
    }
    proof {
        let s = chars@.subrange(from as int, to as int);
        assert forall|i: int| 0 <= i < k - from implies s[i] != c by {
            assert(s[i] == chars@[from + i]);
        }
        assert(k < to ==> s[k - from] == chars@[k as int]);
        lemma_position(s, c, k - from);
    }
    k
}

/// `known` where there is one, else `found`.
fn fill(known: Option<String>, found: &str) -> (r: Option<String>)
    ensures
        text::opt(r) == keep_or(text::opt(known), found@),
{
    match known {
        Some(v) => Some(v),
        None => Some(found.to_owned()),
    }
}

fn parse_trace_line(key: &str, value: &str, md: Metadata) -> (r: Metadata)
    ensures
        r@ == (if key@ == "ip"@ {
            MetadataView { client_ip: keep_or(md@.client_ip, value@), ..md@ }
        } else if key@ == "loc"@ {
            MetadataView { country: keep_or(md@.country, value@), ..md@ }
        } else if key@ == "colo"@ {
            MetadataView { colo: keep_or(md@.colo, value@), ..md@ }
        } else if key@ == "tls"@ {
            MetadataView { tls: keep_or(md@.tls, value@), ..md@ }
        } else if key@ == "http"@ {
            MetadataView { http_protocol: keep_or(md@.http_protocol, value@), ..md@ }
        } else {
            md@
        }),
{
    if text::same_text(key, "ip") {
        Metadata { client_ip: fill(md.client_ip, value), ..md }
    } else if text::same_text(key, "loc") {
        Metadata { country: fill(md.country, value), ..md }
    } else if text::same_text(key, "colo") {
        Metadata { colo: fill(md.colo, value), ..md }
    } else if text::same_text(key, "tls") {
        Metadata { tls: fill(md.tls, value), ..md }
    } else if text::same_text(key, "http") {
        Metadata { http_protocol: fill(md.http_protocol, value), ..md }
    } else {
        md
    }
}

/// Fills in metadata from the `key=value` lines of the `trace` endpoint.
pub fn parse_trace_into(trace: &str, md: &mut Metadata)
    ensures
        final(md)@ == traced(old(md)@, lines(trace@)),
{
    let chars = text::chars_of(trace);
    let mut known = Metadata::default();
    std::mem::swap(&mut known, md);
    let ghost before = known@;
    let mut at: usize = 0;
    assert(chars@.skip(0) =~= chars@);
    while at < chars.len()
        invariant
            at <= chars.len(),
            chars@ == trace@,
            traced(before, lines(trace@)) == traced(known@, lines(chars@.skip(at as int))),
        decreases chars.len() - at,
    {
        let end: usize = find(&chars, at, chars.len(), '\n');
        let ghost rest = chars@.skip(at as int);
        assert(chars@.subrange(at as int, chars.len() as int) =~= rest);
        let stop: usize = if end < chars.len() && at < end && chars[end - 1] == '\r' {
            end - 1
        } else {
            end
        };
        let next: usize = if end < chars.len() {
            end + 1
        } else {
            end
        };
        let ghost line = chars@.subrange(at as int, stop as int);
        proof {
            let k = (end - at) as int;
            assert(position(rest, '\n') == k);
            if end < chars.len() {
                assert(rest.take(k) =~= chars@.subrange(at as int, end as int));
                assert(without_return(rest.take(k)) =~= line);
                assert(rest.skip(k + 1) =~= chars@.skip(next as int));
                assert(lines(rest) =~= seq![line] + lines(chars@.skip(next as int)));
            } else {
                assert(rest =~= line);
                assert(chars@.skip(next as int) =~= Seq::<char>::empty());
                assert(lines(chars@.skip(next as int)) =~= Seq::<Seq<char>>::empty());
                assert(lines(rest) =~= seq![line] + lines(chars@.skip(next as int)));
            }
            assert(lines(rest)[0] == line);
            assert(lines(rest).drop_first() =~= lines(chars@.skip(next as int)));
        }
        let split: usize = find(&chars, at, stop, '=');
        if split < stop {
            let key = trace.substring_char(at, split);
            let value = trace.substring_char(split + 1, stop);
            assert(key@ =~= line.take(split - at));
            assert(value@ =~= line.skip(split - at + 1));
            known = parse_trace_line(key, value, known);
        }
        at = next;
    }
    assert(chars@.skip(at as int) =~= Seq::<char>::empty());
    assert(lines(chars@.skip(at as int)) =~= Seq::<Seq<char>>::empty());
    *md = known;
}

/// What is known before the trace is read stays as it is.
pub proof fn law_trace_keeps_what_is_known(md: MetadataView, ls: Seq<Seq<char>>)
    ensures
        md.client_ip is Some ==> traced(md, ls).client_ip == md.client_ip,
        md.country is Some ==> traced(md, ls).country == md.country,
        md.colo is Some ==> traced(md, ls).colo == md.colo,
        md.tls is Some ==> traced(md, ls).tls == md.tls,
        md.http_protocol is Some ==> traced(md, ls).http_protocol == md.http_protocol,
        traced(md, ls).region == md.region,
        traced(md, ls).city == md.city,
        traced(md, ls).postal_code == md.postal_code,
        traced(md, ls).latitude == md.latitude,
        traced(md, ls).longitude == md.longitude,
        traced(md, ls).asn == md.asn,
        traced(md, ls).as_organization == md.as_organization,
    decreases ls.len(),
{
    if ls.len() > 0 {
        law_trace_keeps_what_is_known(traced_line(md, ls[0]), ls.drop_first());
    }
}

/// Reading the same trace again changes nothing.
pub proof fn law_trace_is_idempotent(md: MetadataView, ls: Seq<Seq<char>>)
    ensures
        traced(traced(md, ls), ls) == traced(md, ls),
{
    lemma_trace_settles(md, ls);
    lemma_settled(traced(md, ls), ls);
}

/// A line tells nothing that is not already known.
spec fn told(md: MetadataView, line: Seq<char>) -> bool {
    traced_line(md, line) == md
}

proof fn lemma_settled(md: MetadataView, ls: Seq<Seq<char>>)
    requires
        forall|i: int| 0 <= i < ls.len() ==> told(md, #[trigger] ls[i]),
    ensures
        traced(md, ls) == md,
    decreases ls.len(),
{
    if ls.len() > 0 {
        assert(told(md, ls[0]));
        let rest = ls.drop_first();
        assert forall|i: int| 0 <= i < rest.len() implies told(md, #[trigger] rest[i]) by {
            assert(rest[i] == ls[i + 1]);
        }
        lemma_settled(md, rest);
    }
}

/// Once a line was read, it tells nothing new, then or later.
proof fn lemma_stays_told(md: MetadataView, line: Seq<char>, ls: Seq<Seq<char>>)
    requires
        told(md, line),
    ensures
        told(traced(md, ls), line),
    decreases ls.len(),
{
    if ls.len() > 0 {
        assert(told(traced_line(md, ls[0]), line));
        lemma_stays_told(traced_line(md, ls[0]), line, ls.drop_first());
    }
}

proof fn lemma_trace_settles(md: MetadataView, ls: Seq<Seq<char>>)
    ensures
        forall|i: int| 0 <= i < ls.len() ==> told(traced(md, ls), #[trigger] ls[i]),
    decreases ls.len(),
{
    if ls.len() > 0 {
        let next = traced_line(md, ls[0]);
        let rest = ls.drop_first();
        lemma_trace_settles(next, rest);
        assert(told(next, ls[0]));
        lemma_stays_told(next, ls[0], rest);
        assert forall|i: int| 0 <= i < ls.len() implies told(traced(md, ls), #[trigger] ls[i]) by {
            if i > 0 {
                assert(ls[i] == rest[i - 1]);
            }
        }
    }
}

/// A text is its lines: what stands before a line feed, without the carriage return before
/// it, is a line, and then come the lines of what follows. What is left without a line feed
/// is the last line, unless there is nothing left.
pub proof fn law_lines(line: Seq<char>, rest: Seq<char>)
    requires
        forall|i: int| 0 <= i < line.len() ==> #[trigger] line[i] != '\n',
    ensures
        lines(Seq::<char>::empty()) == Seq::<Seq<char>>::empty(),
        line.len() > 0 ==> lines(line) == seq![line],
        ({
            let shown = if line.len() > 0 && line[line.len() - 1] == '\r' {
                line.take(line.len() - 1)
            } else {
                line
            };
            lines(line + seq!['\n'] + rest) == seq![shown] + lines(rest)
        }),
{
    lemma_position(line, '\n', line.len() as int);
    let whole = line + seq!['\n'] + rest;
    let k = line.len() as int;
    assert forall|i: int| 0 <= i < k implies whole[i] != '\n' by {
        assert(whole[i] == line[i]);
    }
    lemma_position(whole, '\n', k);
    assert(whole.take(k) =~= line);
    assert(whole.skip(k + 1) =~= rest);
    if line.len() > 0 {
        assert(line.drop_last() =~= line.take(line.len() - 1));
    }
}

/// What stands before the first `=` of a line is its key.
proof fn lemma_key(key: Seq<char>, value: Seq<char>)
    requires
        forall|i: int| 0 <= i < key.len() ==> #[trigger] key[i] != '=',
    ensures
        ({
            let line = key + seq!['='] + value;
            &&& position(line, '=') == key.len()
            &&& key.len() < line.len()
            &&& line.take(key.len() as int) == key
            &&& line.skip(key.len() as int + 1) == value
        }),
{
    let line = key + seq!['='] + value;
    assert forall|i: int| 0 <= i < key.len() implies line[i] != '=' by {
        assert(line[i] == key[i]);
    }
    lemma_position(line, '=', key.len() as int);
    assert(line.take(key.len() as int) =~= key);
    assert(line.skip(key.len() as int + 1) =~= value);
}

/// A line of a known key stores its value in full, whatever characters it holds, in the field
/// of the key and in no other: the key, `=` and what is stored make up the line. What was
/// known stays.
pub proof fn law_trace_line(md: MetadataView, value: Seq<char>)
    ensures
        ({
            let v = if md.client_ip is Some {
                md.client_ip
            } else {
                Some(value)
            };
            traced_line(md, "ip"@ + seq!['='] + value) == (MetadataView { client_ip: v, ..md })
        }),
        ({
            let v = if md.country is Some {
                md.country
            } else {
                Some(value)
            };
            traced_line(md, "loc"@ + seq!['='] + value) == (MetadataView { country: v, ..md })
        }),
        ({
            let v = if md.colo is Some {
                md.colo
            } else {
                Some(value)
            };
            traced_line(md, "colo"@ + seq!['='] + value) == (MetadataView { colo: v, ..md })
        }),
        ({
            let v = if md.tls is Some {
                md.tls
            } else {
                Some(value)
            };
            traced_line(md, "tls"@ + seq!['='] + value) == (MetadataView { tls: v, ..md })
        }),
        ({
            let v = if md.http_protocol is Some {
                md.http_protocol
            } else {
                Some(value)
            };
            traced_line(md, "http"@ + seq!['='] + value) == (MetadataView {
                http_protocol: v,
                ..md
            })
        }),
{
    reveal_strlit("ip");
    reveal_strlit("loc");
    reveal_strlit("colo");
    reveal_strlit("tls");
    reveal_strlit("http");
    lemma_key("ip"@, value);
    lemma_key("loc"@, value);
    lemma_key("colo"@, value);
    lemma_key("tls"@, value);
    lemma_key("http"@, value);
    assert("ip"@.len() == 2 && "loc"@.len() == 3 && "colo"@.len() == 4 && "tls"@.len() == 3
        && "http"@.len() == 4);
    assert("loc"@[0] != "tls"@[0]);
    assert("colo"@[0] != "http"@[0]);
}

/// A line without `=`, or with another key, tells nothing.
pub proof fn law_trace_line_of_no_use(md: MetadataView, key: Seq<char>, value: Seq<char>)
    requires
        forall|i: int| 0 <= i < key.len() ==> #[trigger] key[i] != '=',
    ensures
        traced_line(md, key) == md,
        key != "ip"@ && key != "loc"@ && key != "colo"@ && key != "tls"@ && key != "http"@
            ==> traced_line(md, key + seq!['='] + value) == md,
{
    lemma_position(key, '=', key.len() as int);
    lemma_key(key, value);
}

/// The lines of a trace count one after the other.
pub proof fn law_trace_goes_by_lines(md: MetadataView, a: Seq<Seq<char>>, b: Seq<Seq<char>>)
    ensures
        traced(md, a + b) == traced(traced(md, a), b),
        a.len() == 0 ==> traced(md, a) == md,
        a.len() == 1 ==> traced(md, a) == traced_line(md, a[0]),
    decreases a.len(),
{
    if a.len() == 0 {
        assert(a + b =~= b);
    } else {
        law_trace_goes_by_lines(traced_line(md, a[0]), a.drop_first(), b);
        assert((a + b).drop_first() =~= a.drop_first() + b);
        assert((a + b)[0] == a[0]);
        if a.len() == 1 {
            assert(a.drop_first().len() == 0);
        }
    }
}

/// Of an answer of the `meta` endpoint each field is taken over under its name. The HTTP
/// version is that of the connection; nothing is told of TLS. No answer tells nothing.
pub proof fn law_meta(reply: Option<MetaReply>)
    ensures
        ({
            let md = told_by_meta(reply);
            &&& md.tls is None
            &&& reply is None ==> md == unknown()
            &&& reply is Some ==> md.http_protocol == Some(reply->0.http_version@)
            &&& reply is Some && reply->0.body is None ==> md == (MetadataView {
                http_protocol: md.http_protocol,
                ..unknown()
            })
            &&& reply is Some && reply->0.body is Some ==> {
                let b = reply->0.body->0;
                &&& md.as_organization == text::opt(b.as_organization)
                &&& md.asn == b.asn
                &&& md.country == text::opt(b.country)
                &&& md.city == text::opt(b.city)
                &&& md.region == text::opt(b.region)
                &&& md.postal_code == text::opt(b.postal_code)
                &&& md.latitude == text::opt(b.latitude)
                &&& md.longitude == text::opt(b.longitude)
                &&& md.client_ip == text::opt(b.client_ip)
                &&& b.colo matches ColoField::Code(s) ==> md.colo == Some(s@)
                &&& b.colo matches ColoField::Object { iata } ==> md.colo == text::opt(iata)
                &&& b.colo is Absent ==> md.colo is None
            }
        }),
        ({
            let u = unknown();
            &&& u.client_ip is None && u.country is None && u.region is None && u.city is None
            &&& u.postal_code is None && u.latitude is None && u.longitude is None
            &&& u.asn is None && u.as_organization is None && u.colo is None
            &&& u.http_protocol is None && u.tls is None
        }),
{
}

/// A text that may be missing, by what it says.
pub open spec fn says_same(held: Option<String>, told: Option<Seq<char>>) -> bool {
    &&& held is Some <==> told is Some
    &&& held is Some ==> told->0 == held->0@
}

/// What is told of a connection is what is held of it, each thing in its own place.
pub proof fn law_view(md: Metadata)
    ensures
        says_same(md.client_ip, md@.client_ip),
        says_same(md.as_organization, md@.as_organization),
        says_same(md.country, md@.country),
        says_same(md.region, md@.region),
        says_same(md.city, md@.city),
        says_same(md.postal_code, md@.postal_code),
        says_same(md.latitude, md@.latitude),
        says_same(md.longitude, md@.longitude),
        says_same(md.colo, md@.colo),
        says_same(md.http_protocol, md@.http_protocol),
        says_same(md.tls, md@.tls),
        md@.asn == md.asn,
{
}

}

use speedt::metadata::{parse_trace_into, ColoField, MetaJson, MetaReply, Metadata};

fn known(s: &str) -> Option<String> {
    Some(s.to_string())
}

fn body(colo: ColoField) -> MetaJson {
    MetaJson {
        as_organization: known("Example Net"),
        asn: Some(64500),
        colo,
        country: known("RS"),
        city: known("Belgrade"),
        region: known("Vojvodina"),
        postal_code: known("11000"),
        latitude: known("44.8"),
        longitude: known("20.4"),
        client_ip: known("192.0.2.1"),
        http_protocol: known("HTTP/1.1"),
    }
}

fn same(a: &Metadata, b: &Metadata) -> bool {
    format!("{:?}", a) == format!("{:?}", b)
}

#[test]
fn colo_comes_as_a_code_or_an_object() {
    assert_eq!(ColoField::Code("BEG".to_string()).into_iata(), known("BEG"));
    assert_eq!(ColoField::Object { iata: known("BEG") }.into_iata(), known("BEG"));
    assert_eq!(ColoField::Object { iata: None }.into_iata(), None);
    assert_eq!(ColoField::Absent.into_iata(), None);
    assert_eq!(ColoField::default().into_iata(), None);
}

#[test]
fn nothing_is_known_at_first() {
    let md = Metadata::default();
    assert!(md.client_ip.is_none() && md.country.is_none() && md.region.is_none());
    assert!(md.city.is_none() && md.postal_code.is_none() && md.latitude.is_none());
    assert!(md.longitude.is_none() && md.asn.is_none() && md.as_organization.is_none());
    assert!(md.colo.is_none() && md.http_protocol.is_none() && md.tls.is_none());
    assert!(same(&md, &Metadata::from_meta(None)));
}

#[test]
fn the_meta_answer_is_taken_over() {
    let reply = MetaReply {
        http_version: "HTTP/2.0".to_string(),
        body: Some(body(ColoField::Code("BEG".to_string()))),
    };
    let md = Metadata::from_meta(Some(reply));
    assert_eq!(md.as_organization, known("Example Net"));
    assert_eq!(md.asn, Some(64500));
    assert_eq!(md.colo, known("BEG"));
    assert_eq!(md.country, known("RS"));
    assert_eq!(md.city, known("Belgrade"));
    assert_eq!(md.region, known("Vojvodina"));
    assert_eq!(md.postal_code, known("11000"));
    assert_eq!(md.latitude, known("44.8"));
    assert_eq!(md.longitude, known("20.4"));
    assert_eq!(md.client_ip, known("192.0.2.1"));
    // The version of the connection, not the one that the body names.
    assert_eq!(md.http_protocol, known("HTTP/2.0"));
    assert_eq!(md.tls, None);
}

#[test]
fn a_meta_answer_without_a_readable_body() {
    let md = Metadata::from_meta(Some(MetaReply { http_version: "HTTP/2.0".to_string(), body: None }));
    assert_eq!(md.http_protocol, known("HTTP/2.0"));
    assert_eq!(md.asn, None);
    assert_eq!(md.colo, None);
}

#[test]
fn the_trace_fills_in_what_is_missing() {
    let trace = "fl=1\nip=203.0.113.9\nts=1.5\nloc=DE\ncolo=FRA\ntls=TLSv1.3\nhttp=http/2\nwarp=off\n";
    let md = Metadata::gather(None, trace);
    assert_eq!(md.client_ip, known("203.0.113.9"));
    assert_eq!(md.country, known("DE"));
    assert_eq!(md.colo, known("FRA"));
    assert_eq!(md.tls, known("TLSv1.3"));
    assert_eq!(md.http_protocol, known("http/2"));
    assert_eq!(md.city, None);
}

#[test]
fn the_trace_keeps_what_is_known() {
    let reply = MetaReply {
        http_version: "HTTP/2.0".to_string(),
        body: Some(body(ColoField::Object { iata: None })),
    };
    let md = Metadata::gather(Some(reply), "ip=203.0.113.9\nloc=DE\ncolo=FRA\ntls=TLSv1.3\nhttp=x");
    assert_eq!(md.client_ip, known("192.0.2.1"));
    assert_eq!(md.country, known("RS"));
    assert_eq!(md.colo, known("FRA"));
    assert_eq!(md.tls, known("TLSv1.3"));
    assert_eq!(md.http_protocol, known("HTTP/2.0"));
}

#[test]
fn lines_of_a_trace() {
    // Carriage returns belong to the line break; values may be empty or hold `=`; the last
    // line needs no end; the first of two lines with one key counts.
    let mut md = Metadata::default();
    parse_trace_into("ip=a=b\r\nloc=\r\n\r\nnonsense\ntls =x\n=y\ntls=one\ntls=two\nhttp=z\r", &mut md);
    assert_eq!(md.client_ip, known("a=b"));
    assert_eq!(md.country, known(""));
    assert_eq!(md.tls, known("one"));
    assert_eq!(md.http_protocol, known("z\r"));
    assert_eq!(md.colo, None);
}

#[test]
fn lines_agree_with_std() {
    for trace in ["", "\n", "\r\n", "tls=é=ü\ncolo=日本", "ip=1\rloc=2\n", "http=a\r\r\nip=b", "colo="] {
        let mut expected = Metadata::default();
        for line in trace.lines() {
            if let Some((k, v)) = line.split_once('=') {
                let field = match k {
                    "ip" => &mut expected.client_ip,
                    "loc" => &mut expected.country,
                    "colo" => &mut expected.colo,
                    "tls" => &mut expected.tls,
                    "http" => &mut expected.http_protocol,
                    _ => continue,
                };
                field.get_or_insert_with(|| v.to_string());
            }
        }
        let mut md = Metadata::default();
        parse_trace_into(trace, &mut md);
        assert!(same(&md, &expected), "{:?} {:?}", md, expected);
    }
}

#[test]
fn reading_a_trace_again_changes_nothing() {
    let trace = "ip=1\nip=2\nloc=X\ntls=T\n";
    let mut md = Metadata::default();
    parse_trace_into(trace, &mut md);
    let once = md.clone();
    parse_trace_into(trace, &mut md);
    assert!(same(&once, &md));
}

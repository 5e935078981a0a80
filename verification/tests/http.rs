use revolver::art::cache::{ArtCache, CachedArt};
use revolver::http::art::{art_outcome, cached_reply, serve, ArtBody, ArtOutcome};
use revolver::http::gena::{
    build_initial_propertyset, handle_event, parse_first_callback, parse_timeout, refreshed, refuse,
    registered, unsubscribed, EventAction, EventRequest, ServiceId, DEFAULT_TIMEOUT_SECS,
    MAX_SUBSCRIPTIONS, MAX_TIMEOUT_SECS, MIN_TIMEOUT_SECS,
};
use revolver::http::soap_ctrl::control_reply;
use revolver::http::stream::{is_play_start, parse_range, RangeParse};
use revolver::http::{admin_csrf_guard, extract_origin_host, Address, HttpError, Origin};
use revolver::ssdp::{
    delay_limit_ms, format_alive_notify, format_byebye_notify, format_msearch_response,
    parse_msearch, respond_msearch, response_delay_ms, Device, MSearch, MX_CAP_SECS,
};
use revolver::upnp::usn::NtTarget;

// ── Subscriptions ────────────────────────────────────────────────────────

#[test]
fn pc1_parse_first_callback_single_url() {
    assert_eq!(
        parse_first_callback("<http://192.168.0.1:9999/cb>"),
        Some("http://192.168.0.1:9999/cb".to_string())
    );
}

#[test]
fn pc2_parse_first_callback_takes_first_of_many() {
    assert_eq!(
        parse_first_callback("<http://a/cb1> <http://b/cb2>"),
        Some("http://a/cb1".to_string())
    );
}

#[test]
fn pc3_parse_first_callback_rejects_malformed() {
    assert_eq!(parse_first_callback("not a url"), None);
    assert_eq!(parse_first_callback("<>"), None);
    assert_eq!(parse_first_callback("<http://no-close"), None);
}

#[test]
fn pt1_parse_timeout_normal() {
    assert_eq!(parse_timeout(Some("Second-1800")), 1800);
}

#[test]
fn pt2_parse_timeout_clamped() {
    assert_eq!(parse_timeout(Some("Second-10")), MIN_TIMEOUT_SECS);
    assert_eq!(parse_timeout(Some("Second-99999")), MAX_TIMEOUT_SECS);
}

#[test]
fn pt3_parse_timeout_infinite_falls_back_to_default() {
    assert_eq!(parse_timeout(Some("Second-infinite")), DEFAULT_TIMEOUT_SECS);
}

#[test]
fn pt4_parse_timeout_missing_or_malformed_falls_back() {
    assert_eq!(parse_timeout(None), DEFAULT_TIMEOUT_SECS);
    assert_eq!(parse_timeout(Some("garbage")), DEFAULT_TIMEOUT_SECS);
    assert_eq!(parse_timeout(Some("Second-abc")), DEFAULT_TIMEOUT_SECS);
}

fn request<'a>(method: &'a str, sid: Option<&'a str>, callback: Option<&'a str>) -> EventRequest<'a> {
    EventRequest { method, sid, callback, timeout: Some("Second-1800") }
}

#[test]
fn subscribe_without_sid_registers_the_callback() {
    match handle_event(&request("SUBSCRIBE", None, Some("<http://127.0.0.1:9/cb>"))) {
        EventAction::Register { callback, timeout } => {
            assert_eq!(callback, "http://127.0.0.1:9/cb");
            assert_eq!(timeout, 1800);
        }
        other => panic!("{:?}", other),
    }
    let reply = registered(Some("uuid:1"), 1800);
    assert_eq!(reply.status, 200);
    assert_eq!(reply.headers[0].name, "sid");
    assert_eq!(reply.headers[0].value, "uuid:1");
    assert_eq!(reply.headers[1].name, "timeout");
    assert_eq!(reply.headers[1].value, "Second-1800");
    assert_eq!(registered(None, 1800).status, 503);
}

#[test]
fn subscribe_with_sid_refreshes() {
    match handle_event(&request("SUBSCRIBE", Some("uuid:7"), None)) {
        EventAction::Refresh { sid, timeout } => {
            assert_eq!(sid, "uuid:7");
            assert_eq!(timeout, 1800);
        }
        other => panic!("{:?}", other),
    }
    assert_eq!(refreshed(true, "uuid:7", 1800).headers[0].value, "uuid:7");
    let unknown = refreshed(false, "uuid:7", 1800);
    assert_eq!(unknown.status, 412);
    assert_eq!(unknown.body, "unknown SID");
}

#[test]
fn faulty_event_requests_are_answered_at_once() {
    for (req, status, body) in [
        (request("SUBSCRIBE", None, None), 400, "invalid CALLBACK header"),
        (request("SUBSCRIBE", None, Some("<>")), 400, "invalid CALLBACK header"),
        (request("UNSUBSCRIBE", None, None), 400, "missing SID"),
        (request("GET", None, None), 405, "method not allowed"),
    ] {
        match handle_event(&req) {
            EventAction::Reply(r) => {
                assert_eq!(r.status, status);
                assert_eq!(r.body, body);
            }
            other => panic!("{:?}", other),
        }
    }
}

#[test]
fn unsubscribe_ends_a_known_subscription() {
    match handle_event(&request("UNSUBSCRIBE", Some("uuid:7"), None)) {
        EventAction::Unsubscribe { sid } => assert_eq!(sid, "uuid:7"),
        other => panic!("{:?}", other),
    }
    assert_eq!(unsubscribed(true).status, 200);
    assert_eq!(unsubscribed(false).status, 412);
}

#[test]
fn first_notification_tells_the_update_id() {
    let told = build_initial_propertyset(ServiceId::ContentDirectory, &Some("42".to_string()));
    assert_eq!(told.len(), 1);
    assert_eq!(told[0].name, "SystemUpdateID");
    assert_eq!(told[0].value, "42");
    let none = build_initial_propertyset(ServiceId::ContentDirectory, &Some("x".to_string()));
    assert_eq!(none[0].value, "1");
    assert!(build_initial_propertyset(ServiceId::ConnectionManager, &None).is_empty());
}

// ── Origins ──────────────────────────────────────────────────────────────

#[test]
fn eo1_extract_origin_host_basic() {
    assert_eq!(extract_origin_host("http://192.168.1.10:8200"), Some("192.168.1.10"));
    assert_eq!(extract_origin_host("https://example.com"), Some("example.com"));
    assert_eq!(extract_origin_host("http://localhost"), Some("localhost"));
    assert_eq!(extract_origin_host("http://[::1]:8200"), Some("["));
    assert_eq!(extract_origin_host("garbage"), None);
    assert_eq!(extract_origin_host("http://"), None);
}

#[test]
fn admin_guard_lets_local_origins_through() {
    let private = Some(Address::V4(192, 168, 1, 10));
    assert!(admin_csrf_guard(&Origin::Absent, &None).is_none());
    assert!(admin_csrf_guard(&Origin::Stated("http://192.168.1.10:8200"), &private).is_none());
    assert!(admin_csrf_guard(&Origin::Stated("http://LocalHost:8200"), &None).is_none());
}

#[test]
fn admin_guard_refuses_the_rest() {
    let public = Some(Address::V4(8, 8, 8, 8));
    for (origin, address, body) in [
        (Origin::Unreadable, None, "invalid origin header"),
        (Origin::Stated("garbage"), None, "unparseable origin"),
        (
            Origin::Stated("https://evil.example.com"),
            None,
            "admin endpoints restricted to LAN origins",
        ),
        (
            Origin::Stated("http://8.8.8.8"),
            public,
            "admin endpoints restricted to LAN origins",
        ),
    ] {
        let reply = admin_csrf_guard(&origin, &address).unwrap();
        assert_eq!(reply.status, 403);
        assert_eq!(reply.body, body);
    }
}

#[test]
fn local_addresses_are_told_by_their_ranges() {
    assert!(Address::V4(10, 1, 2, 3).local());
    assert!(Address::V4(172, 16, 0, 1).local());
    assert!(Address::V4(172, 31, 0, 1).local());
    assert!(!Address::V4(172, 32, 0, 1).local());
    assert!(Address::V4(127, 0, 0, 1).local());
    assert!(Address::V4(169, 254, 0, 1).local());
    assert!(!Address::V4(192, 167, 0, 1).local());
    assert!(Address::V6(0, 0, 0, 0, 0, 0, 0, 1).local());
    assert!(!Address::V6(0, 0, 0, 0, 0, 0, 0, 2).local());
    assert!(Address::V6(0xfd12, 0, 0, 0, 0, 0, 0, 2).local());
    assert!(Address::V6(0xfe80, 0, 0, 0, 0, 0, 0, 2).local());
    assert!(!Address::V6(0xfec0, 0, 0, 0, 0, 0, 0, 2).local());
}

#[test]
fn http_errors_have_their_status() {
    let internal = HttpError::Internal("disk on fire".to_string()).reply();
    assert_eq!((internal.status, internal.body), (500, "internal error"));
    let missing = HttpError::NotFound.reply();
    assert_eq!((missing.status, missing.body), (404, "not found"));
    let conflict = HttpError::Conflict("scan already running").reply();
    assert_eq!((conflict.status, conflict.body), (409, "scan already running"));
}

// ── Ranges ───────────────────────────────────────────────────────────────

#[test]
fn range_edge_total_zero_makes_any_range_unsatisfiable() {
    assert!(matches!(parse_range(Some("bytes=0-9"), 0), RangeParse::Unsatisfiable));
    assert!(matches!(parse_range(Some("bytes=0-"), 0), RangeParse::Unsatisfiable));
    assert!(matches!(parse_range(Some("bytes=-10"), 0), RangeParse::Unsatisfiable));
}

#[test]
fn range_edge_multi_range_is_rejected() {
    assert!(matches!(parse_range(Some("bytes=0-9,20-29"), 100), RangeParse::Malformed));
    assert!(matches!(parse_range(Some("bytes=0-9,20-29,50-59"), 100), RangeParse::Malformed));
    assert!(matches!(parse_range(Some("bytes=0-9, -10"), 100), RangeParse::Malformed));
}

#[test]
fn range_edge_missing_bytes_prefix_is_malformed() {
    assert!(matches!(parse_range(Some("items=0-9"), 100), RangeParse::Malformed));
    assert!(matches!(parse_range(Some("0-9"), 100), RangeParse::Malformed));
    assert!(matches!(parse_range(Some(""), 100), RangeParse::Malformed));
}

#[test]
fn range_edge_end_beyond_total_is_clamped() {
    if let RangeParse::Part(r) = parse_range(Some("bytes=0-999999"), 100) {
        assert_eq!(r.start, 0);
        assert_eq!(r.length, 100);
    } else {
        panic!("expected a part with its end clamped");
    }
}

#[test]
fn range_edge_suffix_larger_than_total_clamps_to_full_file() {
    if let RangeParse::Part(r) = parse_range(Some("bytes=-999"), 100) {
        assert_eq!(r.start, 0);
        assert_eq!(r.length, 100);
    } else {
        panic!("expected the whole file");
    }
}

#[test]
fn playback_begins_at_the_start_of_a_file() {
    assert!(is_play_start(&parse_range(None, 100)));
    assert!(is_play_start(&parse_range(Some("bytes=0-9"), 100)));
    assert!(!is_play_start(&parse_range(Some("bytes=10-"), 100)));
    assert!(!is_play_start(&parse_range(Some("bytes=-10"), 100)));
    assert!(!is_play_start(&parse_range(Some("nonsense"), 100)));
}

// ── Pictures ─────────────────────────────────────────────────────────────

#[test]
fn pictures_are_served_and_kept() {
    let mut cache = ArtCache::new();
    let found = art_outcome(true, None, Some((b"COVER".to_vec(), "image/jpeg")));
    let reply = serve(&mut cache, 7, found).unwrap();
    assert_eq!(reply.headers[0].value, "image/jpeg");
    assert_eq!(reply.headers[1].value, "public, max-age=86400");
    let again = cached_reply(&cache, 7).unwrap();
    match again.body {
        ArtBody::Picture(bytes) => assert_eq!(bytes, b"COVER"),
        ArtBody::Placeholder => panic!("expected the picture"),
    }
    assert!(cached_reply(&cache, 8).is_none());
}

#[test]
fn embedded_pictures_go_before_folder_images() {
    let both = art_outcome(
        true,
        Some((b"IN".to_vec(), "image/png")),
        Some((b"OUT".to_vec(), "image/jpeg")),
    );
    match both {
        ArtOutcome::Found(CachedArt { bytes, mime }) => {
            assert_eq!(bytes, b"IN");
            assert_eq!(mime, "image/png");
        }
        other => panic!("{:?}", other),
    }
}

#[test]
fn missing_pictures_get_a_placeholder_for_a_short_time() {
    let mut cache = ArtCache::new();
    let reply = serve(&mut cache, 7, art_outcome(true, None, None)).unwrap();
    assert!(matches!(reply.body, ArtBody::Placeholder));
    assert_eq!(reply.headers[0].value, "image/png");
    assert_eq!(reply.headers[1].value, "public, max-age=300");
    assert!(cache.is_empty());
    let unknown = serve(&mut cache, 9999, art_outcome(false, None, None));
    assert!(matches!(unknown, Err(HttpError::NotFound)));
}

// ── Discovery ────────────────────────────────────────────────────────────

#[test]
fn p1_parse_valid_msearch() {
    let data = b"M-SEARCH * HTTP/1.1\r\n\
                 HOST: 239.255.255.250:1900\r\n\
                 MAN: \"ssdp:discover\"\r\n\
                 MX: 3\r\n\
                 ST: urn:schemas-upnp-org:device:MediaServer:1\r\n\
                 \r\n";
    let m = parse_msearch(data).unwrap();
    assert_eq!(m.st, "urn:schemas-upnp-org:device:MediaServer:1");
    assert_eq!(m.mx, 3);
}

#[test]
fn p2_parse_msearch_without_mx_defaults_to_zero() {
    let data = b"M-SEARCH * HTTP/1.1\r\nST: ssdp:all\r\n\r\n";
    let m = parse_msearch(data).unwrap();
    assert_eq!(m.st, "ssdp:all");
    assert_eq!(m.mx, 0);
}

#[test]
fn p3_parse_msearch_clamps_mx_to_cap() {
    let data = b"M-SEARCH * HTTP/1.1\r\nMX: 60\r\nST: ssdp:all\r\n\r\n";
    let m = parse_msearch(data).unwrap();
    assert_eq!(m.mx, MX_CAP_SECS);
}

#[test]
fn other_packets_are_no_searches() {
    assert!(parse_msearch(b"NOTIFY * HTTP/1.1\r\nST: ssdp:all\r\n\r\n").is_none());
    assert!(parse_msearch(b"M-SEARCH * HTTP/1.1\r\nMX: 1\r\n\r\n").is_none());
    assert!(parse_msearch(b"M-SEARCH * HTTP/1.1\r\nST: \xff\r\n").is_none());
    assert!(parse_msearch(b"").is_none());
}

#[test]
fn header_names_have_no_case_and_the_last_one_counts() {
    let m = parse_msearch(b"M-SEARCH * HTTP/1.1\nst: first\n sT : second \nmx: none\n").unwrap();
    assert_eq!(m.st, "second");
    assert_eq!(m.mx, 0);
}

#[test]
fn answers_are_delayed_within_what_is_asked() {
    let asked = MSearch { st: "ssdp:all".to_string(), mx: 2 };
    let delays: Vec<u64> = (0..50).map(|_| response_delay_ms(&asked)).collect();
    assert!(delays.iter().all(|d| *d <= 2000));
    assert!(delays.iter().any(|d| *d != delays[0]));
    assert_eq!(response_delay_ms(&MSearch { st: "ssdp:all".to_string(), mx: 0 }), 0);
    assert_eq!(delay_limit_ms(&MSearch { st: "ssdp:all".to_string(), mx: 2 }), Some(2000));
    assert_eq!(delay_limit_ms(&MSearch { st: "ssdp:all".to_string(), mx: 0 }), None);
}

fn device() -> Device {
    Device { uuid: "TEST".to_string(), local_ip: "192.168.1.2".to_string(), http_port: 8200 }
}

#[test]
fn messages_have_their_exact_text() {
    assert_eq!(
        format_msearch_response(NtTarget::RootDevice, &device()),
        "HTTP/1.1 200 OK\r\nCACHE-CONTROL: max-age=1800\r\nEXT:\r\n\
         LOCATION: http://192.168.1.2:8200/description.xml\r\n\
         SERVER: revolver/0.1.0 UPnP/1.0\r\nST: upnp:rootdevice\r\n\
         USN: uuid:TEST::upnp:rootdevice\r\n\r\n"
    );
    assert_eq!(
        format_alive_notify(NtTarget::Uuid, &device()),
        "NOTIFY * HTTP/1.1\r\nHOST: 239.255.255.250:1900\r\nCACHE-CONTROL: max-age=1800\r\n\
         LOCATION: http://192.168.1.2:8200/description.xml\r\nNT: uuid:TEST\r\n\
         NTS: ssdp:alive\r\nSERVER: revolver/0.1.0 UPnP/1.0\r\nUSN: uuid:TEST\r\n\r\n"
    );
    assert_eq!(
        format_byebye_notify(NtTarget::MediaServer, &device()),
        "NOTIFY * HTTP/1.1\r\nHOST: 239.255.255.250:1900\r\n\
         NT: urn:schemas-upnp-org:device:MediaServer:1\r\nNTS: ssdp:byebye\r\n\
         USN: uuid:TEST::urn:schemas-upnp-org:device:MediaServer:1\r\n\r\n"
    );
}

#[test]
fn searches_are_answered_for_what_they_ask() {
    let all = MSearch { st: "ssdp:all".to_string(), mx: 0 };
    assert_eq!(respond_msearch(&all, &device()).len(), 5);
    let own = MSearch { st: "uuid:TEST".to_string(), mx: 0 };
    assert_eq!(respond_msearch(&own, &device()).len(), 1);
    let other = MSearch { st: "uuid:OTHER".to_string(), mx: 0 };
    assert!(respond_msearch(&other, &device()).is_empty());
}

// ── Control ──────────────────────────────────────────────────────────────

#[test]
fn faults_come_with_a_server_error() {
    let ok = control_reply(Ok("<ok/>".to_string()));
    assert_eq!((ok.status, ok.body.as_str()), (200, "<ok/>"));
    assert_eq!(ok.content_type, "text/xml; charset=\"utf-8\"");
    let fault = control_reply(Err("<fault/>".to_string()));
    assert_eq!((fault.status, fault.body.as_str()), (500, "<fault/>"));
}

#[test]
fn subscribers_are_local_and_limited_in_number() {
    let local = Some(Address::V4(192, 168, 1, 5));
    assert!(refuse("http://192.168.1.5:9000/cb", &local, 0).is_none());
    assert!(refuse("http://192.168.1.5:9000/cb", &local, MAX_SUBSCRIPTIONS - 1).is_none());
    let full = refuse("http://192.168.1.5:9000/cb", &local, MAX_SUBSCRIPTIONS).unwrap();
    assert_eq!((full.status, full.body), (503, "subscription limit reached"));
    let public = Some(Address::V4(8, 8, 8, 8));
    let far = refuse("http://8.8.8.8/cb", &public, 0).unwrap();
    assert_eq!((far.status, far.body), (400, "invalid CALLBACK header"));
    assert_eq!(refuse("http://example.org/cb", &None, 0).unwrap().status, 400);
    assert_eq!(refuse("no url", &local, 0).unwrap().status, 400);
}

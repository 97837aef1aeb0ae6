use chalkydri::api::{
    calibrate, configuration, configure, deliver_file, dist, handle_embedded_file, index, info,
    requested_file, run_api, Body, Endpoint, Method, Pattern, Response, Route,
};
use chalkydri::config::{CameraSettings, Config};

fn camera(id: &str) -> CameraSettings {
    CameraSettings { id: id.to_string() }
}

fn ids(config: &Config) -> Vec<&str> {
    config.cameras.iter().map(|c| c.id.as_str()).collect()
}

fn bytes(response: &Response) -> &[u8] {
    match &response.body {
        Body::Bytes(data) => data,
        other => panic!("no bytes: {:?}", other),
    }
}

/// The endpoint of the first route that is for the request.
fn serve(routes: &[Route], method: Method, path: &str) -> Option<Endpoint> {
    routes
        .iter()
        .find(|r| {
            r.method == method
                && match r.pattern {
                    Pattern::Path(own) => own == path,
                    Pattern::AnyPath => true,
                }
        })
        .map(|r| r.endpoint)
}

#[test]
fn info_reports_the_version() {
    assert_eq!(info("1.2.3").version, "1.2.3");
}

#[test]
fn server_listens_everywhere() {
    let server = run_api();
    assert_eq!(server.host, [0, 0, 0, 0]);
    assert_eq!(server.port, 6942);
    assert_eq!(server.routes.len(), 6);
}

#[test]
fn requests_reach_their_endpoints() {
    let routes = run_api().routes;
    assert_eq!(serve(&routes, Method::Get, "/"), Some(Endpoint::Index));
    assert_eq!(serve(&routes, Method::Get, "/api/info"), Some(Endpoint::Info));
    assert_eq!(serve(&routes, Method::Get, "/api/configuration"), Some(Endpoint::Configuration));
    assert_eq!(serve(&routes, Method::Post, "/api/configuration"), Some(Endpoint::Configure));
    assert_eq!(serve(&routes, Method::Get, "/api/calibrate"), Some(Endpoint::Calibrate));
    assert_eq!(serve(&routes, Method::Get, "/style.css"), Some(Endpoint::Dist));
    assert_eq!(serve(&routes, Method::Post, "/api/calibrate"), None);
    assert_eq!(serve(&routes, Method::Post, "/"), None);
}

#[test]
fn pages_are_files() {
    assert_eq!(requested_file(Endpoint::Index, "/"), Some("index.html"));
    assert_eq!(requested_file(Endpoint::Dist, "/style.css"), Some("style.css"));
    assert_eq!(requested_file(Endpoint::Dist, "/app/\u{e9}t\u{e9}.js"), Some("app/\u{e9}t\u{e9}.js"));
    assert_eq!(requested_file(Endpoint::Dist, "//"), Some("/"));
    assert_eq!(requested_file(Endpoint::Dist, "/"), Some(""));
    for endpoint in
        [Endpoint::Info, Endpoint::Configuration, Endpoint::Configure, Endpoint::Calibrate]
    {
        assert_eq!(requested_file(endpoint, "/api/info"), None);
    }
}

#[test]
fn embedded_file_is_delivered_with_its_type() {
    let response = handle_embedded_file("app/index.html", Some(vec![1, 2, 3]));
    assert_eq!(response.status, 200);
    assert_eq!(response.content_type.as_deref(), Some("text/html"));
    assert_eq!(response.location, None);
    assert_eq!(bytes(&response), &[1, 2, 3]);
}

#[test]
fn type_goes_by_the_extension() {
    let type_of = |path: &str| handle_embedded_file(path, Some(vec![])).content_type.unwrap();
    assert_eq!(type_of("logo.SVG"), "image/svg+xml");
    assert_eq!(type_of("a.html/logo.png"), "image/png");
    assert_eq!(type_of("data.unheard-of"), "application/octet-stream");
    assert_eq!(type_of("LICENSE"), "application/octet-stream");
    assert_eq!(type_of(""), "application/octet-stream");
}

#[test]
fn missing_embedded_file_is_not_found() {
    let response = handle_embedded_file("nothing.html", None);
    assert_eq!(response.status, 404);
    assert_eq!(response.content_type, None);
    assert_eq!(response.location, None);
    assert!(matches!(response.body, Body::Text(ref text) if text == "404 Not Found"));
}

#[test]
fn delivered_file_keeps_the_given_type() {
    let response = deliver_file("text/x-test".to_string(), vec![9]);
    assert_eq!(response.status, 200);
    assert_eq!(response.content_type.as_deref(), Some("text/x-test"));
    assert_eq!(bytes(&response), &[9]);
}

#[test]
fn start_page_is_html() {
    let response = index(Some(vec![60, 62]));
    assert_eq!(response.status, 200);
    assert_eq!(response.content_type.as_deref(), Some("text/html"));
    assert_eq!(bytes(&response), &[60, 62]);
    assert_eq!(index(None).status, 404);
}

#[test]
fn file_of_the_ui_is_delivered() {
    let response = dist("main.css", Some(vec![7]));
    assert_eq!(response.status, 200);
    assert_eq!(response.content_type.as_deref(), Some("text/css"));
    assert_eq!(bytes(&response), &[7]);
}

#[test]
fn missing_file_of_the_ui_leads_to_the_start_page() {
    let response = dist("settings", None);
    assert_eq!(response.status, 307);
    assert_eq!(response.location.as_deref(), Some("/"));
    assert_eq!(response.content_type, None);
    assert!(matches!(response.body, Body::Empty));
    let place = response.location.unwrap();
    assert_eq!(serve(&run_api().routes, Method::Get, &place), Some(Endpoint::Index));
    assert_eq!(index(None).location, None);
}

#[test]
fn attached_cameras_are_shown() {
    let current = Config {
        cameras: vec![camera("old")],
        ntables_ip: Some("10.0.0.2".to_string()),
        team_number: 4533,
    };
    let shown = configuration(&current, vec![camera("left"), camera("right")]);
    assert_eq!(ids(&shown), ["left", "right"]);
    assert_eq!(shown.ntables_ip.as_deref(), Some("10.0.0.2"));
    assert_eq!(shown.team_number, 4533);
    assert_eq!(ids(&current), ["old"]);
}

#[test]
fn what_is_configured_is_shown() {
    let mut current = Config { cameras: vec![], ntables_ip: None, team_number: 1 };
    let new = Config {
        cameras: vec![camera("a")],
        ntables_ip: Some("1.2.3.4".to_string()),
        team_number: 2,
    };
    let report = configure(&mut current, new);
    assert_eq!(ids(&report), ["a"]);
    assert_eq!(report.ntables_ip.as_deref(), Some("1.2.3.4"));
    assert_eq!(report.team_number, 2);
    let shown = configuration(&current, vec![]);
    assert!(shown.cameras.is_empty());
    assert_eq!(shown.ntables_ip.as_deref(), Some("1.2.3.4"));
    assert_eq!(shown.team_number, 2);
}

#[test]
fn calibration_is_acknowledged() {
    let response = calibrate();
    assert_eq!(response.status, 200);
    assert!(matches!(response.body, Body::Empty));
}

//! The HTTP interface used by the web UI and by other programs.

use vstd::prelude::*;

use crate::config::{CameraSettings, Config, ConfigView, camera_ids};

verus! {

/// The port that the server listens on.
pub const PORT: u16 = 6942;

/// The file that answers for the root of the site.
pub const INDEX_FILE: &'static str = "index.html";

/// The status of a request that was served.
pub const OK: u16 = 200;

/// The status of a request that is to be made elsewhere for now.
pub const TEMPORARY_REDIRECT: u16 = 307;

/// The status of a request for something that does not exist.
pub const NOT_FOUND: u16 = 404;

/// The methods of the requests that are served.
#[derive(Clone, Copy, Debug, PartialEq, Eq, Structural)]
pub enum Method {
    Get,
    Post,
}

/// What serves a request.
#[derive(Clone, Copy, Debug, PartialEq, Eq, Structural)]
pub enum Endpoint {
    /// The start page.
    Index,
    /// Version and info.
    Info,
    /// The current configuration.
    Configuration,
    /// A new configuration.
    Configure,
    /// A calibration of the camera.
    Calibrate,
    /// A file of the web UI.
    Dist,
}

/// The paths that a route is for.
#[derive(Clone, Copy, Debug)]
pub enum Pattern {
    /// This path only.
    Path(&'static str),
    /// Every path.
    AnyPath,
}

impl Pattern {
    /// Whether the route is for this path.
    pub open spec fn matches_path(self, path: Seq<char>) -> bool {
        match self {
            Pattern::Path(own) => path == own@,
            Pattern::AnyPath => true,
        }
    }
}

/// A rule that hands requests to an endpoint.
#[derive(Clone, Copy, Debug)]
pub struct Route {
    pub method: Method,
    pub pattern: Pattern,
    pub endpoint: Endpoint,
}

/// The endpoint that serves a request: that of the first route for its method and path.
pub open spec fn served_by(routes: Seq<Route>, method: Method, path: Seq<char>) -> Option<Endpoint>
    decreases routes.len(),
{
    if routes.len() == 0 {
        None
    } else if routes[0].method == method && routes[0].pattern.matches_path(path) {
        Some(routes[0].endpoint)
    } else {
        served_by(routes.drop_first(), method, path)
    }
}

/// What the server listens on and how it hands out requests.
#[derive(Debug)]
pub struct Server {
    pub host: [u8; 4],
    pub port: u16,
    /// The routes, in the order in which they are tried.
    pub routes: Vec<Route>,
}

/// The routes of the server.
pub open spec fn api_routes() -> Seq<Route> {
    seq![
        Route { method: Method::Get, pattern: Pattern::Path("/"), endpoint: Endpoint::Index },
        Route {
            method: Method::Get,
            pattern: Pattern::Path("/api/info"),
            endpoint: Endpoint::Info,
        },
        Route {
            method: Method::Get,
            pattern: Pattern::Path("/api/configuration"),
            endpoint: Endpoint::Configuration,
        },
        Route {
            method: Method::Post,
            pattern: Pattern::Path("/api/configuration"),
            endpoint: Endpoint::Configure,
        },
        Route {
            method: Method::Get,
            pattern: Pattern::Path("/api/calibrate"),
            endpoint: Endpoint::Calibrate,
        },
        Route { method: Method::Get, pattern: Pattern::AnyPath, endpoint: Endpoint::Dist },
    ]
}

/// The server to run.
pub fn run_api() -> (server: Server)
    ensures
        server.host@ == seq![0u8, 0, 0, 0],
        server.port == 6942,
        server.routes@ == api_routes(),
{
    let routes = vec![
        Route { method: Method::Get, pattern: Pattern::Path("/"), endpoint: Endpoint::Index },
        Route {
            method: Method::Get,
            pattern: Pattern::Path("/api/info"),
            endpoint: Endpoint::Info,
        },
        Route {
            method: Method::Get,
            pattern: Pattern::Path("/api/configuration"),
            endpoint: Endpoint::Configuration,
        },
        Route {
            method: Method::Post,
            pattern: Pattern::Path("/api/configuration"),
            endpoint: Endpoint::Configure,
        },
        Route {
            method: Method::Get,
            pattern: Pattern::Path("/api/calibrate"),
            endpoint: Endpoint::Calibrate,
        },
        Route { method: Method::Get, pattern: Pattern::AnyPath, endpoint: Endpoint::Dist },
    ];
    assert(routes@ =~= api_routes());
    let host: [u8; 4] = [0, 0, 0, 0];
    assert(host@ =~= seq![0u8, 0, 0, 0]);
    Server { host, port: PORT, routes }
}

/// What the info endpoint reports.
#[derive(Debug)]
pub struct Info {
    pub version: &'static str,
}

/// Chalkydri version and info.
pub fn info(version: &'static str) -> (info: Info)
    ensures
        info.version@ == version@,
{
    Info { version }
}

/// A request is served by the first route that is for its method and for its path or for every
/// path: `i` is the place of that route.
pub proof fn law_first_route_serves(routes: Seq<Route>, method: Method, path: Seq<char>, i: int)
    requires
        0 <= i < routes.len(),
        routes[i].method == method,
        match routes[i].pattern {
            Pattern::Path(own) => own@ == path,
            Pattern::AnyPath => true,
        },
        forall|j: int|
            0 <= j < i ==> (#[trigger] routes[j]).method != method || (
            routes[j].pattern matches Pattern::Path(own) && own@ != path),
    ensures
        served_by(routes, method, path) == Some(routes[i].endpoint),
    decreases i,
{
    if i > 0 {
        let rest = routes.drop_first();
        assert(routes[0].method != method || (routes[0].pattern matches Pattern::Path(own) && own@
            != path));
        assert forall|j: int| 0 <= j < i - 1 implies (#[trigger] rest[j]).method != method || (
        rest[j].pattern matches Pattern::Path(own) && own@ != path) by {
            assert(rest[j] == routes[j + 1]);
        }
        law_first_route_serves(rest, method, path, i - 1);
    }
}

/// A request that no route is for is not served.
pub proof fn law_unrouted_request_is_not_served(
    routes: Seq<Route>,
    method: Method,
    path: Seq<char>,
)
    requires
        forall|j: int|
            0 <= j < routes.len() ==> (#[trigger] routes[j]).method != method || (
            routes[j].pattern matches Pattern::Path(own) && own@ != path),
    ensures
        served_by(routes, method, path) is None,
    decreases routes.len(),
{
    if routes.len() > 0 {
        let rest = routes.drop_first();
        assert(routes[0].method != method || (routes[0].pattern matches Pattern::Path(own) && own@
            != path));
        assert forall|j: int| 0 <= j < rest.len() implies (#[trigger] rest[j]).method != method || (
        rest[j].pattern matches Pattern::Path(own) && own@ != path) by {
            assert(rest[j] == routes[j + 1]);
        }
        law_unrouted_request_is_not_served(rest, method, path);
    }
}

/// Every request for a path of the programming interface reaches the endpoint that is meant for
/// it, every other request for a page reaches the files of the web UI, and nothing but a new
/// configuration can be posted.
pub proof fn law_every_request_is_routed(path: Seq<char>)
    ensures
        served_by(api_routes(), Method::Get, path) == Some(
            if path == "/"@ {
                Endpoint::Index
            } else if path == "/api/info"@ {
                Endpoint::Info
            } else if path == "/api/configuration"@ {
                Endpoint::Configuration
            } else if path == "/api/calibrate"@ {
                Endpoint::Calibrate
            } else {
                Endpoint::Dist
            },
        ),
        served_by(api_routes(), Method::Post, path) == (if path == "/api/configuration"@ {
            Some(Endpoint::Configure)
        } else {
            None
        }),
{
    reveal_with_fuel(served_by, 7);
    let routes = api_routes();
    assert(routes.drop_first()[0] == routes[1]);
    assert(routes.drop_first().drop_first()[0] == routes[2]);
    assert(routes.drop_first().drop_first().drop_first()[0] == routes[3]);
    assert(routes.drop_first().drop_first().drop_first().drop_first()[0] == routes[4]);
    assert(routes.drop_first().drop_first().drop_first().drop_first().drop_first()[0]
        == routes[5]);
}

/// The file whose content an endpoint delivers for a path: the start page has its own, and a path
/// of the web UI names its file after its first character, the slash.
pub open spec fn file_of(endpoint: Endpoint, path: Seq<char>) -> Option<Seq<char>> {
    match endpoint {
        Endpoint::Index => Some("index.html"@),
        Endpoint::Dist => Some(path.skip(1)),
        _ => None,
    }
}

/// The file to look up for a request with the given path, percent-decoded, where its endpoint
/// delivers one.
pub fn requested_file<'a>(endpoint: Endpoint, path: &'a str) -> (file: Option<&'a str>)
    requires
        path@.len() > 0,
    ensures
        match file {
            Some(name) => file_of(endpoint, path@) == Some(name@),
            None => file_of(endpoint, path@) is None,
        },
        file is Some <==> endpoint == Endpoint::Index || endpoint == Endpoint::Dist,
        endpoint == Endpoint::Index ==> file->0@ == "index.html"@,
        endpoint == Endpoint::Dist ==> path@ == seq![path@[0]] + file->0@,
{
    match endpoint {
        Endpoint::Index => Some(INDEX_FILE),
        Endpoint::Dist => {
            let name = path.substring_char(1, path.unicode_len());
            assert(name@ =~= path@.skip(1));
            assert(path@ =~= seq![path@[0]] + name@);
            Some(name)
        },
        _ => None,
    }
}

/// The file of a path of the web UI is named like the path without its slash; the start page is
/// always the same file, and the other endpoints have none.
pub proof fn law_path_is_slash_and_file(name: Seq<char>, path: Seq<char>)
    ensures
        file_of(Endpoint::Dist, seq!['/'] + name) == Some(name),
        file_of(Endpoint::Index, path) == Some("index.html"@),
        file_of(Endpoint::Info, path) is None,
        file_of(Endpoint::Configuration, path) is None,
        file_of(Endpoint::Configure, path) is None,
        file_of(Endpoint::Calibrate, path) is None,
{
    assert((seq!['/'] + name).skip(1) =~= name);
}

/// Every page of the site is a file: the start page its own, and every other path that is not one
/// of the programming interface the file named by what follows its slash.
pub proof fn law_every_page_is_a_file(path: Seq<char>)
    requires
        path != "/api/info"@,
        path != "/api/configuration"@,
        path != "/api/calibrate"@,
    ensures
        served_by(api_routes(), Method::Get, path) matches Some(endpoint) && file_of(endpoint, path)
            == Some(
            if path == "/"@ {
                "index.html"@
            } else {
                path.skip(1)
            },
        ),
{
    law_every_request_is_routed(path);
}

/// The content of a response.
#[derive(Debug)]
pub enum Body {
    /// Nothing.
    Empty,
    /// A text.
    Text(String),
    /// The content of a file.
    Bytes(Vec<u8>),
}

/// The model of a [`Body`].
#[verifier::ext_equal]
pub enum BodyView {
    Empty,
    Text(Seq<char>),
    Bytes(Seq<u8>),
}

impl View for Body {
    type V = BodyView;

    open spec fn view(&self) -> BodyView {
        match self {
            Body::Empty => BodyView::Empty,
            Body::Text(text) => BodyView::Text(text@),
            Body::Bytes(bytes) => BodyView::Bytes(bytes@),
        }
    }
}

/// A response to a request.
#[derive(Debug)]
pub struct Response {
    pub status: u16,
    /// The content type, where one is named.
    pub content_type: Option<String>,
    /// Where to go instead.
    pub location: Option<String>,
    pub body: Body,
}

/// The model of a [`Response`].
#[verifier::ext_equal]
pub struct ResponseView {
    pub status: u16,
    pub content_type: Option<Seq<char>>,
    pub location: Option<Seq<char>>,
    pub body: BodyView,
}

/// The model of an optional text.
pub open spec fn text_view(text: Option<String>) -> Option<Seq<char>> {
    match text {
        Some(chars) => Some(chars@),
        None => None,
    }
}

impl View for Response {
    type V = ResponseView;

    open spec fn view(&self) -> ResponseView {
        ResponseView {
            status: self.status,
            content_type: text_view(self.content_type),
            location: text_view(self.location),
            body: self.body@,
        }
    }
}

/// The response that delivers a file of the given content type.
pub open spec fn file_found(content_type: Seq<char>, data: Seq<u8>) -> ResponseView {
    ResponseView {
        status: OK,
        content_type: Some(content_type),
        location: None,
        body: BodyView::Bytes(data),
    }
}

/// The response to a request for a file that does not exist.
pub open spec fn file_missing() -> ResponseView {
    ResponseView {
        status: NOT_FOUND,
        content_type: None,
        location: None,
        body: BodyView::Text("404 Not Found"@),
    }
}

/// The response that sends the user to the start page.
pub open spec fn go_to_start() -> ResponseView {
    ResponseView {
        status: TEMPORARY_REDIRECT,
        content_type: None,
        location: Some("/"@),
        body: BodyView::Empty,
    }
}

/// The content type that goes with a file's name: the one that is registered for its extension, or
/// that of arbitrary bytes.
pub uninterp spec fn content_type_of(path: Seq<char>) -> Seq<char>;

/// Calls `mime_guess::from_path` and `first_or_octet_stream` on its guess. The guess goes by the
/// extension of the path alone and does not touch the disk; a path without a dot has no
/// extension, and gets the type of arbitrary bytes.
#[verifier::external_body]
fn guess_content_type(path: &str) -> (content_type: String)
    ensures
        content_type@ == content_type_of(path@),
        !path@.contains('.') ==> content_type@ == "application/octet-stream"@,
{
    mime_guess::from_path(path).first_or_octet_stream().as_ref().to_owned()
}

/// A response that delivers a file is successful and has all bytes of the file as its body, however
/// many there are, and the given content type.
pub proof fn law_found_file_is_delivered_whole(
    response: Response,
    content_type: Seq<char>,
    data: Seq<u8>,
)
    requires
        response@ == file_found(content_type, data),
    ensures
        response.status == 200,
        response.content_type matches Some(text) && text@ == content_type,
        response.location is None,
        response.body matches Body::Bytes(sent) && sent@ == data,
{
}

/// A response for a file that does not exist says so, and has nothing of a file.
pub proof fn law_missing_file_is_reported(response: Response)
    requires
        response@ == file_missing(),
    ensures
        response.status == 404,
        response.content_type is None,
        response.location is None,
        response.body matches Body::Text(text) && text@ == "404 Not Found"@,
{
}

/// A response that sends the user to the start page names its place and has no body.
pub proof fn law_redirect_names_the_start_page(response: Response)
    requires
        response@ == go_to_start(),
    ensures
        response.status == 307,
        response.content_type is None,
        response.location matches Some(place) && place@ == "/"@,
        response.body is Empty,
{
}

/// A response to a request to calibrate is successful and has no body.
pub proof fn law_calibration_is_acknowledged(response: Response)
    requires
        response@ == calibrated(),
    ensures
        response.status == 200,
        response.content_type is None,
        response.location is None,
        response.body is Empty,
{
}

/// Deliver a file of the given content type.
pub fn deliver_file(content_type: String, data: Vec<u8>) -> (response: Response)
    ensures
        response@ == file_found(content_type@, data@),
        response.status == 200,
        response.content_type == Some(content_type),
        response.location is None,
        response.body == Body::Bytes(data),
{
    Response {
        status: OK,
        content_type: Some(content_type),
        location: None,
        body: Body::Bytes(data),
    }
}

/// Deliver an embedded file: the content that was found under the path, or the news that there is
/// none.
pub fn handle_embedded_file(path: &str, content: Option<Vec<u8>>) -> (response: Response)
    ensures
        response@ == match content {
            Some(data) => file_found(content_type_of(path@), data@),
            None => file_missing(),
        },
        content is Some && !path@.contains('.') ==> response@.content_type == Some(
            "application/octet-stream"@,
        ),
        content matches Some(data) ==> {
            &&& response.status == 200
            &&& response.content_type matches Some(text)
            &&& text@ == content_type_of(path@)
            &&& response.location is None
            &&& response.body == Body::Bytes(data)
        },
        content is None ==> {
            &&& response.status == 404
            &&& response.content_type is None
            &&& response.location is None
            &&& response.body matches Body::Text(text)
            &&& text@ == "404 Not Found"@
        },
{
    match content {
        Some(data) => deliver_file(guess_content_type(path), data),
        None => Response {
            status: NOT_FOUND,
            content_type: None,
            location: None,
            body: Body::Text("404 Not Found".to_owned()),
        },
    }
}

/// The start page, given the content that was found under [`INDEX_FILE`].
pub fn index(content: Option<Vec<u8>>) -> (response: Response)
    ensures
        response@ == match content {
            Some(data) => file_found(content_type_of("index.html"@), data@),
            None => file_missing(),
        },
        content matches Some(data) ==> {
            &&& response.status == 200
            &&& response.content_type matches Some(text)
            &&& text@ == content_type_of("index.html"@)
            &&& response.location is None
            &&& response.body == Body::Bytes(data)
        },
        content is None ==> {
            &&& response.status == 404
            &&& response.content_type is None
            &&& response.location is None
            &&& response.body matches Body::Text(text)
            &&& text@ == "404 Not Found"@
        },
{
    handle_embedded_file(INDEX_FILE, content)
}

/// A file of the web UI, given the content that was found under its path. Where there is none, the
/// user is sent to the start page.
pub fn dist(path: &str, content: Option<Vec<u8>>) -> (response: Response)
    ensures
        response@ == match content {
            Some(data) => file_found(content_type_of(path@), data@),
            None => go_to_start(),
        },
        content is Some && !path@.contains('.') ==> response@.content_type == Some(
            "application/octet-stream"@,
        ),
        content matches Some(data) ==> {
            &&& response.status == 200
            &&& response.content_type matches Some(text)
            &&& text@ == content_type_of(path@)
            &&& response.location is None
            &&& response.body == Body::Bytes(data)
        },
        content is None ==> {
            &&& response.status == 307
            &&& response.content_type is None
            &&& response.location matches Some(place)
            &&& place@ == "/"@
            &&& response.body is Empty
        },
{
    if content.is_some() {
        handle_embedded_file(path, content)
    } else {
        Response {
            status: TEMPORARY_REDIRECT,
            content_type: None,
            location: Some("/".to_owned()),
            body: Body::Empty,
        }
    }
}

/// The place that a missing file of the web UI sends the user to is the start page, which does not
/// send the user on.
pub proof fn law_redirect_ends_at_start_page(content: Option<Vec<u8>>, response: Response)
    requires
        response@ == match content {
            Some(data) => file_found(content_type_of("index.html"@), data@),
            None => file_missing(),
        },
    ensures
        go_to_start().location matches Some(place) && served_by(
            api_routes(),
            Method::Get,
            place,
        ) == Some(Endpoint::Index),
        response@.location is None,
        response@.status != TEMPORARY_REDIRECT,
{
    law_every_request_is_routed("/"@);
}

/// The configuration to show: the current one, with the cameras that are attached right now.
pub open spec fn shown_configuration(current: ConfigView, devices: Seq<Seq<char>>) -> ConfigView {
    ConfigView { cameras: devices, ..current }
}

/// List possible configurations: the current one, with the cameras that are attached right now.
pub fn configuration(current: &Config, devices: Vec<CameraSettings>) -> (shown: Config)
    ensures
        shown@ == shown_configuration(current@, camera_ids(devices@)),
        shown.cameras == devices,
        shown.ntables_ip == current.ntables_ip,
        shown.team_number == current.team_number,
{
    let mut shown = current.clone();
    shown.cameras = devices;
    shown
}

/// Set configuration, and report what is set from now on.
pub fn configure(current: &mut Config, new: Config) -> (report: Config)
    ensures
        final(current)@ == new@,
        report@ == new@,
        *final(current) == new,
        report.cameras@ == new.cameras@,
        report.ntables_ip == new.ntables_ip,
        report.team_number == new.team_number,
{
    *current = new;
    current.clone()
}

/// The configuration that is shown has the names of the attached cameras, each in its place, and
/// of the current configuration everything but the cameras.
pub proof fn law_attached_cameras_are_shown(
    current: Config,
    devices: Seq<CameraSettings>,
    shown: Config,
)
    requires
        shown@ == shown_configuration(current@, camera_ids(devices)),
    ensures
        shown.cameras@.len() == devices.len(),
        forall|i: int|
            0 <= i < devices.len() ==> (#[trigger] shown.cameras@[i]).id@ == devices[i].id@,
        shown.ntables_ip is Some <==> current.ntables_ip is Some,
        shown.ntables_ip matches Some(text) ==> text@ == current.ntables_ip->0@,
        shown.team_number == current.team_number,
{
    assert(shown@.cameras.len() == devices.len());
    assert forall|i: int| 0 <= i < devices.len() implies (#[trigger] shown.cameras@[i]).id@
        == devices[i].id@ by {
        assert(shown@.cameras[i] == camera_ids(devices)[i]);
    }
}

/// What was set is what is shown later, but for the cameras, which are those that are attached:
/// `stored` is what [`configure`] leaves, and `shown` what [`configuration`] makes of it.
pub proof fn law_configured_is_shown(
    new: Config,
    stored: Config,
    devices: Seq<CameraSettings>,
    shown: Config,
)
    requires
        stored@ == new@,
        shown@ == shown_configuration(stored@, camera_ids(devices)),
    ensures
        shown@.ntables_ip == new@.ntables_ip,
        shown@.team_number == new@.team_number,
        shown@.cameras == camera_ids(devices),
        camera_ids(devices) == new@.cameras ==> shown@ == new@,
{
}

/// The response that says no more than that a request was served.
pub open spec fn calibrated() -> ResponseView {
    ResponseView { status: OK, content_type: None, location: None, body: BodyView::Empty }
}

/// The response to a request to calibrate the camera, whatever came of it.
pub fn calibrate() -> (response: Response)
    ensures
        response@ == calibrated(),
        response.status == 200,
        response.content_type is None,
        response.location is None,
        response.body is Empty,
{
    Response { status: OK, content_type: None, location: None, body: Body::Empty }
}

} // verus!

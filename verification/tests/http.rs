use dictionary::frameworks_and_drivers::application_request::ApplicationRequest;
use dictionary::frameworks_and_drivers::environment::Environment;
use dictionary::frameworks_and_drivers::message::http_method::HttpMethod;
use dictionary::frameworks_and_drivers::message::http_request::HttpRequest;
use dictionary::frameworks_and_drivers::message::http_response::HttpResponse;
use dictionary::frameworks_and_drivers::message::http_status::HttpStatus;

fn word_data(request: &HttpRequest) -> Option<(String, u32, String)> {
    match request.get_data() {
        Some(ApplicationRequest::Word((w, f, t))) => Some((w.clone(), *f, t.clone())),
        None => None,
    }
}

#[test]
fn reading_a_get_request() {
    let text = "GET /words/testworda HTTP/1.1\r\nHost: localhost\r\nUser-Agent: curl/8.0\r\n\r\n";
    let request = HttpRequest::from_text(text).unwrap();
    assert_eq!(request.get_method(), HttpMethod::Get);
    assert_eq!(request.get_path(), "/words/testworda");
    assert!(request.get_data().is_none());
}

#[test]
fn reading_a_post_request_with_an_entry() {
    let text = "POST /words HTTP/1.1\r\nHost: localhost\r\nContent-Type: text/plain\r\n\r\nnewword\n            5000\n            новое слово";
    let request = HttpRequest::from_text(text).unwrap();
    assert_eq!(request.get_method(), HttpMethod::Post);
    assert_eq!(request.get_path(), "/words");
    assert_eq!(
        word_data(&request),
        Some(("newword".to_owned(), 5000, "новое слово".to_owned()))
    );
}

#[test]
fn reading_a_put_and_a_delete_request() {
    let text = "PUT /words HTTP/1.1\r\n\r\nnewword\n7000\nновоеслово\n";
    let request = HttpRequest::from_text(text).unwrap();
    assert_eq!(request.get_method(), HttpMethod::Put);
    assert_eq!(
        word_data(&request),
        Some(("newword".to_owned(), 7000, "новоеслово".to_owned()))
    );
    let request = HttpRequest::from_text("DELETE /words/newword HTTP/1.1\r\n\r\n").unwrap();
    assert_eq!(request.get_method(), HttpMethod::Delete);
    assert_eq!(request.get_path(), "/words/newword");
    assert!(request.get_data().is_none());
}

#[test]
fn reading_a_request_without_an_entry_of_the_right_shape() {
    for body in ["", "newword\n5000", "\n5000\nперевод", "newword\nmany\nперевод", "newword\n99999999999\nx", "new/word\n1\nx", "new\tword\n1\nx"] {
        let text = format!("POST /words HTTP/1.1\r\n\r\n{body}");
        let request = HttpRequest::from_text(&text).unwrap();
        assert!(request.get_data().is_none(), "body {body:?}");
    }
}

#[test]
fn refusing_what_is_no_request() {
    assert!(HttpRequest::from_text("HEAD /words/testworda HTTP/1.1\r\n\r\n").is_none());
    assert!(HttpRequest::from_text("").is_none());
    assert!(HttpRequest::from_text("GET").is_none());
    assert!(HttpRequest::from_text("get /words HTTP/1.1\r\n\r\n").is_none());
}

#[test]
fn statuses() {
    let all = [
        (HttpStatus::Success, 200, "OK"),
        (HttpStatus::Created, 201, "Created"),
        (HttpStatus::NoContent, 204, "No Content"),
        (HttpStatus::BadRequest, 400, "Bad Request"),
        (HttpStatus::NotFound, 404, "Not Found"),
        (HttpStatus::Conflict, 409, "Conflict"),
        (HttpStatus::InternalServerError, 500, "Internal Server Error"),
    ];
    for (status, code, text) in all {
        assert_eq!(status.get_code(), code);
        assert_eq!(status.get_description(), text);
    }
}

#[test]
fn building_a_response() {
    let response = HttpResponse::answer(HttpStatus::NotFound, "x");
    assert_eq!(
        response.view_response(),
        "HTTP/1.1 404 Not Found\r\nContent-Type: text/plain; charset=utf-8\r\nContent-Length: 1\r\n\r\nx"
    );
    let response = HttpResponse::answer(HttpStatus::Success, "способность");
    assert_eq!(
        response.view_response(),
        "HTTP/1.1 200 OK\r\nContent-Type: text/plain; charset=utf-8\r\nContent-Length: 22\r\n\r\nспособность"
    );
    assert_eq!(response.get_content(), "способность");
    assert_eq!(response.get_http_status(), HttpStatus::Success);
}

#[test]
fn response_is_built_on_request() {
    let mut response = HttpResponse::new();
    assert_eq!(response.view_response(), "");
    response.set_http_status(HttpStatus::BadRequest);
    response.set_content(HttpStatus::BadRequest.get_description());
    response.build();
    assert_eq!(
        response.view_response(),
        "HTTP/1.1 400 Bad Request\r\nContent-Type: text/plain; charset=utf-8\r\nContent-Length: 11\r\n\r\nBad Request"
    );
}

#[test]
fn health_page() {
    let response = HttpResponse::health("development");
    assert_eq!(response.get_content(), "200 OK\nRUST_ENV=development\n");
    assert!(response.view_response().starts_with("HTTP/1.1 200 OK"));
    let response = HttpResponse::health("production");
    assert_eq!(response.get_content(), "200 OK\nRUST_ENV=production\n");
}

#[test]
fn environment_from_env_file() {
    assert_eq!(
        Environment::rust_env_from("PORT=80\n  RUST_ENV= production \nRUST_ENV=test\n"),
        Some("production".to_owned())
    );
    assert_eq!(Environment::rust_env_from("RUST_ENV=test"), Some("test".to_owned()));
    assert_eq!(Environment::rust_env_from("PORT=80\n"), None);
    assert_eq!(Environment::rust_env_from(""), None);
}

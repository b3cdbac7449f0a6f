use dictionary::enterprise_business_rules::word::Word;
use dictionary::frameworks_and_drivers::application_request::ApplicationRequest;
use dictionary::frameworks_and_drivers::factory::Factory;
use dictionary::frameworks_and_drivers::front_controller::FrontController;
use dictionary::frameworks_and_drivers::message::dispatcher::Dispatcher;
use dictionary::frameworks_and_drivers::message::http_method::HttpMethod;
use dictionary::frameworks_and_drivers::message::http_request::HttpRequest;
use dictionary::frameworks_and_drivers::message::route::Route;
use dictionary::frameworks_and_drivers::message::router::Router;
use dictionary::interface_adapters::storage::word_unit::WordUnit;

/// The entries that the dictionary's storage starts with.
fn stored_dictionary() -> WordUnit {
    WordUnit::from_words(vec![
        Word::new("a", 25000, "неопределённый артикль"),
        Word::new("ability", 1000, "способность"),
        Word::new("able", 1200, "способный"),
    ])
}

#[test]
fn front_controller_find_word() {
    let request = Box::new(HttpRequest::new(
        HttpMethod::Get,
        "/words/ability".to_owned(),
        None,
    ));

    let route = Box::new(Route::new(HttpMethod::Get, "/words/ability", "find_word"));

    let mut router = Box::new(Router::new());
    router.add_route(route);

    let dispatcher = Box::new(Dispatcher::new(Box::new(Factory::new())));

    let controller = dictionary::front_controller::FrontController::new(dispatcher, router);

    let nothing = controller.delegate(request);

    assert_eq!((), nothing);
}

#[test]
fn find_word() {
    let route = Box::new(Route::new(HttpMethod::Get, "/words/*", "find_word"));

    let mut router = Box::new(Router::new());

    router.add_route(route);

    let word_unit = Box::new(stored_dictionary());

    let factory = Box::new(Factory::new());

    let dispatcher = Box::new(Dispatcher::new(factory));

    let mut front_controller = FrontController::new(dispatcher, router, word_unit);

    //find existing word
    let http_request = Box::new(HttpRequest::new(
        HttpMethod::Get,
        "/words/ability".to_owned(),
        None,
    ));

    let http_response = front_controller.delegate(http_request);

    assert!(http_response
        .view_response()
        .contains("ability\n1000\nспособность"));

    //find non-existing word
    let http_request = Box::new(HttpRequest::new(
        HttpMethod::Get,
        "/words/qazxsw".to_owned(),
        None,
    ));

    let http_response = front_controller.delegate(http_request);

    assert!(http_response
        .view_response()
        .contains("Word \"qazxsw\" is not found"));
}

#[test]
fn view_all() {
    let http_request = Box::new(HttpRequest::new(HttpMethod::Get, "/words".to_owned(), None));

    let route = Box::new(Route::new(HttpMethod::Get, "/words", "view_all"));

    let mut router = Box::new(Router::new());

    router.add_route(route);

    let word_unit = Box::new(stored_dictionary());

    let factory = Box::new(Factory::new());

    let dispatcher = Box::new(Dispatcher::new(factory));

    let mut front_controller = FrontController::new(dispatcher, router, word_unit);

    let http_response = front_controller.delegate(http_request);

    assert!(["a", "ability", "able"]
        .iter()
        .all(|&word| http_response.view_response().contains(word)));
}

#[test]
fn add_word_and_update() {
    let router = {
        let mut routes = vec![
            Route::new(HttpMethod::Get, "/words/*", "find_word"),
            Route::new(HttpMethod::Post, "/words", "add_word"),
            Route::new(HttpMethod::Put, "/words", "update_word"),
        ];

        let mut router = Box::new(Router::new());
        while let Some(route) = routes.pop() {
            router.add_route(Box::new(route));
        }
        router
    };

    let word_unit = Box::new(stored_dictionary());

    let factory = Box::new(Factory::new());

    let dispatcher = Box::new(Dispatcher::new(factory));

    let mut front_controller = FrontController::new(dispatcher, router, word_unit);

    //get non-existing word
    let http_request = Box::new(HttpRequest::new(
        HttpMethod::Get,
        "/words/newword".to_owned(),
        None,
    ));

    let http_response = front_controller.delegate(http_request);

    assert!(http_response
        .view_response()
        .starts_with("HTTP/1.1 404 Not Found"));

    //add non-existing word
    let http_request = Box::new(HttpRequest::new(
        HttpMethod::Post,
        "/words".to_owned(),
        Some(ApplicationRequest::Word((
            "newword".to_owned(),
            3000,
            "новое слово".to_owned(),
        ))),
    ));

    let http_response = front_controller.delegate(http_request);

    assert!(http_response
        .view_response()
        .starts_with("HTTP/1.1 201 Created"));

    //check new word
    let http_request = Box::new(HttpRequest::new(
        HttpMethod::Get,
        "/words/newword".to_owned(),
        None,
    ));

    let http_response = front_controller.delegate(http_request);

    assert!(http_response.view_response().starts_with("HTTP/1.1 200 OK"));

    front_controller.commit_changes();
}

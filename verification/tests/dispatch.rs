use dictionary::enterprise_business_rules::word::Word;
use dictionary::frameworks_and_drivers::application_request::ApplicationRequest;
use dictionary::frameworks_and_drivers::factory::Factory;
use dictionary::frameworks_and_drivers::front_controller::FrontController;
use dictionary::frameworks_and_drivers::message::dispatcher::Dispatcher;
use dictionary::frameworks_and_drivers::message::http_method::HttpMethod;
use dictionary::frameworks_and_drivers::message::http_request::HttpRequest;
use dictionary::frameworks_and_drivers::message::http_status::HttpStatus;
use dictionary::frameworks_and_drivers::message::route::Route;
use dictionary::frameworks_and_drivers::message::router::{path_matches_pattern, Router};
use dictionary::interface_adapters::controllers::Controller;
use dictionary::interface_adapters::storage::word_unit::WordUnit;

fn dictionary_controller(words: Vec<Word>) -> FrontController {
    FrontController::new(
        Box::new(Dispatcher::new(Box::new(Factory::new()))),
        Box::new(Router::dictionary()),
        Box::new(WordUnit::from_words(words)),
    )
}

fn request(method: HttpMethod, path: &str, data: Option<(&str, u32, &str)>) -> Box<HttpRequest> {
    Box::new(HttpRequest::new(
        method,
        path.to_owned(),
        data.map(|(w, f, t)| ApplicationRequest::Word((w.to_owned(), f, t.to_owned()))),
    ))
}

fn stored_names(fc: &FrontController) -> Vec<String> {
    fc.stored_words().iter().map(|w| w.word.clone()).collect()
}

#[test]
fn patterns_and_paths() {
    assert!(path_matches_pattern("/words/*", "/words/ability"));
    assert!(!path_matches_pattern("/words/*", "/words/"));
    assert!(!path_matches_pattern("/words/*", "/words"));
    assert!(!path_matches_pattern("/words/*", "/words/a/b"));
    assert!(!path_matches_pattern("/words/*", "/wordz/a"));
    assert!(path_matches_pattern("/words", "/words"));
    assert!(!path_matches_pattern("/words", "/words/a"));
}

#[test]
fn router_takes_the_first_fitting_route() {
    let mut router = Router::new();
    router.add_route(Box::new(Route::new(HttpMethod::Get, "/words/*", "find_word")));
    router.add_route(Box::new(Route::new(HttpMethod::Get, "/words/*", "view_all")));
    router.add_route(Box::new(Route::new(HttpMethod::Post, "/words", "add_word")));
    let route = router.find_route(HttpMethod::Get, "/words/a").unwrap();
    assert_eq!(route.get_action(), "find_word");
    let route = router.find_route(HttpMethod::Post, "/words").unwrap();
    assert_eq!(route.get_action(), "add_word");
    assert_eq!(route.get_method(), HttpMethod::Post);
    assert_eq!(route.get_path(), "/words");
    assert!(router.find_route(HttpMethod::Delete, "/words/a").is_none());
}

#[test]
fn factory_names_controllers() {
    let factory = Factory::new();
    assert_eq!(factory.create_controller("find_word"), Some(Controller::FindWord));
    assert_eq!(factory.create_controller("view_all"), Some(Controller::ViewAll));
    assert_eq!(factory.create_controller("add_word"), Some(Controller::AddWord));
    assert_eq!(factory.create_controller("update_word"), Some(Controller::UpdateWord));
    assert_eq!(factory.create_controller("delete_word"), Some(Controller::DeleteWord));
    assert_eq!(factory.create_controller("find"), None);
}

#[test]
fn add_update_delete_through_the_dictionary_routes() {
    let mut fc = dictionary_controller(vec![Word::new("testworda", 1000, "лебедь")]);

    let found = fc.delegate(request(HttpMethod::Get, "/words/testworda", None));
    assert_eq!(found.get_http_status(), HttpStatus::Success);
    assert_eq!(found.get_content(), "testworda\n1000\nлебедь");

    let not_exist = fc.delegate(request(HttpMethod::Get, "/words/newword", None));
    assert_eq!(not_exist.get_http_status(), HttpStatus::NotFound);
    assert_eq!(not_exist.get_content(), "Word \"newword\" is not found \u{1F622}");

    let added = fc.delegate(request(HttpMethod::Post, "/words", Some(("newword", 5000, "новое слово"))));
    assert_eq!(added.get_http_status(), HttpStatus::Created);
    assert_eq!(added.get_content(), "Word \"newword\" is added \u{1F60E}");

    let again = fc.delegate(request(HttpMethod::Post, "/words", Some(("newword", 5000, "новое слово"))));
    assert_eq!(again.get_http_status(), HttpStatus::Conflict);
    assert_eq!(again.get_content(), "Word \"newword\" is already exist \u{1F60E}");

    let updated = fc.delegate(request(HttpMethod::Put, "/words", Some(("newword", 7000, "новоеслово"))));
    assert!(updated.view_response().starts_with("HTTP/1.1 204 No Content"));
    assert_eq!(updated.get_content(), "");

    let checked = fc.delegate(request(HttpMethod::Get, "/words/newword", None));
    assert_eq!(checked.get_content(), "newword\n7000\nновоеслово");

    let deleted = fc.delegate(request(HttpMethod::Delete, "/words/newword", None));
    assert!(deleted.view_response().starts_with("HTTP/1.1 204 No Content"));

    let gone = fc.delegate(request(HttpMethod::Get, "/words/newword", None));
    assert_eq!(gone.get_content(), "Word \"newword\" is not found \u{1F622}");
}

#[test]
fn view_all_lists_each_word_on_a_line() {
    let mut fc = dictionary_controller(vec![
        Word::new("a", 25000, "неопределённый артикль"),
        Word::new("ability", 1000, "способность"),
        Word::new("able", 1200, "способный"),
    ]);
    let all = fc.delegate(request(HttpMethod::Get, "/words", None));
    assert_eq!(all.get_http_status(), HttpStatus::Success);
    assert_eq!(all.get_content(), "a\nability\nable\n");
}

#[test]
fn answers_to_requests_that_cannot_be_served() {
    let mut fc = dictionary_controller(vec![]);

    let no_route = fc.delegate(request(HttpMethod::Get, "/nothing", None));
    assert_eq!(no_route.get_http_status(), HttpStatus::NotFound);
    assert_eq!(no_route.get_content(), "Not Found");

    let no_data = fc.delegate(request(HttpMethod::Post, "/words", None));
    assert_eq!(no_data.get_http_status(), HttpStatus::BadRequest);
    assert_eq!(no_data.get_content(), "Bad Request");

    let no_data = fc.delegate(request(HttpMethod::Put, "/words", None));
    assert_eq!(no_data.get_http_status(), HttpStatus::BadRequest);

    let missing = fc.delegate(request(HttpMethod::Put, "/words", Some(("ghost", 1, "призрак"))));
    assert_eq!(missing.get_http_status(), HttpStatus::NotFound);
    assert_eq!(missing.get_content(), "Word \"ghost\" is not found \u{1F622}");

    let missing = fc.delegate(request(HttpMethod::Delete, "/words/ghost", None));
    assert_eq!(missing.get_http_status(), HttpStatus::NotFound);
    assert_eq!(missing.get_content(), "Word \"ghost\" is not found \u{1F622}");

    let mut router = Router::new();
    router.add_route(Box::new(Route::new(HttpMethod::Get, "/words", "list_everything")));
    let mut fc = FrontController::new(
        Box::new(Dispatcher::new(Box::new(Factory::new()))),
        Box::new(router),
        Box::new(WordUnit::new()),
    );
    let unknown = fc.delegate(request(HttpMethod::Get, "/words", None));
    assert_eq!(unknown.get_http_status(), HttpStatus::InternalServerError);
    assert_eq!(unknown.get_content(), "Internal Server Error");
}

#[test]
fn reads_change_nothing() {
    let mut fc = dictionary_controller(vec![Word::new("a", 1, "первое")]);
    fc.delegate(request(HttpMethod::Get, "/words/a", Some(("a", 9, "другое"))));
    fc.delegate(request(HttpMethod::Get, "/words", None));
    let found = fc.delegate(request(HttpMethod::Get, "/words/a", None));
    assert_eq!(found.get_content(), "a\n1\nпервое");
}

#[test]
fn add_then_delete_restores_the_dictionary() {
    let mut fc = dictionary_controller(vec![Word::new("a", 1, "первое"), Word::new("b", 2, "второе")]);
    let before = fc.delegate(request(HttpMethod::Get, "/words", None));
    fc.delegate(request(HttpMethod::Post, "/words", Some(("c", 3, "третье"))));
    fc.delegate(request(HttpMethod::Delete, "/words/c", None));
    let after = fc.delegate(request(HttpMethod::Get, "/words", None));
    assert_eq!(before.get_content(), after.get_content());
}

#[test]
fn changes_are_stored_on_commit() {
    let mut fc = dictionary_controller(vec![Word::new("a", 1, "первое")]);
    fc.delegate(request(HttpMethod::Post, "/words", Some(("b", 2, "второе"))));
    assert_eq!(stored_names(&fc), vec!["a".to_owned()]);
    fc.commit_changes();
    assert_eq!(stored_names(&fc), vec!["a".to_owned(), "b".to_owned()]);
    let found = fc.delegate(request(HttpMethod::Get, "/words/b", None));
    assert_eq!(found.get_content(), "b\n2\nвторое");
}

#[test]
fn serving_the_health_page_and_other_requests() {
    let mut fc = dictionary_controller(vec![Word::new("a", 1, "первое")]);
    let health = fc.serve(request(HttpMethod::Get, "/health", None), "production");
    assert_eq!(health.get_http_status(), HttpStatus::Success);
    assert_eq!(health.get_content(), "200 OK\nRUST_ENV=production\n");
    let found = fc.serve(request(HttpMethod::Get, "/words/a", None), "production");
    assert_eq!(found.get_content(), "a\n1\nпервое");
    let not_health = fc.serve(request(HttpMethod::Post, "/health", None), "production");
    assert_eq!(not_health.get_http_status(), HttpStatus::NotFound);
}

#[test]
fn words_a_path_cannot_name_are_refused() {
    let mut fc = dictionary_controller(vec![]);
    let text = "POST /words HTTP/1.1\r\n\r\na/b\n1\nx";
    let req = HttpRequest::from_text(text).unwrap();
    let refused = fc.delegate(Box::new(req));
    assert_eq!(refused.get_http_status(), HttpStatus::BadRequest);
    let all = fc.delegate(request(HttpMethod::Get, "/words", None));
    assert_eq!(all.get_content(), "");
}

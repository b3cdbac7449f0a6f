# dictionary

An English-Russian dictionary served over HTTP, written in Verus.

- `src/` is the verified library, laid out in the rings of a clean
  architecture:
  - `enterprise_business_rules::word` — the entry and the rules of a
    collection in which each word has at most one entry, with the laws of
    adding, updating and deleting;
  - `application_business_rules::word_interactor` — the use cases;
  - `interface_adapters` — the controllers, the presenter that turns outcomes
    into answers, the unit of work (`storage::word_unit`) and the text the
    dictionary is stored as (`storage::word_mapper`);
  - `frameworks_and_drivers` — requests and how they are read, responses and
    how they are written, routes, the router, the dispatcher, the factory of
    controllers, the `.env` reader and the front controller; `request_laws`
    states what the dictionary's routes promise across requests;
  - `text` — decimal numbers, trimming and searching in characters;
  - `front_controller` — the front controller without a dictionary of its own.
- `tests/` runs the library on concrete values.
- `app/main.rs` is the server: sockets, files and the process environment.

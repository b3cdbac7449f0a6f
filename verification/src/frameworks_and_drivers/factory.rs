//! Makes the controller that a route's action names.
use vstd::prelude::*;

use crate::interface_adapters::controllers::Controller;
use crate::text::str_eq;

verus! {

/// The controller that an action names, if any.
pub open spec fn controller_named(action: Seq<char>) -> Option<Controller> {
    if action == "find_word"@ {
        Some(Controller::FindWord)
    } else if action == "view_all"@ {
        Some(Controller::ViewAll)
    } else if action == "add_word"@ {
        Some(Controller::AddWord)
    } else if action == "update_word"@ {
        Some(Controller::UpdateWord)
    } else if action == "delete_word"@ {
        Some(Controller::DeleteWord)
    } else {
        None
    }
}

pub struct Factory {}

impl Factory {
    pub fn new() -> (r: Factory) {
        Factory {  }
    }

    pub fn create_controller(&self, action: &str) -> (r: Option<Controller>)
        ensures
            r == controller_named(action@),
    {
        if str_eq(action, "find_word") {
            Some(Controller::FindWord)
        } else if str_eq(action, "view_all") {
            Some(Controller::ViewAll)
        } else if str_eq(action, "add_word") {
            Some(Controller::AddWord)
        } else if str_eq(action, "update_word") {
            Some(Controller::UpdateWord)
        } else if str_eq(action, "delete_word") {
            Some(Controller::DeleteWord)
        } else {
            None
        }
    }
}

} // verus!

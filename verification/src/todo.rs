use vstd::prelude::*;

verus! {

/// The mathematical value of a [`Todo`]: identifier, text and completion
/// flag, with the text abstracted to a sequence of characters.
#[verifier::ext_equal]
pub ghost struct TodoView {
    pub id: int,
    pub text: Seq<char>,
    pub completed: bool,
}

/// One task record. The identifier is assigned by the store at creation
/// time and never changes; the text is fixed at creation; the completion
/// flag is mutable, through the store's update operation only.
#[derive(Debug, PartialEq, Eq)]
pub struct Todo {
    pub id: u64,
    pub text: String,
    pub completed: bool,
}

impl View for Todo {
    type V = TodoView;

    open spec fn view(&self) -> TodoView {
        TodoView { id: self.id as int, text: self.text@, completed: self.completed }
    }
}

impl Clone for Todo {
    fn clone(&self) -> (res: Todo)
        ensures
            res@ == self@,
    {
        Todo { id: self.id, text: self.text.clone(), completed: self.completed }
    }
}

} // verus!

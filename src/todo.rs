use vstd::prelude::*;

verus! {

/// A todo as the store keeps it. Timestamps count seconds since the Unix
/// epoch.
#[derive(Debug)]
pub struct Todo {
    pub id: i64,
    pub body: String,
    pub completed: bool,
    pub created_at: i64,
    pub updated_at: i64,
}

/// The mathematical value of a [`Todo`].
pub struct TodoView {
    pub id: i64,
    pub body: Seq<char>,
    pub completed: bool,
    pub created_at: i64,
    pub updated_at: i64,
}

impl View for Todo {
    type V = TodoView;

    open spec fn view(&self) -> TodoView {
        TodoView {
            id: self.id,
            body: self.body@,
            completed: self.completed,
            created_at: self.created_at,
            updated_at: self.updated_at,
        }
    }
}

impl Todo {
    /// A copy of this todo, field for field.
    pub fn duplicate(&self) -> (r: Todo)
        ensures
            r@ == self@,
    {
        Todo {
            id: self.id,
            body: self.body.clone(),
            completed: self.completed,
            created_at: self.created_at,
            updated_at: self.updated_at,
        }
    }

    pub fn id(&self) -> (r: i64)
        ensures
            r == self.id,
    {
        self.id
    }

    pub fn body(&self) -> (r: &str)
        ensures
            r@ == self.body@,
    {
        self.body.as_str()
    }

    pub fn completed(&self) -> (r: bool)
        ensures
            r == self.completed,
    {
        self.completed
    }

    pub fn created_at(&self) -> (r: i64)
        ensures
            r == self.created_at,
    {
        self.created_at
    }

    pub fn updated_at(&self) -> (r: i64)
        ensures
            r == self.updated_at,
    {
        self.updated_at
    }
}

/// What a client sends to create a todo: its body.
#[derive(Debug)]
pub struct CreateTodo {
    body: String,
}

impl CreateTodo {
    pub fn new(body: String) -> (r: CreateTodo)
        ensures
            r.spec_body() == body@,
    {
        CreateTodo { body }
    }

    pub closed spec fn spec_body(&self) -> Seq<char> {
        self.body@
    }

    pub fn body(&self) -> (r: &str)
        ensures
            r@ == self.spec_body(),
    {
        self.body.as_str()
    }
}

/// What a client sends to update a todo: both its body and its state.
#[derive(Debug)]
pub struct UpdateTodo {
    body: String,
    completed: bool,
}

impl UpdateTodo {
    pub fn new(body: String, completed: bool) -> (r: UpdateTodo)
        ensures
            r.spec_body() == body@,
            r.spec_completed() == completed,
    {
        UpdateTodo { body, completed }
    }

    pub closed spec fn spec_body(&self) -> Seq<char> {
        self.body@
    }

    pub closed spec fn spec_completed(&self) -> bool {
        self.completed
    }

    pub fn body(&self) -> (r: &str)
        ensures
            r@ == self.spec_body(),
    {
        self.body.as_str()
    }

    pub fn completed(&self) -> (r: bool)
        ensures
            r == self.spec_completed(),
    {
        self.completed
    }
}

} // verus!

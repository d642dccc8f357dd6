use vstd::prelude::*;

verus! {

/// An ordered list of to-do entries, each a line of text.
pub struct TodoList {
    items: Vec<String>,
}

impl View for TodoList {
    type V = Seq<String>;

    closed spec fn view(&self) -> Seq<String> {
        self.items@
    }
}

impl TodoList {
    /// An empty list.
    pub fn new() -> (r: Self)
        ensures
            r@ == Seq::<String>::empty(),
    {
        TodoList { items: Vec::new() }
    }

    /// Appends `item` at the end of the list.
    pub fn add_item(&mut self, item: String)
        ensures
            final(self)@ == old(self)@.push(item),
    {
        self.items.push(item);
    }

    /// Removes the entry at `index`, shifting the later ones down; an index
    /// past the end leaves the list as it is.
    pub fn remove_item(&mut self, index: usize)
        ensures
            index < old(self)@.len() ==> final(self)@ == old(self)@.remove(index as int),
            index >= old(self)@.len() ==> final(self)@ == old(self)@,
    {
        if index < self.items.len() {
            self.items.remove(index);
        }
    }

    /// The entries, in order.
    pub fn get_items(&self) -> (r: &Vec<String>)
        ensures
            r@ == self@,
    {
        &self.items
    }
}

/// Removing the entry that was just added gives back the list as it was.
pub proof fn lemma_remove_undoes_add(items: Seq<String>, item: String)
    ensures
        items.push(item).remove(items.len() as int) == items,
{
    assert(items.push(item).remove(items.len() as int) =~= items);
}

/// One to-do entry: a number that names it, what is to be done, and
/// whether it is done.
#[derive(PartialEq, Clone, Debug)]
pub struct TodoItem {
    id: usize,
    pub description: String,
    pub completed: bool,
}

/// What a `TodoItem` holds, as plain values.
pub struct TodoItemView {
    pub id: usize,
    pub description: Seq<char>,
    pub completed: bool,
}

impl TodoItemView {
    /// The same entry with its completion set to `done`.
    pub open spec fn marked(self, done: bool) -> TodoItemView {
        TodoItemView { id: self.id, description: self.description, completed: done }
    }
}

impl View for TodoItem {
    type V = TodoItemView;

    closed spec fn view(&self) -> TodoItemView {
        TodoItemView { id: self.id, description: self.description@, completed: self.completed }
    }
}

impl TodoItem {
    /// A new entry, not yet done.
    pub fn new(id: usize, description: String) -> (r: Self)
        ensures
            r@ == (TodoItemView { id: id, description: description@, completed: false }),
    {
        TodoItem { id, description, completed: false }
    }

    /// Marks the entry as done.
    pub fn mark_completed(&mut self)
        ensures
            final(self)@ == old(self)@.marked(true),
            final(self)@.completed,
            final(self)@.description == old(self)@.description,
            final(self)@.id == old(self)@.id,
    {
        self.completed = true;
    }

    /// Marks the entry as not done.
    pub fn mark_incomplete(&mut self)
        ensures
            final(self)@ == old(self)@.marked(false),
            !final(self)@.completed,
            final(self)@.description == old(self)@.description,
            final(self)@.id == old(self)@.id,
    {
        self.completed = false;
    }
}

/// Marking changes the completion alone: the description and the number of
/// the entry stay as they were.
pub proof fn lemma_marked_keeps_entry(item: TodoItemView, done: bool)
    ensures
        item.marked(done).description == item.description,
        item.marked(done).id == item.id,
        item.marked(done).completed == done,
{
}

/// Marking an entry that is not done as done and then as not done gives
/// back the entry as it was.
pub proof fn lemma_mark_round_trip(item: TodoItemView)
    requires
        !item.completed,
    ensures
        item.marked(true).marked(false) == item,
{
}

/// Marking twice the same way is marking once.
pub proof fn lemma_mark_idempotent(item: TodoItemView, done: bool)
    ensures
        item.marked(done).marked(done) == item.marked(done),
{
}

} // verus!

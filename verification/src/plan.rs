use vstd::prelude::*;

verus! {

/// One achievable step of a to-do that has been broken up.
#[derive(Debug)]
pub struct Task {
    pub content: String,
}

impl Clone for Task {
    fn clone(&self) -> (r: Self)
        ensures
            r.content@ == self.content@,
    {
        Task { content: self.content.clone() }
    }
}

/// A to-do broken up into steps, in the order they are to be done.
#[derive(Debug)]
pub struct Todo {
    pub steps: Vec<Task>,
}

impl Todo {
    /// The text of each step, in order.
    pub open spec fn contents(&self) -> Seq<Seq<char>> {
        self.steps@.map_values(|t: Task| t.content@)
    }

    /// A to-do with no steps.
    pub fn new() -> (r: Self)
        ensures
            r.steps@.len() == 0,
    {
        Todo { steps: Vec::new() }
    }

    /// Appends `task` as the last step.
    pub fn add_task(&mut self, task: Task)
        ensures
            final(self).steps@ == old(self).steps@.push(task),
    {
        self.steps.push(task);
    }

    /// The to-do that a parsed model reply stands for: the parsed steps when
    /// the reply could be read, and no steps when it could not.
    pub fn from_parsed(parsed: Option<Todo>) -> (r: Self)
        ensures
            match parsed {
                Some(t) => r == t,
                None => r.steps@.len() == 0,
            },
    {
        match parsed {
            Some(t) => t,
            None => Todo::new(),
        }
    }
}

impl Clone for Todo {
    fn clone(&self) -> (r: Self)
        ensures
            r.contents() == self.contents(),
    {
        let mut steps: Vec<Task> = Vec::new();
        let n = self.steps.len();
        let mut i: usize = 0;
        while i < n
            invariant
                n == self.steps@.len(),
                i <= n,
                steps@.len() == i,
                forall|k: int| 0 <= k < i ==> #[trigger] steps@[k].content@ == self.steps@[k].content@,
            decreases n - i,
        {
            steps.push(self.steps[i].clone());
            i = i + 1;
        }
        let r = Todo { steps };
        assert(r.contents() =~= self.contents());
        r
    }
}

} // verus!
